use crate::colour::{blue, in_blue, in_red, in_yellow, red, yellow};
use crate::context::{context_text, Context, ContextView};
use crate::text::{opt_text, path_segments, split_path, texts};
use vstd::prelude::*;

verus! {

/// How serious a diagnostic, or one of its highlights, is.
#[derive(Debug, PartialEq, Eq, Structural, Clone, Copy, Hash)]
pub enum ErrorLevel {
    Error,
    Warning,
    Info,
}

impl ErrorLevel {
    /// `text` in the colour of this level: red for errors, yellow for warnings,
    /// blue for informational messages.
    pub open spec fn paint(self, text: Seq<char>) -> Seq<char> {
        match self {
            ErrorLevel::Error => in_red(text),
            ErrorLevel::Warning => in_yellow(text),
            ErrorLevel::Info => in_blue(text),
        }
    }

    /// The word that names this level.
    pub open spec fn word(self) -> Seq<char> {
        match self {
            ErrorLevel::Error => "error"@,
            ErrorLevel::Warning => "warning"@,
            ErrorLevel::Info => "info"@,
        }
    }

    /// Colours `text` as this level asks.
    pub fn in_colour(self, text: &str) -> (r: String)
        ensures
            r@ == self.paint(text@),
    {
        match self {
            ErrorLevel::Error => red(text),
            ErrorLevel::Warning => yellow(text),
            ErrorLevel::Info => blue(text),
        }
    }

    /// The word that names this level, uncoloured.
    pub fn label(self) -> (r: &'static str)
        ensures
            r@ == self.word(),
    {
        match self {
            ErrorLevel::Error => "error",
            ErrorLevel::Warning => "warning",
            ErrorLevel::Info => "info",
        }
    }

    /// The word that names this level, in the level's colour.
    pub fn render(self) -> (r: String)
        ensures
            r@ == self.paint(self.word()),
    {
        self.in_colour(self.label())
    }
}

/// What a diagnostic is, as plain values.
pub struct ErrorView<T> {
    pub kind: T,
    pub level: ErrorLevel,
    pub title: Option<Seq<char>>,
    pub message: Option<Seq<char>>,
    pub help: Option<Seq<char>>,
    pub url: Option<Seq<char>>,
    pub contexts: Seq<ContextView>,
    pub location: Option<Seq<char>>,
}

/// One diagnostic: a kind chosen by the caller, a level, and optional title, message,
/// help hint, documentation link, source contexts and place of creation.
#[derive(Debug, PartialEq, Eq, Clone, Hash)]
pub struct CustomError<T> {
    kind: T,
    level: ErrorLevel,
    title: Option<String>,
    message: Option<String>,
    help: Option<String>,
    url: Option<String>,
    context: Vec<Context>,
    location: Option<String>,
}

impl<T> View for CustomError<T> {
    type V = ErrorView<T>;

    closed spec fn view(&self) -> ErrorView<T> {
        ErrorView {
            kind: self.kind,
            level: self.level,
            title: opt_text(self.title),
            message: opt_text(self.message),
            help: opt_text(self.help),
            url: opt_text(self.url),
            contexts: self.context@.map_values(|c: Context| c@),
            location: opt_text(self.location),
        }
    }
}

/// `a` and `b` agree on everything but their kind.
pub open spec fn same_details<T, O>(a: ErrorView<T>, b: ErrorView<O>) -> bool {
    &&& a.level == b.level
    &&& a.title == b.title
    &&& a.message == b.message
    &&& a.help == b.help
    &&& a.url == b.url
    &&& a.contexts == b.contexts
    &&& a.location == b.location
}

/// `b` is `a` with its kind mapped through `f`.
pub open spec fn converted<T, O, F: Fn(T) -> O>(a: ErrorView<T>, f: F, b: ErrorView<O>) -> bool {
    &&& f.ensures((a.kind,), b.kind)
    &&& same_details(a, b)
}

impl<T> CustomError<T> {
    /// A diagnostic of the given kind at error level, with nothing else set.
    pub fn new(kind: T) -> (r: Self)
        ensures
            r@ == (ErrorView {
                kind,
                level: ErrorLevel::Error,
                title: None,
                message: None,
                help: None,
                url: None,
                contexts: Seq::empty(),
                location: None,
            }),
    {
        let r = CustomError {
            kind,
            level: ErrorLevel::Error,
            title: None,
            message: None,
            help: None,
            url: None,
            context: Vec::new(),
            location: None,
        };
        assert(r@.contexts =~= Seq::empty());
        r
    }

    /// Sets the title, shown before the kind.
    pub fn title(self, title: &str) -> (r: Self)
        ensures
            r@ == (ErrorView { title: Some(title@), ..self@ }),
    {
        CustomError { title: Some(String::from_str(title)), ..self }
    }

    /// Sets the message, shown after the contexts.
    pub fn message(self, message: &str) -> (r: Self)
        ensures
            r@ == (ErrorView { message: Some(message@), ..self@ }),
    {
        CustomError { message: Some(String::from_str(message)), ..self }
    }

    /// Sets the help hint, shown last.
    pub fn help(self, help: &str) -> (r: Self)
        ensures
            r@ == (ErrorView { help: Some(help@), ..self@ }),
    {
        CustomError { help: Some(String::from_str(help)), ..self }
    }

    /// Sets the link to further documentation.
    pub fn url(self, url: &str) -> (r: Self)
        ensures
            r@ == (ErrorView { url: Some(url@), ..self@ }),
    {
        CustomError { url: Some(String::from_str(url)), ..self }
    }

    /// Adds a source context after those already there.
    pub fn context(self, context: Context) -> (r: Self)
        ensures
            r@ == (ErrorView { contexts: self@.contexts.push(context@), ..self@ }),
    {
        let mut e = self;
        e.context.push(context);
        assert(e@.contexts =~= self@.contexts.push(context@));
        e
    }

    /// Adds the given source contexts, in order, after those already there.
    pub fn multiple_context(self, context: Vec<Context>) -> (r: Self)
        ensures
            r@ == (ErrorView {
                contexts: self@.contexts + context@.map_values(|c: Context| c@),
                ..self@
            }),
    {
        let mut e = self;
        let mut more = context;
        e.context.append(&mut more);
        assert(e@.contexts =~= self@.contexts + context@.map_values(|c: Context| c@));
        e
    }

    /// Makes this diagnostic a warning.
    pub fn warning(self) -> (r: Self)
        ensures
            r@ == (ErrorView { level: ErrorLevel::Warning, ..self@ }),
    {
        CustomError { level: ErrorLevel::Warning, ..self }
    }

    /// Makes this diagnostic an informational message.
    pub fn info(self) -> (r: Self)
        ensures
            r@ == (ErrorView { level: ErrorLevel::Info, ..self@ }),
    {
        CustomError { level: ErrorLevel::Info, ..self }
    }

    /// Records where in the program the diagnostic was created (`file:line:column`).
    pub fn location(self, location: String) -> (r: Self)
        ensures
            r@ == (ErrorView { location: Some(location@), ..self@ }),
    {
        CustomError { location: Some(location), ..self }
    }

    /// The same diagnostic with its kind mapped through `f`; every other field is kept.
    pub fn convert<O, F: Fn(T) -> O>(self, f: F) -> (r: CustomError<O>)
        requires
            f.requires((self@.kind,)),
        ensures
            converted(self@, f, r@),
    {
        self.convert_with(&f)
    }

    pub(crate) fn convert_with<O, F: Fn(T) -> O>(self, f: &F) -> (r: CustomError<O>)
        requires
            f.requires((self@.kind,)),
        ensures
            converted(self@, *f, r@),
    {
        CustomError {
            kind: f(self.kind),
            level: self.level,
            title: self.title,
            message: self.message,
            help: self.help,
            url: self.url,
            context: self.context,
            location: self.location,
        }
    }

    /// The kind given at creation.
    pub fn kind(&self) -> (r: &T)
        ensures
            *r == self@.kind,
    {
        &self.kind
    }

    /// Whether this diagnostic is at error level.
    pub fn is_error(&self) -> (r: bool)
        ensures
            r == (self@.level == ErrorLevel::Error),
    {
        match self.level {
            ErrorLevel::Error => true,
            _ => false,
        }
    }

    /// Whether this diagnostic is a warning.
    pub fn is_warning(&self) -> (r: bool)
        ensures
            r == (self@.level == ErrorLevel::Warning),
    {
        match self.level {
            ErrorLevel::Warning => true,
            _ => false,
        }
    }

    /// Whether this diagnostic is an informational message.
    pub fn is_info(&self) -> (r: bool)
        ensures
            r == (self@.level == ErrorLevel::Info),
    {
        match self.level {
            ErrorLevel::Info => true,
            _ => false,
        }
    }
}

/// Converting a diagnostic's kind and converting it back keeps every other field;
/// where the second mapping undoes the first, the diagnostic comes back unchanged.
pub proof fn lemma_convert_round_trip<T, O, F: Fn(T) -> O, G: Fn(O) -> T>(
    e: ErrorView<T>,
    f: F,
    g: G,
    there: ErrorView<O>,
    back: ErrorView<T>,
)
    requires
        converted(e, f, there),
        converted(there, g, back),
    ensures
        same_details(e, back),
        (forall|x: T, y: O, z: T| f.ensures((x,), y) && g.ensures((y,), z) ==> z == x) ==> back
            == e,
{
}

/// The directories of a documentation path: each segment followed by a slash.
pub open spec fn dir_path(segs: Seq<Seq<char>>) -> Seq<char>
    decreases segs.len(),
{
    if segs.len() == 0 {
        Seq::empty()
    } else {
        dir_path(segs.drop_last()) + segs.last() + "/"@
    }
}

/// The docs.rs page of an enum variant: the crate is the first segment of
/// `module`, the rest of it gives the directories, and the enum's name is the
/// last segment of `enum_path`.
pub open spec fn docs_url(
    module: Seq<char>,
    version: Seq<char>,
    enum_path: Seq<char>,
    variant: Seq<char>,
) -> Seq<char> {
    let segs = path_segments(module);
    let krate = segs[0];
    "https://docs.rs/"@ + krate + "/"@ + version + "/"@ + krate + "/"@ + dir_path(segs.skip(1))
        + "enum."@ + path_segments(enum_path).last() + ".html#variant."@ + variant
}

impl<T> CustomError<T> {
    /// Sets the link to the docs.rs page of this diagnostic's kind, for a kind that is
    /// the variant `variant` of the enum `enum_path` (a full path), declared in the
    /// module `module` of a crate published at `version`.
    pub fn docs_link(self, module: &str, version: &str, enum_path: &str, variant: &str) -> (r:
        Self)
        ensures
            r@ == (ErrorView {
                url: Some(docs_url(module@, version@, enum_path@, variant@)),
                ..self@
            }),
    {
        let segs = split_path(module);
        let ghost m = texts(segs@);
        let krate = segs[0].as_str();
        let mut dirs = String::new();
        let mut k: usize = 1;
        while k < segs.len()
            invariant
                m == texts(segs@),
                1 <= k <= segs.len(),
                dirs@ == dir_path(m.subrange(1, k as int)),
            decreases segs.len() - k,
        {
            dirs.append(segs[k].as_str());
            dirs.append("/");
            proof {
                let now = m.subrange(1, k + 1);
                assert(now.drop_last() =~= m.subrange(1, k as int));
            }
            k = k + 1;
        }
        assert(m.subrange(1, k as int) =~= m.skip(1));
        let names = split_path(enum_path);
        let name = names[names.len() - 1].as_str();
        let mut url = String::from_str("https://docs.rs/");
        url.append(krate);
        url.append("/");
        url.append(version);
        url.append("/");
        url.append(krate);
        url.append("/");
        url.append(dirs.as_str());
        url.append("enum.");
        url.append(name);
        url.append(".html#variant.");
        url.append(variant);
        proof {
            assert(texts(names@).last() == names@[names.len() - 1]@);
        }
        CustomError { url: Some(url), ..self }
    }
}

/// The first row of a diagnostic: its coloured level, then its title and kind.
pub open spec fn header_line<T>(e: ErrorView<T>, kind_label: Seq<char>) -> Seq<char> {
    match e.title {
        Some(t) => e.level.paint(e.level.word()) + ": "@ + t + " ("@ + kind_label + ")"@,
        None => e.level.paint(e.level.word()) + ": "@ + kind_label,
    }
}

pub open spec fn url_part<T>(e: ErrorView<T>) -> Seq<char> {
    match e.url {
        Some(u) => in_blue("url"@) + ": "@ + in_blue(u) + "\n"@,
        None => Seq::empty(),
    }
}

pub open spec fn location_part<T>(e: ErrorView<T>) -> Seq<char> {
    match e.location {
        Some(l) => "  "@ + in_blue("-->"@) + " generated at: "@ + l + "\n"@,
        None => Seq::empty(),
    }
}

/// The rendered contexts, one after the other.
pub open spec fn contexts_text(cs: Seq<ContextView>) -> Seq<char>
    decreases cs.len(),
{
    if cs.len() == 0 {
        Seq::empty()
    } else {
        contexts_text(cs.drop_last()) + context_text(cs.last())
    }
}

pub open spec fn message_part<T>(e: ErrorView<T>) -> Seq<char> {
    match e.message {
        Some(m) => m + "\n"@,
        None => Seq::empty(),
    }
}

pub open spec fn help_part<T>(e: ErrorView<T>) -> Seq<char> {
    match e.help {
        Some(h) => "  "@ + in_blue("help"@) + ": "@ + h + "\n"@,
        None => Seq::empty(),
    }
}

/// A rendered diagnostic, where `kind_label` names its kind: the header line, the
/// link, the place of creation, each context, the message and the help hint, in that
/// order, each part only where it is set.
pub open spec fn error_text<T>(e: ErrorView<T>, kind_label: Seq<char>) -> Seq<char> {
    header_line(e, kind_label) + "\n"@ + url_part(e) + location_part(e) + contexts_text(e.contexts)
        + message_part(e) + help_part(e)
}

impl<T> CustomError<T> {
    fn header_string(&self, kind_label: &str) -> (r: String)
        ensures
            r@ == header_line(self@, kind_label@) + "\n"@,
    {
        let mut out = self.level.render();
        out.append(": ");
        match &self.title {
            Some(t) => {
                out.append(t.as_str());
                out.append(" (");
                out.append(kind_label);
                out.append(")");
            },
            None => {
                out.append(kind_label);
            },
        }
        out.append("\n");
        out
    }

    fn url_string(&self) -> (r: String)
        ensures
            r@ == url_part(self@),
    {
        let mut out = String::new();
        if let Some(u) = &self.url {
            out.append(blue("url").as_str());
            out.append(": ");
            out.append(blue(u.as_str()).as_str());
            out.append("\n");
        }
        assert(out@ =~= url_part(self@));
        out
    }

    fn location_string(&self) -> (r: String)
        ensures
            r@ == location_part(self@),
    {
        let mut out = String::new();
        if let Some(l) = &self.location {
            out.append("  ");
            out.append(blue("-->").as_str());
            out.append(" generated at: ");
            out.append(l.as_str());
            out.append("\n");
        }
        assert(out@ =~= location_part(self@));
        out
    }

    fn contexts_string(&self) -> (r: String)
        ensures
            r@ == contexts_text(self@.contexts),
    {
        let ghost cs = self@.contexts;
        let mut out = String::new();
        let mut k: usize = 0;
        while k < self.context.len()
            invariant
                cs == self@.contexts,
                k <= self.context.len(),
                out@ == contexts_text(cs.take(k as int)),
            decreases self.context.len() - k,
        {
            let part = self.context[k].render();
            out.append(part.as_str());
            proof {
                let now = cs.take(k + 1);
                assert(now.drop_last() =~= cs.take(k as int));
                assert(now.last() == self.context@[k as int]@);
            }
            k = k + 1;
        }
        assert(cs.take(self.context.len() as int) =~= cs);
        out
    }

    fn message_string(&self) -> (r: String)
        ensures
            r@ == message_part(self@),
    {
        let mut out = String::new();
        if let Some(m) = &self.message {
            out.append(m.as_str());
            out.append("\n");
        }
        assert(out@ =~= message_part(self@));
        out
    }

    fn help_string(&self) -> (r: String)
        ensures
            r@ == help_part(self@),
    {
        let mut out = String::new();
        if let Some(h) = &self.help {
            out.append("  ");
            out.append(blue("help").as_str());
            out.append(": ");
            out.append(h.as_str());
            out.append("\n");
        }
        assert(out@ =~= help_part(self@));
        out
    }

    /// Renders the diagnostic; `kind_label` is the text that names its kind, such as
    /// `parser::ErrorType::NotANumber`.
    pub fn render(&self, kind_label: &str) -> (r: String)
        ensures
            r@ == error_text(self@, kind_label@),
    {
        let mut out = self.header_string(kind_label);
        out.append(self.url_string().as_str());
        out.append(self.location_string().as_str());
        out.append(self.contexts_string().as_str());
        out.append(self.message_string().as_str());
        out.append(self.help_string().as_str());
        out
    }
}

/// Turns a value that is normally unwrapped into a diagnostic when it is missing.
pub trait CustomErrorUnwrap<T>: Sized {
    /// The value held, if any.
    spec fn held(&self) -> Option<T>;

    /// The value held, or `error` where there is none.
    fn unwrap_or_error<E>(self, error: CustomError<E>) -> (r: Result<T, CustomError<E>>)
        ensures
            r == match self.held() {
                Some(v) => Ok::<T, CustomError<E>>(v),
                None => Err(error),
            },
    ;
}

/// Turns a failure that is normally unwrapped into a diagnostic built from it.
pub trait CustomErrorFnUnwrap<T, R>: Sized {
    /// What the value holds: a success or a failure.
    spec fn outcome(&self) -> Result<T, R>;

    /// The success held, or the diagnostic that `error_fn` builds from the failure.
    fn unwrap_or_error_fn<E, F: Fn(R) -> CustomError<E>>(self, error_fn: F) -> (r: Result<
        T,
        CustomError<E>,
    >)
        requires
            forall|e: R| self.outcome() == Err::<T, R>(e) ==> #[trigger] error_fn.requires((e,)),
        ensures
            match self.outcome() {
                Ok(v) => r == Ok::<T, CustomError<E>>(v),
                Err(e) => r is Err && error_fn.ensures((e,), r->Err_0),
            },
    ;
}

impl<T, R> CustomErrorUnwrap<T> for Result<T, R> {
    open spec fn held(&self) -> Option<T> {
        match self {
            Ok(v) => Some(*v),
            Err(_) => None,
        }
    }

    fn unwrap_or_error<E>(self, error: CustomError<E>) -> (r: Result<T, CustomError<E>>) {
        match self {
            Ok(o) => Ok(o),
            Err(_) => Err(error),
        }
    }
}

impl<T, R> CustomErrorFnUnwrap<T, R> for Result<T, R> {
    open spec fn outcome(&self) -> Result<T, R> {
        *self
    }

    fn unwrap_or_error_fn<E, F: Fn(R) -> CustomError<E>>(self, error_fn: F) -> (r: Result<
        T,
        CustomError<E>,
    >) {
        match self {
            Ok(o) => Ok(o),
            Err(e) => Err(error_fn(e)),
        }
    }
}

impl<T> CustomErrorUnwrap<T> for Option<T> {
    open spec fn held(&self) -> Option<T> {
        *self
    }

    fn unwrap_or_error<E>(self, error: CustomError<E>) -> (r: Result<T, CustomError<E>>) {
        match self {
            Some(o) => Ok(o),
            None => Err(error),
        }
    }
}

} // verus!
