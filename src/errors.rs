use crate::colour::{blue, green, in_blue, in_green, in_red, in_yellow, red, yellow};
use crate::error::{converted, error_text, CustomError, ErrorLevel, ErrorView};
use crate::text::{decimal, decimal_string, texts};
use vstd::prelude::*;
use vstd::std_specs::iter::IteratorSpec;

verus! {

/// The views of a sequence of diagnostics.
pub open spec fn views<T>(v: Seq<CustomError<T>>) -> Seq<ErrorView<T>> {
    v.map_values(|e: CustomError<T>| e@)
}

/// A collection of diagnostics of one kind type, in the order they were added.
#[derive(Debug, PartialEq, Eq, Clone, Hash)]
pub struct CustomErrors<T> {
    errors: Vec<CustomError<T>>,
}

impl<T> View for CustomErrors<T> {
    type V = Seq<ErrorView<T>>;

    closed spec fn view(&self) -> Seq<ErrorView<T>> {
        views(self.errors@)
    }
}

/// Whether some diagnostic of `s` is at level `l`.
pub open spec fn any_at<T>(s: Seq<ErrorView<T>>, l: ErrorLevel) -> bool {
    exists|i: int| 0 <= i < s.len() && (#[trigger] s[i]).level == l
}

/// How many diagnostics of `s` are at level `l`.
pub open spec fn count_at<T>(s: Seq<ErrorView<T>>, l: ErrorLevel) -> nat
    decreases s.len(),
{
    if s.len() == 0 {
        0
    } else {
        count_at(s.drop_last(), l) + if s.last().level == l {
            1nat
        } else {
            0nat
        }
    }
}

impl<T> CustomErrors<T> {
    /// An empty collection.
    pub fn new() -> (r: Self)
        ensures
            r@ == Seq::<ErrorView<T>>::empty(),
    {
        let r = CustomErrors { errors: Vec::new() };
        assert(r@ =~= Seq::<ErrorView<T>>::empty());
        r
    }

    /// The number of diagnostics.
    pub fn len(&self) -> (r: usize)
        ensures
            r == self@.len(),
    {
        self.errors.len()
    }

    /// Whether there are no diagnostics at all, of any level.
    pub fn is_empty(&self) -> (r: bool)
        ensures
            r == (self@.len() == 0),
    {
        self.errors.len() == 0
    }

    /// Whether some diagnostic is at error level.
    pub fn any_errors(&self) -> (r: bool)
        ensures
            r == any_at(self@, ErrorLevel::Error),
    {
        let mut k: usize = 0;
        while k < self.errors.len()
            invariant
                k <= self.errors.len(),
                forall|i: int| 0 <= i < k ==> (#[trigger] self@[i]).level != ErrorLevel::Error,
            decreases self.errors.len() - k,
        {
            if self.errors[k].is_error() {
                assert(self@[k as int] == self.errors@[k as int]@);
                return true;
            }
            k = k + 1;
        }
        false
    }

    /// Whether some diagnostic is at error or warning level.
    pub fn any_errors_or_warnings(&self) -> (r: bool)
        ensures
            r == (any_at(self@, ErrorLevel::Error) || any_at(self@, ErrorLevel::Warning)),
    {
        let mut k: usize = 0;
        while k < self.errors.len()
            invariant
                k <= self.errors.len(),
                forall|i: int|
                    0 <= i < k ==> (#[trigger] self@[i]).level != ErrorLevel::Error && self@[i].level
                        != ErrorLevel::Warning,
            decreases self.errors.len() - k,
        {
            if self.errors[k].is_error() || self.errors[k].is_warning() {
                assert(self@[k as int] == self.errors@[k as int]@);
                return true;
            }
            k = k + 1;
        }
        false
    }

    /// Adds a diagnostic after those already there.
    pub fn push(&mut self, error: CustomError<T>)
        ensures
            final(self)@ == old(self)@.push(error@),
    {
        self.errors.push(error);
        assert(self@ =~= old(self)@.push(error@));
    }

    /// Adds the given diagnostics, in order, after those already there.
    pub fn extend(&mut self, errors: Vec<CustomError<T>>)
        ensures
            final(self)@ == old(self)@ + views(errors@),
    {
        let mut more = errors;
        self.errors.append(&mut more);
        assert(self@ =~= old(self)@ + views(errors@));
    }

    /// The diagnostics, in order, to read.
    pub fn iter(&self) -> (r: &[CustomError<T>])
        ensures
            views(r@) == self@,
    {
        self.errors.as_slice()
    }

    /// The diagnostics, in order, to change in place.
    pub fn iter_mut(&mut self) -> (r: &mut [CustomError<T>])
        ensures
            views(r@) == old(self)@,
            final(self)@ == views(final(r)@),
    {
        self.errors.as_mut_slice()
    }

    /// The same diagnostics, in the same order, each with its kind mapped through `f`.
    pub fn convert<O, F: Fn(T) -> O>(self, f: F) -> (r: CustomErrors<O>)
        requires
            forall|i: int| 0 <= i < self@.len() ==> f.requires((#[trigger] self@[i].kind,)),
        ensures
            r@.len() == self@.len(),
            forall|i: int| 0 <= i < self@.len() ==> converted(#[trigger] self@[i], f, r@[i]),
    {
        let ghost all = self@;
        let mut rest = self.errors;
        let mut out: Vec<CustomError<O>> = Vec::new();
        let ghost n = all.len();
        while rest.len() > 0
            invariant
                n == all.len(),
                views(rest@) == all.skip(n - rest.len()),
                out.len() + rest.len() == n,
                forall|i: int| 0 <= i < all.len() ==> f.requires((#[trigger] all[i].kind,)),
                forall|i: int| 0 <= i < out.len() ==> converted(#[trigger] all[i], f, out@[i]@),
            decreases rest.len(),
        {
            let ghost k = out.len() as int;
            let ghost before = rest@;
            let e = rest.remove(0);
            assert(e@ == all[k]) by {
                assert(views(before)[0] == all.skip(n - before.len())[0]);
            }
            let g = e.convert_with(&f);
            out.push(g);
            assert(rest@ =~= before.subrange(1, before.len() as int));
            assert forall|j: int| 0 <= j < rest.len() implies #[trigger] views(rest@)[j] == all.skip(
                n - rest.len(),
            )[j] by {
                assert(views(before)[j + 1] == all.skip(n - before.len())[j + 1]);
            }
            assert(views(rest@) =~= all.skip(n - rest.len()));
        }
        let r = CustomErrors { errors: out };
        assert(r@.len() == all.len());
        assert forall|i: int| 0 <= i < all.len() implies converted(#[trigger] all[i], f, r@[i]) by {
            assert(r@[i] == out@[i]@);
        }
        r
    }
}

/// One count of the summary: the number and the coloured word.
pub open spec fn count_part(n: nat, word: Seq<char>) -> Seq<char> {
    decimal(n) + " "@ + word
}

/// The non-zero counts, in the order errors, warnings, infos, separated by commas.
pub open spec fn counts_text(errors: nat, warnings: nat, infos: nat) -> Seq<char> {
    let e = if errors > 0 {
        count_part(errors, in_red("errors"@))
    } else {
        Seq::empty()
    };
    let sep_w = if errors > 0 && warnings > 0 {
        ", "@
    } else {
        Seq::empty()
    };
    let w = if warnings > 0 {
        count_part(warnings, in_yellow("warnings"@))
    } else {
        Seq::empty()
    };
    let sep_i = if (errors > 0 || warnings > 0) && infos > 0 {
        ", "@
    } else {
        Seq::empty()
    };
    let i = if infos > 0 {
        count_part(infos, in_blue("infos"@))
    } else {
        Seq::empty()
    };
    e + sep_w + w + sep_i + i
}

/// The closing summary: a notice that there are no messages, or the counts by level.
pub open spec fn summary_text(errors: nat, warnings: nat, infos: nat) -> Seq<char> {
    if errors + warnings + infos == 0 {
        "\n"@ + in_green("no messages!"@) + "\n"@
    } else {
        "\nencountered: "@ + counts_text(errors, warnings, infos) + "\n"@
    }
}

/// The rendered diagnostics of `s`, each followed by a blank line, where `labels[i]`
/// names the kind of `s[i]`.
pub open spec fn items_text<T>(s: Seq<ErrorView<T>>, labels: Seq<Seq<char>>) -> Seq<char>
    decreases s.len(),
{
    if s.len() == 0 {
        Seq::empty()
    } else {
        items_text(s.drop_last(), labels.drop_last()) + error_text(s.last(), labels.last())
            + "\n"@
    }
}

/// The rendered collection: every diagnostic, then the summary.
pub open spec fn set_text<T>(s: Seq<ErrorView<T>>, labels: Seq<Seq<char>>) -> Seq<char> {
    items_text(s, labels) + summary_text(
        count_at(s, ErrorLevel::Error),
        count_at(s, ErrorLevel::Warning),
        count_at(s, ErrorLevel::Info),
    )
}

fn summary_string(errors: usize, warnings: usize, infos: usize) -> (r: String)
    ensures
        r@ == summary_text(errors as nat, warnings as nat, infos as nat),
{
    if errors == 0 && warnings == 0 && infos == 0 {
        let mut out = String::from_str("\n");
        out.append(green("no messages!").as_str());
        out.append("\n");
        return out;
    }
    let mut counts = String::new();
    if errors > 0 {
        counts.append(decimal_string(errors as u128).as_str());
        counts.append(" ");
        counts.append(red("errors").as_str());
    }
    if warnings > 0 {
        if errors > 0 {
            counts.append(", ");
        }
        counts.append(decimal_string(warnings as u128).as_str());
        counts.append(" ");
        counts.append(yellow("warnings").as_str());
    }
    if infos > 0 {
        if errors > 0 || warnings > 0 {
            counts.append(", ");
        }
        counts.append(decimal_string(infos as u128).as_str());
        counts.append(" ");
        counts.append(blue("infos").as_str());
    }
    assert(counts@ =~= counts_text(errors as nat, warnings as nat, infos as nat));
    let mut out = String::from_str("\nencountered: ");
    out.append(counts.as_str());
    out.append("\n");
    out
}

impl<T> CustomErrors<T> {
    /// Renders every diagnostic followed by a blank line, then the summary;
    /// `labels[i]` is the text that names the kind of the diagnostic at `i`.
    pub fn render(&self, labels: &Vec<String>) -> (r: String)
        requires
            labels.len() == self@.len(),
        ensures
            r@ == set_text(self@, texts(labels@)),
    {
        let ghost s = self@;
        let ghost ls = texts(labels@);
        let mut out = String::new();
        let mut errors: usize = 0;
        let mut warnings: usize = 0;
        let mut infos: usize = 0;
        let mut k: usize = 0;
        while k < self.errors.len()
            invariant
                s == self@,
                ls == texts(labels@),
                labels.len() == s.len(),
                k <= s.len(),
                errors <= k && warnings <= k && infos <= k,
                errors == count_at(s.take(k as int), ErrorLevel::Error),
                warnings == count_at(s.take(k as int), ErrorLevel::Warning),
                infos == count_at(s.take(k as int), ErrorLevel::Info),
                out@ == items_text(s.take(k as int), ls.take(k as int)),
            decreases s.len() - k,
        {
            let e = &self.errors[k];
            out.append(e.render(labels[k].as_str()).as_str());
            out.append("\n");
            if e.is_error() {
                errors = errors + 1;
            }
            if e.is_warning() {
                warnings = warnings + 1;
            }
            if e.is_info() {
                infos = infos + 1;
            }
            proof {
                let now = s.take(k + 1);
                let lnow = ls.take(k + 1);
                assert(now.drop_last() =~= s.take(k as int));
                assert(lnow.drop_last() =~= ls.take(k as int));
                assert(now.last() == e@);
                assert(lnow.last() == labels@[k as int]@);
            }
            k = k + 1;
        }
        assert(s.take(k as int) =~= s);
        assert(ls.take(k as int) =~= ls);
        out.append(summary_string(errors, warnings, infos).as_str());
        out
    }
}

/// What a collection holds after `pushed` was pushed, in order, onto one holding `start`.
pub open spec fn after_pushes<T>(start: Seq<ErrorView<T>>, pushed: Seq<ErrorView<T>>) -> Seq<
    ErrorView<T>,
>
    decreases pushed.len(),
{
    if pushed.len() == 0 {
        start
    } else {
        after_pushes(start, pushed.drop_last()).push(pushed.last())
    }
}

/// A new collection into which `pushed` was pushed is empty exactly when nothing was
/// pushed; it holds an error exactly when one of the pushed diagnostics is an error,
/// and an error or warning exactly when one of them is.
pub proof fn lemma_pushed_queries<T>(pushed: Seq<ErrorView<T>>)
    ensures
        (after_pushes(Seq::empty(), pushed).len() == 0) == (pushed.len() == 0),
        any_at(after_pushes(Seq::empty(), pushed), ErrorLevel::Error) == (exists|i: int|
            0 <= i < pushed.len() && (#[trigger] pushed[i]).level == ErrorLevel::Error),
        (any_at(after_pushes(Seq::empty(), pushed), ErrorLevel::Error) || any_at(
            after_pushes(Seq::empty(), pushed),
            ErrorLevel::Warning,
        )) == (exists|i: int|
            0 <= i < pushed.len() && ((#[trigger] pushed[i]).level == ErrorLevel::Error
                || pushed[i].level == ErrorLevel::Warning)),
{
    lemma_after_pushes(pushed);
}

proof fn lemma_after_pushes<T>(pushed: Seq<ErrorView<T>>)
    ensures
        after_pushes(Seq::empty(), pushed) == pushed,
    decreases pushed.len(),
{
    if pushed.len() > 0 {
        lemma_after_pushes(pushed.drop_last());
        assert(pushed.drop_last().push(pushed.last()) =~= pushed);
    }
}

/// `errors += e` pushes `e`.
impl<T> std::ops::AddAssign<CustomError<T>> for CustomErrors<T> {
    fn add_assign(&mut self, rhs: CustomError<T>)
        ensures
            final(self)@ == old(self)@.push(rhs@),
    {
        self.push(rhs);
    }
}

/// `for error in errors` takes the diagnostics in order.
impl<T> IntoIterator for CustomErrors<T> {
    type Item = CustomError<T>;
    type IntoIter = std::vec::IntoIter<CustomError<T>>;

    fn into_iter(self) -> (r: std::vec::IntoIter<CustomError<T>>)
        ensures
            views(IteratorSpec::remaining(&r)) == self@,
    {
        broadcast use vstd::std_specs::vec::axiom_spec_into_iter;

        self.errors.into_iter()
    }
}

impl<T> Default for CustomErrors<T> {
    fn default() -> (r: Self)
        ensures
            r@ == Seq::<ErrorView<T>>::empty(),
    {
        Self::new()
    }
}

} // verus!
