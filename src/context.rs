use crate::colour::{blue, in_blue};
use crate::error::ErrorLevel;
use crate::text::{
    decimal, decimal_string, signed_decimal, signed_decimal_string, fill, fill_of, join_lines, lemma_decimal_digits, lemma_decimal_len,
    lemma_decimal_len_monotonic, lemma_join_push, opt_text, pow10, spaces, spaces_string, texts,
};
use vstd::prelude::*;

verus! {

/// What a highlight is, as plain values.
pub struct HighlightView {
    /// Index of the underlined line among the context's lines.
    pub line: nat,
    pub column: nat,
    pub length: nat,
    pub note: Option<Seq<char>>,
    pub level: ErrorLevel,
}

/// What a context is, as plain values.
pub struct ContextView {
    pub lines: Seq<Seq<char>>,
    /// Number of the first line, where it is known.
    pub linenumber: Option<nat>,
    pub highlights: Seq<HighlightView>,
    pub file: Option<Seq<char>>,
    /// Lines shown just before `lines`, without highlights.
    pub before: Seq<Seq<char>>,
    /// Lines shown just after `lines`, without highlights.
    pub after: Seq<Seq<char>>,
}

/// An underlined span in one line of a context, with an optional note after it.
#[derive(Debug, PartialEq, Eq, Clone, Hash)]
pub struct Highlight {
    line: usize,
    column: usize,
    length: usize,
    note: Option<String>,
    level: ErrorLevel,
}

impl View for Highlight {
    type V = HighlightView;

    closed spec fn view(&self) -> HighlightView {
        HighlightView {
            line: self.line as nat,
            column: self.column as nat,
            length: self.length as nat,
            note: opt_text(self.note),
            level: self.level,
        }
    }
}

impl Highlight {
    /// A highlight of `length` characters from `column` in the line at offset `line`
    /// of its context, at error level and without a note.
    pub fn new(line: usize, column: usize, length: usize) -> (r: Self)
        ensures
            r == Highlight::spec_new(line, column, length),
            r@ == (HighlightView {
                line: line as nat,
                column: column as nat,
                length: length as nat,
                note: None,
                level: ErrorLevel::Error,
            }),
    {
        let r = Highlight { line, column, length, note: None, level: ErrorLevel::Error };
        assert(r == Highlight::spec_new(line, column, length));
        r
    }

    /// Sets the note shown after the underline.
    pub fn note(self, note: &str) -> (r: Self)
        ensures
            r@ == (HighlightView { note: Some(note@), ..self@ }),
    {
        Highlight { note: Some(String::from_str(note)), ..self }
    }

    /// Marks the highlight as a warning.
    pub fn warning(self) -> (r: Self)
        ensures
            r@ == (HighlightView { level: ErrorLevel::Warning, ..self@ }),
    {
        Highlight { level: ErrorLevel::Warning, ..self }
    }

    /// Marks the highlight as an informational one.
    pub fn info(self) -> (r: Self)
        ensures
            r@ == (HighlightView { level: ErrorLevel::Info, ..self@ }),
    {
        Highlight { level: ErrorLevel::Info, ..self }
    }
}

impl Highlight {
    /// The highlight that `new` makes from the same three numbers.
    pub closed spec fn spec_new(line: usize, column: usize, length: usize) -> Highlight {
        Highlight { line, column, length, note: None, level: ErrorLevel::Error }
    }
}

/// `(line, column, length)`, as `Highlight::new` takes them.
impl From<(usize, usize, usize)> for Highlight {
    fn from(t: (usize, usize, usize)) -> (r: Highlight) {
        Highlight::new(t.0, t.1, t.2)
    }
}

impl vstd::std_specs::convert::FromSpecImpl<(usize, usize, usize)> for Highlight {
    open spec fn obeys_from_spec() -> bool {
        true
    }

    open spec fn from_spec(t: (usize, usize, usize)) -> Highlight {
        Highlight::spec_new(t.0, t.1, t.2)
    }
}

/// `(column, length)` in the first line of the context.
impl From<(usize, usize)> for Highlight {
    fn from(t: (usize, usize)) -> (r: Highlight) {
        Highlight::new(0, t.0, t.1)
    }
}

impl vstd::std_specs::convert::FromSpecImpl<(usize, usize)> for Highlight {
    open spec fn obeys_from_spec() -> bool {
        true
    }

    open spec fn from_spec(t: (usize, usize)) -> Highlight {
        Highlight::spec_new(0, t.0, t.1)
    }
}

/// One or more source lines to show with a diagnostic, with an optional number for the
/// first line, an optional file name, and highlights under some of the lines.
#[derive(Debug, PartialEq, Eq, Clone, Hash)]
pub struct Context {
    lines: Vec<String>,
    linenumber: Option<usize>,
    highlights: Vec<Highlight>,
    file: Option<String>,
    before: Vec<String>,
    after: Vec<String>,
}

impl View for Context {
    type V = ContextView;

    closed spec fn view(&self) -> ContextView {
        ContextView {
            lines: texts(self.lines@),
            linenumber: match self.linenumber {
                Some(n) => Some(n as nat),
                None => None,
            },
            highlights: self.highlights@.map_values(|h: Highlight| h@),
            file: opt_text(self.file),
            before: texts(self.before@),
            after: texts(self.after@),
        }
    }
}

impl Context {
    /// A context of the single line `line`.
    pub fn line(line: &str) -> (r: Self)
        ensures
            r@ == (ContextView {
                lines: seq![line@],
                linenumber: None,
                highlights: Seq::empty(),
                file: None,
                before: Seq::empty(),
                after: Seq::empty(),
            }),
    {
        let mut lines = Vec::new();
        lines.push(String::from_str(line));
        let r = Context {
            lines,
            linenumber: None,
            highlights: Vec::new(),
            file: None,
            before: Vec::new(),
            after: Vec::new(),
        };
        assert(r@.lines =~= seq![line@]);
        assert(r@.highlights =~= Seq::empty());
        assert(r@.before =~= Seq::empty());
        assert(r@.after =~= Seq::empty());
        r
    }

    /// A context of the given lines, in order.
    pub fn lines(lines: Vec<String>) -> (r: Self)
        ensures
            r@ == (ContextView {
                lines: texts(lines@),
                linenumber: None,
                highlights: Seq::empty(),
                file: None,
                before: Seq::empty(),
                after: Seq::empty(),
            }),
    {
        let r = Context {
            lines,
            linenumber: None,
            highlights: Vec::new(),
            file: None,
            before: Vec::new(),
            after: Vec::new(),
        };
        assert(r@.lines =~= texts(lines@));
        assert(r@.highlights =~= Seq::empty());
        assert(r@.before =~= Seq::empty());
        assert(r@.after =~= Seq::empty());
        r
    }

    /// Sets the number of the first line.
    pub fn linenumber(self, linenumber: usize) -> (r: Self)
        ensures
            r@ == (ContextView { linenumber: Some(linenumber as nat), ..self@ }),
    {
        Context { linenumber: Some(linenumber), ..self }
    }

    /// Adds one highlight after those already there.
    pub fn highlight(self, highlight: Highlight) -> (r: Self)
        ensures
            r@ == (ContextView { highlights: self@.highlights.push(highlight@), ..self@ }),
    {
        let mut c = self;
        c.highlights.push(highlight);
        assert(c@.highlights =~= self@.highlights.push(highlight@));
        c
    }

    /// Adds the given highlights, in order, after those already there.
    pub fn highlights(self, highlights: Vec<Highlight>) -> (r: Self)
        ensures
            r@ == (ContextView {
                highlights: self@.highlights + highlights@.map_values(|h: Highlight| h@),
                ..self@
            }),
    {
        let mut c = self;
        let mut more = highlights;
        c.highlights.append(&mut more);
        assert(c@.highlights =~= self@.highlights + highlights@.map_values(|h: Highlight| h@));
        c
    }

    /// Sets the lines shown just before the context's lines, in order.
    pub fn before(self, lines: Vec<String>) -> (r: Self)
        ensures
            r@ == (ContextView { before: texts(lines@), ..self@ }),
    {
        Context { before: lines, ..self }
    }

    /// Sets the lines shown just after the context's lines, in order.
    pub fn after(self, lines: Vec<String>) -> (r: Self)
        ensures
            r@ == (ContextView { after: texts(lines@), ..self@ }),
    {
        Context { after: lines, ..self }
    }

    /// Sets the name of the file that the lines come from.
    pub fn file(self, file: &str) -> (r: Self)
        ensures
            r@ == (ContextView { file: Some(file@), ..self@ }),
    {
        Context { file: Some(String::from_str(file)), ..self }
    }
}

/// The number shown for the first line: the given one, or zero when none is known.
pub open spec fn first_number(c: ContextView) -> nat {
    match c.linenumber {
        Some(l) => l,
        None => 0,
    }
}

/// The gutter label of the row at position `pos`, counted from the first of `lines`
/// (the lines before it have negative positions). With a known first line number
/// it is the row's line number. Without one it is the offset from the first line:
/// negative before it, plain within `lines`, and marked with `+` after them.
pub open spec fn line_label(c: ContextView, pos: int) -> Seq<char> {
    match c.linenumber {
        Some(l) => signed_decimal(l + pos),
        None => if pos < 0 {
            "-"@ + decimal((-pos) as nat)
        } else if pos < c.lines.len() {
            decimal(pos as nat)
        } else {
            "+"@ + decimal(pos as nat)
        },
    }
}

/// The position of the first row shown: that of the first line before `lines`.
pub open spec fn first_pos(c: ContextView) -> int {
    -(c.before.len() as int)
}

/// How many source rows are shown: before, main and after lines together.
pub open spec fn shown_count(c: ContextView) -> nat {
    c.before.len() + c.lines.len() + c.after.len()
}

/// The length of the longest label among the first `k` rows shown, and at least one.
pub open spec fn widest_label(c: ContextView, k: nat) -> nat
    decreases k,
{
    if k == 0 {
        1
    } else {
        let w = widest_label(c, (k - 1) as nat);
        let n = line_label(c, first_pos(c) + k - 1).len();
        if n > w {
            n
        } else {
            w
        }
    }
}

/// Width of the gutter: the length of the longest label shown, at least one.
pub open spec fn gutter_width(c: ContextView) -> nat {
    widest_label(c, shown_count(c))
}

/// The largest line number shown, where every label is a plain number.
pub open spec fn max_line_number(c: ContextView) -> nat {
    if shown_count(c) == 0 {
        0
    } else {
        (first_number(c) + c.lines.len() + c.after.len() - 1) as nat
    }
}

/// A gutter cell without a number.
pub open spec fn blank_cell(c: ContextView) -> Seq<char> {
    spaces(gutter_width(c))
}

/// The gutter cell of the row at position `pos`: its label, aligned to the right.
pub open spec fn number_cell(c: ContextView, pos: int) -> Seq<char> {
    spaces((gutter_width(c) - line_label(c, pos).len()) as nat) + line_label(c, pos)
}

/// The row that shows `text` at position `pos`.
pub open spec fn text_row(c: ContextView, pos: int, text: Seq<char>) -> Seq<char> {
    number_cell(c, pos) + " "@ + in_blue("│"@) + " "@ + text
}

/// The rows of the first `k` of `extra`, whose first line stands at position `start`.
pub open spec fn extra_rows(c: ContextView, start: int, extra: Seq<Seq<char>>, k: nat) -> Seq<
    Seq<char>,
>
    decreases k,
{
    if k == 0 {
        Seq::empty()
    } else {
        extra_rows(c, start, extra, (k - 1) as nat).push(
            text_row(c, start + k - 1, extra[k - 1]),
        )
    }
}

/// The rows of the lines before the context's lines.
pub open spec fn before_rows(c: ContextView) -> Seq<Seq<char>> {
    extra_rows(c, first_pos(c), c.before, c.before.len())
}

/// The rows of the lines after the context's lines.
pub open spec fn after_rows(c: ContextView) -> Seq<Seq<char>> {
    extra_rows(c, c.lines.len() as int, c.after, c.after.len())
}

/// What follows the file name in the header: the line and column of the highlight,
/// shown only when the first line number is known and there is exactly one highlight.
pub open spec fn location_suffix(c: ContextView) -> Seq<char> {
    match c.linenumber {
        Some(l) => if c.highlights.len() == 1 {
            ":"@ + decimal(l + c.highlights[0].line) + ":"@ + decimal(c.highlights[0].column)
        } else {
            Seq::empty()
        },
        None => Seq::empty(),
    }
}

/// The rows above the source lines: a file header and a border row, or an opening
/// connector where no file is known.
pub open spec fn header_rows(c: ContextView) -> Seq<Seq<char>> {
    match c.file {
        Some(f) => seq![
            blank_cell(c) + " "@ + in_blue("╭──"@) + "["@ + f + location_suffix(c) + "]"@,
            blank_cell(c) + " "@ + in_blue("│"@),
        ],
        None => seq![blank_cell(c) + " "@ + in_blue("╷"@)],
    }
}

/// The closing connector below the source lines.
pub open spec fn footer_row(c: ContextView) -> Seq<char> {
    blank_cell(c) + " "@ + in_blue("╵"@)
}

/// The row of the source line at offset `i`, with its label in the gutter.
pub open spec fn number_row(c: ContextView, i: nat) -> Seq<char> {
    text_row(c, i as int, c.lines[i as int])
}

/// The note of a highlight as shown after its underline.
pub open spec fn note_text(h: HighlightView) -> Seq<char> {
    match h.note {
        Some(n) => " "@ + n,
        None => Seq::empty(),
    }
}

/// The row that underlines `h`: `column` spaces, then `length` underline characters
/// and the note, both in the highlight's colour.
pub open spec fn underline_row(c: ContextView, h: HighlightView) -> Seq<char> {
    blank_cell(c) + " "@ + in_blue("·"@) + " "@ + spaces(h.column) + h.level.paint(
        fill_of('─', h.length),
    ) + h.level.paint(note_text(h))
}

/// The underline rows for line `i` among the first `m` highlights, in their order.
pub open spec fn highlight_rows(c: ContextView, i: nat, m: nat) -> Seq<Seq<char>>
    decreases m,
{
    if m == 0 {
        Seq::empty()
    } else {
        let h = c.highlights[m - 1];
        let earlier = highlight_rows(c, i, (m - 1) as nat);
        if h.line == i {
            earlier.push(underline_row(c, h))
        } else {
            earlier
        }
    }
}

/// The row of line `i` followed by its underline rows.
pub open spec fn line_block(c: ContextView, i: nat) -> Seq<Seq<char>> {
    seq![number_row(c, i)] + highlight_rows(c, i, c.highlights.len())
}

/// The blocks of the first `k` source lines.
pub open spec fn body_rows(c: ContextView, k: nat) -> Seq<Seq<char>>
    decreases k,
{
    if k == 0 {
        Seq::empty()
    } else {
        body_rows(c, (k - 1) as nat) + line_block(c, (k - 1) as nat)
    }
}

/// All rows of the rendered block, without line ends.
pub open spec fn context_rows(c: ContextView) -> Seq<Seq<char>> {
    header_rows(c) + before_rows(c) + body_rows(c, c.lines.len()) + after_rows(c) + seq![
        footer_row(c),
    ]
}

/// The rendered block: its rows, each ended by a newline.
pub open spec fn context_text(c: ContextView) -> Seq<char> {
    join_lines(context_rows(c))
}

proof fn lemma_widest_bound(c: ContextView, k: nat, p: nat)
    requires
        p < k,
    ensures
        line_label(c, first_pos(c) + p).len() <= widest_label(c, k),
    decreases k,
{
    if p < k - 1 {
        lemma_widest_bound(c, (k - 1) as nat, p);
    }
}

/// Concatenating two lists of strings concatenates their texts.
proof fn lemma_texts_append(a: Seq<String>, b: Seq<String>)
    ensures
        texts(a + b) == texts(a) + texts(b),
{
    assert(texts(a + b) =~= texts(a) + texts(b));
}

impl Context {
    proof fn lemma_view_lens(&self)
        ensures
            self@.lines.len() == self.lines.len(),
            self@.before.len() == self.before.len(),
            self@.after.len() == self.after.len(),
            self@.highlights.len() == self.highlights.len(),
    {
    }

    /// The gutter label of the row at position `pos`.
    fn label_string(&self, pos: i128) -> (r: String)
        requires
            first_pos(self@) <= pos < first_pos(self@) + shown_count(self@),
        ensures
            r@ == line_label(self@, pos as int),
    {
        proof {
            self.lemma_view_lens();
        }
        match self.linenumber {
            Some(l) => signed_decimal_string(l as i128 + pos),
            None => {
                if pos < 0 {
                    let mut s = String::from_str("-");
                    s.append(decimal_string((-pos) as u128).as_str());
                    s
                } else if pos < self.lines.len() as i128 {
                    decimal_string(pos as u128)
                } else {
                    let mut s = String::from_str("+");
                    s.append(decimal_string(pos as u128).as_str());
                    s
                }
            },
        }
    }

    /// The width of the gutter.
    fn gutter_width_of(&self) -> (w: usize)
        ensures
            w == gutter_width(self@),
    {
        let ghost c = self@;
        proof {
            self.lemma_view_lens();
        }
        let b = self.before.len() as i128;
        let total = self.before.len() as u128 + self.lines.len() as u128
            + self.after.len() as u128;
        let mut w: usize = 1;
        let mut k: u128 = 0;
        while k < total
            invariant
                c == self@,
                b == c.before.len(),
                b == self.before.len(),
                total == shown_count(c),
                total == self.before.len() + self.lines.len() + self.after.len(),
                k <= total,
                w == widest_label(c, k as nat),
            decreases total - k,
        {
            let len = self.label_string(k as i128 - b).as_str().unicode_len();
            if len > w {
                w = len;
            }
            k = k + 1;
        }
        w
    }

    /// The row that shows `text` at position `pos`.
    fn text_row_string(&self, width: usize, pos: i128, text: &str) -> (r: String)
        requires
            width == gutter_width(self@),
            first_pos(self@) <= pos < first_pos(self@) + shown_count(self@),
        ensures
            r@ == text_row(self@, pos as int, text@),
    {
        let label = self.label_string(pos);
        let len = label.as_str().unicode_len();
        proof {
            lemma_widest_bound(self@, shown_count(self@), (pos - first_pos(self@)) as nat);
        }
        let mut row = spaces_string(width - len);
        row.append(label.as_str());
        row.append(" ");
        row.append(blue("│").as_str());
        row.append(" ");
        row.append(text);
        row
    }

    /// The rows above the source lines.
    fn header_strings(&self, blank: &String) -> (r: Vec<String>)
        requires
            blank@ == blank_cell(self@),
        ensures
            texts(r@) == header_rows(self@),
    {
        let ghost c = self@;
        let mut rows: Vec<String> = Vec::new();
        match &self.file {
            Some(f) => {
                let mut head = blank.clone();
                head.append(" ");
                head.append(blue("╭──").as_str());
                head.append("[");
                head.append(f.as_str());
                if self.highlights.len() == 1 {
                    if let Some(l) = self.linenumber {
                        let h = &self.highlights[0];
                        head.append(":");
                        head.append(decimal_string(l as u128 + h.line as u128).as_str());
                        head.append(":");
                        head.append(decimal_string(h.column as u128).as_str());
                    }
                }
                head.append("]");
                assert(head@ =~= header_rows(c)[0]);
                rows.push(head);
                let mut border = blank.clone();
                border.append(" ");
                border.append(blue("│").as_str());
                rows.push(border);
            },
            None => {
                let mut open = blank.clone();
                open.append(" ");
                open.append(blue("╷").as_str());
                rows.push(open);
            },
        }
        assert(texts(rows@) =~= header_rows(c));
        rows
    }

    /// The rows of `extra`, whose first line stands at position `start`.
    fn extra_strings(&self, width: usize, start: i128, extra: &Vec<String>) -> (r: Vec<String>)
        requires
            width == gutter_width(self@),
            first_pos(self@) <= start,
            start + extra.len() <= first_pos(self@) + shown_count(self@),
        ensures
            texts(r@) == extra_rows(self@, start as int, texts(extra@), extra.len() as nat),
    {
        let ghost c = self@;
        proof {
            self.lemma_view_lens();
        }
        let mut rows: Vec<String> = Vec::new();
        let mut k: usize = 0;
        while k < extra.len()
            invariant
                c == self@,
                width == gutter_width(c),
                first_pos(c) <= start,
                start + extra.len() <= first_pos(c) + shown_count(c),
                shown_count(c) == self.before.len() + self.lines.len() + self.after.len(),
                k <= extra.len(),
                texts(rows@) == extra_rows(c, start as int, texts(extra@), k as nat),
            decreases extra.len() - k,
        {
            let row = self.text_row_string(width, start + k as i128, extra[k].as_str());
            let ghost prev = texts(rows@);
            rows.push(row);
            assert(texts(rows@) =~= prev.push(row@));
            k = k + 1;
        }
        rows
    }

    /// The row that underlines `h`.
    fn underline_string(blank: &String, h: &Highlight) -> (r: String)
        ensures
            r@ == blank@ + " "@ + in_blue("·"@) + " "@ + spaces(h@.column) + h@.level.paint(
                fill_of('─', h@.length),
            ) + h@.level.paint(note_text(h@)),
    {
        proof {
            reveal_strlit("─");
        }
        let mut under = blank.clone();
        under.append(" ");
        under.append(blue("·").as_str());
        under.append(" ");
        under.append(spaces_string(h.column).as_str());
        under.append(h.level.in_colour(fill("─", h.length).as_str()).as_str());
        let note = match &h.note {
            Some(t) => {
                let mut s = String::from_str(" ");
                s.append(t.as_str());
                s
            },
            None => String::new(),
        };
        under.append(h.level.in_colour(note.as_str()).as_str());
        under
    }

    /// The rows of the context's own lines, each followed by its underline rows.
    fn body_strings(&self, width: usize, blank: &String) -> (r: Vec<String>)
        requires
            width == gutter_width(self@),
            blank@ == blank_cell(self@),
        ensures
            texts(r@) == body_rows(self@, self@.lines.len()),
    {
        let ghost c = self@;
        let n = self.lines.len();
        let mut rows: Vec<String> = Vec::new();
        let mut i: usize = 0;
        while i < n
            invariant
                c == self@,
                n == c.lines.len(),
                width == gutter_width(c),
                blank@ == blank_cell(c),
                i <= n,
                texts(rows@) == body_rows(c, i as nat),
            decreases n - i,
        {
            let ghost before = texts(rows@);
            let row = self.text_row_string(width, i as i128, self.lines[i].as_str());
            rows.push(row);
            assert(texts(rows@) =~= before + seq![number_row(c, i as nat)]);
            let mut j: usize = 0;
            while j < self.highlights.len()
                invariant
                    c == self@,
                    n == c.lines.len(),
                    blank@ == blank_cell(c),
                    i < n,
                    j <= self.highlights.len(),
                    texts(rows@) == before + seq![number_row(c, i as nat)] + highlight_rows(
                        c,
                        i as nat,
                        j as nat,
                    ),
                decreases self.highlights.len() - j,
            {
                let h = &self.highlights[j];
                let ghost hv = c.highlights[j as int];
                assert(hv == h@);
                let ghost prev = texts(rows@);
                if h.line == i {
                    let under = Self::underline_string(blank, h);
                    rows.push(under);
                    assert(texts(rows@) =~= prev.push(underline_row(c, hv)));
                }
                j = j + 1;
                assert(texts(rows@) =~= before + seq![number_row(c, i as nat)] + highlight_rows(
                    c,
                    i as nat,
                    j as nat,
                ));
            }
            i = i + 1;
            assert(texts(rows@) =~= body_rows(c, i as nat));
        }
        rows
    }

    /// The rows of the rendered block, without line ends.
    pub fn render_lines(&self) -> (r: Vec<String>)
        ensures
            texts(r@) == context_rows(self@),
    {
        let ghost c = self@;
        let width = self.gutter_width_of();
        let blank = spaces_string(width);
        let mut rows = self.header_strings(&blank);
        let mut more = self.extra_strings(width, 0 - self.before.len() as i128, &self.before);
        let ghost r0 = rows@;
        let ghost m0 = more@;
        rows.append(&mut more);
        proof {
            lemma_texts_append(r0, m0);
        }
        let mut body = self.body_strings(width, &blank);
        let ghost r1 = rows@;
        let ghost m1 = body@;
        rows.append(&mut body);
        proof {
            lemma_texts_append(r1, m1);
        }
        let mut tail = self.extra_strings(width, self.lines.len() as i128, &self.after);
        let ghost r2 = rows@;
        let ghost m2 = tail@;
        rows.append(&mut tail);
        proof {
            lemma_texts_append(r2, m2);
        }
        let mut foot = blank.clone();
        foot.append(" ");
        foot.append(blue("╵").as_str());
        let ghost r3 = texts(rows@);
        rows.push(foot);
        assert(texts(rows@) =~= r3.push(footer_row(c)));
        assert(texts(rows@) =~= context_rows(c));
        rows
    }

    /// The rendered block: its rows, each ended by a newline.
    pub fn render(&self) -> (r: String)
        ensures
            r@ == context_text(self@),
    {
        let rows = self.render_lines();
        let ghost all = context_rows(self@);
        let mut out = String::new();
        let mut k: usize = 0;
        while k < rows.len()
            invariant
                texts(rows@) == all,
                k <= rows.len(),
                out@ == join_lines(all.take(k as int)),
            decreases rows.len() - k,
        {
            proof {
                lemma_join_push(all.take(k as int), all[k as int]);
                assert(all.take(k as int).push(all[k as int]) =~= all.take(k + 1));
                assert(rows@[k as int]@ == all[k as int]);
            }
            out.append(rows[k].as_str());
            out.append("\n");
            k = k + 1;
        }
        assert(all.take(rows.len() as int) =~= all);
        out
    }
}

/// How many of the first `m` highlights fall on the line at offset `i`.
pub open spec fn count_on(hs: Seq<HighlightView>, i: nat, m: nat) -> nat
    decreases m,
{
    if m == 0 {
        0
    } else {
        count_on(hs, i, (m - 1) as nat) + if hs[m - 1].line == i {
            1nat
        } else {
            0nat
        }
    }
}

/// How many of the first `m` highlights fall on one of the first `k` lines.
pub open spec fn count_below(hs: Seq<HighlightView>, k: nat, m: nat) -> nat
    decreases m,
{
    if m == 0 {
        0
    } else {
        count_below(hs, k, (m - 1) as nat) + if hs[m - 1].line < k {
            1nat
        } else {
            0nat
        }
    }
}

/// The index, among all rows, of the row that shows the source line at offset `i`.
pub open spec fn line_row_index(c: ContextView, i: nat) -> int {
    (header_rows(c).len() + before_rows(c).len() + body_rows(c, i).len()) as int
}

/// A gutter shows only spaces, digits and signs.
pub open spec fn gutter_char(ch: char) -> bool {
    ch == ' ' || ('0' <= ch && ch <= '9') || ch == '-' || ch == '+'
}

/// `row` begins with a gutter cell of width `w` followed by a space.
pub open spec fn gutter_row(row: Seq<char>, w: nat) -> bool {
    &&& row.len() > w
    &&& row[w as int] == ' '
    &&& forall|j: int| 0 <= j < w ==> gutter_char(#[trigger] row[j])
}

proof fn lemma_highlight_rows_len(c: ContextView, i: nat, m: nat)
    requires
        m <= c.highlights.len(),
    ensures
        highlight_rows(c, i, m).len() == count_on(c.highlights, i, m),
    decreases m,
{
    if m > 0 {
        lemma_highlight_rows_len(c, i, (m - 1) as nat);
    }
}

proof fn lemma_count_below_step(hs: Seq<HighlightView>, k: nat, m: nat)
    requires
        m <= hs.len(),
    ensures
        count_below(hs, k + 1, m) == count_below(hs, k, m) + count_on(hs, k, m),
    decreases m,
{
    if m > 0 {
        lemma_count_below_step(hs, k, (m - 1) as nat);
    }
}

proof fn lemma_count_below_zero(hs: Seq<HighlightView>, m: nat)
    requires
        m <= hs.len(),
    ensures
        count_below(hs, 0, m) == 0,
    decreases m,
{
    if m > 0 {
        lemma_count_below_zero(hs, (m - 1) as nat);
    }
}

proof fn lemma_body_len(c: ContextView, k: nat)
    ensures
        body_rows(c, k).len() == k + count_below(c.highlights, k, c.highlights.len()),
    decreases k,
{
    if k > 0 {
        lemma_body_len(c, (k - 1) as nat);
        lemma_highlight_rows_len(c, (k - 1) as nat, c.highlights.len());
        lemma_count_below_step(c.highlights, (k - 1) as nat, c.highlights.len());
    } else {
        lemma_count_below_zero(c.highlights, c.highlights.len());
    }
}

proof fn lemma_extra_len(c: ContextView, start: int, extra: Seq<Seq<char>>, k: nat)
    ensures
        extra_rows(c, start, extra, k).len() == k,
    decreases k,
{
    if k > 0 {
        lemma_extra_len(c, start, extra, (k - 1) as nat);
    }
}

proof fn lemma_body_prefix(c: ContextView, a: nat, k: nat)
    requires
        a <= k,
    ensures
        body_rows(c, a).len() <= body_rows(c, k).len(),
        body_rows(c, k).subrange(0, body_rows(c, a).len() as int) == body_rows(c, a),
    decreases k,
{
    if a < k {
        lemma_body_prefix(c, a, (k - 1) as nat);
        let prev = body_rows(c, (k - 1) as nat);
        assert(body_rows(c, k).subrange(0, prev.len() as int) =~= prev);
        assert(body_rows(c, k).subrange(0, body_rows(c, a).len() as int) =~= prev.subrange(
            0,
            body_rows(c, a).len() as int,
        ));
    } else {
        assert(body_rows(c, k).subrange(0, body_rows(c, a).len() as int) =~= body_rows(c, a));
    }
}

/// The rows of line `i`'s block stand, in order, right after the rows of the lines
/// before it.
proof fn lemma_block_rows(c: ContextView, i: nat, j: int)
    requires
        i < c.lines.len(),
        0 <= j < line_block(c, i).len(),
    ensures
        line_row_index(c, i) + j < context_rows(c).len(),
        context_rows(c)[line_row_index(c, i) + j] == line_block(c, i)[j],
{
    let n = c.lines.len();
    lemma_body_prefix(c, i + 1, n);
    let b = body_rows(c, n);
    let bi = body_rows(c, i);
    let top = header_rows(c) + before_rows(c);
    assert(body_rows(c, i + 1) == bi + line_block(c, i));
    assert(b.subrange(0, body_rows(c, i + 1).len() as int)[bi.len() + j] == line_block(c, i)[j]);
    assert(context_rows(c) == top + b + after_rows(c) + seq![footer_row(c)]);
    assert(context_rows(c)[top.len() + bi.len() + j] == b[bi.len() + j]);
}

proof fn lemma_highlight_row_at(c: ContextView, i: nat, j: nat, m: nat)
    requires
        j < m <= c.highlights.len(),
        c.highlights[j as int].line == i,
    ensures
        count_on(c.highlights, i, j) < highlight_rows(c, i, m).len(),
        highlight_rows(c, i, m)[count_on(c.highlights, i, j) as int] == underline_row(
            c,
            c.highlights[j as int],
        ),
    decreases m,
{
    lemma_highlight_rows_len(c, i, (m - 1) as nat);
    if j < m - 1 {
        lemma_highlight_row_at(c, i, j, (m - 1) as nat);
    }
}

/// A context without a file name renders as an opening connector, one row for each
/// line shown (before, main and after lines) and one for each highlight that falls on
/// one of the main lines, then a closing connector.
pub proof fn lemma_block_shape(c: ContextView)
    requires
        c.file is None,
    ensures
        context_rows(c).len() == 2 + c.before.len() + c.lines.len() + c.after.len()
            + count_below(c.highlights, c.lines.len(), c.highlights.len()),
        context_rows(c)[0] == blank_cell(c) + " "@ + in_blue("╷"@),
        context_rows(c).last() == blank_cell(c) + " "@ + in_blue("╵"@),
{
    lemma_body_len(c, c.lines.len());
    lemma_extra_len(c, first_pos(c), c.before, c.before.len());
    lemma_extra_len(c, c.lines.len() as int, c.after, c.after.len());
}

/// With a known first line number `l`, the line at offset `i` has a row of its own
/// whose gutter shows `l + i`, and the rows of the lines come in their order.
pub proof fn lemma_line_numbers(c: ContextView, l: nat, i: nat)
    requires
        c.linenumber == Some(l),
        i < c.lines.len(),
    ensures
        0 <= line_row_index(c, i) < context_rows(c).len(),
        context_rows(c)[line_row_index(c, i)] == spaces(
            (gutter_width(c) - decimal(l + i).len()) as nat,
        ) + decimal(l + i) + " "@ + in_blue("│"@) + " "@ + c.lines[i as int],
        i + 1 < c.lines.len() ==> line_row_index(c, i) < line_row_index(c, i + 1),
{
    lemma_block_rows(c, i, 0);
    assert(line_label(c, i as int) == decimal(l + i));
    if i + 1 < c.lines.len() {
        assert(body_rows(c, i + 1) == body_rows(c, i) + line_block(c, i));
    }
}

/// A highlight on the line at offset `i` is underlined in a row below that line's
/// row, after the rows of earlier highlights on the same line (right below it when
/// there are none): `column` spaces after the gutter, then `length` underline
/// characters in the highlight's colour.
pub proof fn lemma_underline_placement(c: ContextView, j: nat)
    requires
        j < c.highlights.len(),
        c.highlights[j as int].line < c.lines.len(),
    ensures
        ({
            let h = c.highlights[j as int];
            let k = line_row_index(c, h.line) + 1 + count_on(c.highlights, h.line, j);
            &&& k < context_rows(c).len()
            &&& context_rows(c)[k] == blank_cell(c) + " "@ + in_blue("·"@) + " "@ + spaces(
                h.column,
            ) + h.level.paint(fill_of('─', h.length)) + h.level.paint(note_text(h))
        }),
{
    let h = c.highlights[j as int];
    lemma_highlight_row_at(c, h.line, j, c.highlights.len());
    lemma_block_rows(c, h.line, 1 + count_on(c.highlights, h.line, j) as int);
}

proof fn lemma_gutter_extend(p: Seq<char>, q: Seq<char>, w: nat)
    requires
        gutter_row(p, w),
    ensures
        gutter_row(p + q, w),
{
    assert forall|j: int| 0 <= j < w implies gutter_char(#[trigger] (p + q)[j]) by {
        assert((p + q)[j] == p[j]);
    }
}

proof fn lemma_gutter_cell(cell: Seq<char>, w: nat)
    requires
        cell.len() == w,
        forall|j: int| 0 <= j < w ==> gutter_char(#[trigger] cell[j]),
    ensures
        gutter_row(cell + " "@, w),
{
    reveal_strlit(" ");
    let r = cell + " "@;
    assert forall|j: int| 0 <= j < w implies gutter_char(#[trigger] r[j]) by {
        assert(r[j] == cell[j]);
    }
}

proof fn lemma_blank_row(c: ContextView, rest: Seq<char>)
    ensures
        gutter_row(blank_cell(c) + " "@ + rest, gutter_width(c)),
{
    lemma_gutter_cell(blank_cell(c), gutter_width(c));
    lemma_gutter_extend(blank_cell(c) + " "@, rest, gutter_width(c));
}

proof fn lemma_signed_chars(sign: Seq<char>, n: nat)
    requires
        sign == "-"@ || sign == "+"@,
    ensures
        forall|j: int| 0 <= j < (sign + decimal(n)).len() ==> gutter_char(#[trigger] (sign + decimal(
            n,
        ))[j]),
{
    reveal_strlit("-");
    reveal_strlit("+");
    lemma_decimal_digits(n);
    let s = sign + decimal(n);
    assert forall|j: int| 0 <= j < s.len() implies gutter_char(#[trigger] s[j]) by {
        if j >= 1 {
            assert(s[j] == decimal(n)[j - 1]);
        }
    }
}

proof fn lemma_label_chars(c: ContextView, pos: int)
    ensures
        forall|j: int| 0 <= j < line_label(c, pos).len() ==> gutter_char(
            #[trigger] line_label(c, pos)[j],
        ),
{
    match c.linenumber {
        Some(l) => {
            if l + pos >= 0 {
                lemma_decimal_digits((l + pos) as nat);
            } else {
                lemma_signed_chars("-"@, (-(l + pos)) as nat);
            }
        },
        None => {
            if pos < 0 {
                lemma_signed_chars("-"@, (-pos) as nat);
            } else if pos < c.lines.len() {
                lemma_decimal_digits(pos as nat);
            } else {
                lemma_signed_chars("+"@, pos as nat);
            }
        },
    }
}

/// A row that shows a line at a position in the block starts with a gutter cell.
proof fn lemma_text_row_gutter(c: ContextView, pos: int, text: Seq<char>)
    requires
        first_pos(c) <= pos < first_pos(c) + shown_count(c),
    ensures
        gutter_row(text_row(c, pos, text), gutter_width(c)),
{
    let w = gutter_width(c);
    let label = line_label(c, pos);
    lemma_widest_bound(c, shown_count(c), (pos - first_pos(c)) as nat);
    lemma_label_chars(c, pos);
    let cell = number_cell(c, pos);
    assert forall|j: int| 0 <= j < w implies gutter_char(#[trigger] cell[j]) by {
        let pad = (w - label.len()) as nat;
        if j >= pad {
            assert(cell[j] == label[j - pad]);
        }
    }
    lemma_gutter_cell(cell, w);
    lemma_gutter_extend(cell + " "@, in_blue("│"@), w);
    lemma_gutter_extend(cell + " "@ + in_blue("│"@), " "@, w);
    lemma_gutter_extend(cell + " "@ + in_blue("│"@) + " "@, text, w);
}

proof fn lemma_extra_gutters(c: ContextView, start: int, extra: Seq<Seq<char>>, k: nat)
    requires
        first_pos(c) <= start,
        start + k <= first_pos(c) + shown_count(c),
    ensures
        forall|r: int|
            0 <= r < extra_rows(c, start, extra, k).len() ==> gutter_row(
                #[trigger] extra_rows(c, start, extra, k)[r],
                gutter_width(c),
            ),
    decreases k,
{
    if k > 0 {
        let w = gutter_width(c);
        lemma_extra_gutters(c, start, extra, (k - 1) as nat);
        lemma_text_row_gutter(c, start + k - 1, extra[k - 1]);
        let earlier = extra_rows(c, start, extra, (k - 1) as nat);
        let rows = extra_rows(c, start, extra, k);
        assert forall|r: int| 0 <= r < rows.len() implies gutter_row(#[trigger] rows[r], w) by {
            if r < earlier.len() {
                assert(rows[r] == earlier[r]);
            }
        }
    }
}

proof fn lemma_highlights_gutters(c: ContextView, i: nat, m: nat)
    requires
        m <= c.highlights.len(),
    ensures
        forall|r: int|
            0 <= r < highlight_rows(c, i, m).len() ==> gutter_row(
                #[trigger] highlight_rows(c, i, m)[r],
                gutter_width(c),
            ),
    decreases m,
{
    if m > 0 {
        lemma_highlights_gutters(c, i, (m - 1) as nat);
        let h = c.highlights[m - 1];
        let w = gutter_width(c);
        lemma_blank_row(c, in_blue("·"@));
        let p = blank_cell(c) + " "@ + in_blue("·"@);
        lemma_gutter_extend(p, " "@, w);
        lemma_gutter_extend(p + " "@, spaces(h.column), w);
        lemma_gutter_extend(p + " "@ + spaces(h.column), h.level.paint(fill_of('─', h.length)), w);
        lemma_gutter_extend(
            p + " "@ + spaces(h.column) + h.level.paint(fill_of('─', h.length)),
            h.level.paint(note_text(h)),
            w,
        );
        let earlier = highlight_rows(c, i, (m - 1) as nat);
        let rows = highlight_rows(c, i, m);
        assert forall|r: int| 0 <= r < rows.len() implies gutter_row(#[trigger] rows[r], w) by {
            if r < earlier.len() {
                assert(rows[r] == earlier[r]);
            } else {
                assert(rows[r] == underline_row(c, h));
            }
        }
    }
}

proof fn lemma_body_gutters(c: ContextView, k: nat)
    requires
        k <= c.lines.len(),
    ensures
        forall|r: int|
            0 <= r < body_rows(c, k).len() ==> gutter_row(
                #[trigger] body_rows(c, k)[r],
                gutter_width(c),
            ),
    decreases k,
{
    let w = gutter_width(c);
    if k > 0 {
        let i = (k - 1) as nat;
        lemma_body_gutters(c, i);
        lemma_text_row_gutter(c, i as int, c.lines[i as int]);
        lemma_highlights_gutters(c, i, c.highlights.len());
        let prev = body_rows(c, i);
        let block = line_block(c, i);
        assert forall|r: int| 0 <= r < body_rows(c, k).len() implies gutter_row(
            #[trigger] body_rows(c, k)[r],
            w,
        ) by {
            if r >= prev.len() {
                assert(body_rows(c, k)[r] == block[r - prev.len()]);
                if r > prev.len() {
                    assert(block[r - prev.len()] == highlight_rows(c, i, c.highlights.len())[r
                        - prev.len() - 1]);
                }
            }
        }
    }
}

/// Where every label is a plain number, the widest of the first `k` labels is that
/// of the last of them.
proof fn lemma_widest_plain(c: ContextView, k: nat)
    requires
        c.before.len() == 0,
        c.after.len() == 0 || c.linenumber is Some,
        1 <= k <= shown_count(c),
    ensures
        widest_label(c, k) == decimal((first_number(c) + k - 1) as nat).len(),
    decreases k,
{
    let n = (first_number(c) + k - 1) as nat;
    let pos = first_pos(c) + k - 1;
    assert(pos == k - 1);
    assert(line_label(c, pos) == decimal(n));
    lemma_decimal_len(n);
    let prev = widest_label(c, (k - 1) as nat);
    assert(widest_label(c, k) == if decimal(n).len() > prev {
        decimal(n).len()
    } else {
        prev
    });
    if k > 1 {
        lemma_widest_plain(c, (k - 1) as nat);
        lemma_decimal_len_monotonic((n - 1) as nat, n);
        assert(prev == decimal((n - 1) as nat).len());
    } else {
        assert(prev == 1);
    }
}

/// Every row, numbered or not, starts with a gutter cell of the same width, holding
/// only spaces, digits and signs, followed by a space. Where every label is a plain
/// line number (no lines before the main ones, and a known first line number wherever
/// lines follow them), that width is the number of digits of the largest line number
/// shown, and at least one.
pub proof fn lemma_gutter_width(c: ContextView)
    ensures
        gutter_width(c) >= 1,
        forall|k: int|
            0 <= k < context_rows(c).len() ==> gutter_row(
                #[trigger] context_rows(c)[k],
                gutter_width(c),
            ),
        c.before.len() == 0 && (c.after.len() == 0 || c.linenumber is Some) ==> {
            &&& gutter_width(c) == decimal(max_line_number(c)).len()
            &&& max_line_number(c) < pow10(gutter_width(c))
            &&& gutter_width(c) == 1 || pow10((gutter_width(c) - 1) as nat) <= max_line_number(c)
        },
{
    let w = gutter_width(c);
    lemma_widest_floor(c, shown_count(c));
    lemma_decimal_len(max_line_number(c));
    if c.before.len() == 0 && (c.after.len() == 0 || c.linenumber is Some) {
        if shown_count(c) > 0 {
            lemma_widest_plain(c, shown_count(c));
        }
    }
    lemma_body_gutters(c, c.lines.len());
    lemma_extra_gutters(c, first_pos(c), c.before, c.before.len());
    lemma_extra_gutters(c, c.lines.len() as int, c.after, c.after.len());
    lemma_blank_row(c, in_blue("╵"@));
    lemma_blank_row(c, in_blue("│"@));
    lemma_blank_row(c, in_blue("╷"@));
    if let Some(f) = c.file {
        let p = blank_cell(c) + " "@ + in_blue("╭──"@);
        lemma_blank_row(c, in_blue("╭──"@));
        lemma_gutter_extend(p, "["@, w);
        lemma_gutter_extend(p + "["@, f, w);
        lemma_gutter_extend(p + "["@ + f, location_suffix(c), w);
        lemma_gutter_extend(p + "["@ + f + location_suffix(c), "]"@, w);
    }
    let rows = context_rows(c);
    let h = header_rows(c);
    let bf = before_rows(c);
    let b = body_rows(c, c.lines.len());
    let af = after_rows(c);
    assert(rows == h + bf + b + af + seq![footer_row(c)]);
    assert forall|k: int| 0 <= k < rows.len() implies gutter_row(#[trigger] rows[k], w) by {
        if k >= h.len() && k < h.len() + bf.len() {
            assert(rows[k] == bf[k - h.len()]);
        } else if k >= h.len() + bf.len() && k < h.len() + bf.len() + b.len() {
            assert(rows[k] == b[k - h.len() - bf.len()]);
        } else if k >= h.len() + bf.len() + b.len() && k < h.len() + bf.len() + b.len()
            + af.len() {
            assert(rows[k] == af[k - h.len() - bf.len() - b.len()]);
        }
    }
}

proof fn lemma_widest_floor(c: ContextView, k: nat)
    ensures
        widest_label(c, k) >= 1,
    decreases k,
{
    if k > 0 {
        lemma_widest_floor(c, (k - 1) as nat);
    }
}

} // verus!
