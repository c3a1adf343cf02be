use ansi_term::Colour::{Blue, Green, Red, Yellow};
use vstd::prelude::*;

verus! {

/// What a terminal receives for `text` in the plain foreground colour with ANSI code
/// `code`: the escape sequence that selects the colour, the text, then the reset sequence.
pub open spec fn painted(code: Seq<char>, text: Seq<char>) -> Seq<char> {
    seq!['\u{1b}', '['] + code + seq!['m'] + text + seq!['\u{1b}', '[', '0', 'm']
}

pub open spec fn in_red(text: Seq<char>) -> Seq<char> {
    painted(seq!['3', '1'], text)
}

pub open spec fn in_green(text: Seq<char>) -> Seq<char> {
    painted(seq!['3', '2'], text)
}

pub open spec fn in_yellow(text: Seq<char>) -> Seq<char> {
    painted(seq!['3', '3'], text)
}

pub open spec fn in_blue(text: Seq<char>) -> Seq<char> {
    painted(seq!['3', '4'], text)
}

/// Relies on ansi_term's `Colour::Red.paint` and the `Display` of the painted string:
/// for a style that is only a foreground colour it writes `ESC[31m`, the text, `ESC[0m`.
#[verifier::external_body]
pub(crate) fn red(input: &str) -> (r: String)
    ensures
        r@ == in_red(input@),
{
    Red.paint(input).to_string()
}

/// Relies on ansi_term's `Colour::Green.paint` and its `Display`: `ESC[32m`, the text, `ESC[0m`.
#[verifier::external_body]
pub(crate) fn green(input: &str) -> (r: String)
    ensures
        r@ == in_green(input@),
{
    Green.paint(input).to_string()
}

/// Relies on ansi_term's `Colour::Yellow.paint` and its `Display`: `ESC[33m`, the text, `ESC[0m`.
#[verifier::external_body]
pub(crate) fn yellow(input: &str) -> (r: String)
    ensures
        r@ == in_yellow(input@),
{
    Yellow.paint(input).to_string()
}

/// Relies on ansi_term's `Colour::Blue.paint` and its `Display`: `ESC[34m`, the text, `ESC[0m`.
#[verifier::external_body]
pub(crate) fn blue(input: &str) -> (r: String)
    ensures
        r@ == in_blue(input@),
{
    Blue.paint(input).to_string()
}

} // verus!
