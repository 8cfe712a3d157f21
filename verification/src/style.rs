//! Terminal styling, done by the `colored` crate.
//!
//! `colored` decides for the whole process whether it styles text at all: it
//! looks at the environment, at whether standard output is a terminal, and at
//! an override that the program may set. So every function here may hand its
//! text back untouched, and its contract allows for that.
use crate::decimal::decimal;
use crate::text::{escape_free, lemma_occurs_in_itself, lemma_occurs_within, occurs_in};
use colored::Colorize;
use vstd::prelude::*;

verus! {

/// The code of red text.
pub const RED: &'static str = "31";

/// The code of black text on a bright yellow background: `colored` writes
/// the background first.
pub const BLACK_ON_BRIGHT_YELLOW: &'static str = "103;30";

/// The code of black text on a bright blue background.
pub const BLACK_ON_BRIGHT_BLUE: &'static str = "104;30";

/// The code of black text on a bright red background.
pub const BLACK_ON_BRIGHT_RED: &'static str = "101;30";

/// The code of black text on a bright green background.
pub const BLACK_ON_BRIGHT_GREEN: &'static str = "102;30";

/// The code of black text on a bright magenta background.
pub const BLACK_ON_BRIGHT_MAGENTA: &'static str = "105;30";

/// What follows a background code to make the text on it black.
pub const WITH_BLACK_TEXT: &'static str = ";30";

/// The sequence that switches every style off.
pub open spec fn reset() -> Seq<char> {
    seq!['\x1B', '[', '0', 'm']
}

/// The sequence that switches the style with the given code on.
pub open spec fn opening(code: Seq<char>) -> Seq<char> {
    seq!['\x1B', '['] + code + seq!['m']
}

/// `text` with `again` put in behind each reset sequence that it holds, so
/// that the style goes on after it.
pub open spec fn reinstated(text: Seq<char>, again: Seq<char>) -> Seq<char>
    decreases text.len(),
{
    if text.len() == 0 {
        text
    } else if reset().is_prefix_of(text) {
        reset() + again + reinstated(text.skip(4), again)
    } else {
        seq![text[0]] + reinstated(text.skip(1), again)
    }
}

/// `text` in the style with the given code: switched on in front, kept on
/// through the text, switched off behind.
pub open spec fn marked(code: Seq<char>, text: Seq<char>) -> Seq<char> {
    opening(code) + reinstated(text, opening(code)) + reset()
}

/// What a styling call may hand back for `text`: the text as it is, where
/// styling is off, or the text marked with `code`.
pub open spec fn styled(out: Seq<char>, code: Seq<char>, text: Seq<char>) -> bool {
    out == text || out == marked(code, text)
}

/// The background code of the basic colour that `colored` falls back to for
/// the colour `(r, g, b)` where the terminal does not announce 24-bit colour.
pub uninterp spec fn nearest_basic_background(r: u8, g: u8, b: u8) -> Seq<char>;

/// The background code of the 24-bit colour `(r, g, b)`.
pub open spec fn truecolor_background(r: u8, g: u8, b: u8) -> Seq<char> {
    "48;2;"@ + decimal(r as nat) + ";"@ + decimal(g as nat) + ";"@ + decimal(b as nat)
}

/// Red text. Calls `Colorize::red` on the text and renders the outcome with
/// `to_string`, which gives the text itself where styling is off and
/// otherwise the text between the sequence for foreground 31 and a reset.
#[verifier::external_body]
pub(crate) fn red(text: &str) -> (out: String)
    ensures
        styled(out@, RED@, text@),
{
    text.red().to_string()
}

/// Black text on bright yellow. Calls `Colorize::black` and
/// `Colorize::on_bright_yellow` and renders the outcome with `to_string`,
/// which gives the text itself where styling is off and otherwise the text
/// between the sequence for background 103 and foreground 30 and a reset.
#[verifier::external_body]
pub(crate) fn black_on_bright_yellow(text: &str) -> (out: String)
    ensures
        styled(out@, BLACK_ON_BRIGHT_YELLOW@, text@),
{
    text.black().on_bright_yellow().to_string()
}

/// Black text on bright blue. Calls `Colorize::black` and
/// `Colorize::on_bright_blue` and renders the outcome with `to_string`: the
/// text itself where styling is off, and otherwise the text between the
/// sequence for background 104 and foreground 30 and a reset.
#[verifier::external_body]
pub(crate) fn black_on_bright_blue(text: &str) -> (out: String)
    ensures
        styled(out@, BLACK_ON_BRIGHT_BLUE@, text@),
{
    text.black().on_bright_blue().to_string()
}

/// Black text on bright red. Calls `Colorize::black` and
/// `Colorize::on_bright_red` and renders the outcome with `to_string`: the
/// text itself where styling is off, and otherwise the text between the
/// sequence for background 101 and foreground 30 and a reset.
#[verifier::external_body]
pub(crate) fn black_on_bright_red(text: &str) -> (out: String)
    ensures
        styled(out@, BLACK_ON_BRIGHT_RED@, text@),
{
    text.black().on_bright_red().to_string()
}

/// Black text on bright green. Calls `Colorize::black` and
/// `Colorize::on_bright_green` and renders the outcome with `to_string`: the
/// text itself where styling is off, and otherwise the text between the
/// sequence for background 102 and foreground 30 and a reset.
#[verifier::external_body]
pub(crate) fn black_on_bright_green(text: &str) -> (out: String)
    ensures
        styled(out@, BLACK_ON_BRIGHT_GREEN@, text@),
{
    text.black().on_bright_green().to_string()
}

/// Black text on bright magenta. Calls `Colorize::black` and
/// `Colorize::on_bright_magenta` and renders the outcome with `to_string`: the
/// text itself where styling is off, and otherwise the text between the
/// sequence for background 105 and foreground 30 and a reset.
#[verifier::external_body]
pub(crate) fn black_on_bright_magenta(text: &str) -> (out: String)
    ensures
        styled(out@, BLACK_ON_BRIGHT_MAGENTA@, text@),
{
    text.black().on_bright_magenta().to_string()
}

/// Black text on a 24-bit background. Calls `Colorize::black` and
/// `Colorize::on_truecolor` and renders the outcome with `to_string`: the
/// text itself where styling is off. Where it is on, `colored` writes the
/// 24-bit background code if the environment announces such colours, and
/// otherwise the code of the basic colour that lies nearest to the one asked
/// for; foreground 30 and a reset follow as before.
#[verifier::external_body]
pub(crate) fn black_on_truecolor(text: &str, r: u8, g: u8, b: u8) -> (out: String)
    ensures
        styled(out@, truecolor_background(r, g, b) + WITH_BLACK_TEXT@, text@) || out@ == marked(
            nearest_basic_background(r, g, b) + WITH_BLACK_TEXT@,
            text@,
        ),
{
    text.black().on_truecolor(r, g, b).to_string()
}

/// Behind each reset the style comes again, so the text only grows.
pub proof fn lemma_reinstated_grows(text: Seq<char>, again: Seq<char>)
    ensures
        reinstated(text, again).len() >= text.len(),
    decreases text.len(),
{
    if text.len() == 0 {
    } else if reset().is_prefix_of(text) {
        lemma_reinstated_grows(text.skip(4), again);
    } else {
        lemma_reinstated_grows(text.skip(1), again);
    }
}

/// A marked text is longer than the text itself: the mark can be seen.
pub proof fn lemma_marked_differs(code: Seq<char>, text: Seq<char>)
    ensures
        marked(code, text).len() >= text.len() + code.len() + 7,
        marked(code, text) != text,
{
    lemma_reinstated_grows(text, opening(code));
}

/// A text without an escape character holds no reset, so nothing is put
/// into it.
pub proof fn lemma_reinstated_escape_free(text: Seq<char>, again: Seq<char>)
    requires
        escape_free(text),
    ensures
        reinstated(text, again) == text,
    decreases text.len(),
{
    if text.len() > 0 {
        assert(!reset().is_prefix_of(text)) by {
            if reset().is_prefix_of(text) {
                assert(text[0] == reset()[0]);
            }
        }
        lemma_reinstated_escape_free(text.skip(1), again);
        assert(seq![text[0]] + text.skip(1) =~= text);
    }
}

/// A text without an escape character stands unbroken in its marked form,
/// between the opening sequence and the reset.
pub proof fn lemma_marked_escape_free(code: Seq<char>, text: Seq<char>)
    requires
        escape_free(text),
    ensures
        marked(code, text) == opening(code) + text + reset(),
        occurs_in(text, marked(code, text)),
{
    lemma_reinstated_escape_free(text, opening(code));
    lemma_occurs_in_itself(text);
    lemma_occurs_within(text, opening(code), text, reset());
}

} // verus!
