//! Terminal colours.

use vstd::prelude::*;
use colored::Color;
use colored::Colorize;

verus! {

/// The colours a report uses.
#[derive(Clone, Copy, Debug, PartialEq, Eq, Structural)]
pub enum Tint {
    /// Line numbers.
    Blue,
    /// Column numbers.
    Cyan,
    /// The matched text.
    Red,
    /// File paths.
    Green,
}

/// The escape sequence with which `colored` begins a foreground colour.
pub open spec fn colour_code(tint: Tint) -> Seq<char> {
    match tint {
        Tint::Blue => seq!['\u{1b}', '[', '3', '4', 'm'],
        Tint::Cyan => seq!['\u{1b}', '[', '3', '6', 'm'],
        Tint::Red => seq!['\u{1b}', '[', '3', '1', 'm'],
        Tint::Green => seq!['\u{1b}', '[', '3', '2', 'm'],
    }
}

/// The escape sequence with which `colored` ends every colour.
pub open spec fn reset_code() -> Seq<char> {
    seq!['\u{1b}', '[', '0', 'm']
}

/// `text` holds the reset sequence somewhere.
pub open spec fn holds_reset(text: Seq<char>) -> bool {
    exists|i: int|
        0 <= i && i + 4 <= text.len() && #[trigger] text.subrange(i, i + 4) == reset_code()
}

/// `text` between the sequence that begins the colour `tint` and the reset.
pub open spec fn framed(tint: Tint, text: Seq<char>) -> Seq<char> {
    colour_code(tint) + text + reset_code()
}

/// The text that `colored` writes for `text` in the foreground colour `tint`
/// while colouring is switched on. It matters only for a text that holds a
/// reset sequence of its own, which `colored` mends in a way that is not
/// spelled out here; any other text is simply framed.
pub uninterp spec fn ansi_painted(tint: Tint, text: Seq<char>) -> Seq<char>;

/// `text` in the colour `tint`.
pub open spec fn painted(tint: Tint, text: Seq<char>) -> Seq<char> {
    if holds_reset(text) {
        ansi_painted(tint, text)
    } else {
        framed(tint, text)
    }
}

/// `text` as it appears in a report: painted where colouring is `on`, bare
/// where it is off.
pub open spec fn tinted(text: Seq<char>, tint: Tint, on: bool) -> Seq<char> {
    if on {
        painted(tint, text)
    } else {
        text
    }
}

/// A text without an escape character holds no reset sequence, so in colour
/// it is framed.
pub proof fn lemma_painted_without_escape(tint: Tint, text: Seq<char>)
    requires
        forall|i: int| 0 <= i < text.len() ==> text[i] != '\u{1b}',
    ensures
        !holds_reset(text),
        painted(tint, text) == framed(tint, text),
{
    assert forall|i: int| 0 <= i && i + 4 <= text.len() implies #[trigger] text.subrange(i, i + 4)
        != reset_code() by {
        assert(text.subrange(i, i + 4)[0] == text[i]);
        assert(reset_code()[0] == '\u{1b}');
    }
}

/// Gives `text` the colour `tint` with `colored::Colorize::color` and renders
/// the coloured string.
///
/// Whether `colored` colours at all is decided outside this library, by the
/// terminal, the environment and `colored::control`. So the contract leaves
/// both outcomes open: the result is the bare text or the coloured one. It
/// takes for granted that this decision stands while the one call runs.
///
/// The coloured text is `ansi_painted`. Where `text` holds no reset sequence
/// `colored` writes three pieces, which the second clause spells out: the
/// code of the colour, the text unchanged, and the reset.
#[verifier::external_body]
pub(crate) fn paint(text: &str, tint: Tint) -> (out: String)
    ensures
        out@ == text@ || out@ == ansi_painted(tint, text@),
        !holds_reset(text@) ==> out@ == text@ || out@ == colour_code(tint) + text@ + reset_code(),
{
    let color = match tint {
        Tint::Blue => Color::Blue,
        Tint::Cyan => Color::Cyan,
        Tint::Red => Color::Red,
        Tint::Green => Color::Green,
    };
    text.color(color).to_string()
}

/// Paints `text` and tells, as a ghost value, which way `colored` decided.
pub(crate) fn paint_tracked(text: &str, tint: Tint) -> (r: (String, Ghost<bool>))
    ensures
        r.0@ == tinted(text@, tint, r.1@),
{
    let out = paint(text, tint);
    let ghost on = out@ != text@;
    (out, Ghost(on))
}

} // verus!
