//! Cutting a byte stream into lines.
//!
//! A line ends at a newline byte, which is not part of it; a carriage return
//! directly before that newline is dropped with it. What follows the last
//! newline is a line too, unless it is empty.

use vstd::prelude::*;
use vstd::slice::*;
use vstd::utf8::*;

verus! {

/// The byte that ends a line.
pub const NEWLINE: u8 = 10;

/// The byte that may precede the newline.
pub const CARRIAGE_RETURN: u8 = 13;

/// The first position at or after `from` that holds a newline, or the length
/// of the input where there is none.
pub open spec fn line_end(input: Seq<u8>, from: int) -> int
    decreases input.len() - from,
{
    if from >= input.len() || input[from] == NEWLINE {
        from
    } else {
        line_end(input, from + 1)
    }
}

/// The bytes of the line that starts at `from` and stops at `end`, where
/// `end` is the position of its newline or the length of the input.
pub open spec fn line_content(input: Seq<u8>, from: int, end: int) -> Seq<u8> {
    if from < end < input.len() && input[end - 1] == CARRIAGE_RETURN {
        input.subrange(from, end - 1)
    } else {
        input.subrange(from, end)
    }
}

/// The lines of `input` from position `from` on, where `from` is the start of
/// a line.
pub open spec fn lines_from(input: Seq<u8>, from: int) -> Seq<Seq<u8>>
    decreases input.len() - from,
{
    if from < 0 || from >= input.len() {
        Seq::empty()
    } else {
        let end = line_end(input, from);
        let line = line_content(input, from, end);
        if end < input.len() {
            proof {
                lemma_line_end_bounds(input, from);
            }
            seq![line] + lines_from(input, end + 1)
        } else {
            seq![line]
        }
    }
}

/// The lines of `input`, first to last.
pub open spec fn lines_of(input: Seq<u8>) -> Seq<Seq<u8>> {
    lines_from(input, 0)
}

/// A line's end lies between its start and the end of the input, and no
/// newline stands before it.
pub proof fn lemma_line_end_bounds(input: Seq<u8>, from: int)
    requires
        0 <= from <= input.len(),
    ensures
        from <= line_end(input, from) <= input.len(),
        line_end(input, from) < input.len() ==> input[line_end(input, from)] == NEWLINE,
        forall|i: int| from <= i < line_end(input, from) ==> input[i] != NEWLINE,
    decreases input.len() - from,
{
    if from < input.len() && input[from] != NEWLINE {
        lemma_line_end_bounds(input, from + 1);
    }
}

/// Finds where the line that starts at `from` ends.
pub fn find_line_end(input: &[u8], from: usize) -> (end: usize)
    requires
        from <= input@.len(),
    ensures
        end == line_end(input@, from as int),
        from <= end <= input@.len(),
{
    let mut at = from;
    while at < input.len() && input[at] != NEWLINE
        invariant
            from <= at <= input@.len(),
            line_end(input@, from as int) == line_end(input@, at as int),
        decreases input@.len() - at,
    {
        at = at + 1;
    }
    at
}

/// Cuts the line that starts at `from` out of `input`. Returns its bytes and
/// the position at which the next line starts.
pub fn cut_line<'a>(input: &'a [u8], from: usize) -> (r: (&'a [u8], usize))
    requires
        from < input@.len(),
    ensures
        r.0@ == line_content(input@, from as int, line_end(input@, from as int)),
        from < r.1 <= input@.len(),
        lines_from(input@, from as int) == seq![r.0@] + lines_from(input@, r.1 as int),
{
    let end = find_line_end(input, from);
    proof {
        lemma_line_end_bounds(input@, from as int);
        if end == input@.len() {
            assert(seq![line_content(input@, from as int, end as int)] + lines_from(
                input@,
                end as int,
            ) =~= seq![line_content(input@, from as int, end as int)]);
        }
    }
    if end == input.len() {
        (slice_subrange(input, from, end), end)
    } else if from < end && input[end - 1] == CARRIAGE_RETURN {
        (slice_subrange(input, from, end - 1), end + 1)
    } else {
        (slice_subrange(input, from, end), end + 1)
    }
}

/// Reads `bytes` as UTF-8 text with `std::str::from_utf8`, which accepts
/// exactly the well-formed encodings and changes no byte.
#[verifier::external_body]
pub(crate) fn utf8_text<'a>(bytes: &'a [u8]) -> (r: Option<&'a str>)
    ensures
        r is Some <==> valid_utf8(bytes@),
        r matches Some(text) ==> text@ == decode_utf8(bytes@),
{
    std::str::from_utf8(bytes).ok()
}

} // verus!
