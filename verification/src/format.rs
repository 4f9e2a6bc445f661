//! How one matching line is written.
//!
//! A line reads `  1000:8   Hello, Wei~`: the line number at the right of a
//! field of six, a colon, the column of the match at the left of a field of
//! three, a space, and the line itself with the match in colour.

use core::ops::Range;
use vstd::prelude::*;
use vstd::utf8::*;
use crate::paint::{framed, lemma_painted_without_escape, paint_tracked, tinted, Tint};
use crate::pattern::is_span_of;
use crate::text::{
    decimal, decimal_string, left_aligned, lemma_decimal_is_digits, pad_left, pad_right,
    right_aligned,
};

verus! {

/// The width of the field that holds the line number.
pub const NUMBER_WIDTH: usize = 6;

/// The width of the field that holds the column.
pub const COLUMN_WIDTH: usize = 3;

/// The characters that the bytes `from..to` of the UTF-8 encoding of `text`
/// stand for.
pub open spec fn text_between(text: Seq<char>, from: int, to: int) -> Seq<char> {
    decode_utf8(encode_utf8(text).subrange(from, to))
}

/// A line in which the pattern matched: its number in the file, counted from
/// one, its text, and the byte offsets of the match in that text.
pub struct FileMatch {
    pub line_number: nat,
    pub match_start: int,
    pub match_end: int,
    pub line_text: Seq<char>,
}

impl FileMatch {
    /// The offsets cut the line between characters.
    pub open spec fn wf(self) -> bool {
        is_span_of(self.line_text, self.match_start, self.match_end)
    }

    /// The text in front of the match.
    pub open spec fn before(self) -> Seq<char> {
        text_between(self.line_text, 0, self.match_start)
    }

    /// The matched text.
    pub open spec fn matched(self) -> Seq<char> {
        text_between(self.line_text, self.match_start, self.match_end)
    }

    /// The text behind the match.
    pub open spec fn after(self) -> Seq<char> {
        text_between(self.line_text, self.match_end, encode_utf8(self.line_text).len() as int)
    }

    /// The column of the match: one more than the number of characters, not
    /// bytes, in front of it.
    pub open spec fn column(self) -> nat {
        self.before().len() + 1
    }
}

/// Which of the three coloured parts of a line `colored` did paint.
pub struct LineColouring {
    pub number: bool,
    pub column: bool,
    pub matched: bool,
}

/// The line that reports `m`, under the colouring `c`.
pub open spec fn line_text(m: FileMatch, c: LineColouring) -> Seq<char> {
    tinted(right_aligned(decimal(m.line_number), NUMBER_WIDTH as nat), Tint::Blue, c.number)
        + seq![':'] + tinted(
        left_aligned(decimal(m.column()), COLUMN_WIDTH as nat),
        Tint::Cyan,
        c.column,
    ) + seq![' '] + m.before() + tinted(m.matched(), Tint::Red, c.matched) + m.after()
}

/// A position between characters of a text is also one of every prefix that
/// reaches it.
pub proof fn lemma_boundary_in_prefix(bytes: Seq<u8>, at: int, end: int)
    requires
        valid_utf8(bytes),
        0 <= at <= end <= bytes.len(),
        is_char_boundary(bytes, at),
        is_char_boundary(bytes, end),
    ensures
        valid_utf8(bytes.subrange(0, end)),
        is_char_boundary(bytes.subrange(0, end), at),
{
    let prefix = bytes.subrange(0, end);
    valid_utf8_split(bytes, end);
    if at == end {
        is_char_boundary_start_end_of_seq(prefix);
    } else {
        is_char_boundary_iff_not_is_continuation_byte(bytes, at);
        is_char_boundary_iff_not_is_continuation_byte(prefix, at);
    }
}

/// The three parts into which a match cuts its line make up the line again.
pub proof fn lemma_parts_make_line(m: FileMatch)
    requires
        m.wf(),
    ensures
        m.before() + m.matched() + m.after() == m.line_text,
{
    let bytes = encode_utf8(m.line_text);
    let head = bytes.subrange(0, m.match_end);
    encode_utf8_valid_utf8(m.line_text);
    encode_utf8_decode_utf8(m.line_text);
    lemma_boundary_in_prefix(bytes, m.match_start, m.match_end);
    decode_utf8_split(bytes, m.match_end);
    decode_utf8_split(head, m.match_start);
    assert(head.subrange(0, m.match_start) =~= bytes.subrange(0, m.match_start));
    assert(head.subrange(m.match_start, head.len() as int) =~= bytes.subrange(
        m.match_start,
        m.match_end,
    ));
}

/// The number field and the column field hold digits and spaces only, so in
/// colour each is its text between the code of its colour and the reset.
pub proof fn lemma_fields_are_framed(m: FileMatch)
    ensures
        tinted(right_aligned(decimal(m.line_number), NUMBER_WIDTH as nat), Tint::Blue, true)
            == framed(Tint::Blue, right_aligned(decimal(m.line_number), NUMBER_WIDTH as nat)),
        tinted(left_aligned(decimal(m.column()), COLUMN_WIDTH as nat), Tint::Cyan, true) == framed(
            Tint::Cyan,
            left_aligned(decimal(m.column()), COLUMN_WIDTH as nat),
        ),
{
    lemma_decimal_is_digits(m.line_number);
    lemma_decimal_is_digits(m.column());
    lemma_painted_without_escape(
        Tint::Blue,
        right_aligned(decimal(m.line_number), NUMBER_WIDTH as nat),
    );
    lemma_painted_without_escape(
        Tint::Cyan,
        left_aligned(decimal(m.column()), COLUMN_WIDTH as nat),
    );
}

/// Writes the report line for a match at bytes `range` of `line`, which is
/// line `lineno` of its file.
pub fn format_line(line: &str, lineno: usize, range: Range<usize>) -> (out: String)
    requires
        is_span_of(line@, range.start as int, range.end as int),
    ensures
        exists|c: LineColouring|
            out@ == #[trigger] line_text(
                FileMatch {
                    line_number: lineno as nat,
                    match_start: range.start as int,
                    match_end: range.end as int,
                    line_text: line@,
                },
                c,
            ),
{
    let ghost m = FileMatch {
        line_number: lineno as nat,
        match_start: range.start as int,
        match_end: range.end as int,
        line_text: line@,
    };
    let ghost bytes = encode_utf8(line@);
    proof {
        encode_utf8_valid_utf8(line@);
        lemma_boundary_in_prefix(bytes, range.start as int, range.end as int);
    }
    let (head, after) = line.split_at(range.end);
    let (before, matched) = head.split_at(range.start);
    proof {
        encode_utf8_decode_utf8(head@);
        encode_utf8_decode_utf8(after@);
        encode_utf8_decode_utf8(before@);
        encode_utf8_decode_utf8(matched@);
        assert(bytes.subrange(0, range.end as int).subrange(0, range.start as int)
            =~= bytes.subrange(0, range.start as int));
        assert(bytes.subrange(0, range.end as int).subrange(
            range.start as int,
            range.end as int,
        ) =~= bytes.subrange(range.start as int, range.end as int));
        assert(before@ == m.before());
        assert(matched@ == m.matched());
        assert(after@ == m.after());
    }
    let column: u128 = before.unicode_len() as u128 + 1;
    let number_field = pad_left(decimal_string(lineno as u128).as_str(), NUMBER_WIDTH);
    let column_field = pad_right(decimal_string(column).as_str(), COLUMN_WIDTH);
    let (number, Ghost(number_on)) = paint_tracked(number_field.as_str(), Tint::Blue);
    let (col, Ghost(column_on)) = paint_tracked(column_field.as_str(), Tint::Cyan);
    let (hit, Ghost(matched_on)) = paint_tracked(matched, Tint::Red);
    let mut out = number;
    proof {
        reveal_strlit(":");
        reveal_strlit(" ");
    }
    out.append(":");
    out.append(col.as_str());
    out.append(" ");
    out.append(before);
    out.append(hit.as_str());
    out.append(after);
    proof {
        let c = LineColouring { number: number_on, column: column_on, matched: matched_on };
        assert(out@ =~= line_text(m, c));
    }
    out
}

} // verus!
