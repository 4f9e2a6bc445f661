//! Numerals and fixed-width fields.

use vstd::prelude::*;

verus! {

/// The character for one decimal digit.
pub open spec fn digit_char(d: nat) -> char
    recommends
        d < 10,
{
    seq!['0', '1', '2', '3', '4', '5', '6', '7', '8', '9'][d as int]
}

/// The decimal numeral of `n`, without sign or leading zeros.
pub open spec fn decimal(n: nat) -> Seq<char>
    decreases n,
{
    if n < 10 {
        seq![digit_char(n)]
    } else {
        decimal(n / 10).push(digit_char(n % 10))
    }
}

/// `count` spaces.
pub open spec fn spaces(count: nat) -> Seq<char> {
    Seq::new(count, |i: int| ' ')
}

/// `text` moved to the right end of a field of `width` characters. A text
/// that is already that long stays as it is.
pub open spec fn right_aligned(text: Seq<char>, width: nat) -> Seq<char> {
    if text.len() >= width {
        text
    } else {
        spaces((width - text.len()) as nat) + text
    }
}

/// `text` at the left end of a field of `width` characters. A text that is
/// already that long stays as it is.
pub open spec fn left_aligned(text: Seq<char>, width: nat) -> Seq<char> {
    if text.len() >= width {
        text
    } else {
        text + spaces((width - text.len()) as nat)
    }
}

/// A numeral is made of digits, and of one at least.
pub proof fn lemma_decimal_is_digits(n: nat)
    ensures
        decimal(n).len() >= 1,
        forall|i: int| 0 <= i < decimal(n).len() ==> '0' <= #[trigger] decimal(n)[i] <= '9',
    decreases n,
{
    if n >= 10 {
        lemma_decimal_is_digits(n / 10);
    }
}

fn digit_str(d: u8) -> (s: &'static str)
    requires
        d < 10,
    ensures
        s@ == seq![digit_char(d as nat)],
{
    proof {
        reveal_strlit("0");
        reveal_strlit("1");
        reveal_strlit("2");
        reveal_strlit("3");
        reveal_strlit("4");
        reveal_strlit("5");
        reveal_strlit("6");
        reveal_strlit("7");
        reveal_strlit("8");
        reveal_strlit("9");
    }
    let s = if d == 0 {
        "0"
    } else if d == 1 {
        "1"
    } else if d == 2 {
        "2"
    } else if d == 3 {
        "3"
    } else if d == 4 {
        "4"
    } else if d == 5 {
        "5"
    } else if d == 6 {
        "6"
    } else if d == 7 {
        "7"
    } else if d == 8 {
        "8"
    } else {
        "9"
    };
    assert(s@ =~= seq![digit_char(d as nat)]);
    s
}

/// Writes `n` as a decimal numeral.
pub fn decimal_string(n: u128) -> (out: String)
    ensures
        out@ == decimal(n as nat),
{
    let mut out = String::from_str(digit_str((n % 10) as u8));
    let mut rest: u128 = n / 10;
    proof {
        if n >= 10 {
            assert(decimal(n as nat) =~= decimal(rest as nat) + out@);
        }
    }
    while rest > 0
        invariant
            rest > 0 ==> decimal(n as nat) == decimal(rest as nat) + out@,
            rest == 0 ==> decimal(n as nat) == out@,
        decreases rest,
    {
        let digit = digit_str((rest % 10) as u8);
        let ghost before = out@;
        out = String::from_str(digit).concat(out.as_str());
        proof {
            if rest >= 10 {
                assert(decimal(rest as nat) + before =~= decimal((rest / 10) as nat) + out@);
            } else {
                assert(decimal(rest as nat) + before =~= out@);
            }
        }
        rest = rest / 10;
    }
    out
}

/// Makes a string of `count` spaces.
fn spaces_string(count: usize) -> (out: String)
    ensures
        out@ == spaces(count as nat),
{
    let mut out = String::new();
    let mut made: usize = 0;
    proof {
        reveal_strlit(" ");
        assert(out@ =~= spaces(0));
    }
    while made < count
        invariant
            made <= count,
            out@ == spaces(made as nat),
            " "@ == seq![' '],
        decreases count - made,
    {
        out.append(" ");
        made = made + 1;
        assert(out@ =~= spaces(made as nat));
    }
    out
}

/// Pads `text` on the left with spaces up to `width` characters.
pub fn pad_left(text: &str, width: usize) -> (out: String)
    ensures
        out@ == right_aligned(text@, width as nat),
{
    let have = text.unicode_len();
    if have >= width {
        String::from_str(text)
    } else {
        spaces_string(width - have).concat(text)
    }
}

/// Pads `text` on the right with spaces up to `width` characters.
pub fn pad_right(text: &str, width: usize) -> (out: String)
    ensures
        out@ == left_aligned(text@, width as nat),
{
    let have = text.unicode_len();
    if have >= width {
        String::from_str(text)
    } else {
        let fill = spaces_string(width - have);
        String::from_str(text).concat(fill.as_str())
    }
}

} // verus!
