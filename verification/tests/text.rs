use rgrep::lines::{cut_line, find_line_end};
use rgrep::pattern::Pattern;
use rgrep::text::{decimal_string, pad_left, pad_right};

#[test]
fn decimal_string_writes_numerals() {
    assert_eq!(decimal_string(0), "0");
    assert_eq!(decimal_string(7), "7");
    assert_eq!(decimal_string(10), "10");
    assert_eq!(decimal_string(1000), "1000");
    assert_eq!(decimal_string(9876543210), "9876543210");
    assert_eq!(decimal_string(u128::MAX), u128::MAX.to_string());
}

#[test]
fn pad_left_fills_on_the_left() {
    assert_eq!(pad_left("1000", 6), "  1000");
    assert_eq!(pad_left("123456", 6), "123456");
    assert_eq!(pad_left("1234567", 6), "1234567");
    assert_eq!(pad_left("", 2), "  ");
    assert_eq!(pad_left("é", 3), "  é");
}

#[test]
fn pad_right_fills_on_the_right() {
    assert_eq!(pad_right("8", 3), "8  ");
    assert_eq!(pad_right("123", 3), "123");
    assert_eq!(pad_right("1234", 3), "1234");
    assert_eq!(pad_right("", 0), "");
}

#[test]
fn find_line_end_stops_at_the_newline() {
    assert_eq!(find_line_end(b"ab\ncd", 0), 2);
    assert_eq!(find_line_end(b"ab\ncd", 2), 2);
    assert_eq!(find_line_end(b"ab\ncd", 3), 5);
    assert_eq!(find_line_end(b"", 0), 0);
}

#[test]
fn cut_line_gives_the_line_and_the_next_start() {
    assert_eq!(cut_line(b"ab\ncd", 0), (&b"ab"[..], 3));
    assert_eq!(cut_line(b"ab\ncd", 3), (&b"cd"[..], 5));
    assert_eq!(cut_line(b"ab\r\ncd", 0), (&b"ab"[..], 4));
    assert_eq!(cut_line(b"ab\r", 0), (&b"ab\r"[..], 3));
    assert_eq!(cut_line(b"\r\n", 0), (&b""[..], 2));
    assert_eq!(cut_line(b"\n\n", 1), (&b""[..], 2));
}

#[test]
fn pattern_find_gives_byte_offsets_of_the_first_match() {
    let pattern = Pattern::new(r"\p{Greek}+").unwrap();
    assert_eq!(pattern.find("Greek: αβγδ and ε"), Some((7, 15)));
    assert_eq!(pattern.find("no such letters"), None);
    assert!(Pattern::new("foo(bar").is_err());
}
