use colored::Colorize;
use rgrep::format::format_line;

fn plain() {
    colored::control::set_override(false);
}

#[test]
fn format_line_should_work() {
    plain();
    let result = format_line("Hello, Wei~", 1000, 7..10);
    let expected = format!(
        "{0: >6}:{1: <3} Hello, {2}~",
        "1000".blue(),
        "8".cyan(),
        "Wei".red()
    );
    assert_eq!(result, expected);
}

#[test]
fn format_line_renders_the_fields() {
    plain();
    assert_eq!(format_line("Hello, Wei~", 1000, 7..10), "  1000:8   Hello, Wei~");
}

#[test]
fn format_line_counts_characters_not_bytes() {
    plain();
    // "héllo " is six characters in seven bytes; "wörld" is six bytes long.
    assert_eq!(format_line("héllo wörld!", 3, 7..13), "     3:7   héllo wörld!");
}

#[test]
fn format_line_keeps_long_numbers_whole() {
    plain();
    assert_eq!(format_line("abc", 1234567, 1..2), "1234567:2   abc");
    let line = "x".repeat(1200);
    let expected = format!("    12:1001 {}", line);
    assert_eq!(format_line(&line, 12, 1000..1001), expected);
}

#[test]
fn format_line_with_an_empty_match() {
    plain();
    assert_eq!(format_line("abc", 1, 0..0), "     1:1   abc");
    assert_eq!(format_line("abc", 1, 3..3), "     1:4   abc");
    assert_eq!(format_line("", 0, 0..0), "     0:1   ");
}

#[test]
fn format_line_fills_both_fields_exactly() {
    plain();
    assert_eq!(format_line("0123456789ab", 123456, 11..12), "123456:12  0123456789ab");
    let line = "y".repeat(150);
    assert_eq!(format_line(&line, 99999, 99..100), format!(" 99999:100 {}", line));
}
