use colored::Colorize;
use rgrep::format::format_line;
use rgrep::pattern::Pattern;
use rgrep::strategy::default_strategy;

fn coloured() {
    colored::control::set_override(true);
}

#[test]
fn format_line_paints_number_column_and_match() {
    coloured();
    let result = format_line("Hello, Wei~", 1000, 7..10);
    assert_eq!(
        result,
        "\u{1b}[34m  1000\u{1b}[0m:\u{1b}[36m8  \u{1b}[0m Hello, \u{1b}[31mWei\u{1b}[0m~"
    );
}

#[test]
fn format_line_agrees_with_formatting_coloured_strings() {
    coloured();
    let result = format_line("Hello, Wei~", 1000, 7..10);
    let expected = format!(
        "{0: >6}:{1: <3} Hello, {2}~",
        "1000".blue(),
        "8".cyan(),
        "Wei".red()
    );
    assert_eq!(result, expected);
}

#[test]
fn report_paints_the_path_green() {
    coloured();
    let pattern = Pattern::new("b+").unwrap();
    let out = default_strategy("notes.txt", b"abba\n", &pattern);
    assert_eq!(
        out,
        "\u{1b}[32mnotes.txt\u{1b}[0m\n\u{1b}[34m     1\u{1b}[0m:\u{1b}[36m2  \u{1b}[0m a\u{1b}[31mbb\u{1b}[0ma\n"
    );
}
