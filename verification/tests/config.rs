use rgrep::config::{DefaultStrategy, GrepConfig, Strategy};
use rgrep::error::GrepError;
use rgrep::pattern::Pattern;
use rgrep::strategy::default_strategy;

fn config(pattern: &str, glob: &str) -> GrepConfig {
    GrepConfig { pattern: pattern.to_string(), glob: glob.to_string() }
}

struct CountLines;

impl Strategy for CountLines {
    fn scan(&self, path: &str, input: &[u8], pattern: &Pattern) -> Result<String, GrepError> {
        let mut count = 0;
        for line in String::from_utf8_lossy(input).lines() {
            if pattern.find(line).is_some() {
                count += 1;
            }
        }
        Ok(format!("{}: {}\n", path, count))
    }
}

struct AlwaysFails;

impl Strategy for AlwaysFails {
    fn scan(&self, _path: &str, _input: &[u8], _pattern: &Pattern) -> Result<String, GrepError> {
        Err(GrepError::WriteError(std::io::Error::new(
            std::io::ErrorKind::BrokenPipe,
            "sink closed",
        )))
    }
}

#[test]
fn an_invalid_pattern_fails_at_once() {
    let result = config("he(llo", "**/*.rs").match_with_default_strategy();
    assert!(matches!(result, Err(GrepError::InvalidPattern(_))));
}

#[test]
fn an_invalid_pattern_fails_whatever_the_glob() {
    let result = config("[a-", "[").match_with(DefaultStrategy);
    assert!(matches!(result, Err(GrepError::InvalidPattern(_))));
    let result = config("he(llo", "***").match_with_default_strategy();
    assert!(matches!(result, Err(GrepError::InvalidPattern(_))));
    let result = config(r"\w{1000}", "*.txt").match_with(DefaultStrategy);
    assert!(matches!(result, Err(GrepError::InvalidPattern(_))));
}

#[test]
fn a_valid_pattern_gives_a_matcher() {
    colored::control::set_override(false);
    let matcher = config(r"he\w+", "*.txt").match_with_default_strategy().unwrap();
    let input = b"hello world!\nhey Wei!";
    assert_eq!(
        matcher.scan("src/main.rs", input).unwrap(),
        "src/main.rs\n     1:1   hello world!\n     2:1   hey Wei!\n"
    );
    assert_eq!(
        matcher.scan("src/main.rs", input).unwrap(),
        default_strategy("src/main.rs", input, &matcher.pattern)
    );
    assert_eq!(matcher.scan("src/main.rs", b"no match\n").unwrap(), "");
}

#[test]
fn a_malformed_glob_fails_with_invalid_glob() {
    let result = config(r"he\w+", "***").match_with_default_strategy();
    assert!(matches!(result, Err(GrepError::InvalidGlob(_))));
    let result = config("a", "[").match_with(DefaultStrategy);
    assert!(matches!(result, Err(GrepError::InvalidGlob(_))));
    let result = config("a", "src**/*.rs").match_with(CountLines);
    assert!(matches!(result, Err(GrepError::InvalidGlob(_))));
}

#[test]
fn a_malformed_glob_is_told_where_it_breaks() {
    match config("a", "***").match_with_default_strategy() {
        Err(GrepError::InvalidGlob(e)) => assert_eq!(e.pos, 2),
        _ => panic!("a glob with three stars is malformed"),
    }
}

#[test]
fn well_formed_globs_are_accepted() {
    assert!(config("a", "**/*.rs").match_with_default_strategy().is_ok());
    assert!(config("a", "src/[a-z]?in.rs").match_with_default_strategy().is_ok());
    assert!(config("a", "").match_with_default_strategy().is_ok());
    assert!(config("a", "no such file").match_with_default_strategy().is_ok());
}

#[test]
fn a_strategy_may_fail_for_a_file() {
    let matcher = config("a", "*").match_with(AlwaysFails).unwrap();
    assert!(matches!(matcher.scan("f", b"a\n"), Err(GrepError::WriteError(_))));
}

#[test]
fn another_strategy_can_take_the_place_of_the_default() {
    let matcher = config("a", "*").match_with(CountLines).unwrap();
    assert_eq!(matcher.scan("f", b"a\nb\naa\n").unwrap(), "f: 2\n");
}
