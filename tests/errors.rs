use ownrs::error::{decimal_text, GrammarError};
use ownrs::ParseError;

#[test]
fn error_kinds() {
    assert_eq!(ParseError::Generic.as_str(), "parser error");
    assert_eq!(ParseError::FileNotFound.as_str(), "no such file or directory");
    let e = ParseError::Syntax { line_num: 3, message: "x".into() };
    assert_eq!(e.as_str(), "syntax error");
}

#[test]
fn error_display_text() {
    let e = ParseError::Syntax { line_num: 3, message: "invalid glob pattern".into() };
    assert_eq!(e.to_display_string(), "syntax error on line 3: invalid glob pattern");
    let e = ParseError::Syntax { line_num: 120, message: "m".into() };
    assert_eq!(e.to_display_string(), "syntax error on line 120: m");
    assert_eq!(ParseError::Generic.to_display_string(), "parser error");
    assert_eq!(ParseError::FileNotFound.to_display_string(), "no such file or directory");
}

#[test]
fn error_from_io() {
    assert_eq!(ParseError::from_io(true), ParseError::FileNotFound);
    assert_eq!(ParseError::from_io(false), ParseError::Generic);
}

#[test]
fn syntax_error_carries_description() {
    assert_eq!(
        ParseError::syntax(7, GrammarError::MissingEquals),
        ParseError::Syntax { line_num: 7, message: "expected `=` after the per-file glob".into() }
    );
    assert_eq!(GrammarError::NoDirective.message(), "expected a directive");
    assert_eq!(GrammarError::TrailingText.message(), "unexpected text after the statement");
}

#[test]
fn decimal_numbers() {
    assert_eq!(decimal_text(0), "0");
    assert_eq!(decimal_text(9), "9");
    assert_eq!(decimal_text(10), "10");
    assert_eq!(decimal_text(4096), "4096");
    assert_eq!(decimal_text(usize::MAX), usize::MAX.to_string());
}
