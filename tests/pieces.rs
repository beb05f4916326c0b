use globset::Glob;
use ownrs::error::GrammarError;
use ownrs::per_file::{per_file_from, split_rule};
use ownrs::{split_lines, statement, Directive, Owner, PerFile, Statement};

#[test]
fn split_rule_parts() {
    assert_eq!(split_rule("per-file  a.rs \t= @x").unwrap(), ("a.rs \t", "@x"));
    assert_eq!(split_rule("per-file =").unwrap(), ("", ""));
    assert!(matches!(split_rule("per-file"), Err(GrammarError::NotPerFile)));
    assert!(matches!(split_rule("per-file a"), Err(GrammarError::MissingEquals)));
}

#[test]
fn per_file_from_compiled_glob() {
    assert_eq!(
        per_file_from(Glob::new("*x"), "@h").unwrap(),
        PerFile {
            glob: Glob::new("*x").unwrap(),
            directive: Directive::Owner(Owner::Handle("h".into())),
        }
    );
    assert!(matches!(per_file_from(Glob::new("a{b"), "@h"), Err(GrammarError::InvalidGlob)));
    assert!(matches!(per_file_from(Glob::new("*x"), "a b"), Err(GrammarError::TrailingText)));
    assert!(matches!(per_file_from(Glob::new("*x"), ""), Err(GrammarError::NoDirective)));
}

#[test]
fn split_lines_keeps_empty_lines() {
    assert_eq!(split_lines(""), vec![""]);
    assert_eq!(split_lines("a\n\nb\n"), vec!["a", "", "b", ""]);
}

#[test]
fn whole_line_statement() {
    assert_eq!(
        statement("set \t noparent").unwrap(),
        ("", Statement::Directive(Directive::NoParent))
    );
    assert!(matches!(statement("* *"), Err(GrammarError::TrailingText)));
    assert!(matches!(
        statement("per-file x = y z"),
        Err(GrammarError::TrailingText)
    ));
}
