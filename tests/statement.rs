use globset::Glob;
use ownrs::{statement, Directive, PerFile, Statement};

#[test]
fn statement_directive() {
    let (rem, parsed) = statement("*").unwrap();

    assert_eq!(parsed, Statement::Directive(Directive::StarGlob));
    assert!(rem.is_empty());
}

#[test]
fn statement_per_file() {
    let (rem, parsed) = statement("per-file *.rs = *").unwrap();

    assert_eq!(
        parsed,
        Statement::PerFile(PerFile {
            glob: Glob::new("*.rs").unwrap(),
            directive: Directive::StarGlob
        })
    );
    assert!(rem.is_empty());
}

#[test]
fn statement_rejects_trailing_text() {
    assert!(statement("* *").is_err());
    assert!(statement("set noparent extra").is_err());
    assert!(statement("*foo").is_err());
    assert!(matches!(statement("* *"), Err(ownrs::error::GrammarError::TrailingText)));
}
