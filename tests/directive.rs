use ownrs::{directive, Directive, Owner};

#[test]
fn directive_star() {
    let (rem, parsed) = directive("*").unwrap();

    assert_eq!(parsed, Directive::StarGlob);
    assert!(rem.is_empty());
}

#[test]
fn directive_no_parent() {
    let (rem, parsed) = directive("set noparent").unwrap();

    assert_eq!(parsed, Directive::NoParent);
    assert!(rem.is_empty());
}

#[test]
fn directive_no_parent_ws() {
    let (rem, parsed) = directive("set   noparent").unwrap();

    assert_eq!(parsed, Directive::NoParent);
    assert!(rem.is_empty());
}

#[test]
fn directive_filepath_absolute() {
    let (rem, parsed) = directive("file: /absolute/path").unwrap();

    assert_eq!(parsed, Directive::FilePath("/absolute/path".into()));
    assert!(rem.is_empty());
}

#[test]
fn directive_filepath_relative() {
    let (rem, parsed) = directive("file: ../relative/path").unwrap();

    assert_eq!(parsed, Directive::FilePath("../relative/path".into()));
    assert!(rem.is_empty());
}

#[test]
fn directive_filepath_ws() {
    let (rem, parsed) = directive("file:   /absolute/path").unwrap();

    assert_eq!(parsed, Directive::FilePath("/absolute/path".into()));
    assert!(rem.is_empty());
}

#[test]
fn directive_owner() {
    let (rem, parsed) = directive("owner").unwrap();

    assert_eq!(parsed, Directive::Owner(Owner::Text("owner".into())));
    assert!(rem.is_empty());
}
