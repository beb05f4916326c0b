use ownrs::{parse, Directive, Statement};

#[test]
fn lib_empty() {
    assert!(parse("").unwrap().is_empty());
}

#[test]
fn lib_empty_ws() {
    assert!(parse(" ").unwrap().is_empty());
}

#[test]
fn lib_comment() {
    assert!(parse("# comment").unwrap().is_empty());
}

#[test]
fn lib_comment_ws() {
    assert!(parse("#comment").unwrap().is_empty());
}

#[test]
fn lib_inline_comment() {
    assert_eq!(
        parse("set noparent # comment").unwrap(),
        vec![Statement::Directive(Directive::NoParent)]
    );
}

#[test]
fn lib_inline_comment_ws() {
    assert_eq!(
        parse("set noparent# comment").unwrap(),
        vec![Statement::Directive(Directive::NoParent)]
    );
}

#[test]
fn lib_multiline() {
    assert_eq!(
        parse("set noparent\n*").unwrap(),
        vec![
            Statement::Directive(Directive::NoParent),
            Statement::Directive(Directive::StarGlob)
        ]
    );
}

#[test]
fn lib_multiline_trailing_newline() {
    assert_eq!(
        parse("set noparent\n*\n").unwrap(),
        vec![
            Statement::Directive(Directive::NoParent),
            Statement::Directive(Directive::StarGlob)
        ]
    );
}

#[test]
fn lib_multiline_leading_newline() {
    assert_eq!(
        parse("\nset noparent\n*").unwrap(),
        vec![
            Statement::Directive(Directive::NoParent),
            Statement::Directive(Directive::StarGlob)
        ]
    );
}

#[test]
fn lib_multiline_comments() {
    assert_eq!(
        parse("set noparent # comment\n* # comment").unwrap(),
        vec![
            Statement::Directive(Directive::NoParent),
            Statement::Directive(Directive::StarGlob)
        ]
    );
}
