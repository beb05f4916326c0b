use ownrs::{owner, Directive, Owner};

#[test]
fn plain_token_is_text() {
    assert_eq!(Owner::from("team-alias"), Owner::Text("team-alias".into()));
    assert_eq!(Owner::from("x"), Owner::Text("x".into()));
}

#[test]
fn trailing_at_is_text() {
    assert_eq!(Owner::from("name@"), Owner::Text("name@".into()));
}

#[test]
fn lone_at_is_empty_handle() {
    assert_eq!(Owner::from("@"), Owner::Handle("".into()));
}

#[test]
fn handle_drops_one_at() {
    let token = "@rustacean";
    let owner = Owner::from(token);
    assert_eq!(owner, Owner::Handle("rustacean".into()));
    if let Owner::Handle(h) = owner {
        assert_eq!(format!("@{}", h), token);
    }
    assert_eq!(Owner::from("@@x"), Owner::Handle("@x".into()));
}

#[test]
fn inner_at_is_email() {
    assert_eq!(Owner::from("a@b.c"), Owner::Email("a@b.c".into()));
    assert_eq!(Owner::from("a@b@c"), Owner::Email("a@b@c".into()));
}

#[test]
fn owner_constructors() {
    assert_eq!(Owner::handle("@h"), Owner::Handle("h".into()));
    assert_eq!(Owner::handle("h"), Owner::Handle("h".into()));
    assert_eq!(Owner::email("e@x"), Owner::Email("e@x".into()));
    assert_eq!(Owner::text("t"), Owner::Text("t".into()));
}

#[test]
fn owner_token_stops_at_whitespace() {
    let (rem, parsed) = owner("me@x.org rest").unwrap();
    assert_eq!(parsed, Owner::Email("me@x.org".into()));
    assert_eq!(rem, " rest");
    assert!(owner("").is_err());
    assert!(owner(" x").is_err());
}

#[test]
fn directive_first_match_wins() {
    let (rem, parsed) = ownrs::directive("*foo").unwrap();
    assert_eq!(parsed, Directive::StarGlob);
    assert_eq!(rem, "foo");
    let (rem, parsed) = ownrs::directive("set noparentx").unwrap();
    assert_eq!(parsed, Directive::NoParent);
    assert_eq!(rem, "x");
}

#[test]
fn directive_fallbacks_to_owner() {
    let (rem, parsed) = ownrs::directive("setnoparent").unwrap();
    assert_eq!(parsed, Directive::Owner(Owner::Text("setnoparent".into())));
    assert!(rem.is_empty());
    let (rem, parsed) = ownrs::directive("file:").unwrap();
    assert_eq!(parsed, Directive::Owner(Owner::Text("file:".into())));
    assert!(rem.is_empty());
    let (rem, parsed) = ownrs::directive("file:a b").unwrap();
    assert_eq!(parsed, Directive::FilePath("a".into()));
    assert_eq!(rem, " b");
}

#[test]
fn directive_needs_text() {
    assert!(ownrs::directive("").is_err());
    assert!(ownrs::directive(" owner").is_err());
}

#[test]
fn separators() {
    assert!(ownrs::is_whitespace(' '));
    assert!(ownrs::is_whitespace('\t'));
    assert!(ownrs::is_whitespace('\n'));
    assert!(!ownrs::is_whitespace('\r'));
    assert!(!ownrs::is_whitespace('#'));
    assert!(ownrs::ws_or_comment('#'));
    assert!(ownrs::ws_or_comment(' '));
    assert!(!ownrs::ws_or_comment('a'));
}
