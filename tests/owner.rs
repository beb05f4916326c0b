use ownrs::{owner, Owner};

#[test]
fn owner_handle() {
    let (rem, parsed) = owner("@handle").unwrap();

    assert_eq!(parsed, Owner::Handle("handle".into()));
    assert!(rem.is_empty());
}

#[test]
fn owner_email() {
    let (rem, parsed) = owner("name@domain").unwrap();

    assert_eq!(parsed, Owner::Email("name@domain".into()));
    assert!(rem.is_empty());
}

#[test]
fn owner_text() {
    let (rem, parsed) = owner("text").unwrap();

    assert_eq!(parsed, Owner::Text("text".into()));
    assert!(rem.is_empty());
}
