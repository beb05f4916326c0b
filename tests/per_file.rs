use globset::Glob;
use ownrs::{per_file, Directive, PerFile};

fn create_per_file(glob_str: &str, directive: Directive) -> PerFile {
    PerFile {
        glob: Glob::new(glob_str).unwrap(),
        directive,
    }
}

#[test]
fn per_file_glob_star_directive() {
    let (rem, parsed) = per_file("per-file *.rs = *").unwrap();

    assert_eq!(parsed, create_per_file("*.rs", Directive::StarGlob));
    assert!(rem.is_empty());
}

#[test]
fn per_file_compatability_glob() {
    let (rem, parsed) = per_file("per-file Cargo.toml = *").unwrap();

    assert_eq!(parsed, create_per_file("*Cargo.toml", Directive::StarGlob));
    assert!(rem.is_empty());
}

#[test]
fn per_file_glob_ws_extra() {
    let (rem, parsed) = per_file("per-file   *.rs   =   *").unwrap();

    assert_eq!(parsed, create_per_file("*.rs", Directive::StarGlob));
    assert!(rem.is_empty());
}

#[test]
fn per_file_glob_ws_reduced() {
    let (rem, parsed) = per_file("per-file *.rs=*").unwrap();

    assert_eq!(parsed, create_per_file("*.rs", Directive::StarGlob));
    assert!(rem.is_empty());
}

#[test]
fn invalid_directive() {
    assert!(per_file("perfile *.rs = owner").is_err());
    assert!(per_file("per-file *.rs owner").is_err());
    assert!(per_file("per-file *.rs = owner invalid").is_err());
    assert!(per_file("per-file owner").is_err());
    assert!(per_file("per-file *.rs = per-file *.rs = owner").is_err());
}

#[test]
fn per_file_invalid_glob() {
    assert!(per_file("per-file invalid-{glob = owner").is_err());
}
