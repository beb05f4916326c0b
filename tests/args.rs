use ownrs::args::{get_paths, get_root_dir, is_path_reachable, Args, ArgsError};

#[test]
fn get_paths_empty() {
    assert!(get_paths(vec![], vec![]).is_err())
}

#[test]
fn get_paths_all_exist() {
    let paths = vec!["a".to_string(), "b".to_string()];
    assert_eq!(get_paths(paths.clone(), vec![true, true]).unwrap(), paths);
}

#[test]
fn get_paths_names_first_missing() {
    let paths = vec!["a".to_string(), "b".to_string(), "c".to_string()];
    assert_eq!(
        get_paths(paths, vec![true, false, false]),
        Err(ArgsError::UnknownPath("b".into()))
    );
}

#[test]
fn root_dir_checks() {
    assert_eq!(get_root_dir("/r".into(), true, true), Ok("/r".to_string()));
    assert_eq!(
        get_root_dir("/r".into(), false, false),
        Err(ArgsError::UnknownRootDir("/r".into()))
    );
    assert_eq!(
        get_root_dir("/r".into(), true, false),
        Err(ArgsError::RootNotDirectory("/r".into()))
    );
}

#[test]
fn reachability_by_components() {
    assert!(is_path_reachable("/tmp/a/b", false, "/tmp/a", true));
    assert!(!is_path_reachable("/tmp/ab", false, "/tmp/a", true));
    assert!(!is_path_reachable("/tmp/a/b", false, "/tmp/a", false));
    assert!(is_path_reachable("/tmp/a/f.txt", true, "/tmp/a", true));
    assert!(!is_path_reachable("/tmp/a/f.txt", true, "/tmp/a/f.txt", true));
    assert!(is_path_reachable("/tmp/a/f.txt", false, "/tmp/a/f.txt", true));
}

#[test]
fn args_need_reachable_paths() {
    let ok = Args::new("/r".into(), true, vec!["/r/x".into(), "/r/y/z".into()], vec![false, true]);
    assert_eq!(
        ok,
        Ok(Args { root_dir: "/r".into(), paths: vec!["/r/x".into(), "/r/y/z".into()] })
    );
    let err = Args::new("/r".into(), true, vec!["/r/x".into(), "/s".into()], vec![false, false]);
    assert_eq!(err, Err(ArgsError::Unreachable { root_dir: "/r".into(), path: "/s".into() }));
}

#[test]
fn args_error_messages() {
    assert_eq!(ArgsError::NoPaths.message(), "no paths provided");
    assert_eq!(ArgsError::UnknownPath("p".into()).message(), "unknown path p");
    assert_eq!(ArgsError::UnknownRootDir("d".into()).message(), "unknown root directory d");
    assert_eq!(
        ArgsError::RootNotDirectory("d".into()).message(),
        "root directory is not a directory d"
    );
    assert_eq!(
        ArgsError::Unreachable { root_dir: "/r".into(), path: "/s".into() }.message(),
        "root path /r doesn't contain /s"
    );
    assert!(!ArgsError::NoPaths.is_not_found());
    assert!(ArgsError::UnknownPath("p".into()).is_not_found());
}
