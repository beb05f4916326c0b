//! Checks on the command line of the OWNERS tool: the paths to look at and the
//! root directory that must contain them. What the file system says of a path
//! (whether it exists, is a file, is a directory) is found by the caller and
//! passed in.
use vstd::prelude::*;

verus! {

/// Why the command line cannot be used.
#[derive(Debug, Clone, PartialEq, Eq)]
pub enum ArgsError {
    /// No path was given.
    NoPaths,
    /// A given path does not exist.
    UnknownPath(String),
    /// The root directory does not exist.
    UnknownRootDir(String),
    /// The root directory is not a directory.
    RootNotDirectory(String),
    /// A given path does not lie under the root directory.
    Unreachable { root_dir: String, path: String },
}

impl ArgsError {
    /// Whether the error is that something does not exist (rather than that
    /// the input is unusable).
    pub fn is_not_found(&self) -> (r: bool)
        ensures
            r == (self is UnknownPath || self is UnknownRootDir || self is RootNotDirectory),
    {
        match self {
            ArgsError::NoPaths => false,
            ArgsError::UnknownPath(_) => true,
            ArgsError::UnknownRootDir(_) => true,
            ArgsError::RootNotDirectory(_) => true,
            ArgsError::Unreachable { .. } => false,
        }
    }

    /// The description shown to the user.
    pub open spec fn description(self) -> Seq<char> {
        match self {
            ArgsError::NoPaths => "no paths provided"@,
            ArgsError::UnknownPath(p) => "unknown path "@ + p@,
            ArgsError::UnknownRootDir(p) => "unknown root directory "@ + p@,
            ArgsError::RootNotDirectory(p) => "root directory is not a directory "@ + p@,
            ArgsError::Unreachable { root_dir, path } => "root path "@ + root_dir@
                + " doesn't contain "@ + path@,
        }
    }

    pub fn message(&self) -> (r: String)
        ensures
            r@ == self.description(),
    {
        match self {
            ArgsError::NoPaths => String::from_str("no paths provided"),
            ArgsError::UnknownPath(p) => String::from_str("unknown path ").concat(p.as_str()),
            ArgsError::UnknownRootDir(p) => String::from_str("unknown root directory ").concat(
                p.as_str(),
            ),
            ArgsError::RootNotDirectory(p) => String::from_str(
                "root directory is not a directory ",
            ).concat(p.as_str()),
            ArgsError::Unreachable { root_dir, path } => String::from_str("root path ").concat(
                root_dir.as_str(),
            ).concat(" doesn't contain ").concat(path.as_str()),
        }
    }
}

/// The paths to look at, given with whether each exists (`exists[k]` for
/// `paths[k]`). There must be at least one, and each must exist; otherwise the
/// error names the first that does not.
pub fn get_paths(paths: Vec<String>, exists: Vec<bool>) -> (r: Result<Vec<String>, ArgsError>)
    requires
        exists@.len() == paths@.len(),
    ensures
        paths@.len() == 0 ==> r == Err::<Vec<String>, ArgsError>(ArgsError::NoPaths),
        paths@.len() > 0 && (forall|k: int| 0 <= k < exists@.len() ==> exists@[k]) ==> (
        r matches Ok(v) && v@ == paths@),
        forall|k: int|
            0 <= k < exists@.len() && !exists@[k] && (forall|m: int| 0 <= m < k ==> exists@[m])
                ==> (r matches Err(ArgsError::UnknownPath(p)) && p@ == paths@[k]@),
{
    if paths.len() == 0 {
        return Err(ArgsError::NoPaths);
    }
    let mut k: usize = 0;
    while k < paths.len()
        invariant
            k <= paths@.len(),
            exists@.len() == paths@.len(),
            forall|m: int| 0 <= m < k ==> exists@[m],
        decreases paths@.len() - k,
    {
        if !exists[k] {
            return Err(ArgsError::UnknownPath(paths[k].clone()));
        }
        k = k + 1;
    }
    Ok(paths)
}

/// The root directory, given with whether it exists and whether it is a
/// directory. It must be an existing directory.
pub fn get_root_dir(root_dir: String, exists: bool, is_dir: bool) -> (r: Result<String, ArgsError>)
    ensures
        !exists ==> (r matches Err(ArgsError::UnknownRootDir(p)) && p@ == root_dir@),
        exists && !is_dir ==> (r matches Err(ArgsError::RootNotDirectory(p)) && p@ == root_dir@),
        exists && is_dir ==> (r matches Ok(p) && p@ == root_dir@),
{
    if !exists {
        return Err(ArgsError::UnknownRootDir(root_dir));
    }
    if !is_dir {
        return Err(ArgsError::RootNotDirectory(root_dir));
    }
    Ok(root_dir)
}

/// The directory of a path: the path without its last component, if it has one.
pub uninterp spec fn path_parent(path: Seq<char>) -> Option<Seq<char>>;

/// Whether the leading components of `path` are those of `base`.
pub uninterp spec fn path_starts_with(path: Seq<char>, base: Seq<char>) -> bool;

/// Relies on `std::path::Path::parent`: the path without its final component,
/// `None` where it ends in a root or is empty. A path made from a `&str` is
/// valid UTF-8, so it converts back without loss.
#[verifier::external_body]
fn parent_path(path: &str) -> (r: Option<String>)
    ensures
        r matches Some(p) ==> path_parent(path@) == Some(p@),
        r is None ==> path_parent(path@) is None,
{
    std::path::Path::new(path).parent().map(|p| p.to_string_lossy().into_owned())
}

/// Relies on `std::path::Path::starts_with`: whether `base` is a prefix of
/// `path`, comparing whole components only.
#[verifier::external_body]
fn path_has_prefix(path: &str, base: &str) -> (r: bool)
    ensures
        r == path_starts_with(path@, base@),
{
    std::path::Path::new(path).starts_with(base)
}

/// Whether `child` lies inside the directory `parent`: a file is taken by its
/// directory, and a file with no directory lies nowhere.
pub open spec fn reachable(
    child: Seq<char>,
    child_is_file: bool,
    parent: Seq<char>,
    parent_is_dir: bool,
) -> bool {
    let dir = if child_is_file {
        path_parent(child)
    } else {
        Some(child)
    };
    parent_is_dir && (dir matches Some(d) && path_starts_with(d, parent))
}

/// Whether `child` (a file if `child_is_file`) lies inside `parent` (a
/// directory if `parent_is_dir`).
pub fn is_path_reachable(
    child: &str,
    child_is_file: bool,
    parent: &str,
    parent_is_dir: bool,
) -> (r: bool)
    ensures
        r == reachable(child@, child_is_file, parent@, parent_is_dir),
{
    if !parent_is_dir {
        return false;
    }
    if child_is_file {
        match parent_path(child) {
            Some(dir) => path_has_prefix(dir.as_str(), parent),
            None => false,
        }
    } else {
        path_has_prefix(child, parent)
    }
}

/// Path `k` of `paths` lies under `root_dir`, by what `are_files` and
/// `root_is_dir` say of them.
pub open spec fn path_reachable(
    paths: Seq<String>,
    are_files: Seq<bool>,
    root_dir: Seq<char>,
    root_is_dir: bool,
    k: int,
) -> bool {
    reachable(paths[k]@, are_files[k], root_dir, root_is_dir)
}

/// The paths to look at and the directory that holds them.
#[derive(Debug, Clone, PartialEq, Eq)]
pub struct Args {
    pub root_dir: String,
    pub paths: Vec<String>,
}

impl Args {
    /// The command line of checked paths and root directory, given with what
    /// the file system says of them (`paths_are_files[k]` for `paths[k]`);
    /// every path must lie under the root directory, else the error names the
    /// first that does not.
    pub fn new(
        root_dir: String,
        root_is_dir: bool,
        paths: Vec<String>,
        paths_are_files: Vec<bool>,
    ) -> (r: Result<Args, ArgsError>)
        requires
            paths_are_files@.len() == paths@.len(),
        ensures
            (forall|k: int|
                0 <= k < paths@.len() ==> path_reachable(
                    paths@,
                    paths_are_files@,
                    root_dir@,
                    root_is_dir,
                    k,
                )) ==> (r matches Ok(a) && a.root_dir@ == root_dir@ && a.paths@ == paths@),
            forall|k: int|
                0 <= k < paths@.len() && !path_reachable(
                    paths@,
                    paths_are_files@,
                    root_dir@,
                    root_is_dir,
                    k,
                ) && (forall|m: int|
                    0 <= m < k ==> path_reachable(
                        paths@,
                        paths_are_files@,
                        root_dir@,
                        root_is_dir,
                        m,
                    )) ==> (r matches Err(ArgsError::Unreachable { root_dir: d, path: p })
                    && d@ == root_dir@ && p@ == paths@[k]@),
    {
        let mut k: usize = 0;
        while k < paths.len()
            invariant
                k <= paths@.len(),
                paths_are_files@.len() == paths@.len(),
                forall|m: int|
                    0 <= m < k ==> path_reachable(
                        paths@,
                        paths_are_files@,
                        root_dir@,
                        root_is_dir,
                        m,
                    ),
            decreases paths@.len() - k,
        {
            let reached = is_path_reachable(
                paths[k].as_str(),
                paths_are_files[k],
                root_dir.as_str(),
                root_is_dir,
            );
            assert(reached == path_reachable(
                paths@,
                paths_are_files@,
                root_dir@,
                root_is_dir,
                k as int,
            ));
            if !reached {
                let path = paths[k].clone();
                return Err(ArgsError::Unreachable { root_dir: root_dir.clone(), path });
            }
            k = k + 1;
        }
        Ok(Args { root_dir, paths })
    }
}

} // verus!
