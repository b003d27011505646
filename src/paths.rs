//! Path text handling and the per-user data locations.
use vstd::prelude::*;
use vstd::string::*;
use crate::error::LaunchError;
use directories::ProjectDirs;

verus! {

/// The text of `base` joined with `part` the way a Unix path join does it:
/// an absolute `part` replaces `base`, an empty `base` yields `part`, and
/// otherwise exactly one separator stands between the two.
pub open spec fn join_spec(base: Seq<char>, part: Seq<char>) -> Seq<char> {
    if part.len() > 0 && part[0] == '/' {
        part
    } else if base.len() == 0 {
        part
    } else if base.last() == '/' {
        base + part
    } else {
        base + seq!['/'] + part
    }
}

/// Joins two path texts (see `join_spec`).
pub fn join(base: &str, part: &str) -> (r: String)
    ensures
        r@ == join_spec(base@, part@),
{
    let part_len = part.unicode_len();
    if part_len > 0 && part.get_char(0) == '/' {
        return String::from_str(part);
    }
    let base_len = base.unicode_len();
    if base_len == 0 {
        return String::from_str(part);
    }
    let mut r = String::from_str(base);
    proof {
        reveal_strlit("/");
    }
    if base.get_char(base_len - 1) != '/' {
        r.append("/");
    }
    r.append(part);
    r
}

/// `path` is `dir` or lies below it, comparing whole components of two
/// normalised paths.
pub open spec fn within_spec(path: Seq<char>, dir: Seq<char>) -> bool {
    path == dir || (dir.len() > 0 && dir.last() == '/' && dir.is_prefix_of(path)) || (dir
        + seq!['/']).is_prefix_of(path)
}

/// Whether `path` is `dir` or lies below it (see `within_spec`).
pub fn path_within(path: &str, dir: &str) -> (r: bool)
    ensures
        r == within_spec(path@, dir@),
{
    if crate::text::same_text(path, dir) {
        return true;
    }
    let n = dir.unicode_len();
    if n > 0 && dir.get_char(n - 1) == '/' {
        return crate::text::has_prefix(path, dir);
    }
    let mut d = String::from_str(dir);
    proof {
        reveal_strlit("/");
    }
    d.append("/");
    crate::text::has_prefix(path, d.as_str())
}

/// Relies on `std::path::Path::exists`: whether something is on disk at the
/// path. It depends on the disk, so nothing is promised of it.
#[verifier::external_body]
pub(crate) fn path_exists(p: &str) -> (r: bool) {
    std::path::Path::new(p).exists()
}

/// The parent directory that the standard path routines give for a path text.
pub uninterp spec fn path_parent(p: Seq<char>) -> Option<Seq<char>>;

/// Relies on `std::path::Path::parent`: the path without its last component,
/// or `None` for a root or an empty path. The parent of a text is a prefix of
/// it, so it is text again.
#[verifier::external_body]
pub(crate) fn parent_dir(p: &str) -> (r: Option<String>)
    ensures
        r is None ==> path_parent(p@) is None,
        r is Some ==> path_parent(p@) == Some(r->Some_0@),
{
    std::path::Path::new(p).parent().and_then(|q| q.to_str()).map(|q| q.to_string())
}

#[verifier::external_type_specification]
#[verifier::external_body]
pub struct ExProjectDirs(ProjectDirs);

/// Relies on `directories::ProjectDirs::from`: the platform's directories for
/// the project, or `None` when no home directory can be found. What comes back
/// depends on the environment, so nothing is promised of it.
#[verifier::external_body]
fn project_dirs(qualifier: &str, organization: &str, application: &str) -> (r: Option<ProjectDirs>) {
    ProjectDirs::from(qualifier, organization, application)
}

/// Relies on `directories::ProjectDirs::data_dir`: the project's data
/// directory, as text when it is valid UTF-8.
#[verifier::external_body]
fn project_data_dir(dirs: &ProjectDirs) -> (r: Option<String>) {
    dirs.data_dir().to_str().map(|s| s.to_string())
}

/// The directory where the launcher keeps its data. It depends on the
/// environment; it fails only when no location can be found.
pub fn data_dir() -> (r: Result<String, LaunchError>)
    ensures
        r is Err ==> (r->Err_0 is DataDirUnavailable || r->Err_0 is NonUtf8Path),
{
    match project_dirs("com", "prex", "prex") {
        None => Err(LaunchError::DataDirUnavailable),
        Some(dirs) => match project_data_dir(&dirs) {
            None => Err(LaunchError::NonUtf8Path),
            Some(d) => Ok(d),
        },
    }
}

/// The `logs` directory inside the data directory.
pub fn logs_dir() -> (r: Result<String, LaunchError>)
    ensures
        r is Ok ==> exists|d: Seq<char>| r->Ok_0@ == join_spec(d, "logs"@),
        r is Err ==> (r->Err_0 is DataDirUnavailable || r->Err_0 is NonUtf8Path),
{
    let d = data_dir()?;
    let r = join(d.as_str(), "logs");
    assert(r@ == join_spec(d@, "logs"@));
    Ok(r)
}

/// The registration database file inside the data directory.
pub fn db_path() -> (r: Result<String, LaunchError>)
    ensures
        r is Ok ==> exists|d: Seq<char>| r->Ok_0@ == join_spec(d, "prex.db"@),
        r is Err ==> (r->Err_0 is DataDirUnavailable || r->Err_0 is NonUtf8Path),
{
    let d = data_dir()?;
    let r = join(d.as_str(), "prex.db");
    assert(r@ == join_spec(d@, "prex.db"@));
    Ok(r)
}

} // verus!
