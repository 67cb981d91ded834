//! Paths: joining, file names, base names, and the path resolvers.
//!
//! Paths are held as strings; joining them, telling whether one is absolute and taking its file
//! name are left to `std::path`, whose answers depend on the platform.

use vstd::prelude::*;

use crate::error::Error;
use crate::text::{chars_of, ends_with, has_suffix, substring};

pub mod ohos;
pub mod desktop;
pub mod android;
pub mod plugin;

verus! {

/// `Path::join`: `base` with `p` pushed onto it, as the platform's paths do it (on Unix an
/// absolute `p` replaces `base`, and otherwise follows it after a `/` unless `base` is empty or
/// ends with one).
pub uninterp spec fn joined(base: Seq<char>, p: Seq<char>) -> Seq<char>;

/// `base` joined with each of `parts`, in order.
pub open spec fn joined_all(base: Seq<char>, parts: Seq<Seq<char>>) -> Seq<char>
    decreases parts.len(),
{
    if parts.len() == 0 {
        base
    } else {
        joined(joined_all(base, parts.drop_last()), parts.last())
    }
}

/// `Path::join` of two paths given as text, read back as text (joining texts gives text).
#[verifier::external_body]
fn std_join(base: &str, p: &str) -> (r: String)
    ensures
        r@ == joined(base@, p@),
{
    std::path::Path::new(base).join(p).to_string_lossy().into_owned()
}

/// Joins `p` to `base` as `Path::join` does.
pub fn join_path(base: &str, p: &str) -> (r: String)
    ensures
        r@ == joined(base@, p@),
{
    std_join(base, p)
}

/// `Path::file_name`: the final component of a path, if it is a normal one.
pub uninterp spec fn path_file_name(path: Seq<char>) -> Option<Seq<char>>;

/// `Path::file_name`, as an owned string (the name of a path given as text is always valid
/// text). The final component of the path, if there is one: none when the path ends with `..`.
#[verifier::external_body]
fn std_file_name(path: &str) -> (r: Option<String>)
    ensures
        r matches Some(s) ==> path_file_name(path@) == Some(s@),
        r is None ==> path_file_name(path@) is None,
        path@ == ".."@ || has_suffix(path@, "/.."@) ==> r is None,
{
    std::path::Path::new(path).file_name().map(|name| name.to_string_lossy().into_owned())
}

/// The final component of `path`, if there is one (`None` when the path ends with `..`).
pub fn file_name(path: &str) -> (r: Option<String>)
    ensures
        r matches Some(s) ==> path_file_name(path@) == Some(s@),
        r is None ==> path_file_name(path@) is None,
        path@ == ".."@ || has_suffix(path@, "/.."@) ==> r is None,
{
    std_file_name(path)
}

/// A file name without the suffix `ext`, when it ends with it.
pub open spec fn strip_ext(name: Seq<char>, ext: Option<Seq<char>>) -> Seq<char> {
    match ext {
        Some(e) => if has_suffix(name, e) {
            name.subrange(0, name.len() - e.len())
        } else {
            name
        },
        None => name,
    }
}

/// The base name of a path: its final component, without the suffix `ext` when given and present.
/// Fails with [`Error::NoBasename`] exactly when the path has no final component.
pub fn basename(path: &str, ext: Option<&str>) -> (r: Result<String, Error>)
    ensures
        r is Err <==> path_file_name(path@) is None,
        r matches Err(e) ==> e == Error::NoBasename,
        r matches Ok(s) ==> s@ == strip_ext(path_file_name(path@)->Some_0, match ext {
            Some(e) => Some(e@),
            None => None,
        }),
{
    match file_name(path) {
        Some(name) => match ext {
            Some(e) => {
                if ends_with(name.as_str(), e) {
                    let keep = chars_of(name.as_str()).len() - chars_of(e).len();
                    Ok(substring(name.as_str(), 0, keep))
                } else {
                    Ok(name)
                }
            },
            None => Ok(name),
        },
        None => Err(Error::NoBasename),
    }
}

/// `Path::is_absolute`: whether the path is absolute on this platform (on Unix, whether it
/// begins with `/`; on Windows it also needs a prefix such as a drive).
pub uninterp spec fn path_is_absolute(path: Seq<char>) -> bool;

/// `Path::is_absolute` of a path given as text.
#[verifier::external_body]
fn std_is_absolute(path: &str) -> (r: bool)
    ensures
        r == path_is_absolute(path@),
{
    std::path::Path::new(path).is_absolute()
}

/// Whether `path` is absolute (see [`path_is_absolute`]).
pub fn is_absolute(path: &str) -> (r: bool)
    ensures
        r == path_is_absolute(path@),
{
    std_is_absolute(path)
}

} // verus!
