//! The desktop path resolver.

use vstd::prelude::*;

use crate::path::{file_name, path_file_name};
use crate::text::has_suffix;

verus! {

/// The path resolver of desktop platforms. Its directories come from the operating system and
/// the app's configuration; what it computes from plain values is here.
pub struct PathResolver {}

impl PathResolver {
    /// A path resolver.
    pub fn new() -> (r: Self)
        ensures
            r == (PathResolver {}),
    {
        PathResolver {}
    }

    /// The final component of `path`, if there is one (`None` when the path ends with `..`).
    pub fn file_name(&self, path: &str) -> (r: Option<String>)
        ensures
            r matches Some(s) ==> path_file_name(path@) == Some(s@),
            r is None ==> path_file_name(path@) is None,
            path@ == ".."@ || has_suffix(path@, "/.."@) ==> r is None,
    {
        file_name(path)
    }
}

} // verus!
