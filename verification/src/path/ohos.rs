//! The OpenHarmony path resolver: every directory lies under the app's sandbox base path.

use vstd::prelude::*;

use crate::error::Error;
use crate::path::{file_name, join_path, joined, joined_all, path_file_name};
use crate::text::has_suffix;

verus! {

/// Where the resource directories of OpenHarmony modules lie.
pub const RESOURCE_BASE: &'static str = "/data/storage/el1/base";

/// The module whose resources are used when none is named.
pub const DEFAULT_MODULE: &'static str = "entry";

/// The path resolver of OpenHarmony: the app's sandbox base path and module name, as the
/// platform gave them (either may be missing).
pub struct PathResolver {
    base_path: Option<String>,
    module_name: Option<String>,
}

/// The base path joined with `parts`, or `None` without a base path.
pub open spec fn under_base(base: Option<Seq<char>>, parts: Seq<Seq<char>>) -> Option<Seq<char>> {
    match base {
        Some(b) => Some(joined_all(b, parts)),
        None => None,
    }
}

/// Whether `r` is the path `expected`, or [`Error::UnknownPath`] when there is none.
pub open spec fn resolves_to(r: Result<String, Error>, expected: Option<Seq<char>>) -> bool {
    match expected {
        Some(p) => r matches Ok(s) && s@ == p,
        None => r == Err::<String, Error>(Error::UnknownPath),
    }
}

/// The resource directory of a module: `/data/storage/el1/base/<module>/assets`, the module
/// being `entry` when none is named.
pub open spec fn resource_dir_of(module_name: Option<Seq<char>>) -> Seq<char> {
    let module = match module_name {
        Some(m) => m,
        None => DEFAULT_MODULE@,
    };
    joined(joined(RESOURCE_BASE@, module), "assets"@)
}

/// The resource directory of a module (`entry` when none is named).
pub fn compute_resource_dir(module_name: Option<&str>) -> (r: String)
    ensures
        r@ == resource_dir_of(match module_name {
            Some(m) => Some(m@),
            None => None,
        }),
{
    let module = match module_name {
        Some(m) => m,
        None => DEFAULT_MODULE,
    };
    let dir = join_path(RESOURCE_BASE, module);
    join_path(dir.as_str(), "assets")
}

impl PathResolver {
    /// A resolver for the base path and module name the platform gave.
    pub fn new(base_path: Option<String>, module_name: Option<String>) -> (r: Self)
        ensures
            r.base() == (match base_path {
                Some(b) => Some(b@),
                None => None,
            }),
            r.module() == (match module_name {
                Some(m) => Some(m@),
                None => None,
            }),
    {
        PathResolver { base_path, module_name }
    }

    /// The base path.
    pub closed spec fn base(&self) -> Option<Seq<char>> {
        match self.base_path {
            Some(b) => Some(b@),
            None => None,
        }
    }

    /// The module name.
    pub closed spec fn module(&self) -> Option<Seq<char>> {
        match self.module_name {
            Some(m) => Some(m@),
            None => None,
        }
    }

    /// The base path joined with `parts`; [`Error::UnknownPath`] without a base path.
    fn base_join(&self, parts: &Vec<&str>) -> (r: Result<String, Error>)
        ensures
            resolves_to(r, under_base(self.base(), parts@.map_values(|p: &str| p@))),
    {
        match &self.base_path {
            None => Err(Error::UnknownPath),
            Some(b) => {
                let mut path = b.clone();
                let mut i: usize = 0;
                while i < parts.len()
                    invariant
                        i <= parts@.len(),
                        self.base() == Some(b@),
                        path@ == joined_all(b@, parts@.take(i as int).map_values(|p: &str| p@)),
                    decreases parts@.len() - i,
                {
                    let next = join_path(path.as_str(), parts[i]);
                    assert(parts@.take(i + 1).map_values(|p: &str| p@).drop_last() =~= parts@.take(i as int).map_values(|p: &str| p@));
                    path = next;
                    i += 1;
                }
                assert(parts@.take(i as int) =~= parts@);
                Ok(path)
            },
        }
    }

    /// The final component of `path`, if there is one (`None` when the path ends with `..`).
    pub fn file_name(&self, path: &str) -> (r: Option<String>)
        ensures
            r matches Some(s) ==> path_file_name(path@) == Some(s@),
            r is None ==> path_file_name(path@) is None,
            path@ == ".."@ || has_suffix(path@, "/.."@) ==> r is None,
    {
        file_name(path)
    }

    /// The resource directory of the app's module (`entry` when the platform named none).
    pub fn resource_dir(&self) -> (r: Result<String, Error>)
        ensures
            r matches Ok(s) && s@ == resource_dir_of(self.module()),
    {
        match &self.module_name {
            Some(m) => Ok(compute_resource_dir(Some(m.as_str()))),
            None => Ok(compute_resource_dir(None)),
        }
    }

    /// The base path itself (the app's sandbox root).
    pub fn home_dir(&self) -> (r: Result<String, Error>)
        ensures
            resolves_to(r, self.base()),
    {
        let parts: Vec<&str> = Vec::new();
        let r = self.base_join(&parts);
        assert(parts@.map_values(|p: &str| p@) =~= Seq::<Seq<char>>::empty());
        r
    }

    /// The user's audio directory: `<base>/files/Audio`; [`Error::UnknownPath`] without a base path.
    pub fn audio_dir(&self) -> (r: Result<String, Error>)
        ensures
            resolves_to(r, under_base(self.base(), seq!["files"@, "Audio"@])),
    {
        let parts: Vec<&str> = vec!["files", "Audio"];
        let r = self.base_join(&parts);
        assert(parts@.map_values(|p: &str| p@) =~= seq!["files"@, "Audio"@]);
        r
    }

    /// The user's cache directory: `<base>/cache`; [`Error::UnknownPath`] without a base path.
    pub fn cache_dir(&self) -> (r: Result<String, Error>)
        ensures
            resolves_to(r, under_base(self.base(), seq!["cache"@])),
    {
        let parts: Vec<&str> = vec!["cache"];
        let r = self.base_join(&parts);
        assert(parts@.map_values(|p: &str| p@) =~= seq!["cache"@]);
        r
    }

    /// The user's config directory: `<base>/files`; [`Error::UnknownPath`] without a base path.
    pub fn config_dir(&self) -> (r: Result<String, Error>)
        ensures
            resolves_to(r, under_base(self.base(), seq!["files"@])),
    {
        let parts: Vec<&str> = vec!["files"];
        let r = self.base_join(&parts);
        assert(parts@.map_values(|p: &str| p@) =~= seq!["files"@]);
        r
    }

    /// The user's data directory: `<base>/files`; [`Error::UnknownPath`] without a base path.
    pub fn data_dir(&self) -> (r: Result<String, Error>)
        ensures
            resolves_to(r, under_base(self.base(), seq!["files"@])),
    {
        let parts: Vec<&str> = vec!["files"];
        let r = self.base_join(&parts);
        assert(parts@.map_values(|p: &str| p@) =~= seq!["files"@]);
        r
    }

    /// The user's local data directory: `<base>/files`; [`Error::UnknownPath`] without a base path.
    pub fn local_data_dir(&self) -> (r: Result<String, Error>)
        ensures
            resolves_to(r, under_base(self.base(), seq!["files"@])),
    {
        let parts: Vec<&str> = vec!["files"];
        let r = self.base_join(&parts);
        assert(parts@.map_values(|p: &str| p@) =~= seq!["files"@]);
        r
    }

    /// The user's document directory: `<base>/files/Documents`; [`Error::UnknownPath`] without a base path.
    pub fn document_dir(&self) -> (r: Result<String, Error>)
        ensures
            resolves_to(r, under_base(self.base(), seq!["files"@, "Documents"@])),
    {
        let parts: Vec<&str> = vec!["files", "Documents"];
        let r = self.base_join(&parts);
        assert(parts@.map_values(|p: &str| p@) =~= seq!["files"@, "Documents"@]);
        r
    }

    /// The user's download directory: `<base>/files/Download`; [`Error::UnknownPath`] without a base path.
    pub fn download_dir(&self) -> (r: Result<String, Error>)
        ensures
            resolves_to(r, under_base(self.base(), seq!["files"@, "Download"@])),
    {
        let parts: Vec<&str> = vec!["files", "Download"];
        let r = self.base_join(&parts);
        assert(parts@.map_values(|p: &str| p@) =~= seq!["files"@, "Download"@]);
        r
    }

    /// The user's picture directory: `<base>/files/Pictures`; [`Error::UnknownPath`] without a base path.
    pub fn picture_dir(&self) -> (r: Result<String, Error>)
        ensures
            resolves_to(r, under_base(self.base(), seq!["files"@, "Pictures"@])),
    {
        let parts: Vec<&str> = vec!["files", "Pictures"];
        let r = self.base_join(&parts);
        assert(parts@.map_values(|p: &str| p@) =~= seq!["files"@, "Pictures"@]);
        r
    }

    /// The user's public directory: `<base>/files/Public`; [`Error::UnknownPath`] without a base path.
    pub fn public_dir(&self) -> (r: Result<String, Error>)
        ensures
            resolves_to(r, under_base(self.base(), seq!["files"@, "Public"@])),
    {
        let parts: Vec<&str> = vec!["files", "Public"];
        let r = self.base_join(&parts);
        assert(parts@.map_values(|p: &str| p@) =~= seq!["files"@, "Public"@]);
        r
    }

    /// The user's video directory: `<base>/files/Videos`; [`Error::UnknownPath`] without a base path.
    pub fn video_dir(&self) -> (r: Result<String, Error>)
        ensures
            resolves_to(r, under_base(self.base(), seq!["files"@, "Videos"@])),
    {
        let parts: Vec<&str> = vec!["files", "Videos"];
        let r = self.base_join(&parts);
        assert(parts@.map_values(|p: &str| p@) =~= seq!["files"@, "Videos"@]);
        r
    }

    /// The app's config directory: `<base>/files`; [`Error::UnknownPath`] without a base path.
    pub fn app_config_dir(&self) -> (r: Result<String, Error>)
        ensures
            resolves_to(r, under_base(self.base(), seq!["files"@])),
    {
        let parts: Vec<&str> = vec!["files"];
        let r = self.base_join(&parts);
        assert(parts@.map_values(|p: &str| p@) =~= seq!["files"@]);
        r
    }

    /// The app's data directory: `<base>/files`; [`Error::UnknownPath`] without a base path.
    pub fn app_data_dir(&self) -> (r: Result<String, Error>)
        ensures
            resolves_to(r, under_base(self.base(), seq!["files"@])),
    {
        let parts: Vec<&str> = vec!["files"];
        let r = self.base_join(&parts);
        assert(parts@.map_values(|p: &str| p@) =~= seq!["files"@]);
        r
    }

    /// The app's local data directory: `<base>/files`; [`Error::UnknownPath`] without a base path.
    pub fn app_local_data_dir(&self) -> (r: Result<String, Error>)
        ensures
            resolves_to(r, under_base(self.base(), seq!["files"@])),
    {
        let parts: Vec<&str> = vec!["files"];
        let r = self.base_join(&parts);
        assert(parts@.map_values(|p: &str| p@) =~= seq!["files"@]);
        r
    }

    /// The app's cache directory: `<base>/cache`; [`Error::UnknownPath`] without a base path.
    pub fn app_cache_dir(&self) -> (r: Result<String, Error>)
        ensures
            resolves_to(r, under_base(self.base(), seq!["cache"@])),
    {
        let parts: Vec<&str> = vec!["cache"];
        let r = self.base_join(&parts);
        assert(parts@.map_values(|p: &str| p@) =~= seq!["cache"@]);
        r
    }

    /// The app's log directory: `<base>/log`; [`Error::UnknownPath`] without a base path.
    pub fn app_log_dir(&self) -> (r: Result<String, Error>)
        ensures
            resolves_to(r, under_base(self.base(), seq!["log"@])),
    {
        let parts: Vec<&str> = vec!["log"];
        let r = self.base_join(&parts);
        assert(parts@.map_values(|p: &str| p@) =~= seq!["log"@]);
        r
    }

    /// The temporary directory: `<base>/temp`; [`Error::UnknownPath`] without a base path.
    pub fn temp_dir(&self) -> (r: Result<String, Error>)
        ensures
            resolves_to(r, under_base(self.base(), seq!["temp"@])),
    {
        let parts: Vec<&str> = vec!["temp"];
        let r = self.base_join(&parts);
        assert(parts@.map_values(|p: &str| p@) =~= seq!["temp"@]);
        r
    }
}

} // verus!
