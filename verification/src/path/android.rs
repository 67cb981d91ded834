//! The path resolver of Android: each directory is asked of the platform's path plugin, by the
//! name of the plugin command that gives it.

use vstd::prelude::*;

use crate::error::Error;
use crate::path::{join_path, joined};

verus! {

/// Whether asking the plugin for the directory `command` can give `r`.
pub open spec fn plugin_gives<F: Fn(&str) -> Result<String, Error>>(plugin: F, command: Seq<char>, r: Result<String, Error>) -> bool {
    exists|c: &str| c@ == command && #[trigger] call_ensures(plugin, (c,), r)
}

/// Whether `r` is what comes of joining the plugin's answer `answer` with `name`: the joined
/// path when it answered a directory, its error otherwise.
pub open spec fn dir_joined(answer: Result<String, Error>, name: Seq<char>, r: Result<String, Error>) -> bool {
    match answer {
        Ok(dir) => r matches Ok(p) && p@ == joined(dir@, name),
        Err(e) => r == Err::<String, Error>(e),
    }
}

/// Whether `r` can come of asking the plugin for the directory `command` and joining its answer
/// with `name`.
pub open spec fn app_dir_gives<F: Fn(&str) -> Result<String, Error>>(plugin: F, command: Seq<char>, name: Seq<char>, r: Result<String, Error>) -> bool {
    exists|answer: Result<String, Error>| #[trigger] plugin_gives(plugin, command, answer) && dir_joined(answer, name, r)
}

/// Whether the plugin gives one answer per command, however often it is asked.
pub open spec fn answers_fixed<F: Fn(&str) -> Result<String, Error>>(plugin: F) -> bool {
    forall|c1: &str, c2: &str, r1: Result<String, Error>, r2: Result<String, Error>|
        c1@ == c2@ && #[trigger] call_ensures(plugin, (c1,), r1) && #[trigger] call_ensures(plugin, (c2,), r2) ==> r1 == r2
}

/// For a plugin that gives one answer per command, an app directory is the directory the plugin
/// answers to the same command, joined with the name (the bundle identifier, or `logs`): the
/// app config directory is the config directory joined with the identifier, and so on.
pub proof fn lemma_app_dir_is_dir_joined<F: Fn(&str) -> Result<String, Error>>(
    plugin: F,
    command: Seq<char>,
    name: Seq<char>,
    dir: Result<String, Error>,
    app: Result<String, Error>,
)
    requires
        answers_fixed(plugin),
        plugin_gives(plugin, command, dir),
        app_dir_gives(plugin, command, name, app),
    ensures
        dir_joined(dir, name, app),
{
    let answer = choose|answer: Result<String, Error>| #[trigger] plugin_gives(plugin, command, answer) && dir_joined(answer, name, app);
    let c1 = choose|c: &str| c@ == command && #[trigger] call_ensures(plugin, (c,), dir);
    let c2 = choose|c: &str| c@ == command && #[trigger] call_ensures(plugin, (c,), answer);
    assert(answer == dir);
}

/// The path resolver of Android, over `plugin`, which runs a command of the path plugin and gives
/// the path it answers, for the app of bundle identifier `identifier`.
pub struct PathResolver<F> {
    plugin: F,
    identifier: String,
}

impl<F: Fn(&str) -> Result<String, Error>> PathResolver<F> {
    /// A resolver that asks `plugin`, for the app of bundle identifier `identifier`.
    pub fn new(plugin: F, identifier: String) -> (r: Self)
        ensures
            r.bridge() == plugin,
            r.identifier() == identifier@,
    {
        PathResolver { plugin, identifier }
    }

    /// What asks the plugin.
    pub closed spec fn bridge(&self) -> F {
        self.plugin
    }

    /// The app's bundle identifier.
    pub closed spec fn identifier(&self) -> Seq<char> {
        self.identifier@
    }

    /// What the plugin answers to `command`, joined with the bundle identifier.
    fn app_dir(&self, command: &str) -> (r: Result<String, Error>)
        requires
            forall|c: &str| call_requires(self.bridge(), (c,)),
        ensures
            app_dir_gives(self.bridge(), command@, self.identifier(), r),
    {
        let answer = self.call_resolve(command);
        match answer {
            Ok(dir) => Ok(join_path(dir.as_str(), self.identifier.as_str())),
            Err(e) => Err(e),
        }
    }

    fn call_resolve(&self, command: &str) -> (r: Result<String, Error>)
        requires
            forall|c: &str| call_requires(self.bridge(), (c,)),
        ensures
            plugin_gives(self.bridge(), command@, r),
    {
        assert(call_requires(self.bridge(), (command,)));
        (self.plugin)(command)
    }

    /// The user's audio directory: what the plugin answers to `getAudioDir`.
    pub fn audio_dir(&self) -> (r: Result<String, Error>)
        requires
            forall|c: &str| call_requires(self.bridge(), (c,)),
        ensures
            plugin_gives(self.bridge(), "getAudioDir"@, r),
    {
        self.call_resolve("getAudioDir")
    }

    /// The user's cache directory (the app's external cache): what the plugin answers to `getExternalCacheDir`.
    pub fn cache_dir(&self) -> (r: Result<String, Error>)
        requires
            forall|c: &str| call_requires(self.bridge(), (c,)),
        ensures
            plugin_gives(self.bridge(), "getExternalCacheDir"@, r),
    {
        self.call_resolve("getExternalCacheDir")
    }

    /// The user's config directory: what the plugin answers to `getConfigDir`.
    pub fn config_dir(&self) -> (r: Result<String, Error>)
        requires
            forall|c: &str| call_requires(self.bridge(), (c,)),
        ensures
            plugin_gives(self.bridge(), "getConfigDir"@, r),
    {
        self.call_resolve("getConfigDir")
    }

    /// The user's data directory: what the plugin answers to `getDataDir`.
    pub fn data_dir(&self) -> (r: Result<String, Error>)
        requires
            forall|c: &str| call_requires(self.bridge(), (c,)),
        ensures
            plugin_gives(self.bridge(), "getDataDir"@, r),
    {
        self.call_resolve("getDataDir")
    }

    /// The user's local data directory (the data directory): what the plugin answers to `getDataDir`.
    pub fn local_data_dir(&self) -> (r: Result<String, Error>)
        requires
            forall|c: &str| call_requires(self.bridge(), (c,)),
        ensures
            plugin_gives(self.bridge(), "getDataDir"@, r),
    {
        self.call_resolve("getDataDir")
    }

    /// The user's document directory: what the plugin answers to `getDocumentDir`.
    pub fn document_dir(&self) -> (r: Result<String, Error>)
        requires
            forall|c: &str| call_requires(self.bridge(), (c,)),
        ensures
            plugin_gives(self.bridge(), "getDocumentDir"@, r),
    {
        self.call_resolve("getDocumentDir")
    }

    /// The user's download directory: what the plugin answers to `getDownloadDir`.
    pub fn download_dir(&self) -> (r: Result<String, Error>)
        requires
            forall|c: &str| call_requires(self.bridge(), (c,)),
        ensures
            plugin_gives(self.bridge(), "getDownloadDir"@, r),
    {
        self.call_resolve("getDownloadDir")
    }

    /// The user's picture directory: what the plugin answers to `getPictureDir`.
    pub fn picture_dir(&self) -> (r: Result<String, Error>)
        requires
            forall|c: &str| call_requires(self.bridge(), (c,)),
        ensures
            plugin_gives(self.bridge(), "getPictureDir"@, r),
    {
        self.call_resolve("getPictureDir")
    }

    /// The user's public directory: what the plugin answers to `getPublicDir`.
    pub fn public_dir(&self) -> (r: Result<String, Error>)
        requires
            forall|c: &str| call_requires(self.bridge(), (c,)),
        ensures
            plugin_gives(self.bridge(), "getPublicDir"@, r),
    {
        self.call_resolve("getPublicDir")
    }

    /// The user's video directory: what the plugin answers to `getVideoDir`.
    pub fn video_dir(&self) -> (r: Result<String, Error>)
        requires
            forall|c: &str| call_requires(self.bridge(), (c,)),
        ensures
            plugin_gives(self.bridge(), "getVideoDir"@, r),
    {
        self.call_resolve("getVideoDir")
    }

    /// The app's resource directory: what the plugin answers to `getResourcesDir`.
    pub fn resource_dir(&self) -> (r: Result<String, Error>)
        requires
            forall|c: &str| call_requires(self.bridge(), (c,)),
        ensures
            plugin_gives(self.bridge(), "getResourcesDir"@, r),
    {
        self.call_resolve("getResourcesDir")
    }

    /// The app's config directory: the config directory (what the plugin answers to
    /// `getConfigDir`) joined with the bundle identifier.
    pub fn app_config_dir(&self) -> (r: Result<String, Error>)
        requires
            forall|c: &str| call_requires(self.bridge(), (c,)),
        ensures
            app_dir_gives(self.bridge(), "getConfigDir"@, self.identifier(), r),
    {
        self.app_dir("getConfigDir")
    }

    /// The app's data directory: the data directory (what the plugin answers to `getDataDir`)
    /// joined with the bundle identifier.
    pub fn app_data_dir(&self) -> (r: Result<String, Error>)
        requires
            forall|c: &str| call_requires(self.bridge(), (c,)),
        ensures
            app_dir_gives(self.bridge(), "getDataDir"@, self.identifier(), r),
    {
        self.app_dir("getDataDir")
    }

    /// The app's local data directory: the local data directory (what the plugin answers to
    /// `getDataDir`) joined with the bundle identifier.
    pub fn app_local_data_dir(&self) -> (r: Result<String, Error>)
        requires
            forall|c: &str| call_requires(self.bridge(), (c,)),
        ensures
            app_dir_gives(self.bridge(), "getDataDir"@, self.identifier(), r),
    {
        self.app_dir("getDataDir")
    }

    /// The app's cache directory: the cache directory (what the plugin answers to
    /// `getExternalCacheDir`) joined with the bundle identifier.
    pub fn app_cache_dir(&self) -> (r: Result<String, Error>)
        requires
            forall|c: &str| call_requires(self.bridge(), (c,)),
        ensures
            app_dir_gives(self.bridge(), "getExternalCacheDir"@, self.identifier(), r),
    {
        self.app_dir("getExternalCacheDir")
    }

    /// The user's home directory: what the plugin answers to `getHomeDir`.
    pub fn home_dir(&self) -> (r: Result<String, Error>)
        requires
            forall|c: &str| call_requires(self.bridge(), (c,)),
        ensures
            plugin_gives(self.bridge(), "getHomeDir"@, r),
    {
        self.call_resolve("getHomeDir")
    }

    /// The app's log directory: `logs` in what the plugin answers to `getConfigDir`.
    pub fn app_log_dir(&self) -> (r: Result<String, Error>)
        requires
            forall|c: &str| call_requires(self.bridge(), (c,)),
        ensures
            app_dir_gives(self.bridge(), "getConfigDir"@, "logs"@, r),
    {
        let answer = self.call_resolve("getConfigDir");
        match answer {
            Ok(dir) => Ok(join_path(dir.as_str(), "logs")),
            Err(e) => Err(e),
        }
    }
}

} // verus!
