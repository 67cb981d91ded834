use tauri_core::error::Error;
use tauri_core::path::ohos::{compute_resource_dir, PathResolver};
use tauri_core::path;
use tauri_core::path::plugin;
use tauri_core::path::{file_name, is_absolute, join_path};

#[test]
fn resource_dir_defaults_to_entry_module() {
    assert_eq!(compute_resource_dir(None), "/data/storage/el1/base/entry/assets");
}

#[test]
fn resource_dir_uses_custom_module_name() {
    assert_eq!(compute_resource_dir(Some("feature1")), "/data/storage/el1/base/feature1/assets");
}

#[test]
fn resource_dir_always_under_el1_and_ends_with_assets() {
    for module in [None, Some("x"), Some("entry"), Some("mod_a")] {
        let p = compute_resource_dir(module);
        assert!(std::path::Path::new(&p).starts_with("/data/storage/el1/base"));
        assert_eq!(file_name(&p).unwrap(), "assets");
    }
}

#[test]
fn file_name_returns_last_component() {
    assert_eq!(file_name("/a/b/c.txt"), Some("c.txt".to_string()));
    assert_eq!(file_name("/a/b/.."), None);
}

#[test]
fn base_path_returns_error_when_not_initialized() {
    let resolver = PathResolver::new(None, None);
    let result = resolver.cache_dir();
    assert!(result.is_err());
    assert!(matches!(result.unwrap_err(), Error::UnknownPath));
}

#[test]
fn basename() {
    let p = "/path/to/some-json-file.json";
    assert_eq!(path::basename(p, Some(".json")).unwrap(), "some-json-file");

    let p = "/path/to/some-json-file.json";
    assert_eq!(path::basename(p, Some("json")).unwrap(), "some-json-file.");

    let p = "/path/to/some-json-file.html.json";
    assert_eq!(path::basename(p, Some(".json")).unwrap(), "some-json-file.html");

    let p = "/path/to/some-json-file.json.json";
    assert_eq!(path::basename(p, Some(".json")).unwrap(), "some-json-file.json");

    let p = "/path/to/some-json-file.json.html";
    assert_eq!(path::basename(p, Some(".json")).unwrap(), "some-json-file.json.html");
}

#[test]
fn basename_of_a_path_without_one() {
    assert_eq!(path::basename("/a/..", None), Err(Error::NoBasename));
    assert_eq!(path::basename("/a/b", None).unwrap(), "b");
}

#[test]
fn cache_dir_appends_cache_subdir() {
    let r = PathResolver::new(Some("/data/storage/el2/base".to_string()), None);
    assert_eq!(r.cache_dir().unwrap(), "/data/storage/el2/base/cache");
    assert_eq!(r.app_cache_dir().unwrap(), "/data/storage/el2/base/cache");
}

#[test]
fn data_dir_appends_files_subdir() {
    let r = PathResolver::new(Some("/data/storage/el2/base".to_string()), None);
    assert_eq!(r.data_dir().unwrap(), "/data/storage/el2/base/files");
    assert_eq!(r.config_dir().unwrap(), "/data/storage/el2/base/files");
    assert_eq!(r.local_data_dir().unwrap(), "/data/storage/el2/base/files");
    assert_eq!(r.app_config_dir().unwrap(), "/data/storage/el2/base/files");
    assert_eq!(r.app_data_dir().unwrap(), "/data/storage/el2/base/files");
    assert_eq!(r.app_local_data_dir().unwrap(), "/data/storage/el2/base/files");
}

#[test]
fn media_dirs_under_files() {
    let r = PathResolver::new(Some("/data/storage/el2/base".to_string()), None);
    assert_eq!(r.audio_dir().unwrap(), "/data/storage/el2/base/files/Audio");
    assert_eq!(r.document_dir().unwrap(), "/data/storage/el2/base/files/Documents");
    assert_eq!(r.download_dir().unwrap(), "/data/storage/el2/base/files/Download");
    assert_eq!(r.picture_dir().unwrap(), "/data/storage/el2/base/files/Pictures");
    assert_eq!(r.video_dir().unwrap(), "/data/storage/el2/base/files/Videos");
    assert_eq!(r.public_dir().unwrap(), "/data/storage/el2/base/files/Public");
}

#[test]
fn log_and_temp_dirs() {
    let r = PathResolver::new(Some("/data/storage/el2/base".to_string()), None);
    assert_eq!(r.app_log_dir().unwrap(), "/data/storage/el2/base/log");
    assert_eq!(r.temp_dir().unwrap(), "/data/storage/el2/base/temp");
    assert_eq!(r.home_dir().unwrap(), "/data/storage/el2/base");
    assert_eq!(r.resource_dir().unwrap(), "/data/storage/el1/base/entry/assets");
    let named = PathResolver::new(None, Some("feature1".to_string()));
    assert_eq!(named.resource_dir().unwrap(), "/data/storage/el1/base/feature1/assets");
    assert_eq!(named.file_name("/x/y"), Some("y".to_string()));
}

#[test]
fn joining_paths() {
    assert_eq!(join_path("/a", "b"), "/a/b");
    assert_eq!(join_path("/a/", "b"), "/a/b");
    assert_eq!(join_path("", "b"), "b");
    assert_eq!(join_path("/a", "/etc"), "/etc");
}

#[test]
fn absolute_paths() {
    assert!(is_absolute("/a"));
    assert!(!is_absolute("a/b"));
    assert!(!is_absolute(""));
}

#[test]
fn android_directories_come_from_the_plugin() {
    let asked = std::cell::RefCell::new(Vec::new());
    let resolver = tauri_core::path::android::PathResolver::new(|command: &str| -> Result<String, Error> {
        asked.borrow_mut().push(command.to_string());
        match command {
            "getConfigDir" => Ok("/data/user/0/app/config".to_string()),
            "getHomeDir" => Err(Error::UnknownPath),
            other => Ok(format!("/dirs/{other}")),
        }
    }, "com.example.app".to_string());
    assert_eq!(resolver.audio_dir().unwrap(), "/dirs/getAudioDir");
    assert_eq!(resolver.cache_dir().unwrap(), "/dirs/getExternalCacheDir");
    assert_eq!(resolver.app_cache_dir().unwrap(), "/dirs/getExternalCacheDir/com.example.app");
    assert_eq!(resolver.local_data_dir().unwrap(), "/dirs/getDataDir");
    assert_eq!(resolver.resource_dir().unwrap(), "/dirs/getResourcesDir");
    assert_eq!(resolver.app_log_dir().unwrap(), "/data/user/0/app/config/logs");
    assert_eq!(resolver.home_dir(), Err(Error::UnknownPath));
    assert_eq!(resolver.app_config_dir().unwrap(), "/data/user/0/app/config/com.example.app");
    assert_eq!(resolver.app_data_dir().unwrap(), "/dirs/getDataDir/com.example.app");
    assert_eq!(resolver.app_local_data_dir().unwrap(), "/dirs/getDataDir/com.example.app");
    assert_eq!(asked.borrow().len(), 10);
}

#[test]
fn normalize_like_node() {
    assert_eq!(plugin::normalize("/foo/bar//baz/asdf/quux/.."), "/foo/bar/baz/asdf");
    assert_eq!(plugin::normalize("foo/./bar/"), "foo/bar/");
    assert_eq!(plugin::normalize(".."), "..");
    assert_eq!(plugin::normalize("."), ".");
    assert_eq!(plugin::normalize(""), "");
    assert_eq!(plugin::normalize("a/../../b"), "b");
}

#[test]
fn join_and_resolve() {
    let v = |xs: &[&str]| xs.iter().map(|s| s.to_string()).collect::<Vec<_>>();
    assert_eq!(plugin::join(&v(&["a", "b/", "../c"])), "a/c");
    assert_eq!(plugin::join(&v(&["/usr", "local", "bin"])), "/usr/local/bin");
    assert_eq!(plugin::join(&v(&[])), ".");
    assert_eq!(plugin::resolve("/home/user", &v(&["docs", "../x", "/tmp", "y"])), "/tmp/y");
    assert_eq!(plugin::resolve("/home/user", &v(&["a/../b"])), "/home/user/b");
    assert_eq!(plugin::resolve("/home/user", &v(&[])), "/home/user");
}

#[test]
fn dirname_and_extname() {
    assert_eq!(plugin::dirname("/a/b/c.txt"), Ok("/a/b".to_string()));
    assert_eq!(plugin::dirname("a"), Ok(String::new()));
    assert_eq!(plugin::dirname("/"), Err(Error::NoParent));
    assert_eq!(plugin::extname("/a/b/c.txt"), Ok("txt".to_string()));
    assert_eq!(plugin::extname("/a/b/c"), Err(Error::NoExtension));
    assert_eq!(plugin::extname(".bashrc"), Err(Error::NoExtension));
}
