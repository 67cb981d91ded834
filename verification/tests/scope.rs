use tauri_core::glob_pattern::GlobPattern;
use tauri_core::scope::{normalize, Event, Scope, ScopeEmitPlan, ScopePending, Scopes};

fn new_scope() -> Scope<u8> {
    Scope::new(&Vec::new(), &Vec::new(), None, false).unwrap()
}

#[test]
fn path_is_escaped() {
    let mut scope = new_scope();
    scope.allow_directory("/home/tauri/**", None, false).unwrap();
    assert!(scope.is_allowed(Some("/home/tauri/**")));
    assert!(scope.is_allowed(Some("/home/tauri/**/file")));
    assert!(!scope.is_allowed(Some("/home/tauri/anyfile")));

    let mut scope = new_scope();
    scope.allow_file("/home/tauri/**", None).unwrap();
    assert!(scope.is_allowed(Some("/home/tauri/**")));
    assert!(!scope.is_allowed(Some("/home/tauri/**/file")));
    assert!(!scope.is_allowed(Some("/home/tauri/anyfile")));

    let mut scope = new_scope();
    scope.allow_directory("/home/tauri", None, true).unwrap();
    scope.forbid_directory("/home/tauri/**", None, false).unwrap();
    assert!(!scope.is_allowed(Some("/home/tauri/**")));
    assert!(!scope.is_allowed(Some("/home/tauri/**/file")));
    assert!(scope.is_allowed(Some("/home/tauri/**/inner/file")));
    assert!(scope.is_allowed(Some("/home/tauri/inner/folder/anyfile")));
    assert!(scope.is_allowed(Some("/home/tauri/anyfile")));

    let mut scope = new_scope();
    scope.allow_directory("/home/tauri", None, true).unwrap();
    scope.forbid_file("/home/tauri/**", None).unwrap();
    assert!(!scope.is_allowed(Some("/home/tauri/**")));
    assert!(scope.is_allowed(Some("/home/tauri/**/file")));
    assert!(scope.is_allowed(Some("/home/tauri/**/inner/file")));
    assert!(scope.is_allowed(Some("/home/tauri/anyfile")));

    let mut scope = new_scope();
    scope.allow_directory("/home/tauri", None, false).unwrap();
    assert!(scope.is_allowed(Some("/home/tauri/**")));
    assert!(!scope.is_allowed(Some("/home/tauri/**/file")));
    assert!(!scope.is_allowed(Some("/home/tauri/**/inner/file")));
    assert!(scope.is_allowed(Some("/home/tauri/anyfile")));
}

#[test]
fn push_pattern_generated_paths() {
    let scope = Scope::<u8>::new(
        &vec![("/path/to/dir/".to_string(), None), ("/path/to/dir/**".to_string(), None)],
        &Vec::new(),
        None,
        false,
    )
    .unwrap();
    let patterns: Vec<String> = scope.allowed_patterns().iter().map(|p| p.as_str().to_string()).collect();
    assert!(patterns.contains(&"/path/to/dir".to_string()));
    assert!(patterns.contains(&"/path/to/dir/**".to_string()));
}

#[test]
fn the_canonical_form_is_added_too() {
    let mut scope = new_scope();
    scope.allow_file("/link/file", Some("/real/file")).unwrap();
    assert!(scope.is_allowed(Some("/link/file")));
    assert!(scope.is_allowed(Some("/real/file")));
    let texts: Vec<String> = scope.allowed_patterns().iter().map(|p| p.as_str().to_string()).collect();
    assert_eq!(texts, vec!["/link/file".to_string(), "/real/file".to_string()]);
    // adding it again adds nothing
    scope.allow_file("/link/file", Some("/real/file")).unwrap();
    assert_eq!(scope.allowed_patterns().len(), 2);
}

#[test]
fn forbidden_always_wins() {
    let mut scope = new_scope();
    scope.forbid_file("/secret", None).unwrap();
    scope.allow_file("/secret", None).unwrap();
    assert!(!scope.is_allowed(Some("/secret")));
    assert!(scope.is_forbidden(Some("/secret")));
    assert!(!scope.is_forbidden(Some("/other")));
}

#[test]
fn unresolved_paths() {
    let mut scope = new_scope();
    scope.allow_directory("/", None, true).unwrap();
    assert!(!scope.is_allowed(None));
    assert!(scope.is_forbidden(None));
}

#[test]
fn dotfiles_stay_hidden_by_default() {
    let mut scope = new_scope();
    scope.allow_directory("/home", None, true).unwrap();
    assert!(scope.is_allowed(Some("/home/file")));
    assert!(!scope.is_allowed(Some("/home/.ssh")));
    let mut open = Scope::<u8>::new(&Vec::new(), &Vec::new(), Some(false), false).unwrap();
    open.allow_directory("/home", None, true).unwrap();
    assert!(open.is_allowed(Some("/home/.ssh")));
}

#[test]
fn configured_patterns() {
    let scope = Scope::<u8>::new(&vec![("/data/*.txt".to_string(), None)], &vec![("/data/private.txt".to_string(), None)], None, false).unwrap();
    assert!(scope.is_allowed(Some("/data/a.txt")));
    assert!(!scope.is_allowed(Some("/data/private.txt")));
    assert!(!scope.is_allowed(Some("/data/sub/a.txt")));
    assert_eq!(scope.forbidden_patterns().len(), 1);
    assert!(Scope::<u8>::new(&vec![("/data/[".to_string(), None)], &Vec::new(), None, false).is_err());
}

#[test]
fn listeners_are_told_of_changes() {
    let mut scope = new_scope();
    let a = scope.listen(1);
    let b = scope.listen(2);
    match scope.allow_file("/x", None).unwrap() {
        ScopeEmitPlan::Run(ids) => assert_eq!(ids, vec![a, b]),
        _ => panic!(),
    }
    assert_eq!(scope.listener(a), Some(&1));
    // a listener that removes itself while running: the removal waits
    scope.unlisten(a);
    assert!(matches!(scope.forbid_file("/y", None).unwrap(), ScopeEmitPlan::Deferred));
    let pending = scope.end_emit();
    assert!(matches!(pending[0], ScopePending::Unlisten(id) if id == a));
    assert!(matches!(&pending[1], ScopePending::Emit(Event::PathForbidden(p)) if p == "/y"));
    scope.unlisten(a);
    match scope.begin_emit(Event::PathAllowed("/z".into())) {
        ScopeEmitPlan::Run(ids) => assert_eq!(ids, vec![b]),
        _ => panic!(),
    }
    scope.end_emit();
    scope.unlisten(b);
    assert!(matches!(scope.begin_emit(Event::PathAllowed("/z".into())), ScopeEmitPlan::NoListener));
}

#[test]
fn scopes_forward_to_the_asset_protocol_scope() {
    let mut scopes = Scopes { asset_protocol: new_scope() };
    scopes.allow_directory("/assets", None, true).unwrap();
    scopes.forbid_file("/assets/secret", None).unwrap();
    scopes.allow_file("/other", None).unwrap();
    assert!(scopes.asset_protocol.is_allowed(Some("/assets/a/b")));
    assert!(!scopes.asset_protocol.is_allowed(Some("/assets/secret")));
    assert!(scopes.asset_protocol.is_allowed(Some("/other")));
}

#[test]
fn normal_forms() {
    assert_eq!(normalize("/a//b/./c/"), "/a/b/c");
    assert_eq!(GlobPattern::escape("/a/*"), "/a/[*]");
}

#[test]
fn dotfiles_are_matched_by_wildcards_by_default_on_windows() {
    let mut scope = Scope::<u8>::new(&Vec::new(), &Vec::new(), None, true).unwrap();
    scope.allow_directory("/home", None, true).unwrap();
    assert!(scope.is_allowed(Some("/home/.ssh")));
}

#[test]
fn new_scope_holds_each_configured_text_once() {
    let scope = Scope::<u8>::new(
        &vec![("/a/*".to_string(), None), ("/a/*".to_string(), Some("/b/*".to_string()))],
        &vec![("/a/x".to_string(), None)],
        None,
        false,
    )
    .unwrap();
    let allowed: Vec<String> = scope.allowed_patterns().iter().map(|p| p.as_str().to_string()).collect();
    assert_eq!(allowed, vec!["/a/*".to_string(), "/b/*".to_string()]);
    let forbidden: Vec<String> = scope.forbidden_patterns().iter().map(|p| p.as_str().to_string()).collect();
    assert_eq!(forbidden, vec!["/a/x".to_string()]);
    assert!(Scope::<u8>::new(&Vec::new(), &vec![("/x/***".to_string(), None)], None, false).is_err());
}

#[test]
fn escaped_pattern_matches_its_text() {
    let escaped = GlobPattern::escape("/a/[b]?*");
    assert_eq!(escaped, "/a/[[]b[]][?][*]");
    let pattern = GlobPattern::new(&escaped).unwrap();
    assert!(pattern.matches("/a/[b]?*"));
    assert!(!pattern.matches("/a/[b]xy"));
}
