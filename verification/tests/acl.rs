use tauri_core::acl::{
    CommandMap, Commands, ExecutionContext, Manifest, Origin, Permission, PermissionSet, Resolved, ResolvedCommand,
    ResolvedCommandReference, RuntimeAuthority, ScopeCacheReset, APP_ACL_KEY,
};
use tauri_core::acl_scope::ResolvedScope;
use tauri_core::glob_pattern::GlobPattern;
use tauri_core::url_pattern::RemoteUrlPattern;

fn authority(allowed: Vec<(&str, Vec<ResolvedCommand>)>, denied: Vec<(&str, Vec<ResolvedCommand>)>) -> RuntimeAuthority {
    let mut allowed_commands = CommandMap::new();
    for (command, grants) in allowed {
        allowed_commands.insert(command.to_string(), grants);
    }
    let mut denied_commands = CommandMap::new();
    for (command, grants) in denied {
        denied_commands.insert(command.to_string(), grants);
    }
    RuntimeAuthority::new(
        Vec::new(),
        Resolved { has_app_acl: false, allowed_commands, denied_commands, ..Default::default() },
    )
}

#[test]
fn window_glob_pattern_matches() {
    let command = "my-command";
    let window = "main-*";
    let webview = "other-*";

    let resolved_cmd = vec![ResolvedCommand {
        windows: vec![GlobPattern::new(window).unwrap()],
        ..Default::default()
    }];
    let authority = authority(vec![(command, resolved_cmd.clone())], vec![]);

    assert_eq!(
        authority.resolve_access(command, &window.replace('*', "something"), webview, &Origin::Local),
        Some(resolved_cmd)
    );
}

#[test]
fn wildcard_command_allows_any_app_command() {
    let window = "main";
    let webview = "main";

    let resolved_cmd = vec![ResolvedCommand {
        windows: vec![GlobPattern::new(window).unwrap()],
        ..Default::default()
    }];
    let authority = authority(vec![("*", resolved_cmd.clone())], vec![]);

    assert_eq!(
        authority.resolve_access("some_command", window, webview, &Origin::Local),
        Some(resolved_cmd.clone())
    );
    assert_eq!(
        authority.resolve_access("another_command", window, webview, &Origin::Local),
        Some(resolved_cmd)
    );
    assert!(authority.resolve_access("plugin:fs|read", window, webview, &Origin::Local).is_none());
}

#[test]
fn webview_glob_pattern_matches() {
    let command = "my-command";
    let window = "other-*";
    let webview = "main-*";

    let resolved_cmd = vec![ResolvedCommand {
        windows: vec![GlobPattern::new(window).unwrap()],
        webviews: vec![GlobPattern::new(webview).unwrap()],
        ..Default::default()
    }];
    let authority = authority(vec![(command, resolved_cmd.clone())], vec![]);

    assert_eq!(
        authority.resolve_access(command, window, &webview.replace('*', "something"), &Origin::Local),
        Some(resolved_cmd)
    );
}

#[test]
fn remote_domain_matches() {
    let url = "https://tauri.app";
    let command = "my-command";
    let window = "main";
    let webview = "main";

    let resolved_cmd = vec![ResolvedCommand {
        windows: vec![GlobPattern::new(window).unwrap()],
        context: ExecutionContext::Remote { url: RemoteUrlPattern::parse(url).unwrap() },
        ..Default::default()
    }];
    let authority = authority(vec![(command, resolved_cmd.clone())], vec![]);

    assert_eq!(
        authority.resolve_access(command, window, webview, &Origin::Remote { url: url.to_string() }),
        Some(resolved_cmd)
    );
}

#[test]
fn remote_domain_glob_pattern_matches() {
    let url = "http://tauri.*";
    let command = "my-command";
    let window = "main";
    let webview = "main";

    let resolved_cmd = vec![ResolvedCommand {
        windows: vec![GlobPattern::new(window).unwrap()],
        context: ExecutionContext::Remote { url: RemoteUrlPattern::parse(url).unwrap() },
        ..Default::default()
    }];
    let authority = authority(vec![(command, resolved_cmd.clone())], vec![]);

    assert_eq!(
        authority.resolve_access(command, window, webview, &Origin::Remote { url: url.replace('*', "studio") }),
        Some(resolved_cmd)
    );
}

#[test]
fn remote_context_denied() {
    let command = "my-command";
    let window = "main";
    let webview = "main";

    let resolved_cmd = vec![ResolvedCommand {
        windows: vec![GlobPattern::new(window).unwrap()],
        ..Default::default()
    }];
    let authority = authority(vec![(command, resolved_cmd)], vec![]);

    assert!(authority
        .resolve_access(command, window, webview, &Origin::Remote { url: "https://tauri.app".to_string() })
        .is_none());
}

#[test]
fn denied_command_takes_precedence() {
    let command = "my-command";
    let window = "main";
    let webview = "main";
    let windows = vec![GlobPattern::new(window).unwrap()];
    let authority = authority(
        vec![(command, vec![ResolvedCommand { windows: windows.clone(), ..Default::default() }])],
        vec![(command, vec![ResolvedCommand { windows, ..Default::default() }])],
    );

    assert!(authority.resolve_access(command, window, webview, &Origin::Local).is_none());
}

#[test]
fn a_denied_wildcard_denies_every_app_command() {
    let grant = vec![ResolvedCommand { windows: vec![GlobPattern::new("main").unwrap()], ..Default::default() }];
    let authority = authority(vec![("my-command", grant.clone())], vec![("*", grant)]);
    assert!(authority.resolve_access("my-command", "main", "main", &Origin::Local).is_none());
}

#[test]
fn a_grant_for_another_window_does_not_apply() {
    let grant = vec![ResolvedCommand { windows: vec![GlobPattern::new("main").unwrap()], ..Default::default() }];
    let authority = authority(vec![("my-command", grant)], vec![]);
    assert!(authority.resolve_access("my-command", "other", "other", &Origin::Local).is_none());
}

#[test]
fn allow_command_grants_every_window() {
    let mut authority = authority(vec![], vec![]);
    assert!(authority.resolve_access("added", "any-window", "any-webview", &Origin::Local).is_none());
    authority.__allow_command("added".to_string(), ExecutionContext::Local);
    let grants = authority.resolve_access("added", "any-window", "any-webview", &Origin::Local).unwrap();
    assert_eq!(grants.len(), 1);
}

#[test]
fn adding_a_capability_merges_its_grants() {
    let mut authority = authority(vec![], vec![]);
    let mut allowed_commands = CommandMap::new();
    allowed_commands.insert(
        "cmd".to_string(),
        vec![ResolvedCommand { windows: vec![GlobPattern::new("w*").unwrap()], ..Default::default() }],
    );
    authority.add_capability(Resolved { has_app_acl: false, allowed_commands, denied_commands: CommandMap::new(), ..Default::default() });
    assert!(authority.resolve_access("cmd", "win", "x", &Origin::Local).is_some());
    assert!(authority.resolve_access("cmd", "other", "x", &Origin::Local).is_none());
}

#[test]
fn origin_display() {
    assert_eq!(Origin::Local.to_display_string(), "local");
    assert_eq!(Origin::Remote { url: "https://tauri.app/".to_string() }.to_display_string(), "remote: https://tauri.app/");
}

#[test]
fn resolve_access_message() {
    let plugin_name = "myplugin";
    let command_allowed_on_window = "my-command-window";
    let command_allowed_on_webview_window = "my-command-webview-window";
    let window = "main-*";
    let webview = "webview-*";
    let remote_url = "http://localhost:8080";

    let referenced_by = ResolvedCommandReference { capability: "maincap".to_string(), permission: "allow-command".to_string() };

    let resolved_window_cmd = ResolvedCommand {
        windows: vec![GlobPattern::new(window).unwrap()],
        referenced_by: referenced_by.clone(),
        ..Default::default()
    };
    let resolved_webview_window_cmd = ResolvedCommand {
        windows: vec![GlobPattern::new(window).unwrap()],
        webviews: vec![GlobPattern::new(webview).unwrap()],
        referenced_by: referenced_by.clone(),
        ..Default::default()
    };
    let resolved_webview_window_remote_cmd = ResolvedCommand {
        windows: vec![GlobPattern::new(window).unwrap()],
        webviews: vec![GlobPattern::new(webview).unwrap()],
        referenced_by,
        context: ExecutionContext::Remote { url: RemoteUrlPattern::parse(remote_url).unwrap() },
        ..Default::default()
    };

    let mut allowed_commands = CommandMap::new();
    allowed_commands.insert(format!("plugin:{plugin_name}|{command_allowed_on_window}"), vec![resolved_window_cmd]);
    allowed_commands.insert(
        format!("plugin:{plugin_name}|{command_allowed_on_webview_window}"),
        vec![resolved_webview_window_cmd, resolved_webview_window_remote_cmd],
    );

    let authority = RuntimeAuthority::new(
        vec![(
            plugin_name.to_string(),
            Manifest {
                default_permission: None,
                permissions: Default::default(),
                permission_sets: Default::default(),
                commands: Default::default(),
                command_permissions: Default::default(),
            },
        )],
        Resolved { has_app_acl: false, allowed_commands, denied_commands: CommandMap::new(), ..Default::default() },
    );

    // unknown plugin
    assert_eq!(
        authority.resolve_access_message("unknown-plugin", command_allowed_on_window, window, webview, &Origin::Local),
        "unknown-plugin.my-command-window not allowed. Plugin not found"
    );

    // unknown command
    assert_eq!(
        authority.resolve_access_message(plugin_name, "unknown-command", window, webview, &Origin::Local),
        "myplugin.unknown-command not allowed. Command not found"
    );

    // window/webview do not match
    assert_eq!(
        authority.resolve_access_message(plugin_name, command_allowed_on_window, "other-window", "any-webview", &Origin::Local),
        "myplugin.my-command-window not allowed on window \"other-window\", webview \"any-webview\", URL: local\n\nallowed on: [windows: \"main-*\", URL: local]\n\nreferenced by: capability: maincap, permission: allow-command"
    );

    // window matches, but not origin
    assert_eq!(
        authority.resolve_access_message(
            plugin_name,
            command_allowed_on_window,
            window,
            "any-webview",
            &Origin::Remote { url: url::Url::parse("http://localhst").unwrap().to_string() }
        ),
        "myplugin.my-command-window not allowed on window \"main-*\", webview \"any-webview\", URL: http://localhst/\n\nallowed on: [windows: \"main-*\", URL: local]\n\nreferenced by: capability: maincap, permission: allow-command"
    );

    // window/webview do not match
    assert_eq!(
        authority.resolve_access_message(plugin_name, command_allowed_on_webview_window, "other-window", "other-webview", &Origin::Local),
        "myplugin.my-command-webview-window not allowed on window \"other-window\", webview \"other-webview\", URL: local\n\nallowed on: [windows: \"main-*\", webviews: \"webview-*\", URL: local], [windows: \"main-*\", webviews: \"webview-*\", URL: http://localhost:8080]\n\nreferenced by: capability: maincap, permission: allow-command || capability: maincap, permission: allow-command"
    );

    // window/webview matches, but not origin
    assert_eq!(
        authority.resolve_access_message(
            plugin_name,
            command_allowed_on_webview_window,
            window,
            webview,
            &Origin::Remote { url: url::Url::parse("http://localhost:123").unwrap().to_string() }
        ),
        "myplugin.my-command-webview-window not allowed on window \"main-*\", webview \"webview-*\", URL: http://localhost:123/\n\nallowed on: [windows: \"main-*\", webviews: \"webview-*\", URL: local], [windows: \"main-*\", webviews: \"webview-*\", URL: http://localhost:8080]\n\nreferenced by: capability: maincap, permission: allow-command || capability: maincap, permission: allow-command"
    );
}

#[test]
fn access_messages_name_the_permissions() {
    let permission = |id: &str, allow: &[&str]| Permission {
        identifier: id.to_string(),
        description: String::new(),
        commands: Commands { allow: allow.iter().map(|s| s.to_string()).collect(), deny: Vec::new() },
    };
    let set = |id: &str, perms: &[&str]| PermissionSet {
        identifier: id.to_string(),
        description: String::new(),
        permissions: perms.iter().map(|s| s.to_string()).collect(),
    };
    let manifest = Manifest {
        default_permission: Some(set("default", &["nested"])),
        permissions: vec![("read".to_string(), permission("read", &["read_file"]))],
        permission_sets: vec![("nested".to_string(), set("nested", &["read"])), ("other".to_string(), set("other", &["allow-write"]))],
        commands: vec!["read_file".to_string(), "write".to_string()],
        command_permissions: vec![
            ("allow-read-file".to_string(), permission("allow-read-file", &["read_file"])),
            ("allow-write".to_string(), permission("allow-write", &["write"])),
        ],
    };
    let mut denied_commands = CommandMap::new();
    denied_commands.insert(
        "plugin:fs|remove".to_string(),
        vec![ResolvedCommand {
            referenced_by: ResolvedCommandReference { capability: "cap".into(), permission: "deny-remove".into() },
            ..Default::default()
        }],
    );
    let authority = RuntimeAuthority::new(
        vec![("core:fs".to_string(), manifest.clone()), (APP_ACL_KEY.to_string(), manifest)],
        Resolved { has_app_acl: true, allowed_commands: CommandMap::new(), denied_commands, ..Default::default() },
    );
    // the plugin is found under its core name; the permissions come sorted
    assert_eq!(
        authority.resolve_access_message("fs", "read_file", "main", "main", &Origin::Local),
        "fs.read_file not allowed. Permissions associated with this command: core:fs:allow-read-file, core:fs:default, core:fs:nested, core:fs:read"
    );
    assert_eq!(
        authority.resolve_access_message("fs", "write", "main", "main", &Origin::Local),
        "fs.write not allowed. Permissions associated with this command: core:fs:allow-write, core:fs:other"
    );
    // the app's own commands are named bare, and list the wildcard permission
    assert_eq!(
        authority.resolve_access_message(APP_ACL_KEY, "write", "main", "main", &Origin::Local),
        "write not allowed. Permissions associated with this command: allow-*, allow-write, other"
    );
    assert_eq!(
        authority.resolve_access_message("fs", "remove", "main", "main", &Origin::Local),
        "fs.remove explicitly denied on origin local\n\nreferenced by: capability: cap, permission: deny-remove"
    );
}

fn scope(allow: &[&str], deny: &[&str]) -> ResolvedScope {
    ResolvedScope { allow: allow.iter().map(|s| s.to_string()).collect(), deny: deny.iter().map(|s| s.to_string()).collect() }
}

#[test]
fn adding_a_capability_fills_the_scopes() {
    let mut command_scope = std::collections::BTreeMap::new();
    command_scope.insert(1u64, scope(&["\"$HOME/a\""], &[]));
    let mut authority = RuntimeAuthority::new(
        Vec::new(),
        Resolved { command_scope, global_scope: vec![("fs".to_string(), scope(&["\"$APP\""], &["\"$APP/secret\""]))], ..Default::default() },
    );
    let mut allowed_commands = CommandMap::new();
    allowed_commands.insert(
        "read".to_string(),
        vec![
            ResolvedCommand { scope_id: Some(1), ..Default::default() },
            ResolvedCommand { scope_id: None, ..Default::default() },
            ResolvedCommand { scope_id: Some(2), ..Default::default() },
        ],
    );
    let mut added_scopes = std::collections::BTreeMap::new();
    added_scopes.insert(1u64, scope(&["\"$HOME/b\""], &["\"$HOME/b/x\""]));
    added_scopes.insert(2u64, scope(&["\"$TEMP\""], &[]));
    let reset = authority.add_capability(Resolved {
        allowed_commands,
        command_scope: added_scopes,
        global_scope: vec![("fs".to_string(), scope(&["\"$DATA\""], &[])), ("http".to_string(), scope(&["\"https://*\""], &[]))],
        ..Default::default()
    });
    assert_eq!(reset, ScopeCacheReset { global: true, commands: vec![1, 2] });
    assert_eq!(authority.command_scope(1), Some(&scope(&["\"$HOME/a\"", "\"$HOME/b\""], &["\"$HOME/b/x\""])));
    assert_eq!(authority.command_scope(2), Some(&scope(&["\"$TEMP\""], &[])));
    assert_eq!(authority.command_scope(3), None);
    assert_eq!(authority.global_scope("fs"), Some(&scope(&["\"$APP\"", "\"$DATA\""], &["\"$APP/secret\""])));
    assert_eq!(authority.global_scope("http"), Some(&scope(&["\"https://*\""], &[])));
    assert_eq!(authority.global_scope("shell"), None);
}

#[test]
fn adding_a_capability_without_scopes_resets_no_cache() {
    let mut authority = authority(vec![], vec![]);
    let reset = authority.add_capability(Resolved::default());
    assert_eq!(reset, ScopeCacheReset { global: false, commands: vec![] });
}
