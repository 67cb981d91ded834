use tauri_core::app::{generate_isolation_key, isolation_key_of, default_window_icon, identifier, name, tauri_version, version, Asset, PackageInfo, State};
use tauri_core::image::Image;
use tauri_core::menu_manager::MenuManager;
use tauri_core::menu::{default_menu_layout, AboutMetadata, IconMenuItemBuilder, LayoutItem, MenuItemBuilder, MenuPlatform, PredefinedItem, SubmenuLayout, HELP_SUBMENU_ID, WINDOW_SUBMENU_ID};
use tauri_core::plugin::{check_plugin_name, plugin_initialization_script, plugin_not_found, BuilderError, PermissionState, PluginStore};
use tauri_core::resources::ResourceTable;
use tauri_core::tray::{MouseButton, MouseButtonState};
use tauri_core::z85;

#[test]
fn encode() {
    assert_eq!(z85::encode(&[0x86, 0x4F, 0xD2, 0x6F, 0xB5, 0x59, 0xF7, 0x5B]), "HelloWorld");
}

#[test]
fn invoke_keys_are_twenty_characters() {
    let k = z85::generate_invoke_key().unwrap();
    assert_eq!(k.chars().count(), 20);
    assert_ne!(k, z85::generate_invoke_key().unwrap());
    assert_eq!(z85::encode(&[]), "");
    assert_eq!(z85::encode(&[0, 0, 0, 0]), "00000");
    assert_eq!(z85::encode(&[255, 255, 255, 255]), "%nSc0");
}

#[test]
fn menu_item_builder() {
    let b = MenuItemBuilder::new("Quit");
    assert_eq!((b.id.clone(), b.text.as_str(), b.enabled), (None, "Quit", true));
    let b = b.id("quit").enabled(false).accelerator("CmdOrCtrl+Q").sf_symbol("xmark");
    assert_eq!(b.id.as_deref(), Some("quit"));
    assert!(!b.enabled);
    assert_eq!(b.accelerator.as_deref(), Some("CmdOrCtrl+Q"));
    assert_eq!(b.sf_symbol.as_deref(), Some("xmark"));
    let w = MenuItemBuilder::with_id("a", "A");
    assert_eq!((w.id.as_deref(), w.text.as_str()), (Some("a"), "A"));
}

#[test]
fn an_icon_item_has_one_kind_of_icon() {
    let b: IconMenuItemBuilder<&str> = IconMenuItemBuilder::new("Open").native_icon("folder");
    assert_eq!(b.native_icon, Some("folder"));
    let b = b.icon(Image::new_owned(vec![0; 4], 1, 1));
    assert!(b.icon.is_some() && b.native_icon.is_none());
    let b = b.native_icon("add").accelerator("A").enabled(false).id("x");
    assert!(b.icon.is_none() && b.native_icon == Some("add"));
    assert_eq!((b.id.as_deref(), b.accelerator.as_deref(), b.enabled), (Some("x"), Some("A"), false));
    let w: IconMenuItemBuilder<u8> = IconMenuItemBuilder::with_id("i", "t");
    assert_eq!(w.id.as_deref(), Some("i"));
}

#[test]
fn reserved_plugin_names() {
    assert_eq!(check_plugin_name("core"), Err(BuilderError::ReservedName("core".into())));
    assert_eq!(check_plugin_name("tauri"), Err(BuilderError::ReservedName("tauri".into())));
    assert_eq!(check_plugin_name("fs"), Ok(()));
    assert_eq!(BuilderError::ReservedName("core".into()).to_string(), "plugin uses reserved name: core");
}

#[test]
fn permission_states() {
    assert_eq!(PermissionState::default(), PermissionState::Prompt);
    for p in [PermissionState::Granted, PermissionState::Denied, PermissionState::Prompt, PermissionState::PromptWithRationale] {
        assert_eq!(PermissionState::from_text(p.to_string()), Some(p));
    }
    assert_eq!(PermissionState::Granted.to_string(), "granted");
    assert_eq!(PermissionState::PromptWithRationale.to_string(), "prompt-with-rationale");
    assert_eq!(PermissionState::from_text("GRANTED"), Some(PermissionState::Granted));
    assert_eq!(PermissionState::from_text("maybe"), None);
}

#[test]
fn mouse_defaults() {
    assert_eq!(MouseButton::default(), MouseButton::Left);
    assert_eq!(MouseButtonState::default(), MouseButtonState::Up);
}

#[test]
fn app_information() {
    let info = PackageInfo { name: "app".into(), version: "1.2.3".into() };
    assert_eq!(version(&info), "1.2.3");
    assert_eq!(name(&info), "app");
    assert_eq!(tauri_version(), "0.1.0");
    assert_eq!(identifier("com.example.app"), "com.example.app");
}

#[test]
fn the_default_window_icon_is_stored_as_a_resource() {
    let mut table: ResourceTable<Image> = ResourceTable::new();
    assert_eq!(default_window_icon(None, &mut table), None);
    let icon = Image::new_owned(vec![1, 2, 3, 4], 1, 1);
    let rid = default_window_icon(Some(&icon), &mut table).unwrap();
    assert_eq!(table.get(rid).unwrap().rgba(), &[1, 2, 3, 4][..]);
}

#[test]
fn assets_and_state() {
    let asset = Asset { bytes: vec![1], mime_type: "text/html".into(), csp_header: Some("default-src 'self'".into()) };
    assert_eq!(asset.bytes(), &[1][..]);
    assert_eq!(asset.mime_type(), "text/html");
    assert_eq!(asset.csp_header(), Some("default-src 'self'"));
    let value = 5u32;
    let state = State::new(&value);
    assert_eq!(*state.inner(), 5);
}

fn layout(p: MenuPlatform) -> Vec<SubmenuLayout> {
    default_menu_layout("My App", "1.2.3", Some("(c) Me".to_string()), Some("Me".to_string()), p)
}

fn kinds(items: &[PredefinedItem]) -> Vec<LayoutItem> {
    items.iter().map(|i| LayoutItem::Predefined(*i)).collect()
}

#[test]
fn default_menus() {
    let names = |p: MenuPlatform| layout(p).into_iter().map(|s| s.text).collect::<Vec<_>>();
    assert_eq!(names(MenuPlatform::MacOs), vec!["My App", "File", "Edit", "View", "Window", "Help"]);
    assert_eq!(names(MenuPlatform::Linux), vec!["Edit", "Window", "Help"]);
    assert_eq!(names(MenuPlatform::Other), vec!["File", "Edit", "Window", "Help"]);

    let about = AboutMetadata {
        name: Some("My App".to_string()),
        version: Some("1.2.3".to_string()),
        copyright: Some("(c) Me".to_string()),
        authors: Some(vec!["Me".to_string()]),
        short_version: None,
        comments: None,
        license: None,
        website: None,
        website_label: None,
        credits: None,
        icon: None,
    };
    let mac = layout(MenuPlatform::MacOs);
    let mut app_items = vec![LayoutItem::About(about.clone())];
    app_items.extend(kinds(&[PredefinedItem::Separator, PredefinedItem::Services, PredefinedItem::Separator, PredefinedItem::Hide, PredefinedItem::HideOthers, PredefinedItem::Separator, PredefinedItem::Quit]));
    assert_eq!(mac[0].items, app_items);
    assert_eq!(mac[4].id.as_deref(), Some(WINDOW_SUBMENU_ID));
    assert_eq!(mac[4].items, kinds(&[PredefinedItem::Minimize, PredefinedItem::Maximize, PredefinedItem::Separator, PredefinedItem::CloseWindow]));
    assert!(mac[5].items.is_empty());
    let other = layout(MenuPlatform::Other);
    assert_eq!(other[0].items, kinds(&[PredefinedItem::CloseWindow, PredefinedItem::Quit]));
    assert_eq!(other[1].items, kinds(&[PredefinedItem::Undo, PredefinedItem::Redo, PredefinedItem::Separator, PredefinedItem::Cut, PredefinedItem::Copy, PredefinedItem::Paste, PredefinedItem::SelectAll]));
    assert_eq!(other[3].id.as_deref(), Some(HELP_SUBMENU_ID));
    assert_eq!(other[3].items, vec![LayoutItem::About(about.clone())]);
    assert_eq!(other[0].id, None);
    assert_eq!(layout(MenuPlatform::Linux)[2].items, vec![LayoutItem::About(about)]);
}

#[test]
fn about_metadata_without_bundle_details() {
    let about = AboutMetadata::for_app("App", "0.1.0", None, None);
    assert_eq!(about.name.as_deref(), Some("App"));
    assert_eq!(about.version.as_deref(), Some("0.1.0"));
    assert_eq!(about.copyright, None);
    assert_eq!(about.authors, None);
}

#[test]
fn menus_kept_for_windows() {
    let mut manager: MenuManager<&str, fn()> = MenuManager::new();
    manager.insert_menu_into_stash("a".to_string(), "menu a");
    manager.insert_menu_into_stash("b".to_string(), "menu b");
    manager.insert_menu_into_stash("a".to_string(), "menu a2");
    let ids: Vec<(String, &str)> = manager.menus_stash_lock().clone();
    assert_eq!(ids.len(), 2);
    assert!(ids.contains(&("a".to_string(), "menu a2")));

    assert!(manager.set_menu("b".to_string(), "menu b").is_none());
    assert!(manager.is_menu_in_use("b"));
    assert!(!manager.is_menu_in_use("a"));
    assert_eq!(manager.menu_lock(), Some(("b", &"menu b")));

    // the app-wide menu and the menus of windows stay
    manager.remove_menu_from_stash_by_id(Some("b"), false);
    manager.remove_menu_from_stash_by_id(Some("a"), true);
    assert_eq!(manager.menus_stash_lock().len(), 2);
    manager.remove_menu_from_stash_by_id(Some("a"), false);
    assert_eq!(manager.menus_stash_lock().clone(), vec![("b".to_string(), "menu b")]);
    manager.remove_menu_from_stash_by_id(None, false);
    assert_eq!(manager.menus_stash_lock().len(), 1);

    assert_eq!(manager.remove_menu(), Some(("b".to_string(), "menu b")));
    assert!(!manager.is_menu_in_use("b"));
    fn handler() {}
    manager.on_menu_event(handler);
    assert_eq!(manager.global_event_listeners().len(), 1);
}

#[test]
fn registering_a_plugin_replaces_one_of_the_same_name() {
    let mut store: PluginStore<u32> = PluginStore::new();
    assert!(!store.register("fs".to_string(), 1));
    assert!(!store.register("http".to_string(), 2));
    // a plugin with the same name is already in the store
    assert!(store.register("fs".to_string(), 3));
    assert_eq!(store.get("fs"), Some(&3));
    assert_eq!(store.get("http"), Some(&2));
    assert!(store.unregister("http"));
    assert!(!store.unregister("http"));
    assert_eq!(store.get("http"), None);
    assert_eq!(plugin_initialization_script("init()"), "(function () { init() })();");
    assert_eq!(plugin_not_found("fs"), "plugin fs not found");
}

#[test]
fn isolation_keys_are_fresh_uuids() {
    let a = generate_isolation_key().unwrap();
    let b = generate_isolation_key().unwrap();
    assert_eq!(a.len(), 36);
    assert_eq!(a.chars().nth(14), Some('4'));
    assert_ne!(a, b);
}

#[test]
fn isolation_key_sets_version_and_variant() {
    let bytes: Vec<u8> = (0u8..16).collect();
    assert_eq!(isolation_key_of(&bytes), "00010203-0405-4607-8809-0a0b0c0d0e0f");
    assert_eq!(isolation_key_of(&[0xffu8; 16]), "ffffffff-ffff-4fff-bfff-ffffffffffff");
}
