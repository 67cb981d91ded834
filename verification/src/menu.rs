//! Builders of menu items: what an item will be made of, gathered step by step.

use vstd::prelude::*;

use crate::image::Image;

verus! {

/// The view of an optional string.
pub open spec fn opt_view(s: Option<String>) -> Option<Seq<char>> {
    match s {
        Some(t) => Some(t@),
        None => None,
    }
}

/// A builder of a menu item with text.
pub struct MenuItemBuilder {
    /// The item's id; one is generated when none is given.
    pub id: Option<String>,
    /// The item's text.
    pub text: String,
    /// Whether the item is enabled.
    pub enabled: bool,
    /// The item's keyboard shortcut.
    pub accelerator: Option<String>,
    /// The name of the item's SF Symbol (macOS).
    pub sf_symbol: Option<String>,
}

impl MenuItemBuilder {
    /// An enabled item with `text`, no id, shortcut or symbol.
    pub fn new(text: &str) -> (r: Self)
        ensures
            r.id is None,
            r.text@ == text@,
            r.enabled,
            r.accelerator is None,
            r.sf_symbol is None,
    {
        MenuItemBuilder { id: None, text: String::from_str(text), enabled: true, accelerator: None, sf_symbol: None }
    }

    /// An enabled item with the id `id` and `text`, no shortcut or symbol.
    pub fn with_id(id: &str, text: &str) -> (r: Self)
        ensures
            opt_view(r.id) == Some(id@),
            r.text@ == text@,
            r.enabled,
            r.accelerator is None,
            r.sf_symbol is None,
    {
        MenuItemBuilder { id: Some(String::from_str(id)), text: String::from_str(text), enabled: true, accelerator: None, sf_symbol: None }
    }

    /// Sets the id.
    pub fn id(self, id: &str) -> (r: Self)
        ensures
            opt_view(r.id) == Some(id@),
            r.text == self.text,
            r.enabled == self.enabled,
            r.accelerator == self.accelerator,
            r.sf_symbol == self.sf_symbol,
    {
        MenuItemBuilder { id: Some(String::from_str(id)), ..self }
    }

    /// Sets whether the item is enabled.
    pub fn enabled(self, enabled: bool) -> (r: Self)
        ensures
            r.enabled == enabled,
            r.id == self.id,
            r.text == self.text,
            r.accelerator == self.accelerator,
            r.sf_symbol == self.sf_symbol,
    {
        MenuItemBuilder { enabled, ..self }
    }

    /// Sets the keyboard shortcut.
    pub fn accelerator(self, accelerator: &str) -> (r: Self)
        ensures
            opt_view(r.accelerator) == Some(accelerator@),
            r.id == self.id,
            r.text == self.text,
            r.enabled == self.enabled,
            r.sf_symbol == self.sf_symbol,
    {
        MenuItemBuilder { accelerator: Some(String::from_str(accelerator)), ..self }
    }

    /// Sets the SF Symbol (macOS).
    pub fn sf_symbol(self, symbol: &str) -> (r: Self)
        ensures
            opt_view(r.sf_symbol) == Some(symbol@),
            r.id == self.id,
            r.text == self.text,
            r.enabled == self.enabled,
            r.accelerator == self.accelerator,
    {
        MenuItemBuilder { sf_symbol: Some(String::from_str(symbol)), ..self }
    }
}

/// A builder of a menu item with text and an icon: an image, or a native icon of type `N`
/// (at most one of the two).
pub struct IconMenuItemBuilder<N> {
    /// The item's id; one is generated when none is given.
    pub id: Option<String>,
    /// The item's text.
    pub text: String,
    /// Whether the item is enabled.
    pub enabled: bool,
    /// The item's image icon.
    pub icon: Option<Image>,
    /// The item's native icon.
    pub native_icon: Option<N>,
    /// The item's keyboard shortcut.
    pub accelerator: Option<String>,
}

impl<N> IconMenuItemBuilder<N> {
    /// An enabled item with `text`, no id, icon or shortcut.
    pub fn new(text: &str) -> (r: Self)
        ensures
            r.id is None,
            r.text@ == text@,
            r.enabled,
            r.icon is None,
            r.native_icon is None,
            r.accelerator is None,
    {
        IconMenuItemBuilder { id: None, text: String::from_str(text), enabled: true, icon: None, native_icon: None, accelerator: None }
    }

    /// An enabled item with the id `id` and `text`, no icon or shortcut.
    pub fn with_id(id: &str, text: &str) -> (r: Self)
        ensures
            opt_view(r.id) == Some(id@),
            r.text@ == text@,
            r.enabled,
            r.icon is None,
            r.native_icon is None,
            r.accelerator is None,
    {
        IconMenuItemBuilder {
            id: Some(String::from_str(id)),
            text: String::from_str(text),
            enabled: true,
            icon: None,
            native_icon: None,
            accelerator: None,
        }
    }

    /// Sets the id.
    pub fn id(self, id: &str) -> (r: Self)
        ensures
            opt_view(r.id) == Some(id@),
            r.text == self.text,
            r.enabled == self.enabled,
            r.icon == self.icon,
            r.native_icon == self.native_icon,
            r.accelerator == self.accelerator,
    {
        IconMenuItemBuilder { id: Some(String::from_str(id)), ..self }
    }

    /// Sets whether the item is enabled.
    pub fn enabled(self, enabled: bool) -> (r: Self)
        ensures
            r.enabled == enabled,
            r.id == self.id,
            r.text == self.text,
            r.icon == self.icon,
            r.native_icon == self.native_icon,
            r.accelerator == self.accelerator,
    {
        IconMenuItemBuilder { enabled, ..self }
    }

    /// Sets the keyboard shortcut.
    pub fn accelerator(self, accelerator: &str) -> (r: Self)
        ensures
            opt_view(r.accelerator) == Some(accelerator@),
            r.id == self.id,
            r.text == self.text,
            r.enabled == self.enabled,
            r.icon == self.icon,
            r.native_icon == self.native_icon,
    {
        IconMenuItemBuilder { accelerator: Some(String::from_str(accelerator)), ..self }
    }

    /// Sets the image icon, dropping the native icon.
    pub fn icon(self, icon: Image) -> (r: Self)
        ensures
            r.icon == Some(icon),
            r.native_icon is None,
            r.id == self.id,
            r.text == self.text,
            r.enabled == self.enabled,
            r.accelerator == self.accelerator,
    {
        IconMenuItemBuilder { icon: Some(icon), native_icon: None, ..self }
    }

    /// Sets the native icon, dropping the image icon.
    pub fn native_icon(self, icon: N) -> (r: Self)
        ensures
            r.native_icon == Some(icon),
            r.icon is None,
            r.id == self.id,
            r.text == self.text,
            r.enabled == self.enabled,
            r.accelerator == self.accelerator,
    {
        IconMenuItemBuilder { native_icon: Some(icon), icon: None, ..self }
    }
}


/// The id of the default menu's window submenu.
pub const WINDOW_SUBMENU_ID: &'static str = "__tauri_window_menu__";

/// The id of the default menu's help submenu.
pub const HELP_SUBMENU_ID: &'static str = "__tauri_help_menu__";

/// The platform families whose default menus differ.
#[derive(Clone, Copy, Debug, PartialEq, Eq)]
pub enum MenuPlatform {
    /// macOS.
    MacOs,
    /// Linux and the BSDs.
    Linux,
    /// Every other platform (Windows among them).
    Other,
}

/// The metadata the about item shows.
#[derive(Clone, Debug, PartialEq, Eq)]
pub struct AboutMetadata {
    /// The app's name.
    pub name: Option<String>,
    /// The app's version.
    pub version: Option<String>,
    /// The copyright line.
    pub copyright: Option<String>,
    /// The app's authors.
    pub authors: Option<Vec<String>>,
    /// The short version.
    pub short_version: Option<String>,
    /// Comments.
    pub comments: Option<String>,
    /// The license.
    pub license: Option<String>,
    /// The website.
    pub website: Option<String>,
    /// The website's label.
    pub website_label: Option<String>,
    /// The credits.
    pub credits: Option<String>,
    /// The icon.
    pub icon: Option<Image>,
}

/// About metadata as texts (the icon as its pixels, width and height).
pub struct AboutView {
    pub name: Option<Seq<char>>,
    pub version: Option<Seq<char>>,
    pub copyright: Option<Seq<char>>,
    pub authors: Option<Seq<Seq<char>>>,
    pub short_version: Option<Seq<char>>,
    pub comments: Option<Seq<char>>,
    pub license: Option<Seq<char>>,
    pub website: Option<Seq<char>>,
    pub website_label: Option<Seq<char>>,
    pub credits: Option<Seq<char>>,
    pub icon: Option<(Seq<u8>, u32, u32)>,
}

impl View for AboutMetadata {
    type V = AboutView;

    open spec fn view(&self) -> AboutView {
        AboutView {
            name: opt_view(self.name),
            version: opt_view(self.version),
            copyright: opt_view(self.copyright),
            authors: match self.authors {
                Some(a) => Some(a@.map_values(|t: String| t@)),
                None => None,
            },
            short_version: opt_view(self.short_version),
            comments: opt_view(self.comments),
            license: opt_view(self.license),
            website: opt_view(self.website),
            website_label: opt_view(self.website_label),
            credits: opt_view(self.credits),
            icon: match self.icon {
                Some(i) => Some((i.pixels(), i.image_width(), i.image_height())),
                None => None,
            },
        }
    }
}

/// The about metadata of an app: its name and version, the bundle's copyright line, and the
/// bundle's publisher as its one author; nothing else.
pub open spec fn app_about(name: Seq<char>, version: Seq<char>, copyright: Option<Seq<char>>, publisher: Option<Seq<char>>) -> AboutView {
    AboutView {
        name: Some(name),
        version: Some(version),
        copyright,
        authors: match publisher {
            Some(p) => Some(seq![p]),
            None => None,
        },
        short_version: None,
        comments: None,
        license: None,
        website: None,
        website_label: None,
        credits: None,
        icon: None,
    }
}

impl AboutMetadata {
    /// The about metadata of an app named `name` at `version`, with the bundle's copyright line
    /// and publisher (who becomes the one author).
    pub fn for_app(name: &str, version: &str, copyright: Option<String>, publisher: Option<String>) -> (r: Self)
        ensures
            r@ == app_about(name@, version@, opt_view(copyright), opt_view(publisher)),
    {
        let authors = match publisher {
            Some(p) => {
                let v = vec![p];
                assert(v@.map_values(|t: String| t@) =~= seq![v@[0]@]);
                Some(v)
            },
            None => None,
        };
        AboutMetadata {
            name: Some(String::from_str(name)),
            version: Some(String::from_str(version)),
            copyright,
            authors,
            short_version: None,
            comments: None,
            license: None,
            website: None,
            website_label: None,
            credits: None,
            icon: None,
        }
    }
}

/// The predefined items a default menu is made of, besides the about item.
#[derive(Clone, Copy, Debug, PartialEq, Eq)]
pub enum PredefinedItem {
    Separator,
    Services,
    Hide,
    HideOthers,
    Quit,
    CloseWindow,
    Undo,
    Redo,
    Cut,
    Copy,
    Paste,
    SelectAll,
    Fullscreen,
    Minimize,
    Maximize,
}

/// An item of a default submenu.
#[derive(Clone, Debug, PartialEq, Eq)]
pub enum LayoutItem {
    /// The about item, with the app's metadata.
    About(AboutMetadata),
    /// Another predefined item.
    Predefined(PredefinedItem),
}

/// An item of a default submenu, with the about metadata as texts.
pub enum LayoutItemView {
    About(AboutView),
    Predefined(PredefinedItem),
}

impl View for LayoutItem {
    type V = LayoutItemView;

    open spec fn view(&self) -> LayoutItemView {
        match self {
            LayoutItem::About(m) => LayoutItemView::About(m@),
            LayoutItem::Predefined(p) => LayoutItemView::Predefined(*p),
        }
    }
}

/// A submenu of the default menu: its id (generated when `None`), its text, and its items.
#[derive(Clone, Debug, PartialEq, Eq)]
pub struct SubmenuLayout {
    pub id: Option<String>,
    pub text: String,
    pub items: Vec<LayoutItem>,
}

/// The model of a submenu: id, text and items.
pub open spec fn submenu_model(s: SubmenuLayout) -> (Option<Seq<char>>, Seq<char>, Seq<LayoutItemView>) {
    (opt_view(s.id), s.text@, s.items@.map_values(|i: LayoutItem| i@))
}

/// A predefined item of a model.
pub open spec fn item(p: PredefinedItem) -> LayoutItemView {
    LayoutItemView::Predefined(p)
}

/// The edit submenu, the same everywhere.
pub open spec fn edit_submenu() -> (Option<Seq<char>>, Seq<char>, Seq<LayoutItemView>) {
    (None, "Edit"@, seq![
        item(PredefinedItem::Undo), item(PredefinedItem::Redo), item(PredefinedItem::Separator), item(PredefinedItem::Cut),
        item(PredefinedItem::Copy), item(PredefinedItem::Paste), item(PredefinedItem::SelectAll),
    ])
}

/// The default menu of an app named `app_name` on a platform, its about item showing `about`: on
/// macOS an app submenu (about, services, hide, hide others, quit), File (close window), Edit,
/// View (fullscreen), Window (minimize, maximize, separator, close window) and an empty Help; on
/// Linux Edit, Window (minimize, maximize, close window) and Help (about); elsewhere File (close
/// window, quit), Edit, Window and Help (about).
pub open spec fn default_menu(app_name: Seq<char>, about: AboutView, platform: MenuPlatform) -> Seq<(Option<Seq<char>>, Seq<char>, Seq<LayoutItemView>)> {
    let window_id = Some(WINDOW_SUBMENU_ID@);
    let help_id = Some(HELP_SUBMENU_ID@);
    let about_item = LayoutItemView::About(about);
    match platform {
        MenuPlatform::MacOs => seq![
            (None, app_name, seq![
                about_item, item(PredefinedItem::Separator), item(PredefinedItem::Services), item(PredefinedItem::Separator),
                item(PredefinedItem::Hide), item(PredefinedItem::HideOthers), item(PredefinedItem::Separator), item(PredefinedItem::Quit),
            ]),
            (None, "File"@, seq![item(PredefinedItem::CloseWindow)]),
            edit_submenu(),
            (None, "View"@, seq![item(PredefinedItem::Fullscreen)]),
            (window_id, "Window"@, seq![item(PredefinedItem::Minimize), item(PredefinedItem::Maximize), item(PredefinedItem::Separator), item(PredefinedItem::CloseWindow)]),
            (help_id, "Help"@, Seq::empty()),
        ],
        MenuPlatform::Linux => seq![
            edit_submenu(),
            (window_id, "Window"@, seq![item(PredefinedItem::Minimize), item(PredefinedItem::Maximize), item(PredefinedItem::CloseWindow)]),
            (help_id, "Help"@, seq![about_item]),
        ],
        MenuPlatform::Other => seq![
            (None, "File"@, seq![item(PredefinedItem::CloseWindow), item(PredefinedItem::Quit)]),
            edit_submenu(),
            (window_id, "Window"@, seq![item(PredefinedItem::Minimize), item(PredefinedItem::Maximize), item(PredefinedItem::CloseWindow)]),
            (help_id, "Help"@, seq![about_item]),
        ],
    }
}

fn submenu(id: Option<&str>, text: &str, items: Vec<LayoutItem>) -> (r: SubmenuLayout)
    ensures
        opt_view(r.id) == match id { Some(i) => Some(i@), None => None::<Seq<char>> },
        r.text@ == text@,
        r.items@ == items@,
{
    let id = match id {
        Some(i) => Some(String::from_str(i)),
        None => None,
    };
    SubmenuLayout { id, text: String::from_str(text), items }
}

fn predefined(items: Vec<PredefinedItem>) -> (r: Vec<LayoutItem>)
    ensures
        r@.map_values(|i: LayoutItem| i@) == items@.map_values(|p: PredefinedItem| item(p)),
{
    let mut r: Vec<LayoutItem> = Vec::new();
    let mut i: usize = 0;
    while i < items.len()
        invariant
            i <= items@.len(),
            r@.map_values(|x: LayoutItem| x@) == items@.take(i as int).map_values(|p: PredefinedItem| item(p)),
        decreases items@.len() - i,
    {
        let ghost before = r@;
        r.push(LayoutItem::Predefined(items[i]));
        assert(r@.map_values(|x: LayoutItem| x@) =~= before.map_values(|x: LayoutItem| x@).push(item(items@[i as int])));
        assert(items@.take(i + 1).map_values(|p: PredefinedItem| item(p)) =~= items@.take(i as int).map_values(|p: PredefinedItem| item(p)).push(item(items@[i as int])));
        i += 1;
    }
    assert(items@.take(i as int) =~= items@);
    r
}

fn edit_items() -> (r: SubmenuLayout)
    ensures
        submenu_model(r) == edit_submenu(),
{
    let items = predefined(vec![
        PredefinedItem::Undo, PredefinedItem::Redo, PredefinedItem::Separator, PredefinedItem::Cut,
        PredefinedItem::Copy, PredefinedItem::Paste, PredefinedItem::SelectAll,
    ]);
    let r = submenu(None, "Edit", items);
    assert(submenu_model(r).2 =~= edit_submenu().2);
    r
}

/// The default menu of an app named `app_name` at `version`, with the bundle's copyright line and
/// publisher, on `platform` (see [`default_menu`]); its about item shows [`app_about`].
pub fn default_menu_layout(
    app_name: &str,
    version: &str,
    copyright: Option<String>,
    publisher: Option<String>,
    platform: MenuPlatform,
) -> (r: Vec<SubmenuLayout>)
    ensures
        r@.map_values(|s: SubmenuLayout| submenu_model(s)) == default_menu(
            app_name@,
            app_about(app_name@, version@, opt_view(copyright), opt_view(publisher)),
            platform,
        ),
{
    let about = AboutMetadata::for_app(app_name, version, copyright, publisher);
    let ghost about_view = about@;
    let ghost expected = default_menu(app_name@, about_view, platform);
    let mut r: Vec<SubmenuLayout> = Vec::new();
    match platform {
        MenuPlatform::MacOs => {
            let mut items = vec![LayoutItem::About(about)];
            let mut rest = predefined(vec![
                PredefinedItem::Separator, PredefinedItem::Services, PredefinedItem::Separator,
                PredefinedItem::Hide, PredefinedItem::HideOthers, PredefinedItem::Separator, PredefinedItem::Quit,
            ]);
            let ghost first = items@;
            let ghost rest_items = rest@;
            items.append(&mut rest);
            assert(items@ =~= first + rest_items);
            assert(first.map_values(|i: LayoutItem| i@) =~= seq![LayoutItemView::About(about_view)]);
            assert(items@.map_values(|i: LayoutItem| i@) =~= first.map_values(|i: LayoutItem| i@) + rest_items.map_values(|i: LayoutItem| i@));
            let s0 = submenu(None, app_name, items);
            assert(submenu_model(s0) =~~= expected[0]);
            let s1 = submenu(None, "File", predefined(vec![PredefinedItem::CloseWindow]));
            assert(submenu_model(s1) =~~= expected[1]);
            let s2 = edit_items();
            let s3 = submenu(None, "View", predefined(vec![PredefinedItem::Fullscreen]));
            assert(submenu_model(s3) =~~= expected[3]);
            let s4 = submenu(Some(WINDOW_SUBMENU_ID), "Window", predefined(vec![
                PredefinedItem::Minimize, PredefinedItem::Maximize, PredefinedItem::Separator, PredefinedItem::CloseWindow,
            ]));
            assert(submenu_model(s4) =~~= expected[4]);
            let s5 = submenu(Some(HELP_SUBMENU_ID), "Help", Vec::new());
            assert(submenu_model(s5) =~~= expected[5]);
            r.push(s0);
            r.push(s1);
            r.push(s2);
            r.push(s3);
            r.push(s4);
            r.push(s5);
        },
        MenuPlatform::Linux => {
            let s0 = edit_items();
            let s1 = submenu(Some(WINDOW_SUBMENU_ID), "Window", predefined(vec![PredefinedItem::Minimize, PredefinedItem::Maximize, PredefinedItem::CloseWindow]));
            assert(submenu_model(s1) =~~= expected[1]);
            let s2 = submenu(Some(HELP_SUBMENU_ID), "Help", vec![LayoutItem::About(about)]);
            assert(submenu_model(s2) =~~= expected[2]);
            r.push(s0);
            r.push(s1);
            r.push(s2);
        },
        MenuPlatform::Other => {
            let s0 = submenu(None, "File", predefined(vec![PredefinedItem::CloseWindow, PredefinedItem::Quit]));
            assert(submenu_model(s0) =~~= expected[0]);
            let s1 = edit_items();
            let s2 = submenu(Some(WINDOW_SUBMENU_ID), "Window", predefined(vec![PredefinedItem::Minimize, PredefinedItem::Maximize, PredefinedItem::CloseWindow]));
            assert(submenu_model(s2) =~~= expected[2]);
            let s3 = submenu(Some(HELP_SUBMENU_ID), "Help", vec![LayoutItem::About(about)]);
            assert(submenu_model(s3) =~~= expected[3]);
            r.push(s0);
            r.push(s1);
            r.push(s2);
            r.push(s3);
        },
    }
    assert(r@.map_values(|s: SubmenuLayout| submenu_model(s)) =~~= expected);
    r
}

} // verus!
