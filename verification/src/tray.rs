//! The commands of the tray plugin: creating tray icons from options, finding
//! and removing them by id, and changing their properties through the
//! resource ids that the webview holds.
use vstd::prelude::*;
use vstd::string::*;
use crate::menu::{icon_fits, image_fits, Image};
use crate::text::{push_char, str_eq};

verus! {

/// The kind of a menu item as the webview names it.
#[derive(Debug, PartialEq, Eq, Structural, Clone, Copy)]
pub enum ItemKind {
    MenuItem,
    Predefined,
    Check,
    Icon,
    Submenu,
    Menu,
}

/// A menu that a tray shows: the webview resource holding it, which is a
/// menu or a submenu.
#[derive(Debug, PartialEq, Eq, Structural, Clone, Copy)]
pub struct TrayMenu {
    pub rid: u32,
    pub is_submenu: bool,
}

/// The quick-operation panel of a tray on OpenHarmony.
#[derive(Debug)]
pub struct QuickOperationConfig {
    pub title: String,
    pub height: u32,
    pub ability_name: String,
    pub module_name: Option<String>,
    pub loading_status: Option<bool>,
}

/// The options of a new tray icon.
#[derive(Debug)]
pub struct TrayIconOptions {
    pub id: Option<String>,
    pub menu: Option<(u32, ItemKind)>,
    pub icon: Option<Image>,
    pub tooltip: Option<String>,
    pub title: Option<String>,
    pub temp_dir_path: Option<String>,
    pub icon_as_template: Option<bool>,
    pub menu_on_left_click: Option<bool>,
    pub show_menu_on_left_click: Option<bool>,
    pub quick_operation: Option<QuickOperationConfig>,
}

/// A tray icon and its properties.
#[derive(Debug)]
pub struct TrayIcon {
    pub id: String,
    pub icon: Option<Image>,
    pub menu: Option<TrayMenu>,
    pub tooltip: Option<String>,
    pub title: Option<String>,
    pub visible: bool,
    pub temp_dir_path: Option<String>,
    pub icon_as_template: bool,
    pub show_menu_on_left_click: bool,
    pub quick_operation: Option<QuickOperationConfig>,
}

/// The menus and submenus that the webview holds, by resource id.
#[derive(Debug)]
pub struct WebviewResources {
    pub menus: Vec<(u32, bool)>,
}

/// The tray icons of the application, each with its resource id, and the
/// counters from which new resource ids and tray ids are taken.
#[derive(Debug)]
pub struct TrayRegistry {
    pub icons: Vec<(u32, TrayIcon)>,
    pub next_rid: u32,
    pub next_tray_id: u64,
}

/// Why a tray command failed.
#[derive(Debug)]
pub enum TrayError {
    /// No resource of the expected kind has this id.
    BadResourceId { rid: u32 },
    /// The menu item kind given for a tray menu is neither a menu nor a
    /// submenu.
    UnexpectedMenuKind,
    /// No tray has this id.
    NoTrayWithId { id: String },
    /// The icon's byte count is not a multiple of 4, or its pixel count is
    /// not its width times its height.
    BadIcon,
    /// The registry has no resource id left.
    ResourceIdsExhausted,
}

/// The decimal digits of `n`.
pub open spec fn decimal(n: nat) -> Seq<char>
    decreases n,
{
    if n < 10 {
        seq![digit_char(n)]
    } else {
        decimal(n / 10).push(digit_char(n % 10))
    }
}

/// The character of the digit `d`.
pub open spec fn digit_char(d: nat) -> char {
    if d == 0 { '0' } else if d == 1 { '1' } else if d == 2 { '2' } else if d == 3 { '3' } else if d
        == 4 { '4' } else if d == 5 { '5' } else if d == 6 { '6' } else if d == 7 { '7' } else if d
        == 8 { '8' } else { '9' }
}

fn digit(d: u64) -> (c: char)
    requires
        d < 10,
    ensures
        c == digit_char(d as nat),
{
    if d == 0 { '0' } else if d == 1 { '1' } else if d == 2 { '2' } else if d == 3 { '3' } else if d
        == 4 { '4' } else if d == 5 { '5' } else if d == 6 { '6' } else if d == 7 { '7' } else if d
        == 8 { '8' } else { '9' }
}

/// The decimal text of `n`.
pub fn to_decimal(n: u64) -> (r: String)
    ensures
        r@ == decimal(n as nat),
    decreases n,
{
    if n < 10 {
        let mut s = String::new();
        push_char(&mut s, digit(n));
        assert(s@ =~= seq![digit_char(n as nat)]);
        s
    } else {
        let mut s = to_decimal(n / 10);
        push_char(&mut s, digit(n % 10));
        s
    }
}

/// The index of the first tray whose id is `id`.
pub open spec fn first_tray_with_id(icons: Seq<(u32, TrayIcon)>, id: Seq<char>) -> Option<int>
    decreases icons.len(),
{
    if icons.len() == 0 {
        None
    } else if icons[0].1.id@ == id {
        Some(0)
    } else {
        match first_tray_with_id(icons.drop_first(), id) {
            Some(i) => Some(i + 1),
            None => None,
        }
    }
}

/// The index of the first tray whose resource id is `rid`.
pub open spec fn tray_index(icons: Seq<(u32, TrayIcon)>, rid: u32) -> Option<int>
    decreases icons.len(),
{
    if icons.len() == 0 {
        None
    } else if icons[0].0 == rid {
        Some(0)
    } else {
        match tray_index(icons.drop_first(), rid) {
            Some(i) => Some(i + 1),
            None => None,
        }
    }
}

proof fn lemma_tray_index_bounds(icons: Seq<(u32, TrayIcon)>, rid: u32)
    ensures
        tray_index(icons, rid) matches Some(i) ==> 0 <= i < icons.len() && icons[i].0 == rid,
    decreases icons.len(),
{
    if icons.len() > 0 {
        lemma_tray_index_bounds(icons.drop_first(), rid);
    }
}

proof fn lemma_first_tray_bounds(icons: Seq<(u32, TrayIcon)>, id: Seq<char>)
    ensures
        first_tray_with_id(icons, id) matches Some(i) ==> 0 <= i < icons.len() && icons[i].1.id@
            == id,
    decreases icons.len(),
{
    if icons.len() > 0 {
        lemma_first_tray_bounds(icons.drop_first(), id);
    }
}

/// Whether the webview holds a menu (or, when `submenu`, a submenu) at `rid`.
pub open spec fn holds_menu(res: WebviewResources, rid: u32, submenu: bool) -> bool {
    exists|i: int| 0 <= i < res.menus@.len() && res.menus@[i] == (rid, submenu)
}

/// The menu that the options of a tray ask for, checked against the
/// webview's resources: none asked, a menu or submenu that the webview
/// holds, or an error.
pub open spec fn requested_menu(res: WebviewResources, menu: Option<(u32, ItemKind)>) -> Result<
    Option<TrayMenu>,
    TrayError,
> {
    match menu {
        None => Ok(None),
        Some((rid, ItemKind::Menu)) => if holds_menu(res, rid, false) {
            Ok(Some(TrayMenu { rid, is_submenu: false }))
        } else {
            Err(TrayError::BadResourceId { rid })
        },
        Some((rid, ItemKind::Submenu)) => if holds_menu(res, rid, true) {
            Ok(Some(TrayMenu { rid, is_submenu: true }))
        } else {
            Err(TrayError::BadResourceId { rid })
        },
        Some(_) => Err(TrayError::UnexpectedMenuKind),
    }
}

fn lookup_menu(res: &WebviewResources, menu: Option<(u32, ItemKind)>) -> (r: Result<
    Option<TrayMenu>,
    TrayError,
>)
    ensures
        r == requested_menu(*res, menu),
{
    match menu {
        None => Ok(None),
        Some((rid, kind)) => {
            let submenu = match kind {
                ItemKind::Menu => false,
                ItemKind::Submenu => true,
                _ => {
                    return Err(TrayError::UnexpectedMenuKind);
                },
            };
            let mut i: usize = 0;
            while i < res.menus.len()
                invariant
                    i <= res.menus@.len(),
                    menu == Some((rid, kind)),
                    kind == ItemKind::Menu || kind == ItemKind::Submenu,
                    submenu == (kind == ItemKind::Submenu),
                    forall|k: int| 0 <= k < i ==> res.menus@[k] != (rid, submenu),
                decreases res.menus.len() - i,
            {
                if res.menus[i].0 == rid && res.menus[i].1 == submenu {
                    assert(res.menus@[i as int] == (rid, submenu));
                    return Ok(Some(TrayMenu { rid, is_submenu: submenu }));
                }
                i = i + 1;
            }
            Err(TrayError::BadResourceId { rid })
        },
    }
}

/// `s` without its entry at `i`, the last entry moved into its place, as
/// `Vec::swap_remove` leaves it.
pub open spec fn swap_removed<T>(s: Seq<T>, i: int) -> Seq<T> {
    if i == s.len() - 1 {
        s.drop_last()
    } else {
        s.update(i, s.last()).drop_last()
    }
}

/// Whether an optional icon, if given, fits its size.
pub open spec fn icon_ok(icon: Option<Image>) -> bool {
    match icon {
        Some(img) => icon_fits(img),
        None => true,
    }
}

/// `new` differs from `old` at most in the tray at index `i`, which keeps its
/// resource id and its tray id.
pub open spec fn changed_only_at(old: Seq<(u32, TrayIcon)>, new: Seq<(u32, TrayIcon)>, i: int) -> bool {
    &&& new.len() == old.len()
    &&& 0 <= i < old.len()
    &&& forall|j: int| 0 <= j < old.len() && j != i ==> new[j] == old[j]
    &&& new[i].0 == old[i].0
    &&& new[i].1.id == old[i].1.id
}

/// The outcome owed by a command on the tray at `rid`: refused when no tray
/// has that resource id, else the tray found there is changed as `changed`
/// states and no other tray changes.
pub open spec fn tray_command(
    old: Seq<(u32, TrayIcon)>,
    new: Seq<(u32, TrayIcon)>,
    rid: u32,
    r: Result<(), TrayError>,
    changed: spec_fn(TrayIcon, TrayIcon) -> bool,
) -> bool {
    match tray_index(old, rid) {
        None => r matches Err(TrayError::BadResourceId { rid: bad }) && bad == rid && new == old,
        Some(i) => r is Ok && changed_only_at(old, new, i) && changed(old[i].1, new[i].1),
    }
}

/// The names of the commands that the tray plugin handles.
pub open spec fn tray_commands() -> Seq<Seq<char>> {
    seq![
        "new"@,
        "get_by_id"@,
        "remove_by_id"@,
        "set_icon"@,
        "set_menu"@,
        "set_tooltip"@,
        "set_title"@,
        "set_visible"@,
        "set_temp_dir_path"@,
        "set_icon_as_template"@,
        "set_show_menu_on_left_click"@,
        "set_quick_operation"@,
    ]
}

/// The tray plugin handles twelve commands, each exactly once: every
/// command of the tray registry (creating, finding and removing a tray,
/// and setting its icon, menu, tooltip, title, visibility, temporary
/// directory, template icon, left-click menu and quick operation).
pub proof fn lemma_tray_commands_each_once()
    ensures
        tray_commands().len() == 12,
        forall|i: int, j: int|
            0 <= i < j < tray_commands().len() ==> tray_commands()[i] != tray_commands()[j],
        tray_commands().contains("new"@),
        tray_commands().contains("get_by_id"@),
        tray_commands().contains("remove_by_id"@),
        tray_commands().contains("set_icon"@),
        tray_commands().contains("set_menu"@),
        tray_commands().contains("set_tooltip"@),
        tray_commands().contains("set_title"@),
        tray_commands().contains("set_visible"@),
        tray_commands().contains("set_temp_dir_path"@),
        tray_commands().contains("set_icon_as_template"@),
        tray_commands().contains("set_show_menu_on_left_click"@),
        tray_commands().contains("set_quick_operation"@),
{
    reveal_strlit("new");
    reveal_strlit("get_by_id");
    reveal_strlit("remove_by_id");
    reveal_strlit("set_icon");
    reveal_strlit("set_menu");
    reveal_strlit("set_tooltip");
    reveal_strlit("set_title");
    reveal_strlit("set_visible");
    reveal_strlit("set_temp_dir_path");
    reveal_strlit("set_icon_as_template");
    reveal_strlit("set_show_menu_on_left_click");
    reveal_strlit("set_quick_operation");
    let c = tray_commands();
    assert(c[0] == "new"@);
    assert(c[1] == "get_by_id"@);
    assert(c[2] == "remove_by_id"@);
    assert(c[3] == "set_icon"@);
    assert(c[4] == "set_menu"@);
    assert(c[5] == "set_tooltip"@);
    assert(c[6] == "set_title"@);
    assert(c[7] == "set_visible"@);
    assert(c[8] == "set_temp_dir_path"@);
    assert(c[9] == "set_icon_as_template"@);
    assert(c[10] == "set_show_menu_on_left_click"@);
    assert(c[11] == "set_quick_operation"@);
    assert(c[0].len() == 3);
    assert(c[1].len() == 9);
    assert(c[2].len() == 12);
    assert(c[3].len() == 8);
    assert(c[4].len() == 8);
    assert(c[5].len() == 11);
    assert(c[6].len() == 9);
    assert(c[7].len() == 11);
    assert(c[8].len() == 17);
    assert(c[9].len() == 20);
    assert(c[10].len() == 27);
    assert(c[11].len() == 19);
    assert(c[1][0] == 'g' && c[6][0] == 's');
    assert(c[1] != c[6]);
    assert(c[3][4] == 'i' && c[4][4] == 'm');
    assert(c[3] != c[4]);
    assert(c[5][4] == 't' && c[7][4] == 'v');
    assert(c[5] != c[7]);
}

/// The tray plugin: its name and the commands it handles.
#[derive(Debug)]
pub struct PluginInfo {
    pub name: String,
    pub commands: Vec<String>,
}

/// The tray plugin, named `tray`, with its commands.
pub fn init() -> (r: PluginInfo)
    ensures
        r.name@ == "tray"@,
        r.commands.deep_view() == tray_commands(),
        r.commands@.len() == 12,
        r.commands.deep_view().contains("set_visible"@),
        forall|i: int, j: int|
            0 <= i < j < r.commands@.len() ==> r.commands.deep_view()[i] != r.commands.deep_view()[j],
{
    proof {
        lemma_tray_commands_each_once();
    }
    let mut commands: Vec<String> = Vec::new();
    commands.push("new".to_owned());
    commands.push("get_by_id".to_owned());
    commands.push("remove_by_id".to_owned());
    commands.push("set_icon".to_owned());
    commands.push("set_menu".to_owned());
    commands.push("set_tooltip".to_owned());
    commands.push("set_title".to_owned());
    commands.push("set_visible".to_owned());
    commands.push("set_temp_dir_path".to_owned());
    commands.push("set_icon_as_template".to_owned());
    commands.push("set_show_menu_on_left_click".to_owned());
    commands.push("set_quick_operation".to_owned());
    assert(commands.deep_view() =~= tray_commands());
    PluginInfo { name: "tray".to_owned(), commands }
}

impl TrayRegistry {
    /// A registry without trays.
    pub fn empty() -> (r: TrayRegistry)
        ensures
            r.icons@.len() == 0,
            r.next_rid == 1,
            r.next_tray_id == 1,
    {
        TrayRegistry { icons: Vec::new(), next_rid: 1, next_tray_id: 1 }
    }

    fn index_of_rid(&self, rid: u32) -> (r: Option<usize>)
        ensures
            r matches Some(i) ==> tray_index(self.icons@, rid) == Some(i as int),
            r is None ==> tray_index(self.icons@, rid) is None,
    {
        let mut i: usize = 0;
        let ghost all = self.icons@;
        assert(all.subrange(0, all.len() as int) =~= all);
        while i < self.icons.len()
            invariant
                all == self.icons@,
                i <= all.len(),
                match tray_index(all, rid) {
                    Some(k) => match tray_index(all.subrange(i as int, all.len() as int), rid) {
                        Some(j) => k == j + i,
                        None => false,
                    },
                    None => tray_index(all.subrange(i as int, all.len() as int), rid) is None,
                },
            decreases self.icons.len() - i,
        {
            let ghost rest = all.subrange(i as int, all.len() as int);
            assert(rest[0] == all[i as int]);
            assert(rest.drop_first() =~= all.subrange(i + 1, all.len() as int));
            if self.icons[i].0 == rid {
                return Some(i);
            }
            i = i + 1;
        }
        None
    }

    /// Creates a tray icon from `options`, registers it under a new resource
    /// id, and returns that id with the tray's id (the given one, or the
    /// next number of the registry's counter).
    pub fn new(&mut self, webview: &WebviewResources, options: TrayIconOptions) -> (r: Result<
        (u32, String),
        TrayError,
    >)
        requires
            options.icon matches Some(img) ==> img.width * img.height <= u32::MAX,
        ensures
            requested_menu(*webview, options.menu) matches Err(e) ==> r == Err::<(u32, String), TrayError>(e)
                && final(self).icons@ == old(self).icons@,
            requested_menu(*webview, options.menu) is Ok && !icon_ok(options.icon) ==> r == Err::<
                (u32, String),
                TrayError,
            >(TrayError::BadIcon) && final(self).icons@ == old(self).icons@,
            requested_menu(*webview, options.menu) is Ok && icon_ok(options.icon) && old(
                self,
            ).next_rid < u32::MAX ==> r is Ok,
            r matches Ok((rid, id)) ==> {
                &&& rid == old(self).next_rid
                &&& final(self).icons@.len() == old(self).icons@.len() + 1
                &&& final(self).icons@.subrange(0, old(self).icons@.len() as int) == old(
                    self,
                ).icons@
                &&& final(self).icons@.last().0 == rid
                &&& final(self).icons@.last().1.id@ == id@
                &&& id@ == match options.id {
                    Some(i) => i@,
                    None => decimal(old(self).next_tray_id as nat),
                }
                &&& final(self).icons@.last().1.menu == requested_menu(*webview, options.menu)->Ok_0
                &&& final(self).icons@.last().1.tooltip.deep_view() == options.tooltip.deep_view()
                &&& final(self).icons@.last().1.title.deep_view() == options.title.deep_view()
                &&& final(self).icons@.last().1.visible
                &&& final(self).icons@.last().1.icon_as_template == (options.icon_as_template
                    == Some(true))
                &&& final(self).icons@.last().1.show_menu_on_left_click == match options.show_menu_on_left_click {
                    Some(b) => b,
                    None => match options.menu_on_left_click {
                        Some(b) => b,
                        None => true,
                    },
                }
                &&& final(self).icons@.last().1.icon == options.icon
                &&& final(self).icons@.last().1.temp_dir_path == options.temp_dir_path
                &&& final(self).icons@.last().1.quick_operation == options.quick_operation
                &&& final(self).next_rid == old(self).next_rid + 1
            },
            r is Err ==> final(self).icons@ == old(self).icons@ && final(self).next_rid == old(
                self,
            ).next_rid,
            final(self).next_tray_id == if r is Ok && options.id is None && old(self).next_tray_id
                < u64::MAX {
                (old(self).next_tray_id + 1) as u64
            } else {
                old(self).next_tray_id
            },
    {
        let TrayIconOptions {
            id,
            menu,
            icon,
            tooltip,
            title,
            temp_dir_path,
            icon_as_template,
            menu_on_left_click,
            show_menu_on_left_click,
            quick_operation,
        } = options;
        let tray_menu = match lookup_menu(webview, menu) {
            Ok(m) => m,
            Err(e) => {
                return Err(e);
            },
        };
        if let Some(img) = &icon {
            if !image_fits(img) {
                return Err(TrayError::BadIcon);
            }
        }
        if self.next_rid == u32::MAX {
            return Err(TrayError::ResourceIdsExhausted);
        }
        let tray_id = match id {
            Some(i) => i,
            None => {
                let t = to_decimal(self.next_tray_id);
                if self.next_tray_id < u64::MAX {
                    self.next_tray_id = self.next_tray_id + 1;
                }
                t
            },
        };
        let mut show = true;
        if let Some(b) = menu_on_left_click {
            show = b;
        }
        if let Some(b) = show_menu_on_left_click {
            show = b;
        }
        let template = match icon_as_template {
            Some(b) => b,
            None => false,
        };
        let rid = self.next_rid;
        self.next_rid = self.next_rid + 1;
        let tray = TrayIcon {
            id: tray_id.clone(),
            icon,
            menu: tray_menu,
            tooltip,
            title,
            visible: true,
            temp_dir_path,
            icon_as_template: template,
            show_menu_on_left_click: show,
            quick_operation,
        };
        let ghost before = self.icons@;
        self.icons.push((rid, tray));
        assert(self.icons@.subrange(0, before.len() as int) =~= before);
        Ok((rid, tray_id))
    }

    /// The resource id of the first tray whose id is `id`.
    pub fn get_by_id(&self, id: &str) -> (r: Option<u32>)
        ensures
            match first_tray_with_id(self.icons@, id@) {
                Some(i) => r == Some(self.icons@[i].0),
                None => r is None,
            },
    {
        let mut i: usize = 0;
        let ghost all = self.icons@;
        assert(all.subrange(0, all.len() as int) =~= all);
        while i < self.icons.len()
            invariant
                all == self.icons@,
                i <= all.len(),
                match first_tray_with_id(all, id@) {
                    Some(k) => match first_tray_with_id(all.subrange(i as int, all.len() as int), id@) {
                        Some(j) => k == j + i,
                        None => false,
                    },
                    None => first_tray_with_id(all.subrange(i as int, all.len() as int), id@) is None,
                },
            decreases self.icons.len() - i,
        {
            let ghost rest = all.subrange(i as int, all.len() as int);
            assert(rest[0] == all[i as int]);
            assert(rest.drop_first() =~= all.subrange(i + 1, all.len() as int));
            if str_eq(self.icons[i].1.id.as_str(), id) {
                return Some(self.icons[i].0);
            }
            i = i + 1;
        }
        None
    }

    /// Removes the first tray whose id is `id`, moving the last tray into
    /// its place; refused when no tray has that id.
    pub fn remove_by_id(&mut self, id: &str) -> (r: Result<(), TrayError>)
        ensures
            match first_tray_with_id(old(self).icons@, id@) {
                Some(i) => r is Ok && final(self).icons@ == swap_removed(old(self).icons@, i),
                None => r matches Err(TrayError::NoTrayWithId { id: missing }) && missing@ == id@
                    && final(self).icons@ == old(self).icons@,
            },
    {
        let mut i: usize = 0;
        let ghost all = self.icons@;
        assert(all.subrange(0, all.len() as int) =~= all);
        while i < self.icons.len()
            invariant
                all == self.icons@,
                all == old(self).icons@,
                i <= all.len(),
                match first_tray_with_id(all, id@) {
                    Some(k) => match first_tray_with_id(all.subrange(i as int, all.len() as int), id@) {
                        Some(j) => k == j + i,
                        None => false,
                    },
                    None => first_tray_with_id(all.subrange(i as int, all.len() as int), id@) is None,
                },
            decreases self.icons.len() - i,
        {
            let ghost rest = all.subrange(i as int, all.len() as int);
            assert(rest[0] == all[i as int]);
            assert(rest.drop_first() =~= all.subrange(i + 1, all.len() as int));
            if str_eq(self.icons[i].1.id.as_str(), id) {
                self.icons.swap_remove(i);
                assert(self.icons@ =~= swap_removed(all, i as int));
                return Ok(());
            }
            i = i + 1;
        }
        Err(TrayError::NoTrayWithId { id: id.to_owned() })
    }

    fn find(&self, rid: u32) -> (r: Result<usize, TrayError>)
        ensures
            tray_index(self.icons@, rid) is None ==> (r matches Err(TrayError::BadResourceId { rid: bad }) && bad == rid),
            r matches Ok(i) ==> tray_index(self.icons@, rid) == Some(i as int) && i < self.icons@.len(),
            r is Err ==> tray_index(self.icons@, rid) is None,
    {
        proof {
            lemma_tray_index_bounds(self.icons@, rid);
        }
        match self.index_of_rid(rid) {
            Some(i) => Ok(i),
            None => Err(TrayError::BadResourceId { rid }),
        }
    }

    /// Sets the tooltip of the tray at `rid`.
    pub fn set_tooltip(&mut self, rid: u32, tooltip: Option<String>) -> (r: Result<(), TrayError>)
        ensures
            tray_command(
                old(self).icons@,
                final(self).icons@,
                rid,
                r,
                |a: TrayIcon, b: TrayIcon|
                    b.tooltip.deep_view() == tooltip.deep_view() && b.title == a.title && b.visible
                        == a.visible && b.menu == a.menu && b.icon == a.icon,
            ),
    {
        let i = match self.find(rid) {
            Ok(i) => i,
            Err(e) => {
                return Err(e);
            },
        };
        let ghost before = self.icons@;
        self.icons[i].1.tooltip = tooltip;
        assert(changed_only_at(before, self.icons@, i as int));
        Ok(())
    }

    /// Sets the title of the tray at `rid`.
    pub fn set_title(&mut self, rid: u32, title: Option<String>) -> (r: Result<(), TrayError>)
        ensures
            tray_command(
                old(self).icons@,
                final(self).icons@,
                rid,
                r,
                |a: TrayIcon, b: TrayIcon|
                    b.title.deep_view() == title.deep_view() && b.tooltip == a.tooltip && b.visible
                        == a.visible && b.menu == a.menu && b.icon == a.icon,
            ),
    {
        let i = match self.find(rid) {
            Ok(i) => i,
            Err(e) => {
                return Err(e);
            },
        };
        let ghost before = self.icons@;
        self.icons[i].1.title = title;
        assert(changed_only_at(before, self.icons@, i as int));
        Ok(())
    }

    /// Shows or hides the tray at `rid`.
    pub fn set_visible(&mut self, rid: u32, visible: bool) -> (r: Result<(), TrayError>)
        ensures
            tray_command(
                old(self).icons@,
                final(self).icons@,
                rid,
                r,
                |a: TrayIcon, b: TrayIcon|
                    b.visible == visible && b.tooltip == a.tooltip && b.title == a.title && b.menu
                        == a.menu && b.icon == a.icon,
            ),
    {
        let i = match self.find(rid) {
            Ok(i) => i,
            Err(e) => {
                return Err(e);
            },
        };
        let ghost before = self.icons@;
        self.icons[i].1.visible = visible;
        assert(changed_only_at(before, self.icons@, i as int));
        Ok(())
    }

    /// Sets the directory in which the tray at `rid` stores its icon files.
    pub fn set_temp_dir_path(&mut self, rid: u32, path: Option<String>) -> (r: Result<(), TrayError>)
        ensures
            tray_command(
                old(self).icons@,
                final(self).icons@,
                rid,
                r,
                |a: TrayIcon, b: TrayIcon|
                    b.temp_dir_path.deep_view() == path.deep_view() && b.tooltip == a.tooltip
                        && b.title == a.title && b.visible == a.visible && b.menu == a.menu,
            ),
    {
        let i = match self.find(rid) {
            Ok(i) => i,
            Err(e) => {
                return Err(e);
            },
        };
        let ghost before = self.icons@;
        self.icons[i].1.temp_dir_path = path;
        assert(changed_only_at(before, self.icons@, i as int));
        Ok(())
    }

    /// Sets whether the icon of the tray at `rid` is a template image.
    pub fn set_icon_as_template(&mut self, rid: u32, as_template: bool) -> (r: Result<(), TrayError>)
        ensures
            tray_command(
                old(self).icons@,
                final(self).icons@,
                rid,
                r,
                |a: TrayIcon, b: TrayIcon|
                    b.icon_as_template == as_template && b.tooltip == a.tooltip && b.title == a.title
                        && b.visible == a.visible && b.menu == a.menu,
            ),
    {
        let i = match self.find(rid) {
            Ok(i) => i,
            Err(e) => {
                return Err(e);
            },
        };
        let ghost before = self.icons@;
        self.icons[i].1.icon_as_template = as_template;
        assert(changed_only_at(before, self.icons@, i as int));
        Ok(())
    }

    /// Sets whether a left click shows the menu of the tray at `rid`.
    pub fn set_show_menu_on_left_click(&mut self, rid: u32, on_left: bool) -> (r: Result<
        (),
        TrayError,
    >)
        ensures
            tray_command(
                old(self).icons@,
                final(self).icons@,
                rid,
                r,
                |a: TrayIcon, b: TrayIcon|
                    b.show_menu_on_left_click == on_left && b.tooltip == a.tooltip && b.title
                        == a.title && b.visible == a.visible && b.menu == a.menu,
            ),
    {
        let i = match self.find(rid) {
            Ok(i) => i,
            Err(e) => {
                return Err(e);
            },
        };
        let ghost before = self.icons@;
        self.icons[i].1.show_menu_on_left_click = on_left;
        assert(changed_only_at(before, self.icons@, i as int));
        Ok(())
    }

    /// Sets or removes the quick-operation panel of the tray at `rid`.
    pub fn set_quick_operation(&mut self, rid: u32, config: Option<QuickOperationConfig>) -> (r:
        Result<(), TrayError>)
        ensures
            tray_command(
                old(self).icons@,
                final(self).icons@,
                rid,
                r,
                |a: TrayIcon, b: TrayIcon|
                    b.quick_operation == config && b.tooltip == a.tooltip && b.title == a.title
                        && b.visible == a.visible && b.menu == a.menu,
            ),
    {
        let i = match self.find(rid) {
            Ok(i) => i,
            Err(e) => {
                return Err(e);
            },
        };
        let ghost before = self.icons@;
        self.icons[i].1.quick_operation = config;
        assert(changed_only_at(before, self.icons@, i as int));
        Ok(())
    }

    /// Sets or removes the icon of the tray at `rid`; an icon whose pixels do
    /// not fit its size is refused and nothing changes.
    pub fn set_icon(&mut self, rid: u32, icon: Option<Image>) -> (r: Result<(), TrayError>)
        ensures
            tray_index(old(self).icons@, rid) is Some && !icon_ok(icon) ==> r == Err::<
                (),
                TrayError,
            >(TrayError::BadIcon) && final(self).icons@ == old(self).icons@,
            tray_index(old(self).icons@, rid) is None || icon_ok(icon) ==> tray_command(
                old(self).icons@,
                final(self).icons@,
                rid,
                r,
                |a: TrayIcon, b: TrayIcon|
                    b.icon == icon && b.tooltip == a.tooltip && b.title == a.title && b.visible
                        == a.visible && b.menu == a.menu,
            ),
    {
        let i = match self.find(rid) {
            Ok(i) => i,
            Err(e) => {
                return Err(e);
            },
        };
        if let Some(img) = &icon {
            if !image_fits(img) {
                return Err(TrayError::BadIcon);
            }
        }
        let ghost before = self.icons@;
        self.icons[i].1.icon = icon;
        assert(changed_only_at(before, self.icons@, i as int));
        Ok(())
    }

    /// Sets or removes the menu of the tray at `rid`: a menu or submenu that
    /// the webview holds; a missing resource or another item kind is refused
    /// and nothing changes.
    pub fn set_menu(&mut self, webview: &WebviewResources, rid: u32, menu: Option<(u32, ItemKind)>) -> (r:
        Result<(), TrayError>)
        ensures
            tray_index(old(self).icons@, rid) is Some && requested_menu(*webview, menu) is Err ==> r
                == Err::<(), TrayError>(requested_menu(*webview, menu)->Err_0) && final(self).icons@
                == old(self).icons@,
            tray_index(old(self).icons@, rid) is None || requested_menu(*webview, menu) is Ok
                ==> tray_command(
                old(self).icons@,
                final(self).icons@,
                rid,
                r,
                |a: TrayIcon, b: TrayIcon|
                    b.menu == requested_menu(*webview, menu)->Ok_0 && b.tooltip == a.tooltip
                        && b.title == a.title && b.visible == a.visible && b.icon == a.icon,
            ),
    {
        let i = match self.find(rid) {
            Ok(i) => i,
            Err(e) => {
                return Err(e);
            },
        };
        let m = match lookup_menu(webview, menu) {
            Ok(m) => m,
            Err(e) => {
                return Err(e);
            },
        };
        let ghost before = self.icons@;
        self.icons[i].1.menu = m;
        assert(changed_only_at(before, self.icons@, i as int));
        Ok(())
    }
}

proof fn lemma_first_tray_none(icons: Seq<(u32, TrayIcon)>, id: Seq<char>)
    ensures
        first_tray_with_id(icons, id) is None <==> forall|j: int|
            0 <= j < icons.len() ==> (#[trigger] icons[j]).1.id@ != id,
    decreases icons.len(),
{
    if icons.len() > 0 {
        lemma_first_tray_none(icons.drop_first(), id);
        let d = icons.drop_first();
        if icons[0].1.id@ != id {
            if forall|j: int| 0 <= j < d.len() ==> (#[trigger] d[j]).1.id@ != id {
                assert forall|j: int| 0 <= j < icons.len() implies (#[trigger] icons[j]).1.id@
                    != id by {
                    if j > 0 {
                        assert(icons[j] == d[j - 1]);
                    }
                }
            }
            if forall|j: int| 0 <= j < icons.len() ==> (#[trigger] icons[j]).1.id@ != id {
                assert forall|j: int| 0 <= j < d.len() implies (#[trigger] d[j]).1.id@ != id by {
                    assert(d[j] == icons[j + 1]);
                }
            }
        }
    }
}

/// A tray created by `new` is found by `get_by_id` with its id; when
/// no earlier tray has that id, the one found is the new tray.
pub proof fn lemma_new_tray_found(icons: Seq<(u32, TrayIcon)>, tray: (u32, TrayIcon))
    ensures
        first_tray_with_id(icons.push(tray), tray.1.id@) is Some,
        first_tray_with_id(icons, tray.1.id@) is None ==> first_tray_with_id(
            icons.push(tray),
            tray.1.id@,
        ) == Some(icons.len() as int),
    decreases icons.len(),
{
    if icons.len() > 0 {
        assert(icons.push(tray).drop_first() =~= icons.drop_first().push(tray));
        lemma_new_tray_found(icons.drop_first(), tray);
        assert(icons.push(tray)[0] == icons[0]);
    } else {
        assert(icons.push(tray)[0] == tray);
    }
}

/// Once the only tray with an id is removed by `remove_by_id`, `get_by_id`
/// no longer finds that id.
pub proof fn lemma_removed_tray_gone(icons: Seq<(u32, TrayIcon)>, id: Seq<char>)
    requires
        first_tray_with_id(icons, id) matches Some(i) && forall|j: int|
            0 <= j < icons.len() && j != i ==> (#[trigger] icons[j]).1.id@ != id,
    ensures
        first_tray_with_id(swap_removed(icons, first_tray_with_id(icons, id)->0), id) is None,
{
    let i = first_tray_with_id(icons, id)->0;
    lemma_first_tray_bounds(icons, id);
    let r = swap_removed(icons, i);
    assert forall|j: int| 0 <= j < r.len() implies (#[trigger] r[j]).1.id@ != id by {
        if i == icons.len() - 1 {
            assert(r[j] == icons[j]);
        } else if j == i {
            assert(r[j] == icons[icons.len() - 1]);
        } else {
            assert(r[j] == icons[j]);
        }
    }
    lemma_first_tray_none(r, id);
}

/// Every tray's resource id is below `next`.
pub open spec fn rids_below(icons: Seq<(u32, TrayIcon)>, next: u32) -> bool {
    forall|i: int| 0 <= i < icons.len() ==> (#[trigger] icons[i]).0 < next
}

/// A tray added by `new` gets a resource id that no earlier tray has: when
/// all resource ids are below the registry's counter (as they are from
/// `empty` on, since `new` takes the counter and advances it), the new id
/// differs from every stored one, and all ids stay below the advanced
/// counter.
pub proof fn lemma_new_rid_is_fresh(icons: Seq<(u32, TrayIcon)>, next: u32, tray: TrayIcon)
    requires
        rids_below(icons, next),
        next < u32::MAX,
    ensures
        forall|i: int| 0 <= i < icons.len() ==> (#[trigger] icons[i]).0 != next,
        rids_below(icons.push((next, tray)), (next + 1) as u32),
{
    assert forall|i: int| 0 <= i < icons.push((next, tray)).len() implies (#[trigger] icons.push(
        (next, tray),
    )[i]).0 < (next + 1) as u32 by {
        if i < icons.len() {
            assert(icons.push((next, tray))[i] == icons[i]);
        }
    }
}

/// Removing a tray or changing one keeps every resource id below the
/// counter.
pub proof fn lemma_rids_below_kept(icons: Seq<(u32, TrayIcon)>, next: u32, i: int)
    requires
        rids_below(icons, next),
        0 <= i < icons.len(),
    ensures
        rids_below(swap_removed(icons, i), next),
{
    let r = swap_removed(icons, i);
    assert forall|j: int| 0 <= j < r.len() implies (#[trigger] r[j]).0 < next by {
        if i == icons.len() - 1 {
            assert(r[j] == icons[j]);
        } else if j == i {
            assert(r[j] == icons[icons.len() - 1]);
        } else {
            assert(r[j] == icons[j]);
        }
    }
}

} // verus!
