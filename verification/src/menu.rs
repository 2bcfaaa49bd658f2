//! The state of a native submenu: its id, text, enabled flag, icons and the
//! ordered items it holds, with the operations that change them.
use vstd::prelude::*;
use vstd::string::*;
use crate::text::str_eq;
use crate::tray::{decimal, to_decimal};

verus! {

/// The application that a menu belongs to.
#[derive(Debug)]
pub struct AppHandle {
    pub id: u64,
}

/// The kind of a menu item.
#[derive(Debug, PartialEq, Eq, Structural, Clone, Copy)]
pub enum ItemKind {
    MenuItem,
    Submenu,
    Predefined,
    Check,
    Icon,
}

/// A menu item as a submenu holds it: its id and kind, the instance it is
/// (the identity of the native object, distinct for every object created),
/// and for a submenu the instances of every submenu nested inside it.
#[derive(Debug)]
pub struct MenuItemKind {
    pub id: String,
    pub kind: ItemKind,
    pub instance: u64,
    pub nested_submenus: Vec<u64>,
}

/// The id, kind, instance and nested submenu instances of an item.
pub open spec fn item_view(item: MenuItemKind) -> (Seq<char>, ItemKind, u64, Seq<u64>) {
    (item.id@, item.kind, item.instance, item.nested_submenus@)
}

/// The items of a list, each by `item_view`.
pub open spec fn items_view(items: Seq<MenuItemKind>) -> Seq<(Seq<char>, ItemKind, u64, Seq<u64>)> {
    items.map_values(|i: MenuItemKind| item_view(i))
}

impl MenuItemKind {
    /// A copy of this item.
    pub fn duplicate(&self) -> (r: MenuItemKind)
        ensures
            item_view(r) == item_view(*self),
    {
        let mut nested: Vec<u64> = Vec::new();
        let mut i: usize = 0;
        while i < self.nested_submenus.len()
            invariant
                i <= self.nested_submenus@.len(),
                nested@ == self.nested_submenus@.subrange(0, i as int),
            decreases self.nested_submenus.len() - i,
        {
            nested.push(self.nested_submenus[i]);
            i = i + 1;
            assert(nested@ =~= self.nested_submenus@.subrange(0, i as int));
        }
        assert(self.nested_submenus@.subrange(0, self.nested_submenus@.len() as int)
            =~= self.nested_submenus@);
        MenuItemKind {
            id: self.id.clone(),
            kind: self.kind,
            instance: self.instance,
            nested_submenus: nested,
        }
    }
}

/// An icon as 32-bit RGBA pixels, `width` by `height`.
#[derive(Debug)]
pub struct Image {
    pub rgba: Vec<u8>,
    pub width: u32,
    pub height: u32,
}

/// A native system icon, by the name of its variant.
#[derive(Debug)]
pub struct NativeIcon {
    pub name: String,
}

/// Why a menu operation was refused.
#[derive(Debug)]
pub enum MenuError {
    /// Adding the submenu would make a menu contain itself.
    WouldCreateCycle,
    /// The item to remove is not in this menu.
    NotAChildOfThisMenu,
    /// The icon's byte count is not a multiple of 4.
    IconByteCountNotDivisibleBy4 { byte_count: usize },
    /// The icon's pixel count differs from its width times height.
    IconDimensionsVsPixelCount { width: u32, height: u32, width_x_height: usize, pixel_count: usize },
}

/// A submenu: an id, a text, whether it is enabled, an optional icon and
/// native icon, and the items it holds in order.
#[derive(Debug)]
pub struct Submenu {
    id: String,
    instance: u64,
    text: String,
    enabled: bool,
    icon: Option<Image>,
    native_icon: Option<NativeIcon>,
    items: Vec<MenuItemKind>,
    app_handle: AppHandle,
    windows_menu_for_nsapp: bool,
    help_menu_for_nsapp: bool,
}

/// Whether adding `item` to the submenu that is the instance
/// `self_instance` would make it contain itself: the item is that very
/// submenu or a submenu holding it.
pub open spec fn would_cycle(self_instance: u64, item: (Seq<char>, ItemKind, u64, Seq<u64>)) -> bool {
    item.1 == ItemKind::Submenu && (item.2 == self_instance || item.3.contains(self_instance))
}

/// The index of the first item of `items` that would make the submenu that
/// is the instance `self_instance` contain itself, or their count when none
/// would.
pub open spec fn first_cycle(self_instance: u64, items: Seq<(Seq<char>, ItemKind, u64, Seq<u64>)>) -> nat
    decreases items.len(),
{
    if items.len() == 0 {
        0
    } else if would_cycle(self_instance, items[0]) {
        0
    } else {
        1 + first_cycle(self_instance, items.drop_first())
    }
}

/// The items of `items` whose id is not `id`, in order.
pub open spec fn without_id(items: Seq<(Seq<char>, ItemKind, u64, Seq<u64>)>, id: Seq<char>) -> Seq<
    (Seq<char>, ItemKind, u64, Seq<u64>),
>
    decreases items.len(),
{
    if items.len() == 0 {
        seq![]
    } else if items.last().0 == id {
        without_id(items.drop_last(), id)
    } else {
        without_id(items.drop_last(), id).push(items.last())
    }
}

/// The index of the first item with id `id`, if any.
pub open spec fn first_with_id(items: Seq<(Seq<char>, ItemKind, u64, Seq<u64>)>, id: Seq<char>) -> Option<
    int,
>
    decreases items.len(),
{
    if items.len() == 0 {
        None
    } else if items[0].0 == id {
        Some(0)
    } else {
        match first_with_id(items.drop_first(), id) {
            Some(i) => Some(i + 1),
            None => None,
        }
    }
}

/// Whether an icon's pixels fit its size: its byte count is a multiple of 4
/// and its pixel count is its width times its height.
pub open spec fn icon_fits(img: Image) -> bool {
    img.rgba@.len() % 4 == 0 && img.rgba@.len() / 4 == img.width * img.height
}

/// Whether an icon's pixels fit its size.
pub fn image_fits(img: &Image) -> (r: bool)
    ensures
        r == icon_fits(*img),
{
    let n = img.rgba.len();
    let w = img.width as u64;
    let h = img.height as u64;
    assert(w * h <= 0xffff_fffe_0000_0001) by (nonlinear_arith)
        requires
            w <= 0xffff_ffff,
            h <= 0xffff_ffff,
    ;
    n % 4 == 0 && (n / 4) as u64 == w * h
}

/// Where new menu objects get their identity from: the ids of items created
/// without one (decimal numbers counted from 0 as a 32-bit counter that
/// wraps around), and the instance that tells each created object from every
/// other.
#[derive(Debug)]
pub struct MenuIds {
    pub next: u32,
    pub next_instance: u64,
}

/// The counter value after `n`: one more, wrapping around at the top.
pub open spec fn next_counter(n: u32) -> u32 {
    if n == u32::MAX {
        0
    } else {
        (n + 1) as u32
    }
}

impl MenuIds {
    /// A generator whose first id is `0`.
    pub fn new() -> (r: MenuIds)
        ensures
            r.next == 0,
            r.next_instance == 0,
    {
        MenuIds { next: 0, next_instance: 0 }
    }

    /// The instance of a newly created object; the instances then advance.
    pub fn next_instance(&mut self) -> (r: u64)
        requires
            old(self).next_instance < u64::MAX,
        ensures
            r == old(self).next_instance,
            final(self).next_instance == old(self).next_instance + 1,
            final(self).next == old(self).next,
    {
        let r = self.next_instance;
        self.next_instance = self.next_instance + 1;
        r
    }

    /// The next generated id: the counter in decimal; the counter then
    /// advances.
    pub fn next_id(&mut self) -> (r: String)
        ensures
            r@ == decimal(old(self).next as nat),
            final(self).next == next_counter(old(self).next),
            final(self).next_instance == old(self).next_instance,
    {
        let id = to_decimal(self.next as u64);
        self.next = if self.next == u32::MAX {
            0
        } else {
            self.next + 1
        };
        id
    }
}

impl Submenu {
    /// The id of this submenu.
    pub closed spec fn spec_id(&self) -> Seq<char> {
        self.id@
    }

    /// The instance this submenu is.
    pub closed spec fn spec_instance(&self) -> u64 {
        self.instance
    }

    /// The text of this submenu.
    pub closed spec fn spec_text(&self) -> Seq<char> {
        self.text@
    }

    /// Whether this submenu is enabled.
    pub closed spec fn spec_enabled(&self) -> bool {
        self.enabled
    }

    /// The items of this submenu, in order.
    pub closed spec fn spec_items(&self) -> Seq<(Seq<char>, ItemKind, u64, Seq<u64>)> {
        items_view(self.items@)
    }

    /// The pixels and size of this submenu's icon.
    pub closed spec fn spec_icon(&self) -> Option<(Seq<u8>, u32, u32)> {
        match self.icon {
            Some(i) => Some((i.rgba@, i.width, i.height)),
            None => None,
        }
    }

    /// The name of this submenu's native icon.
    pub closed spec fn spec_native_icon(&self) -> Option<Seq<char>> {
        match self.native_icon {
            Some(n) => Some(n.name@),
            None => None,
        }
    }

    /// The application of this submenu.
    pub closed spec fn spec_app(&self) -> u64 {
        self.app_handle.id
    }

    /// Whether this submenu serves as the application's Window menu.
    pub closed spec fn spec_windows_menu(&self) -> bool {
        self.windows_menu_for_nsapp
    }

    /// Whether this submenu serves as the application's Help menu.
    pub closed spec fn spec_help_menu(&self) -> bool {
        self.help_menu_for_nsapp
    }

    /// A submenu with the given id, text and enabled flag, no icon and no
    /// items.
    pub fn with_id(app: &AppHandle, ids: &mut MenuIds, id: &str, text: &str, enabled: bool) -> (r:
        Submenu)
        requires
            old(ids).next_instance < u64::MAX,
        ensures
            r.spec_instance() == old(ids).next_instance,
            final(ids).next_instance == old(ids).next_instance + 1,
            final(ids).next == old(ids).next,
            r.spec_id() == id@,
            r.spec_text() == text@,
            r.spec_enabled() == enabled,
            r.spec_items() == Seq::<(Seq<char>, ItemKind, u64, Seq<u64>)>::empty(),
            r.spec_icon() is None,
            r.spec_native_icon() is None,
            r.spec_app() == app.id,
            !r.spec_windows_menu(),
            !r.spec_help_menu(),
    {
        let instance = ids.next_instance();
        let r = Submenu {
            id: id.to_owned(),
            instance,
            text: text.to_owned(),
            enabled,
            icon: None,
            native_icon: None,
            items: Vec::new(),
            app_handle: AppHandle { id: app.id },
            windows_menu_for_nsapp: false,
            help_menu_for_nsapp: false,
        };
        assert(r.spec_items() =~= Seq::<(Seq<char>, ItemKind, u64, Seq<u64>)>::empty());
        r
    }

    /// A new submenu with the next generated id, the given text and
    /// enabled flag, no icon and no items.
    pub fn new(app: &AppHandle, ids: &mut MenuIds, text: &str, enabled: bool) -> (r: Submenu)
        requires
            old(ids).next_instance < u64::MAX,
        ensures
            r.spec_id() == decimal(old(ids).next as nat),
            final(ids).next == next_counter(old(ids).next),
            r.spec_instance() == old(ids).next_instance,
            final(ids).next_instance == old(ids).next_instance + 1,
            r.spec_text() == text@,
            r.spec_enabled() == enabled,
            r.spec_items() == Seq::<(Seq<char>, ItemKind, u64, Seq<u64>)>::empty(),
            r.spec_icon() is None,
            r.spec_native_icon() is None,
            r.spec_app() == app.id,
            !r.spec_windows_menu(),
            !r.spec_help_menu(),
    {
        let id = ids.next_id();
        Submenu::with_id(app, ids, id.as_str(), text, enabled)
    }

    /// A new submenu with the next generated id and the given icon, whose
    /// pixels must fit its size (the icon is built with an unwrap).
    pub fn new_with_icon(app: &AppHandle, ids: &mut MenuIds, text: &str, enabled: bool, icon: Option<
        Image,
    >) -> (r: Submenu)
        requires
            old(ids).next_instance < u64::MAX,
            icon matches Some(img) ==> icon_fits(img) && img.width * img.height <= u32::MAX,
        ensures
            r.spec_id() == decimal(old(ids).next as nat),
            final(ids).next == next_counter(old(ids).next),
            r.spec_instance() == old(ids).next_instance,
            final(ids).next_instance == old(ids).next_instance + 1,
            r.spec_text() == text@,
            r.spec_enabled() == enabled,
            r.spec_items() == Seq::<(Seq<char>, ItemKind, u64, Seq<u64>)>::empty(),
            r.spec_icon() == match icon {
                Some(img) => Some((img.rgba@, img.width, img.height)),
                None => None::<(Seq<u8>, u32, u32)>,
            },
            r.spec_native_icon() is None,
            r.spec_app() == app.id,
            !r.spec_windows_menu(),
            !r.spec_help_menu(),
    {
        let id = ids.next_id();
        Submenu::with_id_and_icon(app, ids, id.as_str(), text, enabled, icon)
    }

    /// A new submenu with the next generated id and the given native icon.
    pub fn new_with_native_icon(
        app: &AppHandle,
        ids: &mut MenuIds,
        text: &str,
        enabled: bool,
        icon: Option<NativeIcon>,
    ) -> (r: Submenu)
        requires
            old(ids).next_instance < u64::MAX,
        ensures
            r.spec_id() == decimal(old(ids).next as nat),
            final(ids).next == next_counter(old(ids).next),
            r.spec_instance() == old(ids).next_instance,
            final(ids).next_instance == old(ids).next_instance + 1,
            r.spec_text() == text@,
            r.spec_enabled() == enabled,
            r.spec_items() == Seq::<(Seq<char>, ItemKind, u64, Seq<u64>)>::empty(),
            r.spec_icon() is None,
            r.spec_native_icon() == match icon {
                Some(n) => Some(n.name@),
                None => None::<Seq<char>>,
            },
            r.spec_app() == app.id,
            !r.spec_windows_menu(),
            !r.spec_help_menu(),
    {
        let id = ids.next_id();
        Submenu::with_id_and_native_icon(app, ids, id.as_str(), text, enabled, icon)
    }

    /// A new submenu holding `items`: `new` followed by `append_items`,
    /// which refuses the first item that would make it contain itself; the
    /// id is generated either way.
    pub fn with_items(
        app: &AppHandle,
        ids: &mut MenuIds,
        text: &str,
        enabled: bool,
        items: &Vec<MenuItemKind>,
    ) -> (r: Result<Submenu, MenuError>)
        requires
            old(ids).next_instance < u64::MAX,
        ensures
            final(ids).next == next_counter(old(ids).next),
            final(ids).next_instance == old(ids).next_instance + 1,
            (first_cycle(old(ids).next_instance, items_view(items@)) < items@.len()) <==> r is Err,
            r matches Ok(s) ==> s.spec_instance() == old(ids).next_instance,
            r matches Err(e) ==> e == MenuError::WouldCreateCycle,
            r matches Ok(s) ==> s.spec_id() == decimal(old(ids).next as nat) && s.spec_text() == text@
                && s.spec_enabled() == enabled && s.spec_items() == items_view(items@)
                && s.spec_icon() is None && s.spec_native_icon() is None && s.spec_app() == app.id,
    {
        let id = ids.next_id();
        Submenu::with_id_and_items(app, ids, id.as_str(), text, enabled, items)
    }

    /// A submenu with the given id, text and enabled flag, no items, and
    /// the given icon, whose pixels must fit its size (the icon is built
    /// with an unwrap).
    pub fn with_id_and_icon(
        app: &AppHandle,
        ids: &mut MenuIds,
        id: &str,
        text: &str,
        enabled: bool,
        icon: Option<Image>,
    ) -> (r: Submenu)
        requires
            old(ids).next_instance < u64::MAX,
            icon matches Some(img) ==> icon_fits(img) && img.width * img.height <= u32::MAX,
        ensures
            r.spec_instance() == old(ids).next_instance,
            final(ids).next_instance == old(ids).next_instance + 1,
            final(ids).next == old(ids).next,
            r.spec_id() == id@,
            r.spec_text() == text@,
            r.spec_enabled() == enabled,
            r.spec_items() == Seq::<(Seq<char>, ItemKind, u64, Seq<u64>)>::empty(),
            r.spec_icon() == match icon {
                Some(img) => Some((img.rgba@, img.width, img.height)),
                None => None::<(Seq<u8>, u32, u32)>,
            },
            r.spec_native_icon() is None,
            r.spec_app() == app.id,
            !r.spec_windows_menu(),
            !r.spec_help_menu(),
    {
        let mut s = Submenu::with_id(app, ids, id, text, enabled);
        match icon {
            Some(img) => {
                let _ = s.set_icon(Some(img));
            },
            None => {},
        }
        s
    }

    /// A submenu with the given id, text and enabled flag, no items, and
    /// the given native icon.
    pub fn with_id_and_native_icon(
        app: &AppHandle,
        ids: &mut MenuIds,
        id: &str,
        text: &str,
        enabled: bool,
        icon: Option<NativeIcon>,
    ) -> (r: Submenu)
        requires
            old(ids).next_instance < u64::MAX,
        ensures
            r.spec_instance() == old(ids).next_instance,
            final(ids).next_instance == old(ids).next_instance + 1,
            final(ids).next == old(ids).next,
            r.spec_id() == id@,
            r.spec_text() == text@,
            r.spec_enabled() == enabled,
            r.spec_items() == Seq::<(Seq<char>, ItemKind, u64, Seq<u64>)>::empty(),
            r.spec_icon() is None,
            r.spec_native_icon() == match icon {
                Some(n) => Some(n.name@),
                None => None::<Seq<char>>,
            },
            r.spec_app() == app.id,
            !r.spec_windows_menu(),
            !r.spec_help_menu(),
    {
        let mut s = Submenu::with_id(app, ids, id, text, enabled);
        match icon {
            Some(n) => {
                let _ = s.set_native_icon(Some(n));
            },
            None => {},
        }
        s
    }

    /// A submenu with the given id holding `items`: `with_id` followed by
    /// `append_items`, which refuses the first item that would make it
    /// contain itself.
    pub fn with_id_and_items(
        app: &AppHandle,
        ids: &mut MenuIds,
        id: &str,
        text: &str,
        enabled: bool,
        items: &Vec<MenuItemKind>,
    ) -> (r: Result<Submenu, MenuError>)
        requires
            old(ids).next_instance < u64::MAX,
        ensures
            final(ids).next_instance == old(ids).next_instance + 1,
            final(ids).next == old(ids).next,
            (first_cycle(old(ids).next_instance, items_view(items@)) < items@.len()) <==> r is Err,
            r matches Ok(s) ==> s.spec_instance() == old(ids).next_instance,
            r matches Err(e) ==> e == MenuError::WouldCreateCycle,
            r matches Ok(s) ==> s.spec_id() == id@ && s.spec_text() == text@ && s.spec_enabled()
                == enabled && s.spec_items() == items_view(items@) && s.spec_icon() is None
                && s.spec_native_icon() is None && s.spec_app() == app.id,
    {
        let ghost inst = ids.next_instance;
        let mut menu = Submenu::with_id(app, ids, id, text, enabled);
        proof {
            lemma_first_cycle_le(inst, items_view(items@));
        }
        match menu.append_items(items) {
            Ok(()) => {},
            Err(e) => {
                return Err(e);
            },
        }
        assert(Seq::<(Seq<char>, ItemKind, u64, Seq<u64>)>::empty() + items_view(items@).subrange(
            0,
            items@.len() as int,
        ) =~= items_view(items@));
        Ok(menu)
    }


    /// The application this submenu belongs to.
    pub fn app_handle(&self) -> (r: &AppHandle)
        ensures
            r.id == self.spec_app(),
    {
        &self.app_handle
    }

    /// The id of this submenu.
    pub fn id(&self) -> (r: &String)
        ensures
            r@ == self.spec_id(),
    {
        &self.id
    }

    /// As an item of another menu: this very submenu, with its id, nesting
    /// every submenu found in its items.
    pub fn as_item(&self) -> (r: MenuItemKind)
        ensures
            r.id@ == self.spec_id(),
            r.kind == ItemKind::Submenu,
            r.instance == self.spec_instance(),
            forall|k: int|
                0 <= k < self.spec_items().len() && self.spec_items()[k].1 == ItemKind::Submenu
                    ==> r.nested_submenus@.contains(self.spec_items()[k].2),
            forall|k: int, j: int|
                0 <= k < self.spec_items().len() && 0 <= j < self.spec_items()[k].3.len()
                    ==> r.nested_submenus@.contains(self.spec_items()[k].3[j]),
    {
        let mut nested: Vec<u64> = Vec::new();
        let mut i: usize = 0;
        while i < self.items.len()
            invariant
                i <= self.items@.len(),
                forall|k: int|
                    0 <= k < i && self.spec_items()[k].1 == ItemKind::Submenu
                        ==> nested@.contains(self.spec_items()[k].2),
                forall|k: int, j: int|
                    0 <= k < i && 0 <= j < self.spec_items()[k].3.len()
                        ==> nested@.contains(self.spec_items()[k].3[j]),
            decreases self.items.len() - i,
        {
            let item = &self.items[i];
            assert(self.spec_items()[i as int] == item_view(*item));
            let ghost before = nested@;
            if item.kind == ItemKind::Submenu {
                nested.push(item.instance);
                assert(nested@[before.len() as int] == item.instance);
            }
            let ghost mid = nested@;
            assert forall|y: u64| before.contains(y) implies mid.contains(y) by {
                let w = choose|w: int| 0 <= w < before.len() && before[w] == y;
                assert(mid[w] == y);
            }
            let mut j: usize = 0;
            while j < item.nested_submenus.len()
                invariant
                    j <= item.nested_submenus@.len(),
                    forall|y: u64| mid.contains(y) ==> nested@.contains(y),
                    forall|q: int| 0 <= q < j ==> nested@.contains(item.nested_submenus@[q]),
                decreases item.nested_submenus.len() - j,
            {
                let ghost b2 = nested@;
                nested.push(item.nested_submenus[j]);
                assert(nested@[b2.len() as int] == item.nested_submenus@[j as int]);
                assert forall|y: u64| b2.contains(y) implies nested@.contains(y) by {
                    let w = choose|w: int| 0 <= w < b2.len() && b2[w] == y;
                    assert(nested@[w] == y);
                }
                j = j + 1;
            }
            assert(item.kind == ItemKind::Submenu ==> mid.contains(item.instance));
            i = i + 1;
        }
        MenuItemKind {
            id: self.id.clone(),
            kind: ItemKind::Submenu,
            instance: self.instance,
            nested_submenus: nested,
        }
    }

    fn cycles(&self, item: &MenuItemKind) -> (r: bool)
        ensures
            r == would_cycle(self.spec_instance(), item_view(*item)),
    {
        if item.kind != ItemKind::Submenu {
            return false;
        }
        if item.instance == self.instance {
            return true;
        }
        let mut i: usize = 0;
        while i < item.nested_submenus.len()
            invariant
                i <= item.nested_submenus@.len(),
                item.kind == ItemKind::Submenu,
                item.instance != self.instance,
                forall|k: int| 0 <= k < i ==> item.nested_submenus@[k] != self.instance,
            decreases item.nested_submenus.len() - i,
        {
            if item.nested_submenus[i] == self.instance {
                assert(item.nested_submenus@[i as int] == self.instance);
                return true;
            }
            i = i + 1;
        }
        false
    }

    /// Adds an item at the end, unless it would make this submenu contain
    /// itself.
    pub fn append(&mut self, item: &MenuItemKind) -> (r: Result<(), MenuError>)
        ensures
            r is Err <==> would_cycle(old(self).spec_instance(), item_view(*item)),
            r matches Err(e) ==> e == MenuError::WouldCreateCycle && *final(self) == *old(self),
            r is Ok ==> final(self).spec_items() == old(self).spec_items().push(item_view(*item)),
            final(self).spec_id() == old(self).spec_id(),
            final(self).spec_instance() == old(self).spec_instance(),
            final(self).spec_windows_menu() == old(self).spec_windows_menu(),
            final(self).spec_help_menu() == old(self).spec_help_menu(),
            final(self).spec_text() == old(self).spec_text(),
            final(self).spec_enabled() == old(self).spec_enabled(),
            final(self).spec_icon() == old(self).spec_icon(),
            final(self).spec_native_icon() == old(self).spec_native_icon(),
            final(self).spec_app() == old(self).spec_app(),
    {
        if self.cycles(item) {
            return Err(MenuError::WouldCreateCycle);
        }
        let ghost before = self.spec_items();
        self.items.push(item.duplicate());
        assert(self.spec_items() =~= before.push(item_view(*item)));
        Ok(())
    }

    /// Adds items at the end, one by one, stopping at the first that would
    /// make this submenu contain itself; the items before it stay added.
    pub fn append_items(&mut self, items: &Vec<MenuItemKind>) -> (r: Result<(), MenuError>)
        ensures
            (first_cycle(old(self).spec_instance(), items_view(items@)) < items@.len()) <==> r is Err,
            r matches Err(e) ==> e == MenuError::WouldCreateCycle,
            final(self).spec_items() == old(self).spec_items() + items_view(items@).subrange(
                0,
                first_cycle(old(self).spec_instance(), items_view(items@)) as int,
            ),
            final(self).spec_id() == old(self).spec_id(),
            final(self).spec_instance() == old(self).spec_instance(),
            final(self).spec_windows_menu() == old(self).spec_windows_menu(),
            final(self).spec_help_menu() == old(self).spec_help_menu(),
            final(self).spec_text() == old(self).spec_text(),
            final(self).spec_enabled() == old(self).spec_enabled(),
            final(self).spec_icon() == old(self).spec_icon(),
            final(self).spec_native_icon() == old(self).spec_native_icon(),
            final(self).spec_app() == old(self).spec_app(),
    {
        let ghost iv = items_view(items@);
        let ghost id = self.spec_instance();
        let ghost start = self.spec_items();
        let mut i: usize = 0;
        assert(iv.subrange(0, iv.len() as int) =~= iv);
        while i < items.len()
            invariant
                iv == items_view(items@),
                id == self.spec_instance(),
                self.spec_id() == old(self).spec_id(),
                i <= iv.len(),
                first_cycle(id, iv) == i + first_cycle(id, iv.subrange(i as int, iv.len() as int)),
                self.spec_items() == start + iv.subrange(0, i as int),
                self.spec_text() == old(self).spec_text(),
                self.spec_enabled() == old(self).spec_enabled(),
                self.spec_icon() == old(self).spec_icon(),
                self.spec_native_icon() == old(self).spec_native_icon(),
                self.spec_app() == old(self).spec_app(),
                self.spec_windows_menu() == old(self).spec_windows_menu(),
                self.spec_help_menu() == old(self).spec_help_menu(),
                start == old(self).spec_items(),
                id == old(self).spec_instance(),
            decreases items.len() - i,
        {
            let ghost rest = iv.subrange(i as int, iv.len() as int);
            assert(rest[0] == item_view(items@[i as int]));
            assert(rest.drop_first() =~= iv.subrange(i + 1, iv.len() as int));
            match self.append(&items[i]) {
                Err(e) => {
                    assert(first_cycle(id, rest) == 0);
                    return Err(e);
                },
                Ok(()) => {},
            }
            assert(start + iv.subrange(0, i + 1) =~= (start + iv.subrange(0, i as int)).push(iv[i as int]));
            i = i + 1;
        }
        assert(iv.subrange(i as int, iv.len() as int) =~= Seq::<(Seq<char>, ItemKind, u64, Seq<u64>)>::empty());
        Ok(())
    }

    /// Inserts an item at `position`, unless it would make this submenu
    /// contain itself.
    pub fn insert(&mut self, item: &MenuItemKind, position: usize) -> (r: Result<(), MenuError>)
        requires
            position <= old(self).spec_items().len(),
        ensures
            r is Err <==> would_cycle(old(self).spec_instance(), item_view(*item)),
            r matches Err(e) ==> e == MenuError::WouldCreateCycle && *final(self) == *old(self),
            r is Ok ==> final(self).spec_items() == old(self).spec_items().insert(
                position as int,
                item_view(*item),
            ),
            final(self).spec_id() == old(self).spec_id(),
            final(self).spec_instance() == old(self).spec_instance(),
            final(self).spec_windows_menu() == old(self).spec_windows_menu(),
            final(self).spec_help_menu() == old(self).spec_help_menu(),
            final(self).spec_text() == old(self).spec_text(),
            final(self).spec_enabled() == old(self).spec_enabled(),
            final(self).spec_icon() == old(self).spec_icon(),
            final(self).spec_native_icon() == old(self).spec_native_icon(),
            final(self).spec_app() == old(self).spec_app(),
    {
        if self.cycles(item) {
            return Err(MenuError::WouldCreateCycle);
        }
        let ghost before = self.spec_items();
        self.items.insert(position, item.duplicate());
        assert(self.spec_items() =~= before.insert(position as int, item_view(*item)));
        Ok(())
    }

    /// Adds an item at the beginning, unless it would make this submenu
    /// contain itself.
    pub fn prepend(&mut self, item: &MenuItemKind) -> (r: Result<(), MenuError>)
        ensures
            r is Err <==> would_cycle(old(self).spec_instance(), item_view(*item)),
            r matches Err(e) ==> e == MenuError::WouldCreateCycle && *final(self) == *old(self),
            r is Ok ==> final(self).spec_items() == seq![item_view(*item)] + old(self).spec_items(),
            final(self).spec_id() == old(self).spec_id(),
            final(self).spec_instance() == old(self).spec_instance(),
            final(self).spec_windows_menu() == old(self).spec_windows_menu(),
            final(self).spec_help_menu() == old(self).spec_help_menu(),
            final(self).spec_text() == old(self).spec_text(),
            final(self).spec_enabled() == old(self).spec_enabled(),
            final(self).spec_icon() == old(self).spec_icon(),
            final(self).spec_native_icon() == old(self).spec_native_icon(),
            final(self).spec_app() == old(self).spec_app(),
    {
        let ghost before = self.spec_items();
        let r = self.insert(item, 0);
        assert(before.insert(0, item_view(*item)) =~= seq![item_view(*item)] + before);
        r
    }

    /// Inserts items one by one at `position`, `position + 1`, ..., stopping
    /// at the first that would make this submenu contain itself; the items
    /// before it stay inserted.
    pub fn insert_items(&mut self, items: &Vec<MenuItemKind>, position: usize) -> (r: Result<
        (),
        MenuError,
    >)
        requires
            position <= old(self).spec_items().len(),
        ensures
            (first_cycle(old(self).spec_instance(), items_view(items@)) < items@.len()) <==> r is Err,
            r matches Err(e) ==> e == MenuError::WouldCreateCycle,
            final(self).spec_items() == old(self).spec_items().subrange(0, position as int)
                + items_view(items@).subrange(
                0,
                first_cycle(old(self).spec_instance(), items_view(items@)) as int,
            ) + old(self).spec_items().subrange(position as int, old(self).spec_items().len() as int),
            final(self).spec_id() == old(self).spec_id(),
            final(self).spec_instance() == old(self).spec_instance(),
            final(self).spec_windows_menu() == old(self).spec_windows_menu(),
            final(self).spec_help_menu() == old(self).spec_help_menu(),
            final(self).spec_text() == old(self).spec_text(),
            final(self).spec_enabled() == old(self).spec_enabled(),
            final(self).spec_icon() == old(self).spec_icon(),
            final(self).spec_native_icon() == old(self).spec_native_icon(),
            final(self).spec_app() == old(self).spec_app(),
    {
        let ghost iv = items_view(items@);
        let ghost id = self.spec_instance();
        let ghost start = self.spec_items();
        let ghost head = start.subrange(0, position as int);
        let ghost tail = start.subrange(position as int, start.len() as int);
        let mut i: usize = 0;
        assert(iv.subrange(0, iv.len() as int) =~= iv);
        assert(start =~= head + iv.subrange(0, 0) + tail);
        while i < items.len()
            invariant
                iv == items_view(items@),
                id == self.spec_instance(),
                self.spec_id() == old(self).spec_id(),
                i <= iv.len(),
                position + i <= self.spec_items().len(),
                head.len() == position,
                first_cycle(id, iv) == i + first_cycle(id, iv.subrange(i as int, iv.len() as int)),
                self.spec_items() == head + iv.subrange(0, i as int) + tail,
                self.spec_text() == old(self).spec_text(),
                self.spec_enabled() == old(self).spec_enabled(),
                self.spec_icon() == old(self).spec_icon(),
                self.spec_native_icon() == old(self).spec_native_icon(),
                self.spec_app() == old(self).spec_app(),
                self.spec_windows_menu() == old(self).spec_windows_menu(),
                self.spec_help_menu() == old(self).spec_help_menu(),
                start == old(self).spec_items(),
                id == old(self).spec_instance(),
                head == start.subrange(0, position as int),
                tail == start.subrange(position as int, start.len() as int),
            decreases items.len() - i,
        {
            let ghost rest = iv.subrange(i as int, iv.len() as int);
            assert(rest[0] == item_view(items@[i as int]));
            assert(rest.drop_first() =~= iv.subrange(i + 1, iv.len() as int));
            let ghost cur = self.spec_items();
            let len_now = self.items.len();
            assert(position + i <= len_now);
            match self.insert(&items[i], position + i) {
                Err(e) => {
                    assert(first_cycle(id, rest) == 0);
                    return Err(e);
                },
                Ok(()) => {},
            }
            assert(cur.insert(position + i, iv[i as int]) =~= head + iv.subrange(0, i + 1) + tail);
            i = i + 1;
        }
        assert(iv.subrange(i as int, iv.len() as int) =~= Seq::<(Seq<char>, ItemKind, u64, Seq<u64>)>::empty());
        Ok(())
    }

    /// Adds items at the beginning: `insert_items` at position 0.
    pub fn prepend_items(&mut self, items: &Vec<MenuItemKind>) -> (r: Result<(), MenuError>)
        ensures
            (first_cycle(old(self).spec_instance(), items_view(items@)) < items@.len()) <==> r is Err,
            r matches Err(e) ==> e == MenuError::WouldCreateCycle,
            final(self).spec_items() == items_view(items@).subrange(
                0,
                first_cycle(old(self).spec_instance(), items_view(items@)) as int,
            ) + old(self).spec_items(),
            final(self).spec_id() == old(self).spec_id(),
            final(self).spec_instance() == old(self).spec_instance(),
            final(self).spec_windows_menu() == old(self).spec_windows_menu(),
            final(self).spec_help_menu() == old(self).spec_help_menu(),
            final(self).spec_text() == old(self).spec_text(),
            final(self).spec_enabled() == old(self).spec_enabled(),
            final(self).spec_icon() == old(self).spec_icon(),
            final(self).spec_native_icon() == old(self).spec_native_icon(),
            final(self).spec_app() == old(self).spec_app(),
    {
        let ghost before = self.spec_items();
        let r = self.insert_items(items, 0);
        assert(before.subrange(0, 0) =~= Seq::<(Seq<char>, ItemKind, u64, Seq<u64>)>::empty());
        assert(before.subrange(0, before.len() as int) =~= before);
        assert(Seq::<(Seq<char>, ItemKind, u64, Seq<u64>)>::empty() + items_view(items@).subrange(
            0,
            first_cycle(old(self).spec_instance(), items_view(items@)) as int,
        ) =~= items_view(items@).subrange(
            0,
            first_cycle(old(self).spec_instance(), items_view(items@)) as int,
        ));
        r
    }

    /// Removes every item whose id is the id of `item`; refused when there is
    /// none.
    pub fn remove(&mut self, item: &MenuItemKind) -> (r: Result<(), MenuError>)
        ensures
            r is Err <==> first_with_id(old(self).spec_items(), item.id@) is None,
            r matches Err(e) ==> e == MenuError::NotAChildOfThisMenu,
            final(self).spec_items() == without_id(old(self).spec_items(), item.id@),
            final(self).spec_id() == old(self).spec_id(),
            final(self).spec_instance() == old(self).spec_instance(),
            final(self).spec_windows_menu() == old(self).spec_windows_menu(),
            final(self).spec_help_menu() == old(self).spec_help_menu(),
            final(self).spec_text() == old(self).spec_text(),
            final(self).spec_enabled() == old(self).spec_enabled(),
            final(self).spec_icon() == old(self).spec_icon(),
            final(self).spec_native_icon() == old(self).spec_native_icon(),
            final(self).spec_app() == old(self).spec_app(),
    {
        let ghost start = self.spec_items();
        let mut kept: Vec<MenuItemKind> = Vec::new();
        let mut found = false;
        let mut i: usize = 0;
        let n = self.items.len();
        while i < n
            invariant
                n == start.len(),
                start == self.spec_items(),
                i <= n,
                items_view(kept@) == without_id(start.subrange(0, i as int), item.id@),
                found <==> first_with_id(start.subrange(0, i as int), item.id@) is Some,
            decreases n - i,
        {
            let ghost pre = start.subrange(0, i + 1);
            assert(pre.drop_last() =~= start.subrange(0, i as int));
            assert(pre.last() == item_view(self.items@[i as int]));
            proof {
                lemma_first_with_id_push(start.subrange(0, i as int), start[i as int], item.id@);
                assert(start.subrange(0, i as int).push(start[i as int]) =~= pre);
            }
            if str_eq(self.items[i].id.as_str(), item.id.as_str()) {
                found = true;
            } else {
                let ghost before = items_view(kept@);
                kept.push(self.items[i].duplicate());
                assert(items_view(kept@) =~= before.push(start[i as int]));
            }
            i = i + 1;
        }
        assert(start.subrange(0, n as int) =~= start);
        if !found {
            assert(without_id(start, item.id@) =~= start) by {
                lemma_without_absent(start, item.id@);
            }
            return Err(MenuError::NotAChildOfThisMenu);
        }
        self.items = kept;
        Ok(())
    }

    /// Removes and returns the item at `position`; none, and no change, when
    /// `position` is past the last item.
    pub fn remove_at(&mut self, position: usize) -> (r: Result<Option<MenuItemKind>, MenuError>)
        ensures
            r is Ok,
            position >= old(self).spec_items().len() ==> r == Ok::<Option<MenuItemKind>, MenuError>(
                None,
            ) && final(self).spec_items() == old(self).spec_items(),
            position < old(self).spec_items().len() ==> (r matches Ok(Some(it)) && item_view(it)
                == old(self).spec_items()[position as int] && final(self).spec_items() == old(
                self,
            ).spec_items().remove(position as int)),
            final(self).spec_id() == old(self).spec_id(),
            final(self).spec_instance() == old(self).spec_instance(),
            final(self).spec_windows_menu() == old(self).spec_windows_menu(),
            final(self).spec_help_menu() == old(self).spec_help_menu(),
            final(self).spec_text() == old(self).spec_text(),
            final(self).spec_enabled() == old(self).spec_enabled(),
            final(self).spec_icon() == old(self).spec_icon(),
            final(self).spec_native_icon() == old(self).spec_native_icon(),
            final(self).spec_app() == old(self).spec_app(),
    {
        if position >= self.items.len() {
            return Ok(None);
        }
        let ghost before = self.spec_items();
        let it = self.items.remove(position);
        assert(self.spec_items() =~= before.remove(position as int));
        Ok(Some(it))
    }

    /// The first item whose id is `id`, if any.
    pub fn get(&self, id: &str) -> (r: Option<MenuItemKind>)
        ensures
            match first_with_id(self.spec_items(), id@) {
                Some(i) => r matches Some(it) && item_view(it) == self.spec_items()[i],
                None => r is None,
            },
    {
        let ghost all = self.spec_items();
        let mut i: usize = 0;
        assert(all.subrange(0, all.len() as int) =~= all);
        while i < self.items.len()
            invariant
                all == self.spec_items(),
                i <= all.len(),
                match first_with_id(all, id@) {
                    Some(k) => match first_with_id(all.subrange(i as int, all.len() as int), id@) {
                        Some(j) => k == j + i,
                        None => false,
                    },
                    None => first_with_id(all.subrange(i as int, all.len() as int), id@) is None,
                },
            decreases self.items.len() - i,
        {
            let ghost rest = all.subrange(i as int, all.len() as int);
            assert(rest[0] == item_view(self.items@[i as int]));
            assert(rest.drop_first() =~= all.subrange(i + 1, all.len() as int));
            if str_eq(self.items[i].id.as_str(), id) {
                return Some(self.items[i].duplicate());
            }
            i = i + 1;
        }
        None
    }

    /// The items of this submenu, in order.
    pub fn items(&self) -> (r: Result<Vec<MenuItemKind>, MenuError>)
        ensures
            r matches Ok(v) && items_view(v@) == self.spec_items(),
    {
        let mut out: Vec<MenuItemKind> = Vec::new();
        let mut i: usize = 0;
        while i < self.items.len()
            invariant
                i <= self.items@.len(),
                items_view(out@) == self.spec_items().subrange(0, i as int),
            decreases self.items.len() - i,
        {
            let ghost before = items_view(out@);
            out.push(self.items[i].duplicate());
            assert(items_view(out@) =~= before.push(item_view(self.items@[i as int])));
            assert(items_view(out@) =~= self.spec_items().subrange(0, i + 1));
            i = i + 1;
        }
        assert(self.spec_items().subrange(0, self.items@.len() as int) =~= self.spec_items());
        Ok(out)
    }

    /// The text of this submenu.
    pub fn text(&self) -> (r: Result<String, MenuError>)
        ensures
            r matches Ok(t) && t@ == self.spec_text(),
    {
        Ok(self.text.clone())
    }

    /// Sets the text of this submenu.
    pub fn set_text(&mut self, text: &str) -> (r: Result<(), MenuError>)
        ensures
            r is Ok,
            final(self).spec_text() == text@,
            final(self).spec_items() == old(self).spec_items(),
            final(self).spec_id() == old(self).spec_id(),
            final(self).spec_instance() == old(self).spec_instance(),
            final(self).spec_windows_menu() == old(self).spec_windows_menu(),
            final(self).spec_help_menu() == old(self).spec_help_menu(),
            final(self).spec_enabled() == old(self).spec_enabled(),
            final(self).spec_icon() == old(self).spec_icon(),
            final(self).spec_native_icon() == old(self).spec_native_icon(),
            final(self).spec_app() == old(self).spec_app(),
    {
        self.text = text.to_owned();
        Ok(())
    }

    /// Whether this submenu is enabled.
    pub fn is_enabled(&self) -> (r: Result<bool, MenuError>)
        ensures
            r == Ok::<bool, MenuError>(self.spec_enabled()),
    {
        Ok(self.enabled)
    }

    /// Enables or disables this submenu.
    pub fn set_enabled(&mut self, enabled: bool) -> (r: Result<(), MenuError>)
        ensures
            r is Ok,
            final(self).spec_enabled() == enabled,
            final(self).spec_items() == old(self).spec_items(),
            final(self).spec_id() == old(self).spec_id(),
            final(self).spec_instance() == old(self).spec_instance(),
            final(self).spec_windows_menu() == old(self).spec_windows_menu(),
            final(self).spec_help_menu() == old(self).spec_help_menu(),
            final(self).spec_text() == old(self).spec_text(),
            final(self).spec_icon() == old(self).spec_icon(),
            final(self).spec_native_icon() == old(self).spec_native_icon(),
            final(self).spec_app() == old(self).spec_app(),
    {
        self.enabled = enabled;
        Ok(())
    }

    /// Makes this submenu the application's Window menu, to which the system
    /// adds its window-switching items.
    pub fn set_as_windows_menu_for_nsapp(&mut self) -> (r: Result<(), MenuError>)
        ensures
            r is Ok,
            final(self).spec_windows_menu(),
            final(self).spec_help_menu() == old(self).spec_help_menu(),
            final(self).spec_items() == old(self).spec_items(),
            final(self).spec_id() == old(self).spec_id(),
            final(self).spec_instance() == old(self).spec_instance(),
            final(self).spec_text() == old(self).spec_text(),
            final(self).spec_enabled() == old(self).spec_enabled(),
    {
        self.windows_menu_for_nsapp = true;
        Ok(())
    }

    /// Makes this submenu the application's Help menu, to which the system
    /// adds a search box.
    pub fn set_as_help_menu_for_nsapp(&mut self) -> (r: Result<(), MenuError>)
        ensures
            r is Ok,
            final(self).spec_help_menu(),
            final(self).spec_windows_menu() == old(self).spec_windows_menu(),
            final(self).spec_items() == old(self).spec_items(),
            final(self).spec_id() == old(self).spec_id(),
            final(self).spec_instance() == old(self).spec_instance(),
            final(self).spec_text() == old(self).spec_text(),
            final(self).spec_enabled() == old(self).spec_enabled(),
    {
        self.help_menu_for_nsapp = true;
        Ok(())
    }

    /// Sets or removes the icon of this submenu. An icon whose byte count is
    /// not a multiple of 4, or whose pixel count is not its width times its
    /// height, is refused and nothing changes.
    pub fn set_icon(&mut self, icon: Option<Image>) -> (r: Result<(), MenuError>)
        requires
            icon matches Some(img) ==> img.width * img.height <= u32::MAX,
        ensures
            match icon {
                None => r is Ok && final(self).spec_icon() is None,
                Some(img) => if img.rgba@.len() % 4 != 0 {
                    r matches Err(MenuError::IconByteCountNotDivisibleBy4 { byte_count })
                        && byte_count == img.rgba@.len() && final(self).spec_icon() == old(
                        self,
                    ).spec_icon()
                } else if img.rgba@.len() / 4 != img.width * img.height {
                    r matches Err(
                        MenuError::IconDimensionsVsPixelCount {
                            width,
                            height,
                            width_x_height,
                            pixel_count,
                        },
                    ) && width == img.width && height == img.height && width_x_height
                        == img.width * img.height && pixel_count == img.rgba@.len() / 4
                        && final(self).spec_icon() == old(self).spec_icon()
                } else {
                    r is Ok && final(self).spec_icon() == Some((img.rgba@, img.width, img.height))
                },
            },
            final(self).spec_items() == old(self).spec_items(),
            final(self).spec_id() == old(self).spec_id(),
            final(self).spec_instance() == old(self).spec_instance(),
            final(self).spec_windows_menu() == old(self).spec_windows_menu(),
            final(self).spec_help_menu() == old(self).spec_help_menu(),
            final(self).spec_text() == old(self).spec_text(),
            final(self).spec_enabled() == old(self).spec_enabled(),
            final(self).spec_native_icon() == old(self).spec_native_icon(),
            final(self).spec_app() == old(self).spec_app(),
    {
        match icon {
            None => {
                self.icon = None;
                Ok(())
            },
            Some(img) => {
                let byte_count = img.rgba.len();
                if byte_count % 4 != 0 {
                    return Err(MenuError::IconByteCountNotDivisibleBy4 { byte_count });
                }
                let pixel_count = byte_count / 4;
                let area = img.width * img.height;
                if pixel_count as u64 != area as u64 {
                    return Err(
                        MenuError::IconDimensionsVsPixelCount {
                            width: img.width,
                            height: img.height,
                            width_x_height: area as usize,
                            pixel_count,
                        },
                    );
                }
                self.icon = Some(img);
                Ok(())
            },
        }
    }

    /// Sets or removes the native icon of this submenu.
    pub fn set_native_icon(&mut self, icon: Option<NativeIcon>) -> (r: Result<(), MenuError>)
        ensures
            r is Ok,
            final(self).spec_native_icon() == match icon {
                Some(n) => Some(n.name@),
                None => None::<Seq<char>>,
            },
            final(self).spec_items() == old(self).spec_items(),
            final(self).spec_id() == old(self).spec_id(),
            final(self).spec_instance() == old(self).spec_instance(),
            final(self).spec_windows_menu() == old(self).spec_windows_menu(),
            final(self).spec_help_menu() == old(self).spec_help_menu(),
            final(self).spec_text() == old(self).spec_text(),
            final(self).spec_enabled() == old(self).spec_enabled(),
            final(self).spec_icon() == old(self).spec_icon(),
            final(self).spec_app() == old(self).spec_app(),
    {
        self.native_icon = icon;
        Ok(())
    }
}

proof fn lemma_first_with_id_push(
    items: Seq<(Seq<char>, ItemKind, u64, Seq<u64>)>,
    x: (Seq<char>, ItemKind, u64, Seq<u64>),
    id: Seq<char>,
)
    ensures
        first_with_id(items.push(x), id) is Some <==> (first_with_id(items, id) is Some || x.0
            == id),
    decreases items.len(),
{
    if items.len() > 0 {
        assert(items.push(x).drop_first() =~= items.drop_first().push(x));
        lemma_first_with_id_push(items.drop_first(), x, id);
        assert(items.push(x)[0] == items[0]);
        if items[0].0 != id {
            assert(first_with_id(items.push(x), id) is Some <==> first_with_id(
                items.push(x).drop_first(),
                id,
            ) is Some);
            assert(first_with_id(items, id) is Some <==> first_with_id(items.drop_first(), id) is Some);
        }
    } else {
        assert(items.push(x).drop_first() =~= Seq::<(Seq<char>, ItemKind, u64, Seq<u64>)>::empty());
        assert(items.push(x)[0] == x);
    }
}

/// What `get` finds is the first item with the id asked for: an item with
/// that id, and none with it before; when it finds nothing, no item has
/// that id.
pub proof fn lemma_first_with_id_is_first(items: Seq<(Seq<char>, ItemKind, u64, Seq<u64>)>, id: Seq<char>)
    ensures
        match first_with_id(items, id) {
            Some(i) => 0 <= i < items.len() && items[i].0 == id && forall|k: int|
                0 <= k < i ==> #[trigger] items[k].0 != id,
            None => forall|k: int| 0 <= k < items.len() ==> #[trigger] items[k].0 != id,
        },
    decreases items.len(),
{
    if items.len() > 0 {
        let rest = items.drop_first();
        lemma_first_with_id_is_first(rest, id);
        if items[0].0 != id {
            match first_with_id(rest, id) {
                Some(j) => {
                    assert forall|k: int| 0 <= k < j + 1 implies #[trigger] items[k].0 != id by {
                        if k > 0 {
                            assert(items[k] == rest[k - 1]);
                        }
                    }
                    assert(items[j + 1] == rest[j]);
                },
                None => {
                    assert forall|k: int| 0 <= k < items.len() implies #[trigger] items[k].0 != id by {
                        if k > 0 {
                            assert(items[k] == rest[k - 1]);
                        }
                    }
                },
            }
        }
    }
}

proof fn lemma_first_cycle_le(self_id: u64, items: Seq<(Seq<char>, ItemKind, u64, Seq<u64>)>)
    ensures
        first_cycle(self_id, items) <= items.len(),
    decreases items.len(),
{
    if items.len() > 0 {
        lemma_first_cycle_le(self_id, items.drop_first());
    }
}

proof fn lemma_without_absent(items: Seq<(Seq<char>, ItemKind, u64, Seq<u64>)>, id: Seq<char>)
    requires
        first_with_id(items, id) is None,
    ensures
        without_id(items, id) == items,
    decreases items.len(),
{
    if items.len() > 0 {
        lemma_first_with_id_push(items.drop_last(), items.last(), id);
        assert(items.drop_last().push(items.last()) =~= items);
        lemma_without_absent(items.drop_last(), id);
    }
}

/// Reading after appending: once an item is appended, `get` with its id
/// finds an item; when no item had that id before, it finds the appended
/// one, at the end.
pub proof fn lemma_get_after_append(
    items: Seq<(Seq<char>, ItemKind, u64, Seq<u64>)>,
    x: (Seq<char>, ItemKind, u64, Seq<u64>),
)
    ensures
        first_with_id(items.push(x), x.0) is Some,
        first_with_id(items, x.0) is None ==> first_with_id(items.push(x), x.0) == Some(
            items.len() as int,
        ) && items.push(x)[items.len() as int] == x,
    decreases items.len(),
{
    lemma_first_with_id_push(items, x, x.0);
    if items.len() > 0 {
        assert(items.push(x).drop_first() =~= items.drop_first().push(x));
        lemma_get_after_append(items.drop_first(), x);
    } else {
        assert(items.push(x)[0] == x);
    }
}

/// Reading after removing: once the items with an id are removed, `get`
/// with that id finds nothing, and the other items keep their order.
pub proof fn lemma_get_after_remove(items: Seq<(Seq<char>, ItemKind, u64, Seq<u64>)>, id: Seq<char>)
    ensures
        first_with_id(without_id(items, id), id) is None,
        forall|i: int| 0 <= i < without_id(items, id).len() ==> (#[trigger] without_id(items, id)[i]).0 != id,
    decreases items.len(),
{
    if items.len() > 0 {
        lemma_get_after_remove(items.drop_last(), id);
        let w = without_id(items.drop_last(), id);
        if items.last().0 != id {
            lemma_first_with_id_push(w, items.last(), id);
            assert forall|i: int| 0 <= i < w.push(items.last()).len() implies (#[trigger] w.push(
                items.last(),
            )[i]).0 != id by {
                if i < w.len() {
                    assert(w.push(items.last())[i] == w[i]);
                }
            }
        }
    }
}

/// Every instance that `items` holds, as items or nested in them, is below
/// `n`.
pub open spec fn instances_below(items: Seq<(Seq<char>, ItemKind, u64, Seq<u64>)>, n: u64) -> bool {
    forall|i: int|
        0 <= i < items.len() ==> (#[trigger] items[i]).2 < n && forall|j: int|
            0 <= j < items[i].3.len() ==> items[i].3[j] < n
}

/// A submenu created after all the objects that `items` holds (its instance
/// is above all of theirs) can take every one of them: no item makes it
/// contain itself, so `with_items` and `with_id_and_items` succeed.
pub proof fn lemma_fresh_submenu_never_cycles(items: Seq<(Seq<char>, ItemKind, u64, Seq<u64>)>, n: u64)
    requires
        instances_below(items, n),
    ensures
        first_cycle(n, items) == items.len(),
    decreases items.len(),
{
    if items.len() > 0 {
        let rest = items.drop_first();
        assert(instances_below(rest, n)) by {
            assert forall|i: int| 0 <= i < rest.len() implies (#[trigger] rest[i]).2 < n
                && forall|j: int| 0 <= j < rest[i].3.len() ==> rest[i].3[j] < n by {
                assert(rest[i] == items[i + 1]);
            }
        }
        lemma_fresh_submenu_never_cycles(rest, n);
        assert(items[0].2 < n);
        assert(!items[0].3.contains(n));
    }
}

} // verus!
