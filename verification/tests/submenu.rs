use tauri_ohos::menu::{
    image_fits, AppHandle, Image, ItemKind, MenuError, MenuIds, MenuItemKind, NativeIcon, Submenu,
};

fn item(id: &str, instance: u64) -> MenuItemKind {
    MenuItemKind { id: id.to_string(), kind: ItemKind::MenuItem, instance, nested_submenus: Vec::new() }
}

fn sub(id: &str, instance: u64, nested: &[u64]) -> MenuItemKind {
    MenuItemKind { id: id.to_string(), kind: ItemKind::Submenu, instance, nested_submenus: nested.to_vec() }
}

fn ids(m: &Submenu) -> Vec<String> {
    m.items().unwrap().into_iter().map(|i| i.id).collect()
}

fn fresh() -> MenuIds {
    MenuIds { next: 0, next_instance: 100 }
}

#[test]
fn items_are_appended_prepended_and_inserted() {
    let app = AppHandle { id: 7 };
    let mut gen = fresh();
    let mut m = Submenu::with_id(&app, &mut gen, "file", "File", true);
    assert_eq!(m.app_handle().id, 7);
    assert_eq!(m.id(), "file");
    assert_eq!(gen.next_instance, 101);
    assert_eq!(gen.next, 0);
    m.append(&item("open", 1)).unwrap();
    m.prepend(&item("new", 2)).unwrap();
    m.insert(&item("save", 3), 1).unwrap();
    m.append_items(&vec![item("quit", 4), item("exit", 5)]).unwrap();
    m.prepend_items(&vec![item("a", 6), item("b", 7)]).unwrap();
    m.insert_items(&vec![item("x", 8)], 3).unwrap();
    assert_eq!(ids(&m), vec!["a", "b", "new", "x", "save", "open", "quit", "exit"]);
}

#[test]
fn a_submenu_cannot_contain_itself() {
    let app = AppHandle { id: 1 };
    let mut gen = fresh();
    let mut m = Submenu::with_id(&app, &mut gen, "file", "File", true);
    let me = m.as_item();
    assert_eq!(me.instance, 100);
    assert!(matches!(m.append(&me), Err(MenuError::WouldCreateCycle)));
    assert!(matches!(m.append(&sub("outer", 5, &[100])), Err(MenuError::WouldCreateCycle)));
    assert!(m.items().unwrap().is_empty());
    assert!(m.append(&item("file", 100)).is_ok());
    assert!(m.append(&sub("other", 6, &[7])).is_ok());
    assert!(matches!(
        Submenu::with_id_and_items(&app, &mut gen, "s", "S", true, &vec![item("a", 1), sub("s", 101, &[])]),
        Err(MenuError::WouldCreateCycle)
    ));
    let w = Submenu::with_id_and_items(&app, &mut gen, "s", "S", false, &vec![item("a", 1)]).unwrap();
    assert_eq!(ids(&w), vec!["a"]);
    assert!(!w.is_enabled().unwrap());
}

#[test]
fn two_submenus_with_one_id_are_distinct() {
    let app = AppHandle { id: 1 };
    let mut gen = fresh();
    let mut a = Submenu::with_id(&app, &mut gen, "same", "A", true);
    let b = Submenu::with_id(&app, &mut gen, "same", "B", true);
    assert!(a.append(&b.as_item()).is_ok());
    assert_eq!(ids(&a), vec!["same"]);
    let mut c = Submenu::with_id(&app, &mut gen, "c", "C", true);
    assert!(matches!(c.append(&a.as_item()), Ok(())));
    let mut b2 = b;
    assert!(matches!(b2.append(&c.as_item()), Err(MenuError::WouldCreateCycle)));
}

#[test]
fn get_after_append_and_after_remove() {
    let app = AppHandle { id: 1 };
    let mut gen = fresh();
    let mut m = Submenu::with_id(&app, &mut gen, "m", "M", true);
    m.append(&item("a", 1)).unwrap();
    m.append(&item("b", 2)).unwrap();
    assert_eq!(m.get("b").unwrap().id, "b");
    assert!(m.get("z").is_none());
    m.remove(&item("a", 1)).unwrap();
    assert!(m.get("a").is_none());
    assert!(matches!(m.remove(&item("a", 1)), Err(MenuError::NotAChildOfThisMenu)));
    assert_eq!(m.remove_at(0).unwrap().unwrap().id, "b");
    assert!(m.remove_at(0).unwrap().is_none());
}

#[test]
fn text_enabled_and_roles_are_set() {
    let app = AppHandle { id: 1 };
    let mut gen = fresh();
    let mut m = Submenu::with_id(&app, &mut gen, "m", "M", true);
    m.set_text("Edit").unwrap();
    assert_eq!(m.text().unwrap(), "Edit");
    m.set_enabled(false).unwrap();
    assert!(!m.is_enabled().unwrap());
    assert!(m.set_as_windows_menu_for_nsapp().is_ok());
    assert!(m.set_as_help_menu_for_nsapp().is_ok());
}

#[test]
fn icons_must_fit_their_size() {
    let good = Image { rgba: vec![0; 16], width: 2, height: 2 };
    assert!(image_fits(&good));
    let app = AppHandle { id: 1 };
    let mut gen = fresh();
    let mut m = Submenu::with_id_and_icon(&app, &mut gen, "m", "M", true, Some(good));
    match m.set_icon(Some(Image { rgba: vec![0; 15], width: 2, height: 2 })) {
        Err(MenuError::IconByteCountNotDivisibleBy4 { byte_count }) => assert_eq!(byte_count, 15),
        _ => panic!("expected IconByteCountNotDivisibleBy4"),
    }
    match m.set_icon(Some(Image { rgba: vec![0; 12], width: 2, height: 2 })) {
        Err(MenuError::IconDimensionsVsPixelCount { width, height, width_x_height, pixel_count }) => {
            assert_eq!((width, height, width_x_height, pixel_count), (2, 2, 4, 3));
        }
        _ => panic!("expected IconDimensionsVsPixelCount"),
    }
    assert!(m.set_icon(None).is_ok());
    let n = Submenu::with_id_and_native_icon(
        &app,
        &mut gen,
        "n",
        "N",
        true,
        Some(NativeIcon { name: "Add".to_string() }),
    );
    assert_eq!(n.text().unwrap(), "N");
    let mut n = n;
    assert!(n.set_native_icon(None).is_ok());
}

#[test]
fn generated_ids_count_from_zero() {
    let app = AppHandle { id: 3 };
    let mut ids = MenuIds::new();
    let a = Submenu::new(&app, &mut ids, "A", true);
    let b = Submenu::new_with_icon(&app, &mut ids, "B", true, Some(Image { rgba: vec![0; 4], width: 1, height: 1 }));
    let c = Submenu::new_with_native_icon(&app, &mut ids, "C", false, None);
    assert_eq!((a.id().as_str(), b.id().as_str(), c.id().as_str()), ("0", "1", "2"));
    assert!(matches!(
        Submenu::with_items(&app, &mut ids, "D", true, &vec![sub("3", 3, &[])]),
        Err(MenuError::WouldCreateCycle)
    ));
    let e = Submenu::with_items(&app, &mut ids, "E", true, &vec![item("x", 50)]).unwrap();
    assert_eq!(e.id(), "4");
    assert_eq!(ids.next, 5);
    assert_eq!(ids.next_instance, 5);
    let mut top = MenuIds { next: u32::MAX, next_instance: 0 };
    assert_eq!(top.next_id(), "4294967295");
    assert_eq!(top.next, 0);
    assert_eq!(top.next_instance(), 0);
    assert_eq!(top.next_instance, 1);
}
