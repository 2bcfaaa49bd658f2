use tauri_ohos::menu::Image;
use tauri_ohos::tray::{
    init, to_decimal, ItemKind, QuickOperationConfig, TrayError, TrayIconOptions, TrayRegistry,
    WebviewResources,
};

fn options(id: Option<&str>) -> TrayIconOptions {
    TrayIconOptions {
        id: id.map(|s| s.to_string()),
        menu: None,
        icon: None,
        tooltip: None,
        title: None,
        temp_dir_path: None,
        icon_as_template: None,
        menu_on_left_click: None,
        show_menu_on_left_click: None,
        quick_operation: None,
    }
}

fn webview() -> WebviewResources {
    WebviewResources { menus: vec![(10, false), (11, true)] }
}

#[test]
fn tray_plugin_lists_its_commands() {
    let p = init();
    assert_eq!(p.name, "tray");
    assert_eq!(p.commands.len(), 12);
    assert_eq!(p.commands[0], "new");
    assert_eq!(p.commands[11], "set_quick_operation");
}

#[test]
fn decimal_ids() {
    assert_eq!(to_decimal(0), "0");
    assert_eq!(to_decimal(42), "42");
    assert_eq!(to_decimal(u64::MAX), "18446744073709551615");
}

#[test]
fn new_trays_get_ids_and_are_found() {
    let mut reg = TrayRegistry::empty();
    let (rid1, id1) = reg.new(&webview(), options(None)).unwrap();
    let (rid2, id2) = reg.new(&webview(), options(Some("main"))).unwrap();
    let (rid3, id3) = reg.new(&webview(), options(None)).unwrap();
    assert_eq!((rid1, id1.as_str()), (1, "1"));
    assert_eq!((rid2, id2.as_str()), (2, "main"));
    assert_eq!((rid3, id3.as_str()), (3, "2"));
    assert_eq!(reg.get_by_id("main"), Some(2));
    assert_eq!(reg.get_by_id("nope"), None);
    let tray = &reg.icons[0].1;
    assert!(tray.visible);
    assert!(tray.show_menu_on_left_click);
    assert!(!tray.icon_as_template);
}

#[test]
fn tray_options_are_applied() {
    let mut reg = TrayRegistry::empty();
    let mut o = options(Some("t"));
    o.menu = Some((11, ItemKind::Submenu));
    o.tooltip = Some("tip".to_string());
    o.title = Some("title".to_string());
    o.icon_as_template = Some(true);
    o.menu_on_left_click = Some(true);
    o.show_menu_on_left_click = Some(false);
    o.icon = Some(Image { rgba: vec![0; 4], width: 1, height: 1 });
    o.quick_operation = Some(QuickOperationConfig {
        title: "q".to_string(),
        height: 10,
        ability_name: "A".to_string(),
        module_name: None,
        loading_status: Some(true),
    });
    reg.new(&webview(), o).unwrap();
    let tray = &reg.icons[0].1;
    assert_eq!(tray.tooltip.as_deref(), Some("tip"));
    assert_eq!(tray.title.as_deref(), Some("title"));
    assert!(tray.icon_as_template);
    assert!(!tray.show_menu_on_left_click);
    let m = tray.menu.unwrap();
    assert_eq!((m.rid, m.is_submenu), (11, true));
}

#[test]
fn bad_tray_options_are_refused() {
    let mut reg = TrayRegistry::empty();
    let mut o = options(None);
    o.menu = Some((11, ItemKind::Menu));
    assert!(matches!(reg.new(&webview(), o), Err(TrayError::BadResourceId { rid: 11 })));
    let mut o = options(None);
    o.menu = Some((10, ItemKind::Check));
    assert!(matches!(reg.new(&webview(), o), Err(TrayError::UnexpectedMenuKind)));
    let mut o = options(None);
    o.icon = Some(Image { rgba: vec![0; 3], width: 1, height: 1 });
    assert!(matches!(reg.new(&webview(), o), Err(TrayError::BadIcon)));
    assert!(reg.icons.is_empty());
}

#[test]
fn tray_properties_are_set_by_resource_id() {
    let mut reg = TrayRegistry::empty();
    let (rid, _) = reg.new(&webview(), options(Some("a"))).unwrap();
    reg.set_tooltip(rid, Some("hello".to_string())).unwrap();
    reg.set_title(rid, Some("T".to_string())).unwrap();
    reg.set_visible(rid, false).unwrap();
    reg.set_temp_dir_path(rid, Some("/tmp/x".to_string())).unwrap();
    reg.set_icon_as_template(rid, true).unwrap();
    reg.set_show_menu_on_left_click(rid, false).unwrap();
    reg.set_menu(&webview(), rid, Some((10, ItemKind::Menu))).unwrap();
    reg.set_icon(rid, Some(Image { rgba: vec![1; 8], width: 2, height: 1 })).unwrap();
    reg.set_quick_operation(rid, None).unwrap();
    let t = &reg.icons[0].1;
    assert_eq!(t.tooltip.as_deref(), Some("hello"));
    assert_eq!(t.title.as_deref(), Some("T"));
    assert!(!t.visible);
    assert_eq!(t.temp_dir_path.as_deref(), Some("/tmp/x"));
    assert!(t.icon_as_template);
    assert!(!t.show_menu_on_left_click);
    assert_eq!(t.menu.unwrap().rid, 10);
    assert!(matches!(reg.set_tooltip(99, None), Err(TrayError::BadResourceId { rid: 99 })));
    assert!(matches!(
        reg.set_icon(rid, Some(Image { rgba: vec![1; 8], width: 3, height: 1 })),
        Err(TrayError::BadIcon)
    ));
}

#[test]
fn removed_trays_are_gone() {
    let mut reg = TrayRegistry::empty();
    reg.new(&webview(), options(Some("a"))).unwrap();
    reg.new(&webview(), options(Some("b"))).unwrap();
    reg.new(&webview(), options(Some("c"))).unwrap();
    reg.remove_by_id("a").unwrap();
    assert_eq!(reg.get_by_id("a"), None);
    assert_eq!(reg.get_by_id("c"), Some(3));
    match reg.remove_by_id("a") {
        Err(TrayError::NoTrayWithId { id }) => assert_eq!(id, "a"),
        _ => panic!("expected NoTrayWithId"),
    }
}

#[test]
fn counters_advance_only_on_success() {
    let mut reg = TrayRegistry::empty();
    let mut bad = options(None);
    bad.menu = Some((99, ItemKind::Menu));
    assert!(reg.new(&webview(), bad).is_err());
    assert_eq!((reg.next_rid, reg.next_tray_id), (1, 1));
    reg.new(&webview(), options(Some("x"))).unwrap();
    assert_eq!((reg.next_rid, reg.next_tray_id), (2, 1));
    let mut o = options(None);
    o.temp_dir_path = Some("/tmp/t".to_string());
    reg.new(&webview(), o).unwrap();
    assert_eq!((reg.next_rid, reg.next_tray_id), (3, 2));
    assert_eq!(reg.icons[1].1.temp_dir_path.as_deref(), Some("/tmp/t"));
}
