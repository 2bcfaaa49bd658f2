use tauri_ohos::cli::{
    active_entry_module, cargo_args, choose_device, delete_codegen_vars, device_types_for_form,
    emulator_wait_is_long, forms_for_device_types, get_config, icon_role_of, inject_icons,
    png_extension, DeviceChoice, DeviceTypes, FilterLevel, IconRole, NoiseLevel,
};

fn strings(v: &[&str]) -> Vec<String> {
    v.iter().map(|s| s.to_string()).collect()
}

#[test]
fn entry_module_follows_the_device_type() {
    assert_eq!(active_entry_module(None), "entry_mobile");
    assert_eq!(active_entry_module(Some("desktop".to_string())), "entry_desktop");
}

#[test]
fn device_types_by_form() {
    let dt = DeviceTypes { mobile: strings(&["phone", "tablet"]), desktop: strings(&["2in1"]) };
    assert_eq!(device_types_for_form(&dt, "mobile"), strings(&["phone", "tablet"]));
    assert_eq!(device_types_for_form(&dt, "desktop"), strings(&["2in1"]));
    assert!(device_types_for_form(&dt, "watch").is_empty());
    assert_eq!(forms_for_device_types(&dt), vec!["mobile", "desktop"]);
    let only_desktop = DeviceTypes { mobile: Vec::new(), desktop: strings(&["2in1"]) };
    assert_eq!(forms_for_device_types(&only_desktop), vec!["desktop"]);
    let none = DeviceTypes { mobile: Vec::new(), desktop: Vec::new() };
    assert!(forms_for_device_types(&none).is_empty());
}

#[test]
fn device_type_option_is_not_passed_to_cargo() {
    let args = strings(&["--release", "--device-type", "desktop", "-v", "--device-type=mobile", "x"]);
    assert_eq!(cargo_args(&args), strings(&["--release", "-v", "x"]));
    assert_eq!(cargo_args(&strings(&["a", "--device-type"])), strings(&["a"]));
    assert_eq!(
        cargo_args(&strings(&["--device-type", "--device-type", "--device-type", "z"])),
        strings(&[])
    );
}

#[test]
fn config_plan_merges_features_and_levels() {
    let plan = get_config(
        &strings(&["a"]),
        Some(&strings(&["b", "c"])),
        &strings(&["--device-type", "mobile", "--x"]),
        NoiseLevel::LoudAndProud,
        Some("desktop"),
    );
    assert_eq!(plan.features, strings(&["a", "b", "c"]));
    assert_eq!(plan.cargo_args, strings(&["--x"]));
    assert!(plan.filter_level == FilterLevel::Debug);
    assert!(plan.supported);
    assert_eq!(plan.device_type.as_deref(), Some("desktop"));
    let plan = get_config(&Vec::new(), None, &Vec::new(), NoiseLevel::Polite, None);
    assert!(plan.features.is_empty());
    assert!(plan.filter_level == FilterLevel::Info);
    assert!(plan.device_type.is_none());
    let plan = get_config(&Vec::new(), None, &Vec::new(), NoiseLevel::FranklyQuitePedantic, None);
    assert!(plan.filter_level == FilterLevel::Verbose);
}

#[test]
fn codegen_variables_are_selected() {
    let vars = strings(&[
        "WRY_ANDROID_CLASS_EXTENSION",
        "WRY_X_CLASS_INIT",
        "WRY_OHOS_PACKAGE",
        "PATH",
        "XWRY_CLASS_INIT",
    ]);
    assert_eq!(delete_codegen_vars(&vars), strings(&["WRY_ANDROID_CLASS_EXTENSION", "WRY_X_CLASS_INIT"]));
}

#[test]
fn devices_are_chosen_by_fuzzy_name() {
    let names = strings(&["alpha", "beta", "gamma"]);
    assert!(matches!(choose_device(&Vec::new(), Some("x"), 0), DeviceChoice::NoDevices));
    assert!(matches!(choose_device(&strings(&["only"]), None, 0), DeviceChoice::Device(0)));
    assert!(matches!(choose_device(&names, None, 0), DeviceChoice::Prompt));
    assert!(matches!(choose_device(&names, Some("bet"), 0), DeviceChoice::Device(1)));
    assert!(matches!(choose_device(&names, Some("alp"), 0), DeviceChoice::Device(0)));
    assert!(matches!(choose_device(&names, Some("zzz"), 0), DeviceChoice::NoMatch));
    assert!(matches!(choose_device(&names, Some("bet"), 100000), DeviceChoice::NoMatch));
}

#[test]
fn emulator_waits_grow_verbose() {
    assert!(!emulator_wait_is_long(0));
    assert!(!emulator_wait_is_long(2));
    assert!(emulator_wait_is_long(3));
}

#[test]
fn icon_roles_come_from_lowercased_stems() {
    assert!(png_extension("png"));
    assert!(png_extension("PnG"));
    assert!(!png_extension("jpg"));
    assert!(icon_role_of("icons/app-foreground.png") == Some(IconRole::Foreground));
    assert!(icon_role_of("icons/App-BACKGROUND.PNG") == Some(IconRole::Background));
    assert!(icon_role_of("a/b/x-StartIcon.png") == Some(IconRole::StartIcon));
    assert!(icon_role_of("icons/app-foreground.jpg").is_none());
    assert!(icon_role_of("icons/icon.png").is_none());
    assert!(icon_role_of("icons/-foreground").is_none());
}

#[test]
fn icons_are_injected_only_with_foreground_and_background() {
    let icons = strings(&["icons/32x32.png", "icons/app-foreground.png", "icons/app-background.png"]);
    let copies = inject_icons(&icons, "/t", "/p", "entry_mobile").unwrap();
    assert_eq!(
        copies,
        vec![
            ("/t/icons/app-foreground.png".to_string(), "/p/AppScope/resources/base/media/foreground.png".to_string()),
            ("/t/icons/app-background.png".to_string(), "/p/AppScope/resources/base/media/background.png".to_string()),
            (
                "/t/icons/app-foreground.png".to_string(),
                "/p/entry_mobile/src/main/resources/base/media/foreground.png".to_string()
            ),
            (
                "/t/icons/app-background.png".to_string(),
                "/p/entry_mobile/src/main/resources/base/media/background.png".to_string()
            ),
            (
                "/t/icons/app-foreground.png".to_string(),
                "/p/entry_mobile/src/main/resources/base/media/startIcon.png".to_string()
            ),
        ]
    );
    let with_start = strings(&[
        "icons/a-foreground.png",
        "icons/b-foreground.png",
        "icons/a-background.png",
        "icons/a-starticon.png",
    ]);
    let copies = inject_icons(&with_start, "/t", "/p", "entry_desktop").unwrap();
    assert_eq!(copies[0].0, "/t/icons/b-foreground.png");
    assert_eq!(copies[4].0, "/t/icons/a-starticon.png");
    assert_eq!(copies[4].1, "/p/entry_desktop/src/main/resources/base/media/startIcon.png");
    assert!(inject_icons(&strings(&["icons/app-foreground.png"]), "/t", "/p", "entry_mobile").is_none());
    assert!(inject_icons(&Vec::new(), "/t", "/p", "entry_mobile").is_none());
}
