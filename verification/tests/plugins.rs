use tauri_ohos::plugins::{
    builtin_plugin, class_name_from_index, detect_all_plugins, detect_plugins, detect_plugins_in_manifest, find_plugin_har,
    get_all_plugin_metadata, get_tauri_workspace_root, infer_class_name, parse_plugin_meta,
    plugin_search_paths, validate_class_name, validate_class_name_pattern, validate_identifier,
    validate_plugin_meta, validate_plugin_name, verify_all_plugins_before_update,
    verify_plugin_before_update, DetectedPlugin, OhPackage, PluginDirState, PluginError,
    PluginMeta, PluginSource,
};

fn strings(v: &[&str]) -> Vec<String> {
    v.iter().map(|s| s.to_string()).collect()
}

fn meta(name: &str, identifier: &str, class_name: &str, har_path: &str) -> PluginMeta {
    PluginMeta {
        name: name.to_string(),
        identifier: identifier.to_string(),
        class_name: class_name.to_string(),
        har_path: har_path.to_string(),
    }
}

fn package(name: &str) -> OhPackage {
    OhPackage {
        name: name.to_string(),
        version: "1.0.0".to_string(),
        main: None,
        dependencies: Vec::new(),
    }
}

#[test]
fn plugin_names_are_validated() {
    assert!(validate_plugin_name("dialog").is_ok());
    assert!(validate_plugin_name("my_plugin-2").is_ok());
    assert!(validate_plugin_name("2fa").is_ok());
    assert!(matches!(validate_plugin_name(""), Err(PluginError::NameLength)));
    assert!(matches!(validate_plugin_name(&"a".repeat(65)), Err(PluginError::NameLength)));
    assert!(validate_plugin_name(&"a".repeat(64)).is_ok());
    assert!(matches!(validate_plugin_name("a b"), Err(PluginError::NameCharacters)));
    assert!(matches!(validate_plugin_name("né"), Err(PluginError::NameCharacters)));
    assert!(matches!(validate_plugin_name("-x"), Err(PluginError::NameLeadingSeparator)));
    assert!(matches!(validate_plugin_name("_x"), Err(PluginError::NameLeadingSeparator)));
}

#[test]
fn identifiers_are_validated() {
    assert!(validate_identifier("@tauri/plugin-dialog").is_ok());
    assert!(matches!(validate_identifier("tauri/plugin-x"), Err(PluginError::IdentifierPrefix)));
    assert!(matches!(validate_identifier("@tauri/plugin-"), Err(PluginError::NameLength)));
    assert!(matches!(
        validate_identifier("@tauri/plugin--x"),
        Err(PluginError::NameLeadingSeparator)
    ));
}

#[test]
fn class_names_are_validated() {
    assert!(validate_class_name("DialogPlugin").is_ok());
    assert!(validate_class_name("FooPluginPlugin").is_ok());
    assert!(matches!(validate_class_name("Dialog"), Err(PluginError::ClassNameSuffix)));
    assert!(matches!(validate_class_name("Plugin"), Err(PluginError::ClassNameEmptyBase)));
    assert!(matches!(validate_class_name("Dia1ogPlugin"), Err(PluginError::ClassNameCharacters)));
    assert!(matches!(validate_class_name("dialogPlugin"), Err(PluginError::ClassNameLowercase)));
    assert!(validate_class_name_pattern("DialogPlugin"));
    assert!(!validate_class_name_pattern("Plugin"));
    assert!(!validate_class_name_pattern("dialogPlugin"));
    assert!(!validate_class_name_pattern("Dia_Plugin"));
    assert!(!validate_class_name_pattern("DialogPlug"));
}

#[test]
fn plugin_meta_is_validated_field_by_field() {
    assert!(validate_plugin_meta(&meta("dialog", "@tauri/plugin-dialog", "DialogPlugin", "x")).is_ok());
    assert!(matches!(
        validate_plugin_meta(&meta("-d", "@tauri/plugin-dialog", "DialogPlugin", "x")),
        Err(PluginError::NameLeadingSeparator)
    ));
    assert!(matches!(
        validate_plugin_meta(&meta("dialog", "dialog", "DialogPlugin", "x")),
        Err(PluginError::IdentifierPrefix)
    ));
    assert!(matches!(
        validate_plugin_meta(&meta("dialog", "@tauri/plugin-dialog", "Dialog", "x")),
        Err(PluginError::ClassNameSuffix)
    ));
}

#[test]
fn plugins_are_detected_sorted_and_unique() {
    let deps = strings(&[
        "serde",
        "tauri-plugin-fs",
        "tauri-plugin-dialog",
        "tauri",
        "tauri-plugin-fs",
        "tauri-plugin-a-tauri-plugin-b",
    ]);
    assert_eq!(detect_plugins(&deps), strings(&["a-b", "dialog", "fs"]));
    assert!(detect_plugins(&Vec::new()).is_empty());
}

#[test]
fn class_names_are_inferred_from_names() {
    assert_eq!(infer_class_name("global-shortcut"), "GlobalShortcutPlugin");
    assert_eq!(infer_class_name("dialog"), "DialogPlugin");
    assert_eq!(infer_class_name("a--b"), "ABPlugin");
    assert_eq!(infer_class_name("my_plugin"), "My_pluginPlugin");
    assert_eq!(infer_class_name(""), "Plugin");
    assert_eq!(infer_class_name("émoji-x"), "ÉmojiXPlugin");
}

#[test]
fn builtin_plugins_are_known() {
    assert_eq!(builtin_plugin("dialog"), Some(("@tauri/plugin-dialog", "DialogPlugin")));
    assert_eq!(
        builtin_plugin("notification"),
        Some(("@tauri/plugin-notification", "NotificationPlugin"))
    );
    assert_eq!(
        builtin_plugin("global-shortcut"),
        Some(("@tauri/plugin-global-shortcut", "GlobalShortcutPlugin"))
    );
    assert_eq!(builtin_plugin("fs"), None);
}

#[test]
fn class_names_are_read_from_index_exports() {
    assert_eq!(
        class_name_from_index("export { Impl as ToastPlugin }"),
        Some("ToastPlugin".to_string())
    );
    assert_eq!(
        class_name_from_index("export default class CameraPlugin {}"),
        Some("CameraPlugin".to_string())
    );
    assert_eq!(
        class_name_from_index("export class BarcodePlugin extends Plugin {}"),
        Some("BarcodePlugin".to_string())
    );
    assert_eq!(
        class_name_from_index(
            "export class BarcodePlugin extends Plugin {}\nexport default class CameraPlugin {}"
        ),
        Some("CameraPlugin".to_string())
    );
    assert_eq!(class_name_from_index("export default class lowerPlugin {}"), None);
    assert_eq!(class_name_from_index("export const x = 1"), None);
}

#[test]
fn plugin_meta_comes_from_builtins_or_sources() {
    let m = parse_plugin_meta(
        "__builtin__dialog",
        "dialog",
        PluginSource { oh_package: Ok(package("ignored")), index_ets: None },
    )
    .unwrap();
    assert_eq!(m.identifier, "@tauri/plugin-dialog");
    assert_eq!(m.class_name, "DialogPlugin");
    assert_eq!(m.har_path, "__builtin__dialog");

    let m = parse_plugin_meta(
        "/h/toast",
        "toast",
        PluginSource {
            oh_package: Ok(package("@tauri/plugin-toast")),
            index_ets: Some("export default class ToasterPlugin {}".to_string()),
        },
    )
    .unwrap();
    assert_eq!(m.name, "toast");
    assert_eq!(m.identifier, "@tauri/plugin-toast");
    assert_eq!(m.class_name, "ToasterPlugin");

    let m = parse_plugin_meta(
        "/h/my-thing",
        "my-thing",
        PluginSource { oh_package: Ok(package("@tauri/plugin-my-thing")), index_ets: None },
    )
    .unwrap();
    assert_eq!(m.class_name, "MyThingPlugin");

    let r = parse_plugin_meta(
        "/h/x",
        "x",
        PluginSource {
            oh_package: Err(PluginError::Package {
                path: "/h/x/oh-package.json5".to_string(),
                reason: "missing".to_string(),
            }),
            index_ets: None,
        },
    );
    assert!(matches!(r, Err(PluginError::Package { .. })));
}

#[test]
fn search_paths_cover_project_sibling_and_workspace() {
    let paths = plugin_search_paths("toast", "/p/app/src-tauri", "/w");
    assert_eq!(
        paths,
        strings(&[
            "/p/app/src-tauri/plugins/toast/openharmony",
            "/p/plugins-workspace/plugins/toast/openharmony",
            "/w/plugins-workspace/plugins/toast/openharmony",
        ])
    );
    let paths = plugin_search_paths("toast", "/", "/w");
    assert_eq!(paths[1], "");
}

#[test]
fn workspace_root_prefers_the_variable() {
    assert_eq!(get_tauri_workspace_root(Some("/ws".to_string()), Some("/a/b/c".to_string())), "/ws");
    assert_eq!(get_tauri_workspace_root(None, Some("/a/b/c".to_string())), "/a");
    assert_eq!(get_tauri_workspace_root(None, None), "");
}

#[test]
fn har_is_found_at_the_first_existing_path() {
    let r = find_plugin_har("toast", "/p/app/src-tauri", "/w", &vec![false, true, true]).unwrap();
    assert_eq!(r, "/p/plugins-workspace/plugins/toast/openharmony");
    match find_plugin_har("toast", "/p/app/src-tauri", "/w", &vec![false, false, false]) {
        Err(PluginError::HarNotFound { name, searched }) => {
            assert_eq!(name, "toast");
            assert_eq!(searched.len(), 3);
        }
        _ => panic!("expected HarNotFound"),
    }
    assert!(matches!(
        find_plugin_har("-bad", "/p", "/w", &vec![true, true, true]),
        Err(PluginError::NameLeadingSeparator)
    ));
}

#[test]
fn detected_plugins_skip_missing_hars() {
    let names = strings(&["dialog", "fs", "toast"]);
    let located = vec![
        Err(PluginError::NameLength),
        Err(PluginError::HarNotFound { name: "fs".to_string(), searched: Vec::new() }),
        Ok("/h/toast".to_string()),
    ];
    let d = detect_all_plugins(&names, located);
    let pairs: Vec<(String, String)> =
        d.into_iter().map(|p| (p.name, p.har_path)).collect();
    assert_eq!(
        pairs,
        vec![
            ("dialog".to_string(), "__builtin__dialog".to_string()),
            ("toast".to_string(), "/h/toast".to_string()),
        ]
    );
}

#[test]
fn metadata_of_all_plugins_stops_at_the_first_error() {
    let detected = vec![
        DetectedPlugin { name: "dialog".to_string(), har_path: "__builtin__dialog".to_string() },
        DetectedPlugin { name: "toast".to_string(), har_path: "/h/toast".to_string() },
    ];
    let sources = vec![
        PluginSource { oh_package: Ok(package("unused")), index_ets: None },
        PluginSource { oh_package: Ok(package("@tauri/plugin-toast")), index_ets: None },
    ];
    let all = get_all_plugin_metadata(&detected, sources).unwrap();
    assert_eq!(all.len(), 2);
    assert_eq!(all[0].class_name, "DialogPlugin");
    assert_eq!(all[1].class_name, "ToastPlugin");

    let sources = vec![
        PluginSource { oh_package: Ok(package("unused")), index_ets: None },
        PluginSource {
            oh_package: Err(PluginError::Package { path: "p".to_string(), reason: "r".to_string() }),
            index_ets: None,
        },
    ];
    assert!(matches!(
        get_all_plugin_metadata(&detected, sources),
        Err(PluginError::Package { .. })
    ));
}

#[test]
fn plugins_are_verified_before_update() {
    let builtin = meta("dialog", "@tauri/plugin-dialog", "DialogPlugin", "__builtin__dialog");
    assert!(verify_plugin_before_update(&builtin, PluginDirState::NoPackage).is_ok());

    let toast = meta("toast", "@tauri/plugin-toast", "ToastPlugin", "/h/toast");
    match verify_plugin_before_update(&toast, PluginDirState::Missing { path: "/p/toast".to_string() }) {
        Err(PluginError::PluginDirMissing { name, path }) => {
            assert_eq!(name, "toast");
            assert_eq!(path, "/p/toast");
        }
        _ => panic!("expected PluginDirMissing"),
    }
    assert!(matches!(
        verify_plugin_before_update(&toast, PluginDirState::NoPackage),
        Err(PluginError::PluginPackageMissing { .. })
    ));
    match verify_plugin_before_update(&toast, PluginDirState::Package(Ok(package("@other/x")))) {
        Err(PluginError::IdentifierMismatch { expected, found }) => {
            assert_eq!(expected, "@tauri/plugin-toast");
            assert_eq!(found, "@other/x");
        }
        _ => panic!("expected IdentifierMismatch"),
    }
    assert!(verify_plugin_before_update(
        &toast,
        PluginDirState::Package(Ok(package("@tauri/plugin-toast")))
    )
    .is_ok());

    let plugins = vec![builtin, toast];
    assert!(verify_all_plugins_before_update(
        &plugins,
        vec![PluginDirState::NoPackage, PluginDirState::Package(Ok(package("@tauri/plugin-toast")))]
    )
    .is_ok());
    match verify_all_plugins_before_update(
        &plugins,
        vec![PluginDirState::NoPackage, PluginDirState::NoPackage],
    ) {
        Err(PluginError::Verification { name, cause }) => {
            assert_eq!(name, "toast");
            assert!(matches!(*cause, PluginError::PluginPackageMissing { .. }));
        }
        _ => panic!("expected Verification"),
    }
}

#[test]
fn plugins_are_detected_in_a_manifest() {
    let manifest = r#"
[package]
name = "app"

[dependencies]
tauri = "2"
tauri-plugin-fs = "2"
tauri-plugin-dialog = { version = "2" }

[target.'cfg(target_env = "ohos")'.dependencies]
tauri-plugin-toast = "1"
tauri-plugin-fs = "2"

[target.other]
x = 1

[dev-dependencies]
tauri-plugin-test = "1"
"#;
    assert_eq!(detect_plugins_in_manifest(manifest).unwrap(), strings(&["dialog", "fs", "toast"]));
    let inline = "dependencies = { tauri-plugin-fs = \"2\" }";
    assert_eq!(detect_plugins_in_manifest(inline).unwrap(), Vec::<String>::new());
    assert!(matches!(detect_plugins_in_manifest("[dependencies"), Err(PluginError::ManifestParse)));
    assert_eq!(detect_plugins_in_manifest("").unwrap(), Vec::<String>::new());
}

#[test]
fn class_name_valid_exactly_when_pattern_and_base() {
    for name in ["FooPlugin", "PluginPlugin", "fooPlugin", "Foo1Plugin", "Plugin", "FooPluginPlugin", "Foo", "APlugin"] {
        let base = name.trim_end_matches("Plugin");
        assert_eq!(
            validate_class_name(name).is_ok(),
            validate_class_name_pattern(name) && !base.is_empty(),
            "{name}"
        );
    }
    assert!(validate_class_name_pattern("PluginPlugin"));
    assert!(matches!(validate_class_name("PluginPlugin"), Err(PluginError::ClassNameEmptyBase)));
}

#[test]
fn detection_keeps_builtin_and_found_plugins_only() {
    let names = strings(&["dialog", "geo", "missing"]);
    let located = vec![
        Err(PluginError::ManifestParse),
        Ok("/h/geo".to_string()),
        Err(PluginError::HarNotFound { name: "missing".to_string(), searched: vec![] }),
    ];
    let d = detect_all_plugins(&names, located);
    let got: Vec<(String, String)> = d.into_iter().map(|p| (p.name, p.har_path)).collect();
    assert_eq!(
        got,
        vec![
            ("dialog".to_string(), "__builtin__dialog".to_string()),
            ("geo".to_string(), "/h/geo".to_string()),
        ]
    );
}
