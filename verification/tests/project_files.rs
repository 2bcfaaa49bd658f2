use tauri_ohos::plugins::{OhPackage, PluginDirState, PluginError, PluginMeta};
use tauri_ohos::project_files::{
    update_build_profile_text, update_entry_package_text, write_build_profile_modules_text,
    write_entry_device_types_text,
    default_module_target,
    update_build_profile, update_entry_package, update_plugin_configs, validate_plugin_configs,
    write_build_profile_modules,
};

fn parse(text: &str) -> serde_json::Value {
    json5::from_str(text).unwrap()
}

fn meta(name: &str, identifier: &str) -> PluginMeta {
    PluginMeta {
        name: name.to_string(),
        identifier: identifier.to_string(),
        class_name: "XPlugin".to_string(),
        har_path: format!("/h/{name}"),
    }
}

fn some(v: &[&str]) -> Vec<Option<String>> {
    v.iter().map(|s| Some(s.to_string())).collect()
}

#[test]
fn build_profile_gets_one_module_per_new_plugin() {
    let plugins = vec![
        meta("global-shortcut", "@tauri/plugin-global-shortcut"),
        meta("fs", "@tauri/plugin-fs"),
        meta("global_shortcut", "@x/y"),
        meta("globalshortcut", "@x/z"),
    ];
    let existing = vec![Some("entry_mobile".to_string()), None, Some("fs".to_string())];
    let added = update_build_profile(&existing, &plugins);
    let pairs: Vec<(String, String)> =
        added.into_iter().map(|m| (m.name, m.src_path)).collect();
    assert_eq!(
        pairs,
        vec![
            ("globalshortcut".to_string(), "./global-shortcut".to_string()),
            ("global_shortcut".to_string(), "./global_shortcut".to_string()),
        ]
    );
}

#[test]
fn updating_the_build_profile_twice_adds_nothing() {
    let plugins = vec![meta("toast", "@t/toast"), meta("my-cam", "@t/cam")];
    let existing = some(&["entry_mobile", "tauri"]);
    let added = update_build_profile(&existing, &plugins);
    let mut after = existing.clone();
    after.extend(added.iter().map(|m| Some(m.name.clone())));
    assert!(update_build_profile(&after, &plugins).is_empty());
}

#[test]
fn entry_modules_are_selected_first() {
    let existing = vec![
        Some("entry_mobile".to_string()),
        Some("tauri".to_string()),
        None,
        Some("entry_desktop".to_string()),
        Some("dialog".to_string()),
    ];
    let plan = write_build_profile_modules(&existing, &vec!["entry_desktop".to_string()]);
    let entries: Vec<(String, String)> =
        plan.entries.into_iter().map(|m| (m.name, m.src_path)).collect();
    assert_eq!(entries, vec![("entry_desktop".to_string(), "./entry_desktop".to_string())]);
    assert_eq!(plan.kept, vec![1, 2, 4]);
}

#[test]
fn entry_package_gets_missing_dependencies() {
    let plugins = vec![meta("toast", "@t/toast"), meta("cam", "@t/cam"), meta("cam2", "@t/cam")];
    let added = update_entry_package(&vec!["@t/toast".to_string()], &plugins);
    assert_eq!(added, vec![("@t/cam".to_string(), "file:../cam".to_string())]);
    let mut keys = vec!["@t/toast".to_string()];
    keys.extend(added.into_iter().map(|(k, _)| k));
    assert!(update_entry_package(&keys, &plugins).is_empty());
}

#[test]
fn plugin_configs_are_validated_by_text() {
    let plugins = vec![meta("my-cam", "@t/cam")];
    let profile = "{ \"modules\": [ { \"name\": \"mycam\" } ] }";
    let package = "{ \"dependencies\": { \"@t/cam\": \"file:../my-cam\" } }";
    assert!(validate_plugin_configs(profile, package, &plugins).is_ok());
    match validate_plugin_configs("{}", package, &plugins) {
        Err(PluginError::ModuleNotRegistered { name, module }) => {
            assert_eq!(name, "my-cam");
            assert_eq!(module, "mycam");
        }
        _ => panic!("expected ModuleNotRegistered"),
    }
    match validate_plugin_configs(profile, "{}", &plugins) {
        Err(PluginError::DependencyNotRegistered { identifier }) => assert_eq!(identifier, "@t/cam"),
        _ => panic!("expected DependencyNotRegistered"),
    }
}

#[test]
fn plugin_configs_are_updated_after_verification() {
    let plugins = vec![meta("toast", "@t/toast")];
    let ok_state = || {
        PluginDirState::Package(Ok(OhPackage {
            name: "@t/toast".to_string(),
            version: "1".to_string(),
            main: None,
            dependencies: Vec::new(),
        }))
    };
    let profile = r#"{ modules: [ { name: "tauri", srcPath: "./tauri" } ], app: { x: 1 } }"#;
    let package = r#"{ name: "entry", dependencies: {} }"#;
    let u = update_plugin_configs(&plugins, vec![ok_state()], Ok(profile.to_string()), Ok(package.to_string()))
        .unwrap();
    let p = parse(&u.build_profile);
    let modules = p["modules"].as_array().unwrap();
    assert_eq!(modules.len(), 2);
    assert_eq!(modules[1]["name"], "toast");
    assert_eq!(modules[1]["srcPath"], "./toast");
    let k = parse(u.entry_package.as_ref().unwrap());
    assert_eq!(k["dependencies"]["@t/toast"], "file:../toast");
    assert!(matches!(
        update_plugin_configs(
            &plugins,
            vec![PluginDirState::NoPackage],
            Ok(profile.to_string()),
            Ok(package.to_string())
        ),
        Err(PluginError::Verification { .. })
    ));
    let u = update_plugin_configs(&plugins, vec![ok_state()], Ok(profile.to_string()), Ok("{}".to_string()))
        .unwrap();
    assert!(matches!(u.entry_package, Err(PluginError::NoDependenciesObject)));
    assert!(matches!(
        update_plugin_configs(&plugins, vec![ok_state()], Ok("{}".to_string()), Ok(package.to_string())),
        Err(PluginError::NoModulesArray)
    ));
}

#[test]
fn entry_device_types_target_the_form_module() {
    let (path, types) = tauri_ohos::project_files::write_entry_device_types(
        "/p",
        "mobile",
        &vec!["phone".to_string(), "tablet".to_string()],
    );
    assert_eq!(path, "/p/entry_mobile/src/main/module.json5");
    assert_eq!(types, vec!["phone".to_string(), "tablet".to_string()]);
}

#[test]
fn added_modules_target_the_default_product() {
    let (target, products) = default_module_target();
    assert_eq!(target, "default");
    assert_eq!(products, vec!["default".to_string()]);
}

#[test]
fn build_profile_text_gains_modules_and_keeps_the_rest() {
    let content = r#"{
  // comment
  app: { signingConfigs: [] },
  modules: [ { name: "tauri", srcPath: "./tauri" }, { name: "fs", srcPath: "./fs", extra: true } ],
}"#;
    let plugins = vec![meta("global-shortcut", "@tauri/plugin-global-shortcut"), meta("fs", "@tauri/plugin-fs")];
    let out = update_build_profile_text(content, &plugins).unwrap();
    let v = parse(&out);
    let expected: serde_json::Value = serde_json::from_str(
        r#"{
  "app": { "signingConfigs": [] },
  "modules": [
    { "name": "tauri", "srcPath": "./tauri" },
    { "name": "fs", "srcPath": "./fs", "extra": true },
    { "name": "globalshortcut", "srcPath": "./global-shortcut",
      "targets": [ { "name": "default", "applyToProducts": ["default"] } ] }
  ]
}"#,
    )
    .unwrap();
    assert_eq!(v, expected);
    assert!(out.contains("\"srcPath\": \"./global-shortcut\","));
    let again = update_build_profile_text(&out, &plugins).unwrap();
    assert_eq!(parse(&again), expected);
    assert!(matches!(update_build_profile_text("{ app: {} }", &plugins), Err(PluginError::NoModulesArray)));
    assert!(matches!(update_build_profile_text("{ modules: {} }", &plugins), Err(PluginError::NoModulesArray)));
    assert!(matches!(update_build_profile_text("[1]", &plugins), Err(PluginError::NoModulesArray)));
    assert!(matches!(update_build_profile_text("{ modules: [", &plugins), Err(PluginError::DocumentParse)));
}

#[test]
fn build_profile_text_activates_entry_modules() {
    let content = r#"{ modules: [ { name: "entry_desktop", srcPath: "./entry_desktop", buildOption: {} },
      { name: "tauri", srcPath: "./tauri" }, { srcPath: "./nameless" }, { name: "entry", x: 1 } ], products: [1.5] }"#;
    let out = write_build_profile_modules_text(content, &vec!["entry_mobile".to_string()]).unwrap();
    let expected: serde_json::Value = serde_json::from_str(
        r#"{ "modules": [
      { "name": "entry_mobile", "srcPath": "./entry_mobile",
        "targets": [ { "name": "default", "applyToProducts": ["default"] } ] },
      { "name": "tauri", "srcPath": "./tauri" }, { "srcPath": "./nameless" } ], "products": [1.5] }"#,
    )
    .unwrap();
    assert_eq!(parse(&out), expected);
    assert!(matches!(
        write_build_profile_modules_text("{ products: [] }", &vec![]),
        Err(PluginError::NoModulesArray)
    ));
    assert!(matches!(write_build_profile_modules_text("nope", &vec![]), Err(PluginError::DocumentParse)));
}

#[test]
fn module_json_text_gets_device_types() {
    let content = r#"{ module: { name: "entry", deviceTypes: ["phone"], abilities: [] }, app: 1 }"#;
    let out = write_entry_device_types_text(content, &vec!["2in1".to_string(), "tablet".to_string()]).unwrap();
    let expected: serde_json::Value = serde_json::from_str(
        r#"{ "module": { "name": "entry", "deviceTypes": ["2in1", "tablet"], "abilities": [] }, "app": 1 }"#,
    )
    .unwrap();
    assert_eq!(parse(&out), expected);
    let out = write_entry_device_types_text("{ module: {} }", &vec!["phone".to_string()]).unwrap();
    assert_eq!(parse(&out)["module"]["deviceTypes"][0], "phone");
    assert!(matches!(write_entry_device_types_text("{ module: [] }", &vec![]), Err(PluginError::NoModuleObject)));
    assert!(matches!(write_entry_device_types_text("{}", &vec![]), Err(PluginError::NoModuleObject)));
    assert!(matches!(write_entry_device_types_text("{", &vec![]), Err(PluginError::DocumentParse)));
}

#[test]
fn entry_package_text_gains_dependencies_without_overwriting() {
    let content = r#"{ name: "entry", dependencies: { "@tauri/plugin-fs": "file:../elsewhere" }, version: "1.0.0" }"#;
    let plugins = vec![meta("fs", "@tauri/plugin-fs"), meta("dialog", "@tauri/plugin-dialog")];
    let out = update_entry_package_text(content, &plugins).unwrap();
    let expected: serde_json::Value = serde_json::from_str(
        r#"{ "name": "entry", "version": "1.0.0", "dependencies": {
      "@tauri/plugin-fs": "file:../elsewhere", "@tauri/plugin-dialog": "file:../dialog" } }"#,
    )
    .unwrap();
    assert_eq!(parse(&out), expected);
    assert!(matches!(update_entry_package_text("{ dependencies: [] }", &plugins), Err(PluginError::NoDependenciesObject)));
    assert!(matches!(update_entry_package_text("x", &plugins), Err(PluginError::DocumentParse)));
}
