use tauri_ohos::json::JsonValue;
use tauri_ohos::plugin_build::{
    copy_entry, update_entitlements, entry_module_json, update_info_plist, is_mobile_target,
    library_copy, update_ohos_module_json, module_json_path, skill_is_deep_link, CopyOp, LibraryKind, Skill,
};

fn skill(actions: Option<&[&str]>, tag: u32) -> Skill<u32> {
    Skill { actions: actions.map(|a| a.iter().map(|s| Some(s.to_string())).collect()), value: tag }
}

#[test]
fn mobile_builds_are_recognised() {
    assert!(is_mobile_target("linux", "ohos", None));
    assert!(is_mobile_target("linux", "ohos", Some("mobile")));
    assert!(!is_mobile_target("linux", "ohos", Some("desktop")));
    assert!(is_mobile_target("android", "", None));
    assert!(is_mobile_target("ios", "", Some("desktop")));
    assert!(!is_mobile_target("macos", "", None));
}

#[test]
fn library_copies_by_target() {
    let c = library_copy("android", "", false, "/m", Some("android"), None, None).unwrap();
    assert!(c.kind == LibraryKind::Android);
    assert_eq!(c.project, "/m/android");
    assert_eq!(c.tauri_dir, "/m/android/.tauri");
    assert_eq!(c.dest, "/m/android/.tauri/tauri-api");
    assert!(c.ignore.is_empty());
    let c = library_copy("linux", "ohos", false, "/m", None, None, Some("ohos")).unwrap();
    assert!(c.kind == LibraryKind::Ohos);
    assert_eq!(c.dest, "/m/ohos/.tauri/tauri-api");
    let c = library_copy("ios", "", true, "/m", None, Some("ios/Plugin"), None).unwrap();
    assert!(c.kind == LibraryKind::Ios);
    assert_eq!(c.tauri_dir, "ios/.tauri");
    assert_eq!(c.dest, "ios/.tauri/tauri-api");
    assert_eq!(c.ignore, vec![".build", "Package.resolved", "Tests"]);
    assert!(library_copy("ios", "", false, "/m", None, Some("ios"), None).is_none());
    assert!(library_copy("android", "", false, "/m", None, None, Some("ohos")).is_none());
    assert!(library_copy("windows", "msvc", false, "/m", Some("a"), None, Some("o")).is_none());
}

#[test]
fn copied_entries_skip_ignored_paths() {
    let ignore = vec![".build".to_string(), "Tests".to_string()];
    assert!(copy_entry("/t", ".build/x", false, &ignore).is_none());
    assert!(copy_entry("/t", "Tests", true, &ignore).is_none());
    match copy_entry("/t", "Sources/a.swift", false, &ignore) {
        Some(CopyOp::CopyFile(d)) => assert_eq!(d, "/t/Sources/a.swift"),
        _ => panic!("expected CopyFile"),
    }
    match copy_entry("/t", "", true, &ignore) {
        Some(CopyOp::CreateDir(d)) => assert_eq!(d, "/t/"),
        _ => panic!("expected CreateDir"),
    }
}

#[test]
fn module_json_is_located_for_ohos_builds_only() {
    assert_eq!(
        module_json_path("ohos", Some("/proj"), None),
        Some("/proj/entry_mobile/src/main/module.json5".to_string())
    );
    assert_eq!(
        module_json_path("ohos", Some("/proj"), Some("desktop")),
        Some("/proj/entry_desktop/src/main/module.json5".to_string())
    );
    assert_eq!(module_json_path("gnu", Some("/proj"), None), None);
    assert_eq!(module_json_path("ohos", None, None), None);
    assert_eq!(entry_module_json("/p", "desktop"), "/p/entry_desktop/src/main/module.json5");
}

#[test]
fn ios_plist_paths() {
    assert_eq!(
        update_entitlements(Some("/gen/apple"), Some("app")),
        Some("/gen/apple/app_iOS/app_iOS.entitlements".to_string())
    );
    assert_eq!(update_info_plist(Some("/gen/apple"), Some("app")), Some("/gen/apple/app_iOS/Info.plist".to_string()));
    assert_eq!(update_info_plist(None, Some("app")), None);
}

#[test]
fn deep_link_skills_are_replaced_and_merging_is_idempotent() {
    let view = "ohos.want.action.viewData";
    let home = skill(Some(&["action.system.home"]), 1);
    let old_link = skill(Some(&["x", view]), 2);
    let no_actions = skill(None, 3);
    assert!(skill_is_deep_link(&old_link));
    assert!(!skill_is_deep_link(&home));
    assert!(!skill_is_deep_link(&no_actions));
    let merged = update_ohos_module_json(vec![home, old_link, no_actions], vec![skill(Some(&[view]), 4)]);
    let tags: Vec<u32> = merged.iter().map(|s| s.value).collect();
    assert_eq!(tags, vec![1, 3, 4]);
    let again = update_ohos_module_json(merged, vec![skill(Some(&[view]), 4)]);
    let tags: Vec<u32> = again.iter().map(|s| s.value).collect();
    assert_eq!(tags, vec![1, 3, 4]);
}

#[test]
fn setup_plans_cfg_and_copy() {
    let plan = tauri_ohos::plugin_build::setup("linux", "ohos", Some("desktop"), false, "/m", None, None, Some("ohos"));
    assert!(!plan.mobile);
    assert_eq!(plan.copy.unwrap().dest, "/m/ohos/.tauri/tauri-api");
    let plan = tauri_ohos::plugin_build::setup("android", "", None, false, "/m", None, None, None);
    assert!(plan.mobile);
    assert!(plan.copy.is_none());
}

fn conv(v: serde_json::Value) -> JsonValue {
    match v {
        serde_json::Value::Null => JsonValue::Null,
        serde_json::Value::Bool(b) => JsonValue::Bool(b),
        serde_json::Value::Number(n) => JsonValue::Number(n.to_string()),
        serde_json::Value::String(s) => JsonValue::Str(s),
        serde_json::Value::Array(a) => JsonValue::Array(a.into_iter().map(conv).collect()),
        serde_json::Value::Object(m) => JsonValue::Object(m.into_iter().map(|(k, x)| (k, conv(x))).collect()),
    }
}

fn jv(text: &str) -> JsonValue {
    conv(serde_json::from_str(text).unwrap())
}

#[test]
fn module_json_text_replaces_deep_link_skills() {
    let content = r#"{ module: { name: "entry", abilities: [ { name: "Main", skills: [
      { entities: ["entity.system.home"], actions: ["action.system.home"] },
      { actions: ["ohos.want.action.viewData"], uris: [ { scheme: "old" } ] } ] }, { name: "Other" } ] } }"#;
    let skills = jv(r#"[ { "actions": ["ohos.want.action.viewData"], "uris": [ { "scheme": "myapp" } ] } ]"#);
    let out = tauri_ohos::plugin_build::update_module_json_text(content, skills).unwrap();
    let expected: serde_json::Value = serde_json::from_str(
        r#"{ "module": { "name": "entry", "abilities": [ { "name": "Main", "skills": [
      { "entities": ["entity.system.home"], "actions": ["action.system.home"] },
      { "actions": ["ohos.want.action.viewData"], "uris": [ { "scheme": "myapp" } ] } ] }, { "name": "Other" } ] } }"#,
    )
    .unwrap();
    let got: serde_json::Value = serde_json::from_str(&out).unwrap();
    assert_eq!(got, expected);
    let again = tauri_ohos::plugin_build::update_module_json_text(
        &out,
        jv(r#"[ { "actions": ["ohos.want.action.viewData"], "uris": [ { "scheme": "myapp" } ] } ]"#),
    )
    .unwrap();
    assert_eq!(serde_json::from_str::<serde_json::Value>(&again).unwrap(), expected);
    let no_skills = tauri_ohos::plugin_build::update_module_json_text(
        r#"{ module: { abilities: [ { name: "Main" } ] } }"#,
        jv(r#"[ { "actions": ["a"] } ]"#),
    )
    .unwrap();
    let got: serde_json::Value = serde_json::from_str(&no_skills).unwrap();
    assert_eq!(got["module"]["abilities"][0]["skills"][0]["actions"][0], "a");
    let untouched = tauri_ohos::plugin_build::update_module_json_text(r#"{ module: { abilities: [] }, n: 2 }"#, jv("[]")).unwrap();
    let got: serde_json::Value = serde_json::from_str(&untouched).unwrap();
    assert_eq!(got, serde_json::from_str::<serde_json::Value>(r#"{ "module": { "abilities": [] }, "n": 2 }"#).unwrap());
    assert!(tauri_ohos::plugin_build::update_module_json_text("{ module: ", jv("[]")).is_none());
}

