use tauri_ohos::har::{
    adjust_paths, copy_all_plugin_hars, needs_canonical_paths, next_har_to_copy, copy_plugin_har, plan_har_entry, verify_path_within_destination,
    verify_relative_path_safe, HarCopy, HarEntryAction,
};
use tauri_ohos::plugins::{PluginError, PluginMeta};

fn meta(name: &str, har_path: &str) -> PluginMeta {
    PluginMeta {
        name: name.to_string(),
        identifier: format!("@tauri/plugin-{name}"),
        class_name: "XPlugin".to_string(),
        har_path: har_path.to_string(),
    }
}

#[test]
fn relative_paths_are_checked_for_safety() {
    assert!(verify_relative_path_safe("src/main/ets/index.ets").is_ok());
    assert!(verify_relative_path_safe("./a/./b").is_ok());
    assert!(verify_relative_path_safe("").is_ok());
    assert!(matches!(verify_relative_path_safe("/etc/passwd"), Err(PluginError::AbsolutePath)));
    assert!(matches!(verify_relative_path_safe("a/../b"), Err(PluginError::ParentTraversal)));
    match verify_relative_path_safe("a/b..c/d") {
        Err(PluginError::UnsafeComponent { component }) => assert_eq!(component, "b..c"),
        _ => panic!("expected UnsafeComponent"),
    }
    match verify_relative_path_safe("a\\b") {
        Err(PluginError::UnsafeComponent { component }) => assert_eq!(component, "a\\b"),
        _ => panic!("expected UnsafeComponent"),
    }
}

#[test]
fn destinations_must_stay_in_the_plugin_directory() {
    assert!(verify_path_within_destination("/p/toast/a.txt", "/p/toast").is_ok());
    match verify_path_within_destination("/q/a.txt", "/p/toast") {
        Err(PluginError::OutsideDestination { path, root }) => {
            assert_eq!(path, "/q/a.txt");
            assert_eq!(root, "/p/toast");
        }
        _ => panic!("expected OutsideDestination"),
    }
}

#[test]
fn safe_entries_joined_under_the_destination_pass_the_second_check() {
    for rel in ["a", "a/b", "./x/y.json5", ""] {
        assert!(verify_relative_path_safe(rel).is_ok());
        let joined = if rel.is_empty() { "/dest/".to_string() } else { format!("/dest/{rel}") };
        assert!(verify_path_within_destination(&joined, "/dest").is_ok());
    }
}

#[test]
fn har_entries_are_planned() {
    match plan_har_entry("src", true, "/p/toast").unwrap() {
        HarEntryAction::CreateDir { dest } => assert_eq!(dest, "/p/toast/src"),
        _ => panic!("expected CreateDir"),
    }
    match plan_har_entry("oh-package.json5", false, "/p/toast").unwrap() {
        HarEntryAction::CopyFile { dest, adjust_paths } => {
            assert_eq!(dest, "/p/toast/oh-package.json5");
            assert!(adjust_paths);
        }
        _ => panic!("expected CopyFile"),
    }
    match plan_har_entry("sub/build-profile.json5", false, "/p/toast").unwrap() {
        HarEntryAction::CopyFile { adjust_paths, .. } => assert!(adjust_paths),
        _ => panic!("expected CopyFile"),
    }
    match plan_har_entry("src/index.ets", false, "/p/toast/").unwrap() {
        HarEntryAction::CopyFile { dest, adjust_paths } => {
            assert_eq!(dest, "/p/toast/src/index.ets");
            assert!(!adjust_paths);
        }
        _ => panic!("expected CopyFile"),
    }
    assert!(matches!(plan_har_entry("../x", false, "/p"), Err(PluginError::ParentTraversal)));
}

#[test]
fn manifest_paths_point_at_the_sibling_tauri_package() {
    assert_eq!(
        adjust_paths("{\"@tauri/app\": \"file:../../../tauri\"}"),
        "{\"@tauri/app\": \"file:../tauri\"}"
    );
    assert_eq!(adjust_paths("\"@tauri/app\": \"file:../../tauri\""), "\"@tauri/app\": \"file:../tauri\"");
    assert_eq!(adjust_paths("srcPath: ../../../tauri/x"), "srcPath: ../tauri/x");
    assert_eq!(adjust_paths("srcPath: ../../tauri/x"), "srcPath: ../tauri/x");
    assert_eq!(adjust_paths("nothing here"), "nothing here");
}

#[test]
fn har_copies_are_decided() {
    match copy_plugin_har(&meta("dialog", "__builtin__dialog"), "/p", Ok("/c".to_string()), Ok("/h".to_string())) {
        Ok(HarCopy::Builtin { dest }) => assert_eq!(dest, "/p/dialog"),
        _ => panic!("expected Builtin"),
    }
    match copy_plugin_har(&meta("toast", "/h/toast"), "/p", Ok("/canon/p".to_string()), Ok("/canon/h".to_string())) {
        Ok(HarCopy::Copy { source, dest }) => {
            assert_eq!(source, "/canon/h");
            assert_eq!(dest, "/canon/p/toast");
        }
        _ => panic!("expected Copy"),
    }
    assert!(matches!(
        copy_plugin_har(&meta("-t", "/h"), "/p", Ok("/c".to_string()), Ok("/h".to_string())),
        Err(PluginError::NameLeadingSeparator)
    ));
    assert!(matches!(
        copy_plugin_har(&meta("t", "/h"), "/p", Err(PluginError::AbsolutePath), Ok("/h".to_string())),
        Err(PluginError::AbsolutePath)
    ));
}

#[test]
fn all_har_copies_succeed_or_report_the_first_error() {
    let ok = copy_all_plugin_hars(vec![Ok("/a".to_string()), Ok("/b".to_string())]).unwrap();
    assert_eq!(ok, vec!["/a".to_string(), "/b".to_string()]);
    let err = copy_all_plugin_hars(vec![
        Ok("/a".to_string()),
        Err(PluginError::ParentTraversal),
        Err(PluginError::AbsolutePath),
    ]);
    assert!(matches!(err, Err(PluginError::ParentTraversal)));
}

#[test]
fn copying_stops_at_the_first_failure() {
    assert_eq!(next_har_to_copy(2, &Vec::new()), Some(0));
    assert_eq!(next_har_to_copy(2, &vec![Ok("/a".to_string())]), Some(1));
    assert_eq!(next_har_to_copy(2, &vec![Ok("/a".to_string()), Ok("/b".to_string())]), None);
    assert_eq!(next_har_to_copy(3, &vec![Err(PluginError::AbsolutePath)]), None);
    assert_eq!(next_har_to_copy(0, &Vec::new()), None);
}

#[test]
fn canonical_paths_only_for_valid_copied_plugins() {
    assert!(needs_canonical_paths(&meta("geo", "/h/geo")));
    assert!(!needs_canonical_paths(&meta("dialog", "__builtin__dialog")));
    assert!(!needs_canonical_paths(&meta("-bad", "/h/bad")));
    assert!(!needs_canonical_paths(&meta("", "/h/x")));
}
