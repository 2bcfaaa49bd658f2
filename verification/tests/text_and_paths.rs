use tauri_ohos::jsonfmt::serialize_json5;
use tauri_ohos::path::{file_name, join_path, parent_path, split_extension};
use tauri_ohos::text::{contains, ends_with, replace, starts_with, str_eq, str_less};

#[test]
fn json5_layout_adds_trailing_commas() {
    let pretty = "{\n  \"a\": 1,\n  \"b\": [\n    2\n  ],\n  \"c\": \"x\"\n}";
    assert_eq!(
        serialize_json5(pretty),
        "{\n  \"a\": 1,\n  \"b\": [\n    2\n  ],\n  \"c\": \"x\"\n}"
    );
    let pretty = "{\n  \"a\": {\n    \"b\": 1\n  }\n}";
    assert_eq!(serialize_json5(pretty), pretty);
    assert_eq!(serialize_json5("1"), "1,");
    assert_eq!(serialize_json5(""), "");
    assert_eq!(
        serialize_json5("{\n  \"a\": 1\n  \"b\": 2\n}"),
        "{\n  \"a\": 1,\n  \"b\": 2\n}"
    );
}

#[test]
fn json5_layout_never_doubles_a_comma() {
    let pretty = "[\n  1,\n  // note\n  2\n]";
    let out = serialize_json5(pretty);
    assert_eq!(out, "[\n  1,\n  // note\n  2\n]");
    assert!(!out.contains(",,"));
}

#[test]
fn paths_join_like_std() {
    assert_eq!(join_path("/a", "b"), "/a/b");
    assert_eq!(join_path("/a/", "b"), "/a/b");
    assert_eq!(join_path("/a", "/b"), "/b");
    assert_eq!(join_path("", "b"), "b");
    assert_eq!(join_path("/a", ""), "/a/");
    assert_eq!(parent_path("/a/b"), Some("/a".to_string()));
    assert_eq!(parent_path("/a"), Some("/".to_string()));
    assert_eq!(parent_path("a"), Some(String::new()));
    assert_eq!(parent_path("/"), None);
    assert_eq!(parent_path(""), None);
}

#[test]
fn file_names_stems_and_extensions_split_like_std() {
    assert_eq!(file_name("icons/app-foreground.png"), Some("app-foreground.png".to_string()));
    assert_eq!(file_name("a/b/"), Some("b".to_string()));
    assert_eq!(file_name("a/./"), Some("a".to_string()));
    assert_eq!(file_name("a/.."), None);
    assert_eq!(file_name("/"), None);
    assert_eq!(split_extension("x.tar.gz"), ("x.tar".to_string(), Some("gz".to_string())));
    assert_eq!(split_extension(".hidden"), (".hidden".to_string(), None));
    assert_eq!(split_extension("plain"), ("plain".to_string(), None));
    assert_eq!(split_extension("dot."), ("dot".to_string(), Some(String::new())));
}

#[test]
fn text_helpers_agree_with_str() {
    assert!(starts_with("tauri-plugin-fs", "tauri-plugin-"));
    assert!(!starts_with("tauri", "tauri-plugin-"));
    assert!(ends_with("DialogPlugin", "Plugin"));
    assert!(contains("a-b-c", "-b-"));
    assert!(!contains("abc", "d"));
    assert!(str_eq("x", "x"));
    assert!(str_less("a", "b"));
    assert!(str_less("a", "ab"));
    assert!(!str_less("b", "a"));
    assert_eq!(replace("a-b-c", "-", ""), "abc");
    assert_eq!(replace("aaa", "aa", "b"), "ba");
}
