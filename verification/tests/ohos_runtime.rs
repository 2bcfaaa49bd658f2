use tauri_ohos::ohos::{drained, OhosRuntime, PendingCalls, PluginRegistration, RunCommandArgs};

fn command(id: i32, name: &str) -> RunCommandArgs {
    RunCommandArgs {
        id,
        plugin_name: name.to_string(),
        command: "ping".to_string(),
        payload: "{}".to_string(),
    }
}

#[test]
fn base_path_and_module_name_accessors() {
    let rt = OhosRuntime::new();
    let _ = rt.base_path();
    let _ = rt.module_name();
}

#[test]
fn base_path_is_set_once() {
    let mut rt = OhosRuntime::new();
    assert!(rt.base_path().is_none());
    assert!(rt.set_base_path(Some("/data/app".to_string())).is_ok());
    assert_eq!(rt.base_path(), Some(&Some("/data/app".to_string())));
    let refused = rt.set_base_path(Some("/other".to_string()));
    assert_eq!(refused, Err(Some("/other".to_string())));
    assert_eq!(rt.base_path(), Some(&Some("/data/app".to_string())));
    assert!(rt.module_name().is_none());
    assert!(rt.set_module_name(None).is_ok());
    assert_eq!(rt.module_name(), Some(&None));
}

#[test]
fn dispatched_commands_drain_in_order() {
    let mut rt = OhosRuntime::new();
    assert!(!rt.dispatch_run_command(command(1, "a")));
    rt.set_notifier_ready();
    assert!(rt.dispatch_run_command(command(2, "b")));
    assert!(rt.dispatch_run_command(command(3, "c")));
    let first = rt.pop_command().unwrap();
    assert_eq!(first.id, 1);
    let rest = rt.drain_commands();
    let ids: Vec<i32> = rest.iter().map(|c| c.id).collect();
    assert_eq!(ids, vec![2, 3]);
    assert!(rt.pop_command().is_none());
    assert!(rt.drain_commands().is_empty());
}

#[test]
fn plugins_wait_in_registration_order() {
    let mut rt = OhosRuntime::new();
    rt.register_plugin(PluginRegistration {
        name: "dialog".to_string(),
        identifier: "@tauri/plugin-dialog".to_string(),
        class_name: "DialogPlugin".to_string(),
        config: "null".to_string(),
    });
    rt.register_plugin(PluginRegistration {
        name: "toast".to_string(),
        identifier: "@tauri/plugin-toast".to_string(),
        class_name: "ToastPlugin".to_string(),
        config: "{\"a\":1}".to_string(),
    });
    let names: Vec<&str> = rt.plugins_to_register().iter().map(|p| p.name.as_str()).collect();
    assert_eq!(names, vec!["dialog", "toast"]);
    let _ = drained::<i32>;
}

#[test]
fn a_response_reaches_its_handler_once() {
    let mut calls: PendingCalls<&str> = PendingCalls::new();
    assert!(calls.insert(1, "first").is_none());
    assert!(calls.insert(2, "second").is_none());
    assert_eq!(calls.insert(1, "replaced"), Some("first"));
    assert_eq!(calls.take(1), Some("replaced"));
    assert_eq!(calls.take(1), None);
    assert_eq!(calls.take(3), None);
    assert_eq!(calls.take(2), Some("second"));
}

