use tauri_ohos::plugins::PluginMeta;
use tauri_ohos::project::{entry_renders, missing_targets, skip_entry_template, template_plugins};
use tauri_ohos::vibrancy::{apply_effects, Effect, EffectAction};

fn strings(v: &[&str]) -> Vec<String> {
    v.iter().map(|s| s.to_string()).collect()
}

#[test]
fn only_missing_targets_are_installed() {
    let all = strings(&["aarch64-unknown-linux-ohos", "x86_64-unknown-linux-ohos"]);
    let installed = strings(&["x86_64-unknown-linux-ohos", "x86_64-unknown-linux-gnu"]);
    assert_eq!(missing_targets(&all, &installed), strings(&["aarch64-unknown-linux-ohos"]));
    assert!(missing_targets(&all, &all).is_empty());
}

#[test]
fn entry_templates_are_left_to_their_own_pass() {
    assert!(skip_entry_template("entry_mobile/hvigorfile.ts"));
    assert!(skip_entry_template("entry_desktop/src/main/module.json5"));
    assert!(!skip_entry_template("AppScope/app.json5"));
    assert!(!skip_entry_template("entry_mobile"));
}

#[test]
fn entry_modules_render_with_their_form() {
    let r = entry_renders("[\"phone\"]", "[\"2in1\"]");
    assert_eq!(r.len(), 2);
    assert_eq!((r[0].module.as_str(), r[0].form.as_str(), r[0].device_types.as_str()), ("entry_mobile", "mobile", "[\"phone\"]"));
    assert_eq!((r[1].module.as_str(), r[1].form.as_str(), r[1].device_types.as_str()), ("entry_desktop", "desktop", "[\"2in1\"]"));
}

#[test]
fn plugin_list_for_templates() {
    assert!(template_plugins(&Vec::new()).is_none());
    let p = vec![PluginMeta {
        name: "toast".to_string(),
        identifier: "@t/toast".to_string(),
        class_name: "ToastPlugin".to_string(),
        har_path: "/h".to_string(),
    }];
    let t = template_plugins(&p).unwrap();
    assert_eq!(t.len(), 1);
    assert_eq!((t[0].name.as_str(), t[0].identifier.as_str(), t[0].class_name.as_str()), ("toast", "@t/toast", "ToastPlugin"));
}

#[test]
fn first_effect_decides_the_window_effect() {
    assert!(apply_effects(Some(7), &Vec::new()).is_none());
    assert!(apply_effects(None, &vec![Effect::Blur]).is_none());
    assert!(apply_effects(Some(7), &vec![Effect::Blur, Effect::Mica]) == Some((7, EffectAction::Blur)));
    assert!(apply_effects(Some(8), &vec![Effect::Acrylic]) == Some((8, EffectAction::Acrylic)));
    assert!(apply_effects(Some(7), &vec![Effect::MicaDark, Effect::Blur]) == Some((7, EffectAction::Skip)));
    assert!(apply_effects(Some(7), &vec![Effect::TabbedLight]) == Some((7, EffectAction::Skip)));
    assert!(apply_effects(Some(7), &vec![Effect::Sidebar]) == Some((7, EffectAction::Blur)));
}

#[test]
fn project_generation_plan() {
    let all = strings(&["aarch64-unknown-linux-ohos", "x86_64-unknown-linux-ohos"]);
    let installed = strings(&["aarch64-unknown-linux-ohos"]);
    let plan = tauri_ohos::project::gen(&all, &installed, false, "[]", "[\"2in1\"]");
    assert_eq!(plan.missing_targets, strings(&["x86_64-unknown-linux-ohos"]));
    assert_eq!(plan.entries.len(), 2);
    let plan = tauri_ohos::project::gen(&all, &installed, true, "[]", "[]");
    assert!(plan.missing_targets.is_empty());
    let (list, plan) = tauri_ohos::project::gen_with_plugins(&all, &Vec::new(), false, &Vec::new(), "a", "b");
    assert!(list.is_none());
    assert_eq!(plan.missing_targets, all);
    assert_eq!(plan.entries[1].device_types, "b");
}
