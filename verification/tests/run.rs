use tauri_ohos::run::{
    build_options, next_step, run_result, select_hap, step_args, InstallNext, InstallOutcome,
    InstallStep, Options, RunError,
};

fn strings(v: &[&str]) -> Vec<String> {
    v.iter().map(|s| s.to_string()).collect()
}

#[test]
fn run_builds_first_with_its_options() {
    let o = Options {
        release: true,
        features: Some(strings(&["f"])),
        config: strings(&["c.json"]),
        open: false,
        device: Some("P50".to_string()),
        args: strings(&["--x"]),
        ignore_version_mismatches: true,
        device_type: "desktop".to_string(),
    };
    let b = build_options(&o);
    assert!(!b.debug);
    assert!(b.targets.is_none());
    assert_eq!(b.features, Some(strings(&["f"])));
    assert_eq!(b.config, strings(&["c.json"]));
    assert!(!b.open && !b.ci && !b.app);
    assert_eq!(b.device_type, "desktop");
    assert_eq!(b.args, strings(&["--x"]));
    assert!(b.ignore_version_mismatches);
}

#[test]
fn signed_hap_is_preferred() {
    assert_eq!(select_hap(&Vec::new()), None);
    assert_eq!(select_hap(&strings(&["/o/a-unsigned.hap", "/o/a-signed.hap"])), Some(1));
    assert_eq!(select_hap(&strings(&["/o/a.hap", "/o/b.hap"])), Some(0));
    assert_eq!(select_hap(&strings(&["/x-signed/a.hap", "/o/b-signed.hap"])), Some(1));
}

#[test]
fn hdc_arguments_per_step() {
    assert_eq!(
        step_args(InstallStep::Install, "dev1", "com.x", "/o/a.hap"),
        strings(&["-t", "dev1", "install", "-r", "/o/a.hap"])
    );
    assert_eq!(
        step_args(InstallStep::Uninstall, "dev1", "com.x", "/o/a.hap"),
        strings(&["-t", "dev1", "shell", "bm", "uninstall", "-n", "com.x"])
    );
    assert_eq!(
        step_args(InstallStep::Reinstall, "dev1", "com.x", "/o/a.hap"),
        strings(&["-t", "dev1", "install", "-r", "/o/a.hap"])
    );
    assert_eq!(
        step_args(InstallStep::Launch, "dev1", "com.x", "/o/a.hap"),
        strings(&["-t", "dev1", "shell", "aa", "start", "-b", "com.x", "-a", "EntryAbility"])
    );
}

fn run_flow(results: &[bool]) -> (Vec<InstallStep>, InstallOutcome) {
    let mut steps = vec![InstallStep::Install];
    let mut k = 0;
    loop {
        let step = *steps.last().unwrap();
        match next_step(step, results[k]) {
            InstallNext::Run(s) => steps.push(s),
            InstallNext::Done(o) => return (steps, o),
        }
        k += 1;
    }
}

#[test]
fn install_falls_back_to_uninstall_and_retry() {
    let (steps, o) = run_flow(&[true, true]);
    assert!(steps == vec![InstallStep::Install, InstallStep::Launch]);
    assert!(o == InstallOutcome::Launched);
    let (steps, o) = run_flow(&[false, false, true, false]);
    assert!(steps
        == vec![InstallStep::Install, InstallStep::Uninstall, InstallStep::Reinstall, InstallStep::Launch]);
    assert!(o == InstallOutcome::LaunchFailed);
    let (_, o) = run_flow(&[false, true, false]);
    assert!(o == InstallOutcome::InstallFailed);
    assert!(run_result(InstallOutcome::InstallFailed) == Err(RunError::InstallFailed));
    assert!(run_result(InstallOutcome::Launched) == Ok(true));
    assert!(run_result(InstallOutcome::LaunchFailed) == Ok(false));
}

#[test]
fn run_installs_unless_opening_deveco() {
    let mut o = Options {
        release: false,
        features: None,
        config: Vec::new(),
        open: false,
        device: None,
        args: Vec::new(),
        ignore_version_mismatches: false,
        device_type: "mobile".to_string(),
    };
    let plan = tauri_ohos::run::command(&o);
    assert!(plan.install);
    assert!(plan.build.debug);
    assert!(plan.build.features.is_none());
    o.open = true;
    let plan = tauri_ohos::run::command(&o);
    assert!(!plan.install);
    assert!(plan.build.open);
}
