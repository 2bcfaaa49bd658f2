//! `ohos run`: the build it asks for, the HAP it installs, and the `hdc`
//! steps that install and launch the application, with the fallback of an
//! uninstall and a second install.
use vstd::prelude::*;
use vstd::string::*;
use crate::cli::{clone_strings, BuildOptions};
use crate::path::{file_name, path_file_name};
use crate::text::{contains, has_infix};

verus! {

/// The options of `ohos run`.
#[derive(Debug)]
pub struct Options {
    /// Run the application in release mode.
    pub release: bool,
    /// The cargo features to activate.
    pub features: Option<Vec<String>>,
    /// JSON strings or paths of configuration files to merge, in order.
    pub config: Vec<String>,
    /// Open DevEco Studio instead of running on a device.
    pub open: bool,
    /// The name of the device to run on.
    pub device: Option<String>,
    /// Arguments passed on to the runner.
    pub args: Vec<String>,
    /// Do not fail on a version mismatch of a Tauri package.
    pub ignore_version_mismatches: bool,
    /// The device form to build for: `mobile` or `desktop`.
    pub device_type: String,
}

/// A copy of an optional list of strings.
fn clone_opt_strings(v: &Option<Vec<String>>) -> (r: Option<Vec<String>>)
    ensures
        r.deep_view() == v.deep_view(),
{
    match v {
        Some(l) => Some(clone_strings(l)),
        None => None,
    }
}

/// The build that `ohos run` performs first: a debug build unless
/// `release`, for every target, with the run's features, configuration,
/// device form, runner arguments and flags, outside CI and not as an app
/// bundle.
pub fn build_options(options: &Options) -> (r: BuildOptions)
    ensures
        r.debug == !options.release,
        r.targets is None,
        r.features.deep_view() == options.features.deep_view(),
        r.config.deep_view() == options.config.deep_view(),
        r.open == options.open,
        !r.ci,
        r.device_type@ == options.device_type@,
        !r.app,
        r.args.deep_view() == options.args.deep_view(),
        r.ignore_version_mismatches == options.ignore_version_mismatches,
{
    BuildOptions {
        debug: !options.release,
        targets: None,
        features: clone_opt_strings(&options.features),
        config: clone_strings(&options.config),
        open: options.open,
        ci: false,
        device_type: options.device_type.clone(),
        app: false,
        args: clone_strings(&options.args),
        ignore_version_mismatches: options.ignore_version_mismatches,
    }
}

/// What `ohos run` does: the build it asks for, and whether it then
/// installs and launches the application (not when DevEco Studio is opened
/// instead).
#[derive(Debug)]
pub struct RunPlan {
    pub build: BuildOptions,
    pub install: bool,
}

/// The plan of `ohos run` for its options.
pub fn command(options: &Options) -> (r: RunPlan)
    ensures
        r.build.debug == !options.release,
        r.build.targets is None,
        r.build.features.deep_view() == options.features.deep_view(),
        r.build.config.deep_view() == options.config.deep_view(),
        r.build.open == options.open,
        !r.build.ci,
        r.build.device_type@ == options.device_type@,
        !r.build.app,
        r.build.args.deep_view() == options.args.deep_view(),
        r.build.ignore_version_mismatches == options.ignore_version_mismatches,
        r.install == !options.open,
{
    RunPlan { build: build_options(options), install: !options.open }
}

/// Whether a HAP path is a signed one: its file name holds `-signed`.
pub open spec fn is_signed_hap(path: Seq<char>) -> bool {
    match path_file_name(path) {
        Some(n) => has_infix(n, "-signed"@),
        None => false,
    }
}

/// The HAP to install among `paths`: the first signed one, else the first
/// one, and none when there is none.
pub fn select_hap(paths: &Vec<String>) -> (r: Option<usize>)
    ensures
        r is None <==> paths@.len() == 0,
        r matches Some(i) ==> i < paths@.len() && (
            (is_signed_hap(paths@[i as int]@) && forall|k: int|
                0 <= k < i ==> !is_signed_hap(#[trigger] paths@[k]@))
            || (i == 0 && forall|k: int|
                0 <= k < paths@.len() ==> !is_signed_hap(#[trigger] paths@[k]@))),
{
    let mut i: usize = 0;
    while i < paths.len()
        invariant
            i <= paths@.len(),
            forall|k: int| 0 <= k < i ==> !is_signed_hap(#[trigger] paths@[k]@),
        decreases paths.len() - i,
    {
        let signed = match file_name(paths[i].as_str()) {
            Some(n) => contains(n.as_str(), "-signed"),
            None => false,
        };
        if signed {
            return Some(i);
        }
        i = i + 1;
    }
    if paths.len() > 0 {
        Some(0)
    } else {
        None
    }
}

/// A step of installing and launching the application with `hdc`.
#[derive(Debug, PartialEq, Eq, Structural, Clone, Copy)]
pub enum InstallStep {
    /// `install -r` of the HAP.
    Install,
    /// `bm uninstall` of the bundle, after a failed install.
    Uninstall,
    /// `install -r` again, after the uninstall.
    Reinstall,
    /// `aa start` of the entry ability.
    Launch,
}

/// How installing and launching ended.
#[derive(Debug, PartialEq, Eq, Structural, Clone, Copy)]
pub enum InstallOutcome {
    /// The application was installed and launched.
    Launched,
    /// The application was installed but did not launch (a warning only).
    LaunchFailed,
    /// Both installs failed.
    InstallFailed,
}

/// What follows a step.
#[derive(Debug, PartialEq, Eq, Structural, Clone, Copy)]
pub enum InstallNext {
    /// Run this step next.
    Run(InstallStep),
    /// Stop with this outcome.
    Done(InstallOutcome),
}

/// The step that follows `step` when it succeeded or failed: a failed
/// install is followed by an uninstall and a second install, whose failure
/// ends the run; a launch ends it either way; the uninstall's outcome is
/// ignored.
pub open spec fn next_step_of(step: InstallStep, succeeded: bool) -> InstallNext {
    match step {
        InstallStep::Install => if succeeded {
            InstallNext::Run(InstallStep::Launch)
        } else {
            InstallNext::Run(InstallStep::Uninstall)
        },
        InstallStep::Uninstall => InstallNext::Run(InstallStep::Reinstall),
        InstallStep::Reinstall => if succeeded {
            InstallNext::Run(InstallStep::Launch)
        } else {
            InstallNext::Done(InstallOutcome::InstallFailed)
        },
        InstallStep::Launch => if succeeded {
            InstallNext::Done(InstallOutcome::Launched)
        } else {
            InstallNext::Done(InstallOutcome::LaunchFailed)
        },
    }
}

/// The step after `step`, given whether its `hdc` call succeeded.
pub fn next_step(step: InstallStep, succeeded: bool) -> (r: InstallNext)
    ensures
        r == next_step_of(step, succeeded),
{
    match step {
        InstallStep::Install => if succeeded {
            InstallNext::Run(InstallStep::Launch)
        } else {
            InstallNext::Run(InstallStep::Uninstall)
        },
        InstallStep::Uninstall => InstallNext::Run(InstallStep::Reinstall),
        InstallStep::Reinstall => if succeeded {
            InstallNext::Run(InstallStep::Launch)
        } else {
            InstallNext::Done(InstallOutcome::InstallFailed)
        },
        InstallStep::Launch => if succeeded {
            InstallNext::Done(InstallOutcome::Launched)
        } else {
            InstallNext::Done(InstallOutcome::LaunchFailed)
        },
    }
}

/// The `hdc` arguments of a step on the device `device_id`.
pub open spec fn step_args_of(
    step: InstallStep,
    device_id: Seq<char>,
    bundle_name: Seq<char>,
    hap: Seq<char>,
) -> Seq<Seq<char>> {
    match step {
        InstallStep::Install | InstallStep::Reinstall => seq![
            "-t"@,
            device_id,
            "install"@,
            "-r"@,
            hap,
        ],
        InstallStep::Uninstall => seq![
            "-t"@,
            device_id,
            "shell"@,
            "bm"@,
            "uninstall"@,
            "-n"@,
            bundle_name,
        ],
        InstallStep::Launch => seq![
            "-t"@,
            device_id,
            "shell"@,
            "aa"@,
            "start"@,
            "-b"@,
            bundle_name,
            "-a"@,
            "EntryAbility"@,
        ],
    }
}

/// The `hdc` arguments of a step.
pub fn step_args(step: InstallStep, device_id: &str, bundle_name: &str, hap: &str) -> (r: Vec<
    String,
>)
    ensures
        r.deep_view() == step_args_of(step, device_id@, bundle_name@, hap@),
{
    let mut v: Vec<String> = Vec::new();
    v.push("-t".to_owned());
    v.push(device_id.to_owned());
    match step {
        InstallStep::Install | InstallStep::Reinstall => {
            v.push("install".to_owned());
            v.push("-r".to_owned());
            v.push(hap.to_owned());
        },
        InstallStep::Uninstall => {
            v.push("shell".to_owned());
            v.push("bm".to_owned());
            v.push("uninstall".to_owned());
            v.push("-n".to_owned());
            v.push(bundle_name.to_owned());
        },
        InstallStep::Launch => {
            v.push("shell".to_owned());
            v.push("aa".to_owned());
            v.push("start".to_owned());
            v.push("-b".to_owned());
            v.push(bundle_name.to_owned());
            v.push("-a".to_owned());
            v.push("EntryAbility".to_owned());
        },
    }
    assert(v.deep_view() =~= step_args_of(step, device_id@, bundle_name@, hap@));
    v
}

/// The error of `ohos run` once the build is done.
#[derive(Debug, PartialEq, Eq, Structural, Clone, Copy)]
pub enum RunError {
    /// The build left no HAP to install.
    NoHap,
    /// Neither install of the HAP succeeded.
    InstallFailed,
}

/// What `ohos run` returns for an outcome: an error only when both installs
/// failed; whether the application launched otherwise.
pub fn run_result(outcome: InstallOutcome) -> (r: Result<bool, RunError>)
    ensures
        outcome == InstallOutcome::InstallFailed <==> r == Err::<bool, RunError>(
            RunError::InstallFailed,
        ),
        outcome == InstallOutcome::Launched <==> r == Ok::<bool, RunError>(true),
        outcome == InstallOutcome::LaunchFailed <==> r == Ok::<bool, RunError>(false),
{
    match outcome {
        InstallOutcome::Launched => Ok(true),
        InstallOutcome::LaunchFailed => Ok(false),
        InstallOutcome::InstallFailed => Err(RunError::InstallFailed),
    }
}

/// The number of steps that can still follow a step.
pub open spec fn steps_left(step: InstallStep) -> nat {
    match step {
        InstallStep::Install => 3,
        InstallStep::Uninstall => 2,
        InstallStep::Reinstall => 1,
        InstallStep::Launch => 0,
    }
}

/// Every step is followed by one with fewer steps left, or by the end: the
/// install and launch ends after at most four `hdc` calls, whatever they
/// return.
pub proof fn lemma_install_flow_terminates(step: InstallStep, succeeded: bool)
    ensures
        next_step_of(step, succeeded) matches InstallNext::Run(n) ==> steps_left(n) < steps_left(
            step,
        ),
{
}

/// Starting from an install, the run fails only when the install and the
/// install after the uninstall both fail; it launches the application
/// whenever one of them succeeds, and a failed launch is no error.
pub proof fn lemma_install_flow(install_ok: bool, reinstall_ok: bool, launch_ok: bool)
    ensures
        install_ok ==> next_step_of(InstallStep::Install, install_ok) == InstallNext::Run(
            InstallStep::Launch,
        ),
        !install_ok ==> next_step_of(InstallStep::Install, install_ok) == InstallNext::Run(
            InstallStep::Uninstall,
        ),
        forall|ok: bool|
            next_step_of(InstallStep::Uninstall, ok) == InstallNext::Run(InstallStep::Reinstall),
        next_step_of(InstallStep::Reinstall, reinstall_ok) == (if reinstall_ok {
            InstallNext::Run(InstallStep::Launch)
        } else {
            InstallNext::Done(InstallOutcome::InstallFailed)
        }),
        next_step_of(InstallStep::Launch, launch_ok) != InstallNext::Done(
            InstallOutcome::InstallFailed,
        ),
{
}

} // verus!
