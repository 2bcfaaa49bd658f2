//! The OpenHarmony commands of the Tauri CLI: their options, the entry
//! module and device forms that a build targets, the arguments passed on to
//! cargo, the choice of a device, and the icons injected into the project.
use vstd::prelude::*;
use vstd::string::*;
use crate::path::{extension_of, file_name, join_path, path_file_name, path_join, split_extension, stem_of};
use crate::run::Options;
use crate::text::{ends_with, has_prefix, has_suffix, starts_with, str_eq, to_chars};

verus! {

/// The part of the application configuration that the OpenHarmony project
/// reads.
#[derive(Debug)]
pub struct AppConfig {
    pub app: AppConfigObject,
}

/// The application's bundle name.
#[derive(Debug)]
pub struct AppConfigObject {
    pub bundle_name: String,
}

/// The options of `ohos init`.
#[derive(Debug)]
pub struct InitOptions {
    /// Skip prompting for values.
    pub ci: bool,
    /// Skip installing the Rust targets with rustup.
    pub skip_targets_install: bool,
    /// JSON strings or paths of configuration files to merge, in order.
    pub config: Vec<String>,
}

/// The options of `ohos build`.
#[derive(Debug)]
pub struct BuildOptions {
    pub debug: bool,
    pub targets: Option<Vec<String>>,
    pub features: Option<Vec<String>>,
    pub config: Vec<String>,
    pub open: bool,
    pub ci: bool,
    pub device_type: String,
    pub app: bool,
    pub args: Vec<String>,
    pub ignore_version_mismatches: bool,
}

/// The subcommands of `ohos`.
#[derive(Debug)]
pub enum Commands {
    Init(InitOptions),
    Dev,
    Build(BuildOptions),
    Run(Options),
    DevEcoStudioScript,
}

/// The `ohos` command line.
#[derive(Debug)]
pub struct Cli {
    pub command: Commands,
}

/// The device types of the configuration, by form.
#[derive(Debug)]
pub struct DeviceTypes {
    pub mobile: Vec<String>,
    pub desktop: Vec<String>,
}

/// The entry module built for the device form in `OHOS_DEVICE_TYPE`:
/// `entry_<form>`, with `mobile` when the variable is unset.
pub open spec fn entry_module_of(device_type: Option<Seq<char>>) -> Seq<char> {
    "entry_"@ + match device_type {
        Some(f) => f,
        None => "mobile"@,
    }
}

/// The active entry module, from the value of `OHOS_DEVICE_TYPE` (none when
/// it is unset or not Unicode).
pub fn active_entry_module(device_type: Option<String>) -> (r: String)
    ensures
        r@ == entry_module_of(device_type.deep_view()),
{
    let mut s = "entry_".to_owned();
    match device_type {
        Some(f) => s.append(f.as_str()),
        None => s.append("mobile"),
    }
    s
}

/// The configured device types of a form: the `mobile` list for `mobile`,
/// the `desktop` list for `desktop`, none for any other form.
pub fn device_types_for_form(device_types: &DeviceTypes, form: &str) -> (r: Vec<String>)
    ensures
        form@ == "mobile"@ ==> r.deep_view() == device_types.mobile.deep_view(),
        form@ != "mobile"@ && form@ == "desktop"@ ==> r.deep_view() == device_types.desktop.deep_view(),
        form@ != "mobile"@ && form@ != "desktop"@ ==> r@.len() == 0,
{
    if str_eq(form, "mobile") {
        clone_strings(&device_types.mobile)
    } else if str_eq(form, "desktop") {
        clone_strings(&device_types.desktop)
    } else {
        Vec::new()
    }
}

/// A copy of a list of strings.
pub fn clone_strings(v: &Vec<String>) -> (r: Vec<String>)
    ensures
        r.deep_view() == v.deep_view(),
{
    let mut out: Vec<String> = Vec::new();
    let mut i: usize = 0;
    while i < v.len()
        invariant
            i <= v@.len(),
            out.deep_view() == v.deep_view().subrange(0, i as int),
        decreases v.len() - i,
    {
        let ghost before = out.deep_view();
        let c = v[i].clone();
        out.push(c);
        assert(out.deep_view() =~= before.push(v@[i as int]@));
        assert(v.deep_view().subrange(0, i + 1) =~= v.deep_view().subrange(0, i as int).push(
            v@[i as int]@,
        ));
        i = i + 1;
    }
    assert(v.deep_view().subrange(0, v@.len() as int) =~= v.deep_view());
    out
}

/// The device forms to build: `mobile` when it has device types, then
/// `desktop` when it has device types.
pub open spec fn active_forms(device_types: DeviceTypes) -> Seq<Seq<char>> {
    let m: Seq<Seq<char>> = if device_types.mobile@.len() > 0 {
        seq!["mobile"@]
    } else {
        seq![]
    };
    if device_types.desktop@.len() > 0 {
        m.push("desktop"@)
    } else {
        m
    }
}

/// The device forms that `build --app` compiles and packages.
pub fn forms_for_device_types(device_types: &DeviceTypes) -> (r: Vec<&'static str>)
    ensures
        r@.map_values(|s: &str| s@) == active_forms(*device_types),
{
    let mut forms: Vec<&'static str> = Vec::new();
    if device_types.mobile.len() > 0 {
        forms.push("mobile");
    }
    if device_types.desktop.len() > 0 {
        forms.push("desktop");
    }
    assert(forms@.map_values(|s: &str| s@) =~= active_forms(*device_types));
    forms
}

/// The runner arguments passed on to cargo: all but `--device-type` with the
/// argument after it, and `--device-type=...`.
pub open spec fn cargo_args_of(args: Seq<Seq<char>>) -> Seq<Seq<char>>
    decreases args.len(),
{
    if args.len() == 0 {
        seq![]
    } else if args[0] == "--device-type"@ {
        if args.len() == 1 {
            seq![]
        } else {
            cargo_args_of(args.subrange(2, args.len() as int))
        }
    } else if has_prefix(args[0], "--device-type="@) {
        cargo_args_of(args.drop_first())
    } else {
        seq![args[0]] + cargo_args_of(args.drop_first())
    }
}

/// The runner arguments that are passed on to cargo.
pub fn cargo_args(args: &Vec<String>) -> (r: Vec<String>)
    ensures
        r.deep_view() == cargo_args_of(args.deep_view()),
{
    let ghost all = args.deep_view();
    let mut out: Vec<String> = Vec::new();
    let mut i: usize = 0;
    assert(all.subrange(0, all.len() as int) =~= all);
    assert(out.deep_view() + cargo_args_of(all) =~= cargo_args_of(all));
    while i < args.len()
        invariant
            all == args.deep_view(),
            i <= all.len(),
            out.deep_view() + cargo_args_of(all.subrange(i as int, all.len() as int))
                == cargo_args_of(all),
        decreases args.len() - i,
    {
        let ghost rest = all.subrange(i as int, all.len() as int);
        assert(rest[0] == args@[i as int]@);
        assert(rest.drop_first() =~= all.subrange(i + 1, all.len() as int));
        let a = &args[i];
        if str_eq(a.as_str(), "--device-type") {
            if i + 1 == args.len() {
                assert(cargo_args_of(rest) =~= Seq::<Seq<char>>::empty());
                assert(out.deep_view() + Seq::<Seq<char>>::empty() =~= out.deep_view());
                return out;
            }
            assert(rest.subrange(2, rest.len() as int) =~= all.subrange(i + 2, all.len() as int));
            i = i + 2;
        } else if starts_with(a.as_str(), "--device-type=") {
            i = i + 1;
        } else {
            let ghost before = out.deep_view();
            out.push(a.clone());
            assert(out.deep_view() =~= before.push(a@));
            assert(before + cargo_args_of(rest) =~= out.deep_view() + cargo_args_of(
                all.subrange(i + 1, all.len() as int),
            ));
            i = i + 1;
        }
    }
    assert(all.subrange(i as int, all.len() as int) =~= Seq::<Seq<char>>::empty());
    assert(out.deep_view() + Seq::<Seq<char>>::empty() =~= out.deep_view());
    out
}

/// Whether an environment variable holds generated code that a build must
/// clear: its name starts with `WRY_` and ends with `CLASS_EXTENSION` or
/// `CLASS_INIT`.
pub open spec fn is_codegen_var(name: Seq<char>) -> bool {
    has_prefix(name, "WRY_"@) && (has_suffix(name, "CLASS_EXTENSION"@) || has_suffix(
        name,
        "CLASS_INIT"@,
    ))
}

/// The names among `names` of the variables that hold generated code.
pub fn delete_codegen_vars(names: &Vec<String>) -> (r: Vec<String>)
    ensures
        r.deep_view() == names.deep_view().filter(|n: Seq<char>| is_codegen_var(n)),
{
    let ghost all = names.deep_view();
    let mut out: Vec<String> = Vec::new();
    let mut i: usize = 0;
    while i < names.len()
        invariant
            all == names.deep_view(),
            i <= all.len(),
            out.deep_view() == all.subrange(0, i as int).filter(|n: Seq<char>| is_codegen_var(n)),
        decreases names.len() - i,
    {
        let n = &names[i];
        let ghost pre = all.subrange(0, i + 1);
        assert(pre.drop_last() =~= all.subrange(0, i as int));
        assert(pre.last() == n@);
        reveal_with_fuel(Seq::filter, 1);
        if starts_with(n.as_str(), "WRY_") && (ends_with(n.as_str(), "CLASS_EXTENSION") || ends_with(
            n.as_str(),
            "CLASS_INIT",
        )) {
            let ghost before = out.deep_view();
            out.push(n.clone());
            assert(out.deep_view() =~= before.push(n@));
        }
        i = i + 1;
    }
    assert(all.subrange(0, all.len() as int) =~= all);
    out
}

// ------------------------------------------------------------------
// Choosing a device
// ------------------------------------------------------------------

/// What `sublime_fuzzy::best_match` scores `target` against `query`, or none
/// when it finds no match.
pub uninterp spec fn fuzzy_score(query: Seq<char>, target: Seq<char>) -> Option<int>;

/// The score of the best fuzzy match of `query` in `target`
/// (`sublime_fuzzy::best_match`, then `Match::score`). The contract claims
/// that the outcome is `fuzzy_score` of the two texts, and, as the crate's
/// source shows, that there is no match when either text is empty.
#[verifier::external_body]
fn best_match_score(query: &str, target: &str) -> (r: Option<isize>)
    ensures
        r matches Some(s) ==> fuzzy_score(query@, target@) == Some(s as int),
        r is None ==> fuzzy_score(query@, target@) is None,
        query@.len() == 0 || target@.len() == 0 ==> r is None,
{
    sublime_fuzzy::best_match(query, target).map(|m| m.score())
}

/// The score of a device name against the requested name: the fuzzy score,
/// or 0 when nothing matches.
pub open spec fn device_score(query: Seq<char>, name: Seq<char>) -> int {
    match fuzzy_score(query, name) {
        Some(s) => s,
        None => 0,
    }
}

/// Whether `i` is the first index of a highest score in `scores`.
pub open spec fn is_first_best(scores: Seq<int>, i: int) -> bool {
    &&& 0 <= i < scores.len()
    &&& forall|k: int| 0 <= k < scores.len() ==> scores[k] <= scores[i]
    &&& forall|k: int| 0 <= k < i ==> scores[k] < scores[i]
}

/// The index of the first highest score: the device that the reversed
/// `max_by_key` of the device prompt keeps among equal scores.
pub fn best_scoring_index(scores: &Vec<isize>) -> (r: usize)
    requires
        scores@.len() > 0,
    ensures
        is_first_best(scores@.map_values(|s: isize| s as int), r as int),
{
    let ghost sv = scores@.map_values(|s: isize| s as int);
    let mut best: usize = 0;
    let mut i: usize = 1;
    while i < scores.len()
        invariant
            sv == scores@.map_values(|s: isize| s as int),
            1 <= i <= scores@.len(),
            best < i,
            forall|k: int| 0 <= k < i ==> sv[k] <= sv[best as int],
            forall|k: int| 0 <= k < best ==> sv[k] < sv[best as int],
        decreases scores.len() - i,
    {
        if scores[i] > scores[best] {
            best = i;
        }
        i = i + 1;
    }
    best
}

/// The device that `hdc_device_prompt` and `emulator_prompt` settle on.
#[derive(Debug)]
pub enum DeviceChoice {
    /// The device at this index.
    Device(usize),
    /// Several devices and no name: the user is asked to pick one.
    Prompt,
    /// No device scores above the threshold for the requested name.
    NoMatch,
    /// There is no device.
    NoDevices,
}

/// Chooses among the devices named `names`: none when there are none; for a
/// requested name, the first device with the highest fuzzy score, provided
/// that score exceeds `min_score`; without a name, the only device, or a
/// prompt when there are several.
pub fn choose_device(names: &Vec<String>, target: Option<&str>, min_score: isize) -> (r: DeviceChoice)
    ensures
        names@.len() == 0 ==> r is NoDevices,
        names@.len() > 0 && target is None && names@.len() == 1 ==> r == DeviceChoice::Device(0),
        names@.len() > 1 && target is None ==> r is Prompt,
        names@.len() > 0 ==> (target matches Some(t) ==> ({
            let scores = Seq::new(names@.len(), |k: int| device_score(t@, names@[k]@));
            match r {
                DeviceChoice::Device(i) => is_first_best(scores, i as int) && scores[i as int]
                    > min_score,
                DeviceChoice::NoMatch => exists|i: int|
                    is_first_best(scores, i) && scores[i] <= min_score,
                _ => false,
            }
        })),
{
    if names.len() == 0 {
        return DeviceChoice::NoDevices;
    }
    match target {
        None => {
            if names.len() > 1 {
                DeviceChoice::Prompt
            } else {
                DeviceChoice::Device(0)
            }
        },
        Some(t) => {
            let ghost scores = Seq::new(names@.len(), |k: int| device_score(t@, names@[k]@));
            let mut v: Vec<isize> = Vec::new();
            let mut i: usize = 0;
            while i < names.len()
                invariant
                    i <= names@.len(),
                    v@.len() == i,
                    forall|k: int| 0 <= k < i ==> v@[k] as int == device_score(t@, names@[k]@),
                decreases names.len() - i,
            {
                let s = match best_match_score(t, names[i].as_str()) {
                    Some(s) => s,
                    None => 0,
                };
                v.push(s);
                i = i + 1;
            }
            let best = best_scoring_index(&v);
            assert(v@.map_values(|s: isize| s as int) =~= scores);
            if v[best] > min_score {
                DeviceChoice::Device(best)
            } else {
                DeviceChoice::NoMatch
            }
        },
    }
}

// ------------------------------------------------------------------
// Icons
// ------------------------------------------------------------------

/// What `str::to_lowercase` yields for `s` under the Unicode case tables.
pub uninterp spec fn unicode_lower(s: Seq<char>) -> Seq<char>;

/// The ASCII lower-case form of `c`: an upper-case ASCII letter becomes the
/// letter 32 code points above it, any other character stays.
pub open spec fn ascii_lower(c: char) -> char {
    if 'A' <= c && c <= 'Z' {
        ((c as u32) + 32) as char
    } else {
        c
    }
}

/// The lower-case form of `s` (std's `str::to_lowercase`). The contract
/// claims that the result is the mapping named `unicode_lower`, and, as std
/// documents for ASCII, that a string of ASCII characters maps character by
/// character to `ascii_lower`. The mapping of other text is left to the name.
#[verifier::external_body]
fn to_lowercase(s: &str) -> (r: String)
    ensures
        r@ == unicode_lower(s@),
        (forall|i: int| 0 <= i < s@.len() ==> (#[trigger] s@[i] as u32) < 128) ==> r@
            == s@.map_values(|c: char| ascii_lower(c)),
{
    s.to_lowercase()
}

/// The role of an icon in the OpenHarmony project, by the end of its
/// lower-cased stem.
#[derive(Debug, PartialEq, Eq, Structural, Clone, Copy)]
pub enum IconRole {
    StartIcon,
    Foreground,
    Background,
}

/// The role of an icon of `bundle.icon`: none unless its lower-cased stem
/// ends with `-starticon`, `-foreground` or `-background` and its extension
/// is `png` in any ASCII case.
pub open spec fn icon_role(path: Seq<char>) -> Option<IconRole> {
    match path_file_name(path) {
        None => None,
        Some(name) => {
            let lower = unicode_lower(stem_of(name));
            let role = if has_suffix(lower, "-starticon"@) {
                Some(IconRole::StartIcon)
            } else if has_suffix(lower, "-foreground"@) {
                Some(IconRole::Foreground)
            } else if has_suffix(lower, "-background"@) {
                Some(IconRole::Background)
            } else {
                None
            };
            match extension_of(name) {
                Some(e) => if is_png_ext(e) {
                    role
                } else {
                    None
                },
                None => None,
            }
        },
    }
}

/// Whether an extension is `png` in any ASCII case.
pub open spec fn is_png_ext(e: Seq<char>) -> bool {
    e.len() == 3 && (e[0] == 'p' || e[0] == 'P') && (e[1] == 'n' || e[1] == 'N') && (e[2] == 'g'
        || e[2] == 'G')
}

/// Whether `e` is `png` in any ASCII case.
pub fn png_extension(e: &str) -> (r: bool)
    ensures
        r == is_png_ext(e@),
{
    let c = to_chars(e);
    c.len() == 3 && (c[0] == 'p' || c[0] == 'P') && (c[1] == 'n' || c[1] == 'N') && (c[2] == 'g'
        || c[2] == 'G')
}

/// The role of an icon of `bundle.icon`, as `icon_role` states.
pub fn icon_role_of(icon: &str) -> (r: Option<IconRole>)
    ensures
        r == icon_role(icon@),
{
    match file_name(icon) {
        None => None,
        Some(name) => {
            let (stem, ext) = split_extension(name.as_str());
            let lower = to_lowercase(stem.as_str());
            proof {
                reveal_strlit("-starticon");
                reveal_strlit("-foreground");
                reveal_strlit("-background");
            }
            let role = if ends_with(lower.as_str(), "-starticon") {
                Some(IconRole::StartIcon)
            } else if ends_with(lower.as_str(), "-foreground") {
                Some(IconRole::Foreground)
            } else if ends_with(lower.as_str(), "-background") {
                Some(IconRole::Background)
            } else {
                None
            };
            match ext {
                Some(e) => if png_extension(e.as_str()) {
                    role
                } else {
                    None
                },
                None => None,
            }
        },
    }
}

/// The last icon of `icons` that has the given role: the one whose path the
/// injection loop keeps.
pub open spec fn last_icon(icons: Seq<Seq<char>>, role: IconRole) -> Option<Seq<char>>
    decreases icons.len(),
{
    if icons.len() == 0 {
        None
    } else if icon_role(icons.last()) == Some(role) {
        Some(icons.last())
    } else {
        last_icon(icons.drop_last(), role)
    }
}

/// The media directory of the application scope in the project.
pub open spec fn app_media_dir(project_dir: Seq<char>) -> Seq<char> {
    path_join(project_dir, "AppScope/resources/base/media"@)
}

/// The media directory of an entry module in the project.
pub open spec fn entry_media_dir(project_dir: Seq<char>, entry_module: Seq<char>) -> Seq<char> {
    path_join(project_dir, entry_module + "/src/main/resources/base/media"@)
}

/// The copies that inject the icons of `bundle.icon` into the project, as
/// (source, destination) pairs: none unless both a foreground and a
/// background icon are present; otherwise both to the application scope,
/// both to the entry module, and the start icon (the foreground when there
/// is no dedicated one) to the entry module. Sources are resolved against
/// the Tauri directory.
pub open spec fn icon_copies_of(
    icons: Seq<Seq<char>>,
    tauri_dir: Seq<char>,
    project_dir: Seq<char>,
    entry_module: Seq<char>,
) -> Option<Seq<(Seq<char>, Seq<char>)>> {
    match (last_icon(icons, IconRole::Foreground), last_icon(icons, IconRole::Background)) {
        (Some(fg), Some(bg)) => {
            let app = app_media_dir(project_dir);
            let entry = entry_media_dir(project_dir, entry_module);
            let f = path_join(tauri_dir, fg);
            let b = path_join(tauri_dir, bg);
            let st = match last_icon(icons, IconRole::StartIcon) {
                Some(p) => path_join(tauri_dir, p),
                None => f,
            };
            Some(
                seq![
                    (f, path_join(app, "foreground.png"@)),
                    (b, path_join(app, "background.png"@)),
                    (f, path_join(entry, "foreground.png"@)),
                    (b, path_join(entry, "background.png"@)),
                    (st, path_join(entry, "startIcon.png"@)),
                ],
            )
        },
        _ => None,
    }
}

/// The icon copies of `inject_icons`, as `icon_copies_of` states.
pub fn inject_icons(icons: &Vec<String>, tauri_dir: &str, project_dir: &str, entry_module: &str) -> (r:
    Option<Vec<(String, String)>>)
    ensures
        r is Some <==> icon_copies_of(icons.deep_view(), tauri_dir@, project_dir@, entry_module@) is Some,
        r matches Some(v) ==> icon_copies_of(icons.deep_view(), tauri_dir@, project_dir@, entry_module@)
            == Some(v.deep_view()),
{
    let ghost iv = icons.deep_view();
    let mut fg: Option<String> = None;
    let mut bg: Option<String> = None;
    let mut st: Option<String> = None;
    let mut i: usize = 0;
    while i < icons.len()
        invariant
            iv == icons.deep_view(),
            i <= iv.len(),
            fg.deep_view() == last_icon(iv.subrange(0, i as int), IconRole::Foreground),
            bg.deep_view() == last_icon(iv.subrange(0, i as int), IconRole::Background),
            st.deep_view() == last_icon(iv.subrange(0, i as int), IconRole::StartIcon),
        decreases icons.len() - i,
    {
        let icon = &icons[i];
        let ghost pre = iv.subrange(0, i + 1);
        assert(pre.drop_last() =~= iv.subrange(0, i as int));
        assert(pre.last() == icon@);
        match icon_role_of(icon.as_str()) {
            Some(IconRole::StartIcon) => {
                st = Some(icon.clone());
            },
            Some(IconRole::Foreground) => {
                fg = Some(icon.clone());
            },
            Some(IconRole::Background) => {
                bg = Some(icon.clone());
            },
            None => {},
        }
        i = i + 1;
    }
    assert(iv.subrange(0, iv.len() as int) =~= iv);
    match (fg, bg) {
        (Some(f), Some(b)) => {
            let app = join_path(project_dir, "AppScope/resources/base/media");
            let mut entry_rel = entry_module.to_owned();
            entry_rel.append("/src/main/resources/base/media");
            let entry = join_path(project_dir, entry_rel.as_str());
            let fp = join_path(tauri_dir, f.as_str());
            let bp = join_path(tauri_dir, b.as_str());
            let sp = match st {
                Some(p) => join_path(tauri_dir, p.as_str()),
                None => fp.clone(),
            };
            let mut out: Vec<(String, String)> = Vec::new();
            out.push((fp.clone(), join_path(app.as_str(), "foreground.png")));
            out.push((bp.clone(), join_path(app.as_str(), "background.png")));
            out.push((fp, join_path(entry.as_str(), "foreground.png")));
            out.push((bp, join_path(entry.as_str(), "background.png")));
            out.push((sp, join_path(entry.as_str(), "startIcon.png")));
            assert(out.deep_view() =~= icon_copies_of(iv, tauri_dir@, project_dir@, entry_module@).unwrap());
            Some(out)
        },
        _ => None,
    }
}

/// How much the CLI prints.
#[derive(Debug, PartialEq, Eq, Structural, Clone, Copy)]
pub enum NoiseLevel {
    Polite,
    LoudAndProud,
    FranklyQuitePedantic,
}

/// The lowest level of the device log that is shown.
#[derive(Debug, PartialEq, Eq, Structural, Clone, Copy)]
pub enum FilterLevel {
    Info,
    Debug,
    Verbose,
}

/// The log level shown for a noise level: info when polite, debug when
/// loud, verbose when pedantic.
pub open spec fn filter_level_of(n: NoiseLevel) -> FilterLevel {
    match n {
        NoiseLevel::Polite => FilterLevel::Info,
        NoiseLevel::LoudAndProud => FilterLevel::Debug,
        NoiseLevel::FranklyQuitePedantic => FilterLevel::Verbose,
    }
}

/// The OpenHarmony configuration that `get_config` assembles: OpenHarmony
/// marked as supported, the cargo features, the arguments passed on to cargo, the log level of the
/// `*` filter (beside `RustStdoutStderr`), and the device form to export.
#[derive(Debug)]
pub struct OhosConfigPlan {
    /// The metadata marks OpenHarmony as supported.
    pub supported: bool,
    pub features: Vec<String>,
    pub cargo_args: Vec<String>,
    pub filter_level: FilterLevel,
    pub device_type: Option<String>,
}

/// The configuration of `get_config`: the CLI's features followed by the
/// extra ones, the runner arguments without the device-type option, the log
/// level of the noise level, and the `OHOS_DEVICE_TYPE` value of the CLI's
/// variables, when it has one.
pub fn get_config(
    cli_features: &Vec<String>,
    features: Option<&Vec<String>>,
    args: &Vec<String>,
    noise_level: NoiseLevel,
    device_type_var: Option<&str>,
) -> (r: OhosConfigPlan)
    ensures
        r.features.deep_view() == cli_features.deep_view() + match features {
            Some(f) => f.deep_view(),
            None => Seq::<Seq<char>>::empty(),
        },
        r.cargo_args.deep_view() == cargo_args_of(args.deep_view()),
        r.filter_level == filter_level_of(noise_level),
        r.device_type.deep_view() == device_type_var.deep_view(),
        r.supported,
{
    let mut all = clone_strings(cli_features);
    match features {
        Some(f) => {
            let mut extra = clone_strings(f);
            let ghost a = all.deep_view();
            let ghost b = extra.deep_view();
            all.append(&mut extra);
            assert(all.deep_view() =~= a + b);
        },
        None => {
            assert(all.deep_view() =~= all.deep_view() + Seq::<Seq<char>>::empty());
        },
    }
    let level = match noise_level {
        NoiseLevel::Polite => FilterLevel::Info,
        NoiseLevel::LoudAndProud => FilterLevel::Debug,
        NoiseLevel::FranklyQuitePedantic => FilterLevel::Verbose,
    };
    let device_type = match device_type_var {
        Some(d) => Some(d.to_owned()),
        None => None,
    };
    OhosConfigPlan {
        supported: true,
        features: all,
        cargo_args: cargo_args(args),
        filter_level: level,
        device_type,
    }
}

/// Whether the wait for a started emulator mentions that it may be
/// unauthorized or offline: from the fourth poll on.
pub fn emulator_wait_is_long(tries: u64) -> (r: bool)
    ensures
        r == (tries >= 3),
{
    tries >= 3
}

/// The arguments passed on to cargo never hold the device-type option: no
/// argument is `--device-type` or starts with `--device-type=`, and each one
/// is one of the runner arguments.
pub proof fn lemma_cargo_args_drop_device_type(args: Seq<Seq<char>>)
    ensures
        forall|i: int|
            0 <= i < cargo_args_of(args).len() ==> #[trigger] cargo_args_of(args)[i]
                != "--device-type"@ && !has_prefix(cargo_args_of(args)[i], "--device-type="@)
                && args.contains(cargo_args_of(args)[i]),
    decreases args.len(),
{
    if args.len() > 0 {
        if args[0] == "--device-type"@ {
            if args.len() > 1 {
                let rest = args.subrange(2, args.len() as int);
                lemma_cargo_args_drop_device_type(rest);
                assert forall|i: int| 0 <= i < cargo_args_of(args).len() implies args.contains(
                    #[trigger] cargo_args_of(args)[i],
                ) by {
                    let j = choose|j: int| 0 <= j < rest.len() && rest[j] == cargo_args_of(rest)[i];
                    assert(args[j + 2] == rest[j]);
                }
            }
        } else if has_prefix(args[0], "--device-type="@) {
            let rest = args.drop_first();
            lemma_cargo_args_drop_device_type(rest);
            assert forall|i: int| 0 <= i < cargo_args_of(args).len() implies args.contains(
                #[trigger] cargo_args_of(args)[i],
            ) by {
                let j = choose|j: int| 0 <= j < rest.len() && rest[j] == cargo_args_of(rest)[i];
                assert(args[j + 1] == rest[j]);
            }
        } else {
            let rest = args.drop_first();
            lemma_cargo_args_drop_device_type(rest);
            let r = cargo_args_of(args);
            assert(r == seq![args[0]] + cargo_args_of(rest));
            assert forall|i: int| 0 <= i < r.len() implies #[trigger] r[i] != "--device-type"@
                && !has_prefix(r[i], "--device-type="@) && args.contains(r[i]) by {
                if i == 0 {
                    assert(r[0] == args[0]);
                } else {
                    assert(r[i] == cargo_args_of(rest)[i - 1]);
                    let j = choose|j: int|
                        0 <= j < rest.len() && rest[j] == cargo_args_of(rest)[i - 1];
                    assert(args[j + 1] == rest[j]);
                }
            }
        }
    }
}

} // verus!
