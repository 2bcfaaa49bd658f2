//! What a Tauri plugin's build script decides for mobile targets: whether
//! the build is a mobile one, where the Tauri API library is copied, which
//! entries of it are copied, and how deep-link skills are merged into the
//! OpenHarmony `module.json5`.
use vstd::prelude::*;
use vstd::string::*;
use crate::path::{join_path, parent_path, path_join, path_parent};
use crate::json::{
    elems_view, field, fields_view, find_field, json5_document, json_pretty, json_view,
    lemma_array_view, lemma_object_view, lemma_take_then_set, lemma_with_field_get,
    lemma_with_field_twice, member, parse_json5, pretty_json,
    set_field, take_field, with_field, Json, JsonValue,
};
use crate::text::{has_prefix, starts_with, str_eq};

verus! {

/// Whether a build is for a mobile device: on OpenHarmony, unless the
/// device form (`mobile` when unset) is `desktop`; elsewhere, for iOS and
/// Android.
pub open spec fn is_mobile_of(
    target_os: Seq<char>,
    target_env: Seq<char>,
    device_type: Option<Seq<char>>,
) -> bool {
    if target_env == "ohos"@ {
        match device_type {
            Some(d) => d != "desktop"@,
            None => true,
        }
    } else {
        target_os == "ios"@ || target_os == "android"@
    }
}

/// Whether a build is for a mobile device, from `CARGO_CFG_TARGET_OS`,
/// `CARGO_CFG_TARGET_ENV` and `OHOS_DEVICE_TYPE`.
pub fn is_mobile_target(target_os: &str, target_env: &str, device_type: Option<&str>) -> (r: bool)
    ensures
        r == is_mobile_of(target_os@, target_env@, device_type.deep_view()),
{
    if str_eq(target_env, "ohos") {
        match device_type {
            Some(d) => !str_eq(d, "desktop"),
            None => {
                proof {
                    reveal_strlit("mobile");
                    reveal_strlit("desktop");
                }
                true
            },
        }
    } else {
        str_eq(target_os, "ios") || str_eq(target_os, "android")
    }
}

/// The platform whose Tauri API library a plugin copies into its project.
#[derive(Debug, PartialEq, Eq, Structural, Clone, Copy)]
pub enum LibraryKind {
    Android,
    Ios,
    Ohos,
}

/// Where the Tauri API library goes: the `.tauri` directory to create, the
/// copy's destination inside it, the entries not copied, and the plugin's
/// native project.
#[derive(Debug)]
pub struct LibraryCopy {
    pub kind: LibraryKind,
    pub project: String,
    pub tauri_dir: String,
    pub dest: String,
    pub ignore: Vec<String>,
}

/// The entries of the iOS library that are not copied.
pub open spec fn ios_ignored() -> Seq<Seq<char>> {
    seq![".build"@, "Package.resolved"@, "Tests"@]
}

/// The library copy that `setup` performs, by target: for Android, and for
/// OpenHarmony on any other target OS, into `.tauri/tauri-api` of the
/// plugin's native project under the manifest directory; for iOS (only when
/// the build runs on macOS), into `.tauri/tauri-api` beside the iOS project,
/// without its build outputs and tests; nothing when the plugin has no
/// project for the target.
pub open spec fn library_copy_of(
    target_os: Seq<char>,
    target_env: Seq<char>,
    macos_host: bool,
    manifest_dir: Seq<char>,
    android_path: Option<Seq<char>>,
    ios_path: Option<Seq<char>>,
    ohos_path: Option<Seq<char>>,
) -> Option<(LibraryKind, Seq<char>, Seq<char>, Seq<char>, Seq<Seq<char>>)> {
    if target_os == "android"@ {
        match android_path {
            Some(p) => {
                let project = path_join(manifest_dir, p);
                let t = path_join(project, ".tauri"@);
                Some((LibraryKind::Android, project, t, path_join(t, "tauri-api"@), seq![]))
            },
            None => None,
        }
    } else if target_os == "ios"@ && macos_host {
        match ios_path {
            Some(p) => {
                let t = path_join(path_parent(p).unwrap(), ".tauri"@);
                Some(
                    (
                        LibraryKind::Ios,
                        path_join(manifest_dir, p),
                        t,
                        path_join(t, "tauri-api"@),
                        ios_ignored(),
                    ),
                )
            },
            None => None,
        }
    } else if target_env == "ohos"@ {
        match ohos_path {
            Some(p) => {
                let project = path_join(manifest_dir, p);
                let t = path_join(project, ".tauri"@);
                Some((LibraryKind::Ohos, project, t, path_join(t, "tauri-api"@), seq![]))
            },
            None => None,
        }
    } else {
        None
    }
}

/// The view of a library copy.
pub open spec fn library_copy_view(c: LibraryCopy) -> (
    LibraryKind,
    Seq<char>,
    Seq<char>,
    Seq<char>,
    Seq<Seq<char>>,
) {
    (c.kind, c.project@, c.tauri_dir@, c.dest@, c.ignore.deep_view())
}

/// The library copy of `setup`, as `library_copy_of` states. An iOS
/// project path must have a parent, which the build script unwraps.
pub fn library_copy(
    target_os: &str,
    target_env: &str,
    macos_host: bool,
    manifest_dir: &str,
    android_path: Option<&str>,
    ios_path: Option<&str>,
    ohos_path: Option<&str>,
) -> (r: Option<LibraryCopy>)
    requires
        target_os@ == "ios"@ && macos_host ==> (ios_path matches Some(p) ==> path_parent(
            p@,
        ) is Some),
    ensures
        r is Some <==> library_copy_of(
            target_os@,
            target_env@,
            macos_host,
            manifest_dir@,
            android_path.deep_view(),
            ios_path.deep_view(),
            ohos_path.deep_view(),
        ) is Some,
        r matches Some(c) ==> Some(library_copy_view(c)) == library_copy_of(
            target_os@,
            target_env@,
            macos_host,
            manifest_dir@,
            android_path.deep_view(),
            ios_path.deep_view(),
            ohos_path.deep_view(),
        ),
{
    if str_eq(target_os, "android") {
        match android_path {
            Some(p) => {
                let project = join_path(manifest_dir, p);
                let t = join_path(project.as_str(), ".tauri");
                let dest = join_path(t.as_str(), "tauri-api");
                let ignore: Vec<String> = Vec::new();
                assert(ignore.deep_view() =~= Seq::<Seq<char>>::empty());
                Some(LibraryCopy { kind: LibraryKind::Android, project, tauri_dir: t, dest, ignore })
            },
            None => None,
        }
    } else if str_eq(target_os, "ios") && macos_host {
        match ios_path {
            Some(p) => {
                let parent = parent_path(p);
                let par = match parent {
                    Some(q) => q,
                    None => String::new(),
                };
                let t = join_path(par.as_str(), ".tauri");
                let dest = join_path(t.as_str(), "tauri-api");
                let mut ignore: Vec<String> = Vec::new();
                ignore.push(".build".to_owned());
                ignore.push("Package.resolved".to_owned());
                ignore.push("Tests".to_owned());
                assert(ignore.deep_view() =~= ios_ignored());
                Some(
                    LibraryCopy {
                        kind: LibraryKind::Ios,
                        project: join_path(manifest_dir, p),
                        tauri_dir: t,
                        dest,
                        ignore,
                    },
                )
            },
            None => None,
        }
    } else if str_eq(target_env, "ohos") {
        match ohos_path {
            Some(p) => {
                let project = join_path(manifest_dir, p);
                let t = join_path(project.as_str(), ".tauri");
                let dest = join_path(t.as_str(), "tauri-api");
                let ignore: Vec<String> = Vec::new();
                assert(ignore.deep_view() =~= Seq::<Seq<char>>::empty());
                Some(LibraryCopy { kind: LibraryKind::Ohos, project, tauri_dir: t, dest, ignore })
            },
            None => None,
        }
    } else {
        None
    }
}

/// Whether an entry, by its path relative to the copied folder, is left
/// out: it starts with one of the ignored paths.
pub open spec fn is_ignored(rel: Seq<char>, ignore: Seq<Seq<char>>) -> bool {
    exists|i: int| 0 <= i < ignore.len() && has_prefix(rel, #[trigger] ignore[i])
}

/// What `copy_folder` does with one entry of the walked folder.
#[derive(Debug)]
pub enum CopyOp {
    /// Create this directory.
    CreateDir(String),
    /// Copy the file to this path.
    CopyFile(String),
}

/// The operation for the entry at `rel` (relative to the copied folder):
/// none when it is ignored; otherwise the directory or file of the same
/// relative path under `target`.
pub fn copy_entry(target: &str, rel: &str, is_dir: bool, ignore: &Vec<String>) -> (r: Option<
    CopyOp,
>)
    ensures
        r is None <==> is_ignored(rel@, ignore.deep_view()),
        r matches Some(CopyOp::CreateDir(d)) ==> is_dir && d@ == path_join(target@, rel@),
        r matches Some(CopyOp::CopyFile(d)) ==> !is_dir && d@ == path_join(target@, rel@),
{
    let ghost iv = ignore.deep_view();
    let mut i: usize = 0;
    while i < ignore.len()
        invariant
            iv == ignore.deep_view(),
            i <= iv.len(),
            forall|k: int| 0 <= k < i ==> !has_prefix(rel@, #[trigger] iv[k]),
        decreases ignore.len() - i,
    {
        if starts_with(rel, ignore[i].as_str()) {
            assert(has_prefix(rel@, iv[i as int]));
            return None;
        }
        i = i + 1;
    }
    let dest = join_path(target, rel);
    if is_dir {
        Some(CopyOp::CreateDir(dest))
    } else {
        Some(CopyOp::CopyFile(dest))
    }
}

/// The `module.json5` that `update_ohos_module_json` edits: that of the
/// entry module of the device form (`mobile` when unset) under the project
/// path, and none unless the target environment is `ohos` and the project
/// path is set.
pub open spec fn module_json_path_of(
    target_env: Seq<char>,
    project_path: Option<Seq<char>>,
    device_type: Option<Seq<char>>,
) -> Option<Seq<char>> {
    if target_env != "ohos"@ {
        None
    } else {
        match project_path {
            Some(p) => {
                let form = match device_type {
                    Some(d) => d,
                    None => "mobile"@,
                };
                Some(path_join(path_join(p, "entry_"@ + form), "src/main/module.json5"@))
            },
            None => None,
        }
    }
}

/// The `module.json5` to edit, as `module_json_path_of` states.
pub fn module_json_path(target_env: &str, project_path: Option<&str>, device_type: Option<&str>) -> (r:
    Option<String>)
    ensures
        r is Some <==> module_json_path_of(
            target_env@,
            project_path.deep_view(),
            device_type.deep_view(),
        ) is Some,
        r matches Some(s) ==> module_json_path_of(
            target_env@,
            project_path.deep_view(),
            device_type.deep_view(),
        ) == Some(s@),
{
    if !str_eq(target_env, "ohos") {
        return None;
    }
    match project_path {
        Some(p) => {
            let mut module = "entry_".to_owned();
            match device_type {
                Some(d) => module.append(d),
                None => module.append("mobile"),
            }
            let dir = join_path(p, module.as_str());
            Some(join_path(dir.as_str(), "src/main/module.json5"))
        },
        None => None,
    }
}

/// A skill of an ability in `module.json5`: its `actions` (none when it has
/// no `actions` array; an action that is not a string is none), with the
/// value it came from.
#[derive(Debug)]
pub struct Skill<T> {
    pub actions: Option<Vec<Option<String>>>,
    pub value: T,
}

/// The action of a deep-link skill.
pub open spec fn view_data_action() -> Seq<char> {
    "ohos.want.action.viewData"@
}

/// Whether a list of actions makes a skill a deep-link one: one of them is
/// `ohos.want.action.viewData`.
pub open spec fn has_view_data(actions: Option<Vec<Option<String>>>) -> bool {
    match actions {
        Some(a) => exists|i: int| 0 <= i < a@.len() && #[trigger] is_view_data(a@[i]),
        None => false,
    }
}

/// Whether an action is `ohos.want.action.viewData`.
pub open spec fn is_view_data(action: Option<String>) -> bool {
    action matches Some(x) && x@ == view_data_action()
}

/// Whether a skill is a deep-link one.
pub open spec fn is_deep_link<T>(s: Skill<T>) -> bool {
    has_view_data(s.actions)
}

/// The skills after a merge: those of `existing` that are not deep-link
/// ones, in order, then `new_skills`.
pub open spec fn merged_skills<T>(existing: Seq<Skill<T>>, new_skills: Seq<Skill<T>>) -> Seq<
    Skill<T>,
> {
    existing.filter(|s: Skill<T>| !is_deep_link(s)) + new_skills
}

/// Whether a list of actions holds `ohos.want.action.viewData`.
fn actions_have_view_data(actions: &Option<Vec<Option<String>>>) -> (r: bool)
    ensures
        r == has_view_data(*actions),
{
    match actions {
        Some(a) => {
            let mut i: usize = 0;
            while i < a.len()
                invariant
                    *actions == Some(*a),
                    i <= a@.len(),
                    forall|k: int| 0 <= k < i ==> !#[trigger] is_view_data(a@[k]),
                decreases a.len() - i,
            {
                match &a[i] {
                    Some(x) => {
                        if str_eq(x.as_str(), "ohos.want.action.viewData") {
                            assert(is_view_data(a@[i as int]));
                            assert(actions->0@ == a@);
                            return true;
                        }
                    },
                    None => {},
                }
                i = i + 1;
            }
            false
        },
        None => false,
    }
}

/// Whether a skill is a deep-link one.
pub fn skill_is_deep_link<T>(s: &Skill<T>) -> (r: bool)
    ensures
        r == is_deep_link(*s),
{
    actions_have_view_data(&s.actions)
}

/// The skills of the first ability after the deep-link skills are injected:
/// the existing deep-link skills are dropped, the others kept in order, and
/// the new skills appended.
pub fn update_ohos_module_json<T>(existing: Vec<Skill<T>>, new_skills: Vec<Skill<T>>) -> (r: Vec<Skill<T>>)
    ensures
        r@ == merged_skills(existing@, new_skills@),
{
    let ghost all = existing@;
    assert(all.len() == existing.len());
    let mut rest = existing;
    let mut out: Vec<Skill<T>> = Vec::new();
    let mut i: usize = 0;
    while rest.len() > 0
        invariant
            i + rest@.len() == all.len(),
            all.len() <= usize::MAX,
            rest@ == all.subrange(i as int, all.len() as int),
            out@ == all.subrange(0, i as int).filter(|s: Skill<T>| !is_deep_link(s)),
        decreases rest@.len(),
    {
        let ghost pre = all.subrange(0, i + 1);
        assert(pre.drop_last() =~= all.subrange(0, i as int));
        let s = rest.remove(0);
        assert(pre.last() == s);
        reveal_with_fuel(Seq::filter, 1);
        if !skill_is_deep_link(&s) {
            out.push(s);
        }
        i = i + 1;
        assert(rest@ =~= all.subrange(i as int, all.len() as int));
    }
    assert(all.subrange(0, all.len() as int) =~= all);
    let mut new_rest = new_skills;
    let ghost kept = out@;
    out.append(&mut new_rest);
    out
}

/// Injecting the same deep-link skills again changes nothing: when every
/// new skill is a deep-link one, merging into an already merged list gives
/// that list.
pub proof fn lemma_merge_skills_idempotent<T>(existing: Seq<Skill<T>>, new_skills: Seq<Skill<T>>)
    requires
        forall|i: int| 0 <= i < new_skills.len() ==> is_deep_link(#[trigger] new_skills[i]),
    ensures
        merged_skills(merged_skills(existing, new_skills), new_skills) == merged_skills(
            existing,
            new_skills,
        ),
{
    let p = |s: Skill<T>| !is_deep_link(s);
    let kept = existing.filter(p);
    assert(merged_skills(existing, new_skills) == kept + new_skills);
    lemma_filter_all_kept(existing, p);
    lemma_filter_none_kept(new_skills, p);
    Seq::filter_distributes_over_add(kept, new_skills, p);
    assert((kept + new_skills).filter(p) == kept.filter(p) + new_skills.filter(p));
    assert(kept.filter(p) == kept);
    assert(kept + Seq::<Skill<T>>::empty() =~= kept);
    assert(merged_skills(kept + new_skills, new_skills) == (kept + new_skills).filter(p)
        + new_skills);
}

/// Injecting deep-link skills keeps every other skill (such as the home
/// entry skill), and every new skill ends up in the list.
pub proof fn lemma_update_keeps_other_skills<T>(existing: Seq<Skill<T>>, new_skills: Seq<Skill<T>>)
    ensures
        forall|i: int|
            0 <= i < existing.len() && !is_deep_link(#[trigger] existing[i]) ==> merged_skills(
                existing,
                new_skills,
            ).contains(existing[i]),
        forall|i: int|
            0 <= i < new_skills.len() ==> merged_skills(existing, new_skills).contains(
                #[trigger] new_skills[i],
            ),
{
    let p = |s: Skill<T>| !is_deep_link(s);
    let kept = existing.filter(p);
    let m = merged_skills(existing, new_skills);
    assert forall|i: int| 0 <= i < existing.len() && !is_deep_link(#[trigger] existing[i]) implies m.contains(
        existing[i],
    ) by {
        existing.lemma_filter_contains(p, i);
        let j = choose|j: int| 0 <= j < kept.len() && kept[j] == existing[i];
        assert(m[j] == kept[j]);
    }
    assert forall|i: int| 0 <= i < new_skills.len() implies m.contains(#[trigger] new_skills[i]) by {
        assert(m[kept.len() + i] == new_skills[i]);
    }
}

proof fn lemma_filter_all_kept<A>(s: Seq<A>, p: spec_fn(A) -> bool)
    ensures
        s.filter(p).filter(p) == s.filter(p),
{
    let f = s.filter(p);
    assert forall|i: int| 0 <= i < f.len() implies p(#[trigger] f[i]) by {
        s.lemma_filter_pred(p, i);
    }
    lemma_filter_identity(f, p);
}

proof fn lemma_filter_identity<A>(s: Seq<A>, p: spec_fn(A) -> bool)
    requires
        forall|i: int| 0 <= i < s.len() ==> p(#[trigger] s[i]),
    ensures
        s.filter(p) == s,
    decreases s.len(),
{
    reveal_with_fuel(Seq::filter, 1);
    if s.len() > 0 {
        lemma_filter_identity(s.drop_last(), p);
        assert(s.drop_last().push(s.last()) =~= s);
    } else {
        assert(s.filter(p) =~= s);
    }
}

proof fn lemma_filter_none_kept<A>(s: Seq<A>, p: spec_fn(A) -> bool)
    requires
        forall|i: int| 0 <= i < s.len() ==> !p(#[trigger] s[i]),
    ensures
        s.filter(p) == Seq::<A>::empty(),
    decreases s.len(),
{
    reveal_with_fuel(Seq::filter, 1);
    if s.len() > 0 {
        lemma_filter_none_kept(s.drop_last(), p);
    } else {
        assert(s.filter(p) =~= Seq::<A>::empty());
    }
}

/// The iOS project directory of an application: `<app>_iOS` under the
/// project path.
pub open spec fn ios_app_dir(project: Seq<char>, app_name: Seq<char>) -> Seq<char> {
    path_join(project, app_name + "_iOS"@)
}

/// The iOS project directory of an application.
fn ios_app_dir_of(project: &str, app_name: &str) -> (r: String)
    ensures
        r@ == ios_app_dir(project@, app_name@),
{
    let mut dir = app_name.to_owned();
    dir.append("_iOS");
    join_path(project, dir.as_str())
}

/// The entitlements file of an iOS project that a plugin edits:
/// `<app>_iOS/<app>_iOS.entitlements` under the iOS project path, and none
/// unless both the project path and the application name are set.
pub fn update_entitlements(project: Option<&str>, app_name: Option<&str>) -> (r: Option<String>)
    ensures
        r is Some <==> project is Some && app_name is Some,
        r matches Some(p) ==> p@ == path_join(
            ios_app_dir(project.unwrap()@, app_name.unwrap()@),
            app_name.unwrap()@ + "_iOS.entitlements"@,
        ),
{
    match (project, app_name) {
        (Some(p), Some(a)) => {
            let dir = ios_app_dir_of(p, a);
            let mut file = a.to_owned();
            file.append("_iOS.entitlements");
            Some(join_path(dir.as_str(), file.as_str()))
        },
        _ => None,
    }
}

/// The `Info.plist` of an iOS project that a plugin edits: `<app>_iOS/Info.plist`
/// under the iOS project path, and none unless both the project path and the
/// application name are set.
pub fn update_info_plist(project: Option<&str>, app_name: Option<&str>) -> (r: Option<String>)
    ensures
        r is Some <==> project is Some && app_name is Some,
        r matches Some(p) ==> p@ == path_join(
            ios_app_dir(project.unwrap()@, app_name.unwrap()@),
            "Info.plist"@,
        ),
{
    match (project, app_name) {
        (Some(p), Some(a)) => {
            let dir = ios_app_dir_of(p, a);
            Some(join_path(dir.as_str(), "Info.plist"))
        },
        _ => None,
    }
}

/// The `module.json5` of the entry module of a device form, whose
/// `deviceTypes` `write_entry_device_types` replaces.
pub fn entry_module_json(project_dir: &str, form: &str) -> (r: String)
    ensures
        r@ == path_join(project_dir@, "entry_"@ + form@ + "/src/main/module.json5"@),
{
    let mut rel = "entry_".to_owned();
    rel.append(form);
    rel.append("/src/main/module.json5");
    join_path(project_dir, rel.as_str())
}

/// What `setup` decides for a plugin's build: whether it is a mobile build
/// (the `mobile` and `desktop` cfg aliases follow), and the library copy to
/// make, if any.
#[derive(Debug)]
pub struct SetupPlan {
    pub mobile: bool,
    pub copy: Option<LibraryCopy>,
}

/// The decisions of a plugin build script's `setup`, as `is_mobile_target`
/// and `library_copy` state them.
pub fn setup(
    target_os: &str,
    target_env: &str,
    device_type: Option<&str>,
    macos_host: bool,
    manifest_dir: &str,
    android_path: Option<&str>,
    ios_path: Option<&str>,
    ohos_path: Option<&str>,
) -> (r: SetupPlan)
    requires
        target_os@ == "ios"@ && macos_host ==> (ios_path matches Some(p) ==> path_parent(
            p@,
        ) is Some),
    ensures
        r.mobile == is_mobile_of(target_os@, target_env@, device_type.deep_view()),
        r.copy is Some <==> library_copy_of(
            target_os@,
            target_env@,
            macos_host,
            manifest_dir@,
            android_path.deep_view(),
            ios_path.deep_view(),
            ohos_path.deep_view(),
        ) is Some,
        r.copy matches Some(c) ==> Some(library_copy_view(c)) == library_copy_of(
            target_os@,
            target_env@,
            macos_host,
            manifest_dir@,
            android_path.deep_view(),
            ios_path.deep_view(),
            ohos_path.deep_view(),
        ),
{
    let mobile = is_mobile_target(target_os, target_env, device_type);
    let copy = library_copy(target_os, target_env, macos_host, manifest_dir, android_path, ios_path, ohos_path);
    SetupPlan { mobile, copy }
}


// ------------------------------------------------------------------
// The entry module's module.json5
// ------------------------------------------------------------------

/// Whether a skill object is a deep-link one: its `actions` array holds the
/// string `ohos.want.action.viewData`.
pub open spec fn is_deep_link_json(s: Json) -> bool {
    match member(s, "actions"@) {
        Some(Json::Array(a)) => exists|i: int| 0 <= i < a.len() && a[i] == Json::Str(view_data_action()),
        _ => false,
    }
}

/// The skills of the first ability of a `module.json5` document, when its
/// `module.abilities` is an array whose first element is an object: its
/// `skills` array, or none yet when it has no `skills`; no place for skills
/// when any of these is missing or `skills` is not an array.
pub open spec fn skills_slot(doc: Json) -> Option<Seq<Json>> {
    match doc {
        Json::Object(f) => match field(f, "module"@) {
            Some(Json::Object(mf)) => match field(mf, "abilities"@) {
                Some(Json::Array(abs)) => if abs.len() > 0 {
                    match abs[0] {
                        Json::Object(af) => match field(af, "skills"@) {
                            Some(Json::Array(ex)) => Some(ex),
                            None => Some(Seq::empty()),
                            _ => None,
                        },
                        _ => None,
                    }
                } else {
                    None
                },
                _ => None,
            },
            _ => None,
        },
        _ => None,
    }
}

/// The skills handed to the build script: the elements of an array, none
/// otherwise.
pub open spec fn new_skill_values(skills: Json) -> Seq<Json> {
    match skills {
        Json::Array(n) => n,
        _ => Seq::empty(),
    }
}

/// The skills after the injection: the existing ones that are not deep-link
/// ones, in order, then the new ones.
pub open spec fn merged_skill_values(ex: Seq<Json>, skills: Json) -> Seq<Json> {
    ex.filter(|s: Json| !is_deep_link_json(s)) + new_skill_values(skills)
}

/// The `module.json5` document after the deep-link skills are injected:
/// where the first ability has a place for skills, its `skills` array
/// becomes the merged skills (added when it was missing) and everything else
/// stays; otherwise the document is unchanged.
pub open spec fn module_json_edited(doc: Json, skills: Json) -> Json {
    match skills_slot(doc) {
        None => doc,
        Some(ex) => match doc {
            Json::Object(f) => match field(f, "module"@) {
                Some(Json::Object(mf)) => match field(mf, "abilities"@) {
                    Some(Json::Array(abs)) => match abs[0] {
                        Json::Object(af) => Json::Object(
                            with_field(
                                f,
                                "module"@,
                                Json::Object(
                                    with_field(
                                        mf,
                                        "abilities"@,
                                        Json::Array(
                                            abs.update(
                                                0,
                                                Json::Object(
                                                    with_field(
                                                        af,
                                                        "skills"@,
                                                        Json::Array(merged_skill_values(ex, skills)),
                                                    ),
                                                ),
                                            ),
                                        ),
                                    ),
                                ),
                            ),
                        ),
                        _ => doc,
                    },
                    _ => doc,
                },
                _ => doc,
            },
            _ => doc,
        },
    }
}

/// The actions of a skill object, each a string or none, when it has an
/// `actions` array; they make it a deep-link skill as `is_deep_link_json`
/// says.
fn skill_actions(v: &JsonValue) -> (r: Option<Vec<Option<String>>>)
    ensures
        has_view_data(r) == is_deep_link_json(v@),
{
    match v {
        JsonValue::Object(f) => {
            proof {
                lemma_object_view(*f);
            }
            match find_field(f, "actions") {
                None => None,
                Some(i) => {
                    assert(fields_view(f@)[i as int].1 == json_view(f@[i as int].1));
                    match &f[i].1 {
                        JsonValue::Array(a) => {
                            proof {
                                lemma_array_view(*a);
                            }
                            let ghost ev = elems_view(a@);
                            let mut out: Vec<Option<String>> = Vec::new();
                            let mut k: usize = 0;
                            while k < a.len()
                                invariant
                                    ev == elems_view(a@),
                                    k <= a@.len(),
                                    out@.len() == k,
                                    forall|q: int|
                                        0 <= q < k ==> (#[trigger] is_view_data(out@[q]) <==> ev[q]
                                            == Json::Str(view_data_action())),
                                decreases a.len() - k,
                            {
                                assert(ev[k as int] == json_view(a@[k as int]));
                                let x = match &a[k] {
                                    JsonValue::Str(s) => Some(s.clone()),
                                    _ => None,
                                };
                                out.push(x);
                                k = k + 1;
                            }
                            let r = Some(out);
                            proof {
                                if has_view_data(r) {
                                    let w = choose|w: int|
                                        0 <= w < out@.len() && #[trigger] is_view_data(out@[w]);
                                    assert(ev[w] == Json::Str(view_data_action()));
                                }
                                if is_deep_link_json(v@) {
                                    let w = choose|w: int|
                                        0 <= w < ev.len() && ev[w] == Json::Str(view_data_action());
                                    assert(is_view_data(out@[w]));
                                }
                            }
                            r
                        },
                        _ => None,
                    }
                },
            }
        },
        _ => None,
    }
}

/// Skill objects as skills, in order, each with its actions.
fn skills_from(values: Vec<JsonValue>) -> (r: Vec<Skill<JsonValue>>)
    ensures
        r@.map_values(|s: Skill<JsonValue>| json_view(s.value)) == elems_view(values@),
        forall|i: int|
            0 <= i < r@.len() ==> is_deep_link(#[trigger] r@[i]) == is_deep_link_json(
                json_view(r@[i].value),
            ),
{
    let ghost orig = values@;
    let n = values.len();
    let mut rest = values;
    let mut out: Vec<Skill<JsonValue>> = Vec::new();
    let mut j: usize = 0;
    while j < n
        invariant
            n == orig.len(),
            j <= n,
            rest@ == orig.subrange(j as int, n as int),
            out@.map_values(|s: Skill<JsonValue>| json_view(s.value)) == elems_view(
                orig.subrange(0, j as int),
            ),
            forall|i: int|
                0 <= i < out@.len() ==> is_deep_link(#[trigger] out@[i]) == is_deep_link_json(
                    json_view(out@[i].value),
                ),
        decreases n - j,
    {
        let v = rest.remove(0);
        assert(v == orig[j as int]);
        let actions = skill_actions(&v);
        let ghost before = out@.map_values(|s: Skill<JsonValue>| json_view(s.value));
        out.push(Skill { actions, value: v });
        assert(out@.map_values(|s: Skill<JsonValue>| json_view(s.value)) =~= before.push(json_view(v)));
        assert(elems_view(orig.subrange(0, j + 1)) =~= elems_view(orig.subrange(0, j as int)).push(
            json_view(orig[j as int]),
        ));
        j = j + 1;
        assert(rest@ =~= orig.subrange(j as int, n as int));
    }
    assert(orig.subrange(0, n as int) =~= orig);
    out
}

/// The values of skills, in order.
fn skill_values(skills: Vec<Skill<JsonValue>>) -> (r: Vec<JsonValue>)
    ensures
        elems_view(r@) == skills@.map_values(|s: Skill<JsonValue>| json_view(s.value)),
{
    let ghost orig = skills@;
    let n = skills.len();
    let mut rest = skills;
    let mut out: Vec<JsonValue> = Vec::new();
    let mut j: usize = 0;
    while j < n
        invariant
            n == orig.len(),
            j <= n,
            rest@ == orig.subrange(j as int, n as int),
            elems_view(out@) == orig.subrange(0, j as int).map_values(
                |s: Skill<JsonValue>| json_view(s.value),
            ),
        decreases n - j,
    {
        let s = rest.remove(0);
        assert(s == orig[j as int]);
        let ghost before = elems_view(out@);
        out.push(s.value);
        assert(elems_view(out@) =~= before.push(json_view(orig[j as int].value)));
        assert(orig.subrange(0, j + 1).map_values(|s: Skill<JsonValue>| json_view(s.value))
            =~= before.push(json_view(orig[j as int].value)));
        j = j + 1;
        assert(rest@ =~= orig.subrange(j as int, n as int));
    }
    assert(orig.subrange(0, n as int) =~= orig);
    out
}

/// Keeping the skills that are not deep-link ones gives the same values
/// whether the skills or their values are filtered.
proof fn lemma_filter_skill_values(xs: Seq<Skill<JsonValue>>)
    requires
        forall|i: int|
            0 <= i < xs.len() ==> is_deep_link(#[trigger] xs[i]) == is_deep_link_json(
                json_view(xs[i].value),
            ),
    ensures
        xs.filter(|s: Skill<JsonValue>| !is_deep_link(s)).map_values(
            |s: Skill<JsonValue>| json_view(s.value),
        ) == xs.map_values(|s: Skill<JsonValue>| json_view(s.value)).filter(
            |j: Json| !is_deep_link_json(j),
        ),
    decreases xs.len(),
{
    reveal_with_fuel(Seq::filter, 1);
    if xs.len() > 0 {
        let p = xs.drop_last();
        assert forall|i: int| 0 <= i < p.len() implies is_deep_link(#[trigger] p[i])
            == is_deep_link_json(json_view(p[i].value)) by {
            assert(p[i] == xs[i]);
        }
        lemma_filter_skill_values(p);
        let vs = xs.map_values(|s: Skill<JsonValue>| json_view(s.value));
        assert(vs.drop_last() =~= p.map_values(|s: Skill<JsonValue>| json_view(s.value)));
        assert(is_deep_link(xs[xs.len() - 1]) == is_deep_link_json(json_view(xs.last().value)));
        let fs = p.filter(|s: Skill<JsonValue>| !is_deep_link(s));
        assert(fs.push(xs.last()).map_values(|s: Skill<JsonValue>| json_view(s.value)) =~= fs.map_values(
            |s: Skill<JsonValue>| json_view(s.value),
        ).push(json_view(xs.last().value)));
    } else {
        assert(xs.map_values(|s: Skill<JsonValue>| json_view(s.value)) =~= Seq::<Json>::empty());
        assert(xs.filter(|s: Skill<JsonValue>| !is_deep_link(s)) =~= Seq::<Skill<JsonValue>>::empty());
    }
}

/// The merged skill values: the existing skills merged with the new ones by
/// `update_ohos_module_json`.
fn merge_skill_values(existing: Vec<JsonValue>, skills: JsonValue) -> (r: Vec<JsonValue>)
    ensures
        elems_view(r@) == merged_skill_values(elems_view(existing@), skills@),
{
    let ghost ex = elems_view(existing@);
    let ghost sv = skills@;
    let xs = skills_from(existing);
    let ns = match skills {
        JsonValue::Array(n) => {
            proof {
                lemma_array_view(n);
            }
            skills_from(n)
        },
        _ => Vec::new(),
    };
    assert(ns@.map_values(|s: Skill<JsonValue>| json_view(s.value)) =~= new_skill_values(sv));
    let ghost xv = xs@;
    let ghost nv = ns@;
    proof {
        lemma_filter_skill_values(xv);
    }
    let merged = update_ohos_module_json(xs, ns);
    let out = skill_values(merged);
    assert(merged_skills(xv, nv).map_values(|s: Skill<JsonValue>| json_view(s.value)) =~= xv.filter(
        |s: Skill<JsonValue>| !is_deep_link(s),
    ).map_values(|s: Skill<JsonValue>| json_view(s.value)) + nv.map_values(
        |s: Skill<JsonValue>| json_view(s.value),
    ));
    out
}

/// Whether the first ability of a `module.json5` document has a place for
/// skills.
fn has_skills_slot(doc: &JsonValue) -> (r: bool)
    ensures
        r == skills_slot(doc@) is Some,
{
    match doc {
        JsonValue::Object(f) => {
            proof {
                lemma_object_view(*f);
            }
            match find_field(f, "module") {
                None => false,
                Some(i) => {
                    assert(fields_view(f@)[i as int].1 == json_view(f@[i as int].1));
                    match &f[i].1 {
                        JsonValue::Object(mf) => {
                            proof {
                                lemma_object_view(*mf);
                            }
                            match find_field(mf, "abilities") {
                                None => false,
                                Some(j) => {
                                    assert(fields_view(mf@)[j as int].1 == json_view(mf@[j as int].1));
                                    match &mf[j].1 {
                                        JsonValue::Array(abs) => {
                                            proof {
                                                lemma_array_view(*abs);
                                            }
                                            if abs.len() == 0 {
                                                false
                                            } else {
                                                assert(elems_view(abs@)[0] == json_view(abs@[0]));
                                                match &abs[0] {
                                                    JsonValue::Object(af) => {
                                                        proof {
                                                            lemma_object_view(*af);
                                                        }
                                                        match find_field(af, "skills") {
                                                            None => true,
                                                            Some(k) => {
                                                                assert(fields_view(af@)[k as int].1
                                                                    == json_view(af@[k as int].1));
                                                                match &af[k].1 {
                                                                    JsonValue::Array(_) => true,
                                                                    _ => false,
                                                                }
                                                            },
                                                        }
                                                    },
                                                    _ => false,
                                                }
                                            }
                                        },
                                        _ => false,
                                    }
                                },
                            }
                        },
                        _ => false,
                    }
                },
            }
        },
        _ => false,
    }
}

/// Injects deep-link skills into the text of an entry module's
/// `module.json5`: the first ability's existing deep-link skills are
/// dropped and the new ones appended, as `module_json_edited` says; none
/// when the text is no JSON5 document. The result is the new text,
/// pretty-printed.
pub fn update_module_json_text(content: &str, skills: JsonValue) -> (r: Option<String>)
    ensures
        match json5_document(content@) {
            None => r is None,
            Some(doc) => r matches Some(t) && t@ == json_pretty(module_json_edited(doc, skills@)),
        },
{
    let ghost sv = skills@;
    let doc = match parse_json5(content) {
        Some(d) => d,
        None => {
            return None;
        },
    };
    let ghost d0 = doc@;
    if !has_skills_slot(&doc) {
        return Some(pretty_json(&doc));
    }
    let mut fields = match doc {
        JsonValue::Object(f) => f,
        _ => {
            return None;
        },
    };
    let ghost fv0 = fields_view(fields@);
    proof {
        lemma_object_view(fields);
    }
    let (i, mv) = match take_field(&mut fields, "module") {
        Some(x) => x,
        None => {
            return None;
        },
    };
    let mut mf = match mv {
        JsonValue::Object(m) => m,
        _ => {
            return None;
        },
    };
    let ghost mfv0 = fields_view(mf@);
    proof {
        lemma_object_view(mf);
    }
    let (j, av) = match take_field(&mut mf, "abilities") {
        Some(x) => x,
        None => {
            return None;
        },
    };
    let mut abs = match av {
        JsonValue::Array(a) => a,
        _ => {
            return None;
        },
    };
    proof {
        lemma_array_view(abs);
    }
    let ghost absv0 = elems_view(abs@);
    if abs.len() == 0 {
        return None;
    }
    let a0 = abs.remove(0);
    assert(absv0[0] == json_view(a0));
    let mut af = match a0 {
        JsonValue::Object(x) => x,
        _ => {
            return None;
        },
    };
    let ghost afv0 = fields_view(af@);
    proof {
        lemma_object_view(af);
    }
    let existing: Vec<JsonValue> = match take_field(&mut af, "skills") {
        Some((k, sk)) => {
            proof {
                lemma_take_then_set(
                    afv0,
                    "skills"@,
                    k as int,
                    Json::Array(merged_skill_values(skills_slot(d0)->0, sv)),
                );
            }
            match sk {
                JsonValue::Array(e) => {
                    proof {
                        lemma_array_view(e);
                    }
                    e
                },
                _ => {
                    return None;
                },
            }
        },
        None => Vec::new(),
    };
    assert(elems_view(existing@) == skills_slot(d0)->0);
    let merged = merge_skill_values(existing, skills);
    proof {
        lemma_array_view(merged);
    }
    set_field(&mut af, "skills".to_owned(), JsonValue::Array(merged));
    proof {
        lemma_object_view(af);
    }
    let ghost new_af = json_view(JsonValue::Object(af));
    abs.insert(0, JsonValue::Object(af));
    assert(elems_view(abs@) =~= absv0.update(0, new_af));
    proof {
        lemma_array_view(abs);
        lemma_take_then_set(mfv0, "abilities"@, j as int, Json::Array(absv0.update(0, new_af)));
    }
    set_field(&mut mf, "abilities".to_owned(), JsonValue::Array(abs));
    proof {
        lemma_object_view(mf);
        lemma_take_then_set(fv0, "module"@, i as int, json_view(JsonValue::Object(mf)));
    }
    set_field(&mut fields, "module".to_owned(), JsonValue::Object(mf));
    proof {
        lemma_object_view(fields);
    }
    let res = JsonValue::Object(fields);
    Some(pretty_json(&res))
}


/// Injecting the same deep-link skills into a `module.json5` document a
/// second time gives the same document: the first injection's deep-link
/// skills are dropped and the same ones appended again.
pub proof fn lemma_module_json_edit_idempotent(doc: Json, skills: Json)
    requires
        forall|i: int|
            0 <= i < new_skill_values(skills).len() ==> is_deep_link_json(
                #[trigger] new_skill_values(skills)[i],
            ),
    ensures
        module_json_edited(module_json_edited(doc, skills), skills) == module_json_edited(doc, skills),
{
    if let Some(ex) = skills_slot(doc) {
        let f = doc->Object_0;
        let mf = field(f, "module"@)->0->Object_0;
        let abs = field(mf, "abilities"@)->0->Array_0;
        let af = abs[0]->Object_0;
        let m = merged_skill_values(ex, skills);
        let af2 = with_field(af, "skills"@, Json::Array(m));
        let abs2 = abs.update(0, Json::Object(af2));
        let mf2 = with_field(mf, "abilities"@, Json::Array(abs2));
        let f2 = with_field(f, "module"@, Json::Object(mf2));
        lemma_with_field_get(f, "module"@, Json::Object(mf2));
        lemma_with_field_get(mf, "abilities"@, Json::Array(abs2));
        lemma_with_field_get(af, "skills"@, Json::Array(m));
        assert(skills_slot(Json::Object(f2)) == Some(m));
        let p = |s: Json| !is_deep_link_json(s);
        let kept = ex.filter(p);
        let n = new_skill_values(skills);
        lemma_filter_all_kept(ex, p);
        lemma_filter_none_kept(n, p);
        Seq::filter_distributes_over_add(kept, n, p);
        assert(kept + Seq::<Json>::empty() =~= kept);
        assert(merged_skill_values(m, skills) == m);
        lemma_with_field_twice(af, "skills"@, Json::Array(m));
        assert(abs2.update(0, Json::Object(af2)) =~= abs2);
        lemma_with_field_twice(mf, "abilities"@, Json::Array(abs2));
        lemma_with_field_twice(f, "module"@, Json::Object(mf2));
    }
}

} // verus!

