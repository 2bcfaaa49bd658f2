//! Copying a plugin's HAR module into the OpenHarmony project: where it
//! goes, which of its entries may be copied, and how its manifests are
//! rewritten for their new place.
use vstd::prelude::*;
use vstd::string::*;
use crate::path::{join_path, path_join};
use crate::plugins::{
    plugin_name_result, validate_plugin_name, is_builtin_har, PluginError, PluginMeta,
};
use crate::text::{
    has_infix, has_prefix, contains, replace, replace_all, split_chars, split_on, starts_with,
    str_eq, string_of, to_chars,
};

verus! {

/// What a component of a relative path is wrong with: it is `..`, or it
/// holds `..` or `\`.
#[derive(Debug)]
pub enum ComponentIssue {
    ParentDir,
    Unsafe,
}

/// The issue of one `/`-separated piece of a relative path; empty pieces and
/// `.` are no components and have none.
pub open spec fn component_issue(seg: Seq<char>) -> Option<ComponentIssue> {
    if seg.len() == 0 || seg == "."@ {
        None
    } else if seg == ".."@ {
        Some(ComponentIssue::ParentDir)
    } else if has_infix(seg, ".."@) || seg.contains('\\') {
        Some(ComponentIssue::Unsafe)
    } else {
        None
    }
}

/// The first component, in order, that has an issue, with that issue.
pub open spec fn first_issue(segs: Seq<Seq<char>>) -> Option<(ComponentIssue, Seq<char>)>
    decreases segs.len(),
{
    if segs.len() == 0 {
        None
    } else {
        match component_issue(segs[0]) {
            Some(issue) => Some((issue, segs[0])),
            None => first_issue(segs.drop_first()),
        }
    }
}

/// Whether `r` is the verdict that `verify_relative_path_safe` owes for
/// `rel`: a path from the root is refused first, then the first component
/// that is `..` or holds `..` or `\`.
pub open spec fn path_safety(rel: Seq<char>, r: Result<(), PluginError>) -> bool {
    if rel.len() > 0 && rel[0] == '/' {
        r == Err::<(), PluginError>(PluginError::AbsolutePath)
    } else {
        match first_issue(split_on(rel, '/')) {
            None => r is Ok,
            Some((ComponentIssue::ParentDir, _)) => r == Err::<(), PluginError>(
                PluginError::ParentTraversal,
            ),
            Some((ComponentIssue::Unsafe, seg)) => r matches Err(
                PluginError::UnsafeComponent { component },
            ) && component@ == seg,
        }
    }
}

fn component_issue_of(seg: &[char]) -> (r: Option<ComponentIssue>)
    ensures
        r == component_issue(seg@),
{
    let s = string_of(seg);
    if seg.len() == 0 || str_eq(s.as_str(), ".") {
        return None;
    }
    if str_eq(s.as_str(), "..") {
        return Some(ComponentIssue::ParentDir);
    }
    if contains(s.as_str(), "..") {
        return Some(ComponentIssue::Unsafe);
    }
    let mut i: usize = 0;
    while i < seg.len()
        invariant
            i <= seg@.len(),
            seg@.len() > 0,
            seg@ != "."@,
            seg@ != ".."@,
            !has_infix(seg@, ".."@),
            forall|k: int| 0 <= k < i ==> seg@[k] != '\\',
        decreases seg.len() - i,
    {
        if seg[i] == '\\' {
            assert(seg@.contains('\\'));
            return Some(ComponentIssue::Unsafe);
        }
        i = i + 1;
    }
    None
}

/// Checks that a path relative to a HAR's root stays inside it: it must not
/// start at the root, and no component may be `..` or hold `..` or `\`.
pub fn verify_relative_path_safe(relative: &str) -> (r: Result<(), PluginError>)
    ensures
        path_safety(relative@, r),
{
    let chars = to_chars(relative);
    if chars.len() > 0 && chars[0] == '/' {
        return Err(PluginError::AbsolutePath);
    }
    let segs = split_chars(chars.as_slice(), '/');
    let ghost all = segs.deep_view();
    let mut i: usize = 0;
    assert(all.subrange(0, all.len() as int) =~= all);
    while i < segs.len()
        invariant
            all == segs.deep_view(),
            all == split_on(relative@, '/'),
            !(relative@.len() > 0 && relative@[0] == '/'),
            i <= all.len(),
            first_issue(all) == first_issue(all.subrange(i as int, all.len() as int)),
        decreases segs.len() - i,
    {
        let ghost rest = all.subrange(i as int, all.len() as int);
        assert(rest[0] == segs@[i as int]@);
        assert(rest.drop_first() =~= all.subrange(i + 1, all.len() as int));
        match component_issue_of(segs[i].as_slice()) {
            Some(ComponentIssue::ParentDir) => {
                return Err(PluginError::ParentTraversal);
            },
            Some(ComponentIssue::Unsafe) => {
                return Err(
                    PluginError::UnsafeComponent { component: string_of(segs[i].as_slice()) },
                );
            },
            None => {},
        }
        i = i + 1;
    }
    Ok(())
}

/// Checks that a destination path lies under the plugin directory, by its
/// text: `dest_root` must be a prefix of `dest_path`.
pub fn verify_path_within_destination(dest_path: &str, dest_root: &str) -> (r: Result<
    (),
    PluginError,
>)
    ensures
        r is Ok <==> has_prefix(dest_path@, dest_root@),
        r matches Err(PluginError::OutsideDestination { path, root }) ==> path@ == dest_path@
            && root@ == dest_root@,
        r is Err ==> r matches Err(PluginError::OutsideDestination { .. }),
{
    if !starts_with(dest_path, dest_root) {
        return Err(
            PluginError::OutsideDestination {
                path: dest_path.to_owned(),
                root: dest_root.to_owned(),
            },
        );
    }
    Ok(())
}

/// The last component of `p` named like a file: its last `/`-separated piece
/// that is neither empty nor `.`.
pub open spec fn last_named_piece(segs: Seq<Seq<char>>) -> Option<Seq<char>>
    decreases segs.len(),
{
    if segs.len() == 0 {
        None
    } else if segs.last().len() > 0 && segs.last() != "."@ {
        Some(segs.last())
    } else {
        last_named_piece(segs.drop_last())
    }
}

/// Whether the last component of the path `p` is `name`, as
/// `Path::ends_with` decides it for a one-component `name`.
pub open spec fn path_ends_with_name(p: Seq<char>, name: Seq<char>) -> bool {
    last_named_piece(split_on(p, '/')) == Some(name)
}

fn ends_with_name(p: &str, name: &str) -> (r: bool)
    ensures
        r == path_ends_with_name(p@, name@),
{
    let chars = to_chars(p);
    let segs = split_chars(chars.as_slice(), '/');
    let ghost all = segs.deep_view();
    let mut i: usize = segs.len();
    assert(all.subrange(0, all.len() as int) =~= all);
    while i > 0
        invariant
            all == segs.deep_view(),
            all == split_on(p@, '/'),
            i <= all.len(),
            last_named_piece(all) == last_named_piece(all.subrange(0, i as int)),
        decreases i,
    {
        let ghost pre = all.subrange(0, i as int);
        assert(pre.last() == segs@[i - 1]@);
        assert(pre.drop_last() =~= all.subrange(0, i - 1));
        let seg = string_of(segs[i - 1].as_slice());
        if segs[i - 1].len() > 0 && !str_eq(seg.as_str(), ".") {
            return str_eq(seg.as_str(), name);
        }
        i = i - 1;
    }
    false
}

/// Whether a copied file is a manifest whose paths must be rewritten: its
/// name is `oh-package.json5` or `build-profile.json5`.
pub open spec fn needs_path_adjust(relative: Seq<char>) -> bool {
    path_ends_with_name(relative, "oh-package.json5"@) || path_ends_with_name(
        relative,
        "build-profile.json5"@,
    )
}

/// What to do with one entry of a HAR being copied.
#[derive(Debug)]
pub enum HarEntryAction {
    /// Create the directory `dest`.
    CreateDir { dest: String },
    /// Copy the file to `dest`, and rewrite its paths when `adjust_paths`.
    CopyFile { dest: String, adjust_paths: bool },
}

/// `r` with its success value dropped.
pub open spec fn without_value<T>(r: Result<T, PluginError>) -> Result<(), PluginError> {
    match r {
        Ok(_) => Ok(()),
        Err(e) => Err(e),
    }
}

/// Whether `r` is what `plan_har_entry` owes for an entry at `relative`
/// (a directory when `is_dir`) copied into `plugin_dest`.
pub open spec fn har_entry_outcome(
    relative: Seq<char>,
    is_dir: bool,
    plugin_dest: Seq<char>,
    r: Result<HarEntryAction, PluginError>,
) -> bool {
    let dest = path_join(plugin_dest, relative);
    if !path_safety(relative, Ok(())) {
        path_safety(relative, without_value(r))
    } else if is_dir {
        r matches Ok(HarEntryAction::CreateDir { dest: d }) && d@ == dest
    } else if !has_prefix(dest, plugin_dest) {
        r matches Err(PluginError::OutsideDestination { path, root }) && path@ == dest && root@
            == plugin_dest
    } else {
        r matches Ok(HarEntryAction::CopyFile { dest: d, adjust_paths }) && d@ == dest
            && adjust_paths == needs_path_adjust(relative)
    }
}

/// Decides what to do with one entry of a HAR, found at `relative` below
/// the HAR's root: refuse it when its path is unsafe, create a directory
/// for it, or copy it into `plugin_dest` (refused when the destination falls
/// outside `plugin_dest`), rewriting the paths of its manifests.
pub fn plan_har_entry(relative: &str, is_dir: bool, plugin_dest: &str) -> (r: Result<
    HarEntryAction,
    PluginError,
>)
    ensures
        har_entry_outcome(relative@, is_dir, plugin_dest@, r),
{
    match verify_relative_path_safe(relative) {
        Err(e) => {
            return Err(e);
        },
        Ok(()) => {},
    }
    let dest = join_path(plugin_dest, relative);
    if is_dir {
        return Ok(HarEntryAction::CreateDir { dest });
    }
    match verify_path_within_destination(dest.as_str(), plugin_dest) {
        Err(e) => {
            return Err(e);
        },
        Ok(()) => {},
    }
    let adjust_paths = ends_with_name(relative, "oh-package.json5") || ends_with_name(
        relative,
        "build-profile.json5",
    );
    Ok(HarEntryAction::CopyFile { dest, adjust_paths })
}

/// The text of a copied manifest with its paths to the Tauri package
/// rewritten for the plugin's new place in the project.
pub open spec fn adjusted_paths(content: Seq<char>) -> Seq<char> {
    let a = replace_all(
        content,
        "\"@tauri/app\": \"file:../../../tauri\""@,
        "\"@tauri/app\": \"file:../tauri\""@,
    );
    let b = replace_all(a, "\"@tauri/app\": \"file:../../tauri\""@, "\"@tauri/app\": \"file:../tauri\""@);
    let c = replace_all(b, "../../../tauri"@, "../tauri"@);
    replace_all(c, "../../tauri"@, "../tauri"@)
}

/// Rewrites the relative paths to the Tauri package in a copied manifest
/// (`../../../tauri` and `../../tauri`, in dependency entries or alone) to
/// `../tauri`.
pub fn adjust_paths(content: &str) -> (r: String)
    ensures
        r@ == adjusted_paths(content@),
{
    proof {
        reveal_strlit("\"@tauri/app\": \"file:../../../tauri\"");
        reveal_strlit("\"@tauri/app\": \"file:../../tauri\"");
        reveal_strlit("../../../tauri");
        reveal_strlit("../../tauri");
    }
    let a = replace(
        content,
        "\"@tauri/app\": \"file:../../../tauri\"",
        "\"@tauri/app\": \"file:../tauri\"",
    );
    let b = replace(
        a.as_str(),
        "\"@tauri/app\": \"file:../../tauri\"",
        "\"@tauri/app\": \"file:../tauri\"",
    );
    let c = replace(b.as_str(), "../../../tauri", "../tauri");
    replace(c.as_str(), "../../tauri", "../tauri")
}

/// Where a plugin's HAR goes: nowhere for a built-in plugin (its module is
/// rendered from the templates at `dest`), else copied from `source` to
/// `dest`.
#[derive(Debug)]
pub enum HarCopy {
    Builtin { dest: String },
    Copy { source: String, dest: String },
}

/// Whether `r` is what `copy_plugin_har` owes for a plugin, the project
/// directory `dest_dir`, and the outcomes of canonicalizing that directory
/// and the plugin's HAR path.
pub open spec fn har_copy_outcome(
    meta: PluginMeta,
    dest_dir: Seq<char>,
    canonical_dest: Result<String, PluginError>,
    canonical_har: Result<String, PluginError>,
    r: Result<HarCopy, PluginError>,
) -> bool {
    if plugin_name_result(meta.name@) is Err {
        r == Err::<HarCopy, PluginError>(plugin_name_result(meta.name@)->Err_0)
    } else if is_builtin_har(meta.har_path@) {
        r matches Ok(HarCopy::Builtin { dest }) && dest@ == path_join(dest_dir, meta.name@)
    } else {
        match canonical_dest {
            Err(e) => r == Err::<HarCopy, PluginError>(e),
            Ok(d) => match canonical_har {
                Err(e) => r == Err::<HarCopy, PluginError>(e),
                Ok(h) => r matches Ok(HarCopy::Copy { source, dest }) && source@ == h@ && dest@
                    == path_join(d@, meta.name@),
            },
        }
    }
}

/// Decides where a plugin's HAR is copied: the name must be valid; a
/// built-in plugin is not copied; otherwise the canonical HAR goes to the
/// plugin's directory under the canonical project directory. The entries of
/// the HAR are then copied as `plan_har_entry` decides.
pub fn copy_plugin_har(
    meta: &PluginMeta,
    dest_dir: &str,
    canonical_dest: Result<String, PluginError>,
    canonical_har: Result<String, PluginError>,
) -> (r: Result<HarCopy, PluginError>)
    ensures
        har_copy_outcome(*meta, dest_dir@, canonical_dest, canonical_har, r),
{
    match validate_plugin_name(meta.name.as_str()) {
        Err(e) => {
            return Err(e);
        },
        Ok(()) => {},
    }
    if starts_with(meta.har_path.as_str(), "__builtin__") {
        return Ok(HarCopy::Builtin { dest: join_path(dest_dir, meta.name.as_str()) });
    }
    let d = match canonical_dest {
        Ok(d) => d,
        Err(e) => {
            return Err(e);
        },
    };
    let h = match canonical_har {
        Ok(h) => h,
        Err(e) => {
            return Err(e);
        },
    };
    let dest = join_path(d.as_str(), meta.name.as_str());
    Ok(HarCopy::Copy { source: h, dest })
}

/// Whether `copy_plugin_har` reads the canonical project directory and HAR
/// path of a plugin: only for a valid name of a plugin that is not built
/// in, so that nothing is looked up on disk for the others.
pub fn needs_canonical_paths(meta: &PluginMeta) -> (r: bool)
    ensures
        r == (plugin_name_result(meta.name@) is Ok && !is_builtin_har(meta.har_path@)),
{
    match validate_plugin_name(meta.name.as_str()) {
        Err(_) => false,
        Ok(()) => !starts_with(meta.har_path.as_str(), "__builtin__"),
    }
}

/// The plugin whose HAR is copied next, given how many plugins there are
/// and the outcomes of the copies made so far, in order: the next plugin
/// while every copy so far succeeded; none once all are copied or one
/// failed, so that copying stops at the first failure and the copies made
/// before it stay.
pub fn next_har_to_copy(plugin_count: usize, done: &Vec<Result<String, PluginError>>) -> (r: Option<
    usize,
>)
    ensures
        r matches Some(i) ==> i == done@.len(),
        r is Some <==> done@.len() < plugin_count && forall|k: int|
            0 <= k < done@.len() ==> (#[trigger] done@[k]) is Ok,
{
    let mut k: usize = 0;
    while k < done.len()
        invariant
            k <= done@.len(),
            forall|j: int| 0 <= j < k ==> (#[trigger] done@[j]) is Ok,
        decreases done.len() - k,
    {
        if done[k].is_err() {
            return None;
        }
        k = k + 1;
    }
    if done.len() < plugin_count {
        Some(done.len())
    } else {
        None
    }
}

/// Collects the outcomes of copying each plugin's HAR, in order: the
/// destinations when every copy succeeded, else the first error.
pub fn copy_all_plugin_hars(copied: Vec<Result<String, PluginError>>) -> (r: Result<
    Vec<String>,
    PluginError,
>)
    ensures
        r is Ok <==> forall|i: int| 0 <= i < copied@.len() ==> (#[trigger] copied@[i]) is Ok,
        r matches Ok(v) ==> v@.len() == copied@.len() && forall|i: int|
            0 <= i < copied@.len() ==> copied@[i] == Ok::<String, PluginError>(#[trigger] v@[i]),
        r matches Err(e) ==> exists|i: int|
            0 <= i < copied@.len() && (#[trigger] copied@[i]) == Err::<String, PluginError>(e)
                && forall|k: int| 0 <= k < i ==> copied@[k] is Ok,
{
    let ghost all = copied@;
    let mut rest = copied;
    let mut out: Vec<String> = Vec::new();
    let mut i: usize = 0;
    let n = rest.len();
    while i < n
        invariant
            all == copied@,
            n == all.len(),
            i <= n,
            rest@ == all.subrange(i as int, n as int),
            out@.len() == i,
            forall|k: int| 0 <= k < i ==> all[k] == Ok::<String, PluginError>(#[trigger] out@[k]),
        decreases n - i,
    {
        let c = rest.remove(0);
        assert(c == all[i as int]);
        assert(rest@ =~= all.subrange(i + 1, n as int));
        match c {
            Ok(p) => {
                out.push(p);
            },
            Err(e) => {
                proof {
                    assert forall|k: int| 0 <= k < i implies copied@[k] is Ok by {
                        assert(all[k] == Ok::<String, PluginError>(out@[k]));
                    }
                    assert(copied@[i as int] == Err::<String, PluginError>(e));
                }
                return Err(e);
            },
        }
        i = i + 1;
    }
    assert forall|k: int| 0 <= k < copied@.len() implies (#[trigger] copied@[k]) is Ok by {
        assert(all[k] == Ok::<String, PluginError>(out@[k]));
    }
    Ok(out)
}

proof fn lemma_no_issue_all(segs: Seq<Seq<char>>)
    requires
        first_issue(segs) is None,
    ensures
        forall|i: int| 0 <= i < segs.len() ==> component_issue(#[trigger] segs[i]) is None,
    decreases segs.len(),
{
    if segs.len() > 0 {
        lemma_no_issue_all(segs.drop_first());
        assert forall|i: int| 0 <= i < segs.len() implies component_issue(#[trigger] segs[i]) is None by {
            if i > 0 {
                assert(segs[i] == segs.drop_first()[i - 1]);
            }
        }
    }
}

/// A relative path that `verify_relative_path_safe` accepts stays inside the
/// directory it is joined onto: none of its components is `..`, and the
/// joined path passes `verify_path_within_destination` for that directory.
pub proof fn lemma_safe_path_stays_within(root: Seq<char>, rel: Seq<char>)
    requires
        path_safety(rel, Ok(())),
    ensures
        forall|i: int|
            0 <= i < split_on(rel, '/').len() ==> #[trigger] split_on(rel, '/')[i] != ".."@,
        has_prefix(crate::path::path_join(root, rel), root),
{
    lemma_no_issue_all(split_on(rel, '/'));
    assert forall|i: int| 0 <= i < split_on(rel, '/').len() implies #[trigger] split_on(
        rel,
        '/',
    )[i] != ".."@ by {
        reveal_strlit(".");
        reveal_strlit("..");
        assert(component_issue(split_on(rel, '/')[i]) is None);
    }
    let j = crate::path::path_join(root, rel);
    if root.len() > 0 {
        if root.last() == '/' {
            assert(j.subrange(0, root.len() as int) =~= root);
        } else {
            assert(j.subrange(0, root.len() as int) =~= root);
        }
    } else {
        assert(j.subrange(0, 0) =~= root);
    }
}

} // verus!
