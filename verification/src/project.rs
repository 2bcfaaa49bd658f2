//! What generating the DevEco Studio project decides: which Rust targets
//! still need installing, which template files the shared pass writes, the
//! data each entry module is rendered with, and the plugin list handed to
//! the templates.
use vstd::prelude::*;
use vstd::string::*;
use crate::plugins::PluginMeta;
use crate::text::{has_prefix, starts_with};

verus! {

/// The target triples among `all` that are not installed, in order.
pub open spec fn missing_targets_of(all: Seq<Seq<char>>, installed: Seq<Seq<char>>) -> Seq<
    Seq<char>,
> {
    all.filter(|t: Seq<char>| !installed.contains(t))
}

/// Whether `installed` holds `t`.
fn holds(installed: &Vec<String>, t: &str) -> (r: bool)
    ensures
        r == installed.deep_view().contains(t@),
{
    let ghost iv = installed.deep_view();
    let mut i: usize = 0;
    while i < installed.len()
        invariant
            iv == installed.deep_view(),
            i <= iv.len(),
            forall|k: int| 0 <= k < i ==> iv[k] != t@,
        decreases installed.len() - i,
    {
        if crate::text::str_eq(installed[i].as_str(), t) {
            assert(iv[i as int] == t@);
            return true;
        }
        i = i + 1;
    }
    false
}

/// The OpenHarmony target triples that rustup still has to install.
pub fn missing_targets(all: &Vec<String>, installed: &Vec<String>) -> (r: Vec<String>)
    ensures
        r.deep_view() == missing_targets_of(all.deep_view(), installed.deep_view()),
{
    let ghost av = all.deep_view();
    let ghost iv = installed.deep_view();
    let mut out: Vec<String> = Vec::new();
    let mut i: usize = 0;
    while i < all.len()
        invariant
            av == all.deep_view(),
            iv == installed.deep_view(),
            i <= av.len(),
            out.deep_view() == missing_targets_of(av.subrange(0, i as int), iv),
        decreases all.len() - i,
    {
        let t = &all[i];
        let ghost pre = av.subrange(0, i + 1);
        assert(pre.drop_last() =~= av.subrange(0, i as int));
        assert(pre.last() == t@);
        reveal_with_fuel(Seq::filter, 1);
        if !holds(installed, t.as_str()) {
            let ghost before = out.deep_view();
            out.push(t.clone());
            assert(out.deep_view() =~= before.push(t@));
        }
        i = i + 1;
    }
    assert(av.subrange(0, av.len() as int) =~= av);
    out
}

/// Whether a template file belongs to an entry module, which the shared
/// pass leaves to the per-module passes.
pub open spec fn is_entry_template(path: Seq<char>) -> bool {
    has_prefix(path, "entry_mobile/"@) || has_prefix(path, "entry_desktop/"@)
}

/// Whether the shared rendering pass skips a template file.
pub fn skip_entry_template(path: &str) -> (r: bool)
    ensures
        r == is_entry_template(path@),
{
    starts_with(path, "entry_mobile/") || starts_with(path, "entry_desktop/")
}

/// The data an entry module is rendered with.
#[derive(Debug)]
pub struct EntryRender {
    /// The template subtree and module: `entry_<form>`.
    pub module: String,
    /// The device form: `mobile` or `desktop`.
    pub form: String,
    /// The device types of that form, as the configuration lists them.
    pub device_types: String,
}

/// The entry modules rendered after the shared pass, in order:
/// `entry_mobile` with the mobile device types, then `entry_desktop` with
/// the desktop ones.
pub open spec fn entry_renders_of(mobile: Seq<char>, desktop: Seq<char>) -> Seq<
    (Seq<char>, Seq<char>, Seq<char>),
> {
    seq![("entry_mobile"@, "mobile"@, mobile), ("entry_desktop"@, "desktop"@, desktop)]
}

/// The view of an entry render.
pub open spec fn entry_render_view(e: EntryRender) -> (Seq<char>, Seq<char>, Seq<char>) {
    (e.module@, e.form@, e.device_types@)
}

/// The per-module rendering data of `gen`.
pub fn entry_renders(mobile_device_types: &str, desktop_device_types: &str) -> (r: Vec<
    EntryRender,
>)
    ensures
        r@.map_values(|e: EntryRender| entry_render_view(e)) == entry_renders_of(
            mobile_device_types@,
            desktop_device_types@,
        ),
{
    let mut v: Vec<EntryRender> = Vec::new();
    let mut m = "entry_".to_owned();
    m.append("mobile");
    let mut d = "entry_".to_owned();
    d.append("desktop");
    proof {
        reveal_strlit("entry_");
        reveal_strlit("mobile");
        reveal_strlit("desktop");
        reveal_strlit("entry_mobile");
        reveal_strlit("entry_desktop");
    }
    assert(m@ =~= "entry_mobile"@);
    assert(d@ =~= "entry_desktop"@);
    v.push(
        EntryRender {
            module: m,
            form: "mobile".to_owned(),
            device_types: mobile_device_types.to_owned(),
        },
    );
    v.push(
        EntryRender {
            module: d,
            form: "desktop".to_owned(),
            device_types: desktop_device_types.to_owned(),
        },
    );
    assert(v@.map_values(|e: EntryRender| entry_render_view(e)) =~= entry_renders_of(
        mobile_device_types@,
        desktop_device_types@,
    ));
    v
}

/// A plugin as the templates list it: name, identifier and class name.
#[derive(Debug)]
pub struct TemplatePlugin {
    pub name: String,
    pub identifier: String,
    pub class_name: String,
}

/// The plugin list of `gen_with_plugins`: none when there are no plugins
/// (the templates then get no `plugins` entry), else each plugin's name,
/// identifier and class name, in order.
pub fn template_plugins(plugins: &Vec<PluginMeta>) -> (r: Option<Vec<TemplatePlugin>>)
    ensures
        plugins@.len() == 0 <==> r is None,
        r matches Some(v) ==> v@.len() == plugins@.len() && forall|i: int|
            0 <= i < v@.len() ==> (#[trigger] v@[i]).name@ == plugins@[i].name@ && v@[i].identifier@
                == plugins@[i].identifier@ && v@[i].class_name@ == plugins@[i].class_name@,
{
    if plugins.len() == 0 {
        return None;
    }
    let mut v: Vec<TemplatePlugin> = Vec::new();
    let mut i: usize = 0;
    while i < plugins.len()
        invariant
            i <= plugins@.len(),
            v@.len() == i,
            forall|k: int|
                0 <= k < i ==> (#[trigger] v@[k]).name@ == plugins@[k].name@ && v@[k].identifier@
                    == plugins@[k].identifier@ && v@[k].class_name@ == plugins@[k].class_name@,
        decreases plugins.len() - i,
    {
        let p = &plugins[i];
        v.push(
            TemplatePlugin {
                name: p.name.clone(),
                identifier: p.identifier.clone(),
                class_name: p.class_name.clone(),
            },
        );
        i = i + 1;
    }
    Some(v)
}

/// What generating the project decides: the targets to install (none when
/// their installation is skipped) and the entry modules to render.
#[derive(Debug)]
pub struct GenPlan {
    pub missing_targets: Vec<String>,
    pub entries: Vec<EntryRender>,
}

/// The decisions of `gen`: the missing OpenHarmony targets unless
/// `skip_targets_install`, and the two entry modules with their device
/// types; the shared template files are those `skip_entry_template` keeps.
pub fn gen(
    all_targets: &Vec<String>,
    installed: &Vec<String>,
    skip_targets_install: bool,
    mobile_device_types: &str,
    desktop_device_types: &str,
) -> (r: GenPlan)
    ensures
        skip_targets_install ==> r.missing_targets@.len() == 0,
        !skip_targets_install ==> r.missing_targets.deep_view() == missing_targets_of(
            all_targets.deep_view(),
            installed.deep_view(),
        ),
        r.entries@.map_values(|e: EntryRender| entry_render_view(e)) == entry_renders_of(
            mobile_device_types@,
            desktop_device_types@,
        ),
{
    let missing = if skip_targets_install {
        Vec::new()
    } else {
        missing_targets(all_targets, installed)
    };
    GenPlan { missing_targets: missing, entries: entry_renders(mobile_device_types, desktop_device_types) }
}

/// The decisions of `gen_with_plugins`: the plugin list for the templates,
/// as `template_plugins` gives it, and those of `gen`.
pub fn gen_with_plugins(
    all_targets: &Vec<String>,
    installed: &Vec<String>,
    skip_targets_install: bool,
    plugins: &Vec<PluginMeta>,
    mobile_device_types: &str,
    desktop_device_types: &str,
) -> (r: (Option<Vec<TemplatePlugin>>, GenPlan))
    ensures
        plugins@.len() == 0 <==> r.0 is None,
        r.0 matches Some(v) ==> v@.len() == plugins@.len() && forall|i: int|
            0 <= i < v@.len() ==> (#[trigger] v@[i]).name@ == plugins@[i].name@ && v@[i].identifier@
                == plugins@[i].identifier@ && v@[i].class_name@ == plugins@[i].class_name@,
        skip_targets_install ==> r.1.missing_targets@.len() == 0,
        !skip_targets_install ==> r.1.missing_targets.deep_view() == missing_targets_of(
            all_targets.deep_view(),
            installed.deep_view(),
        ),
        r.1.entries@.map_values(|e: EntryRender| entry_render_view(e)) == entry_renders_of(
            mobile_device_types@,
            desktop_device_types@,
        ),
{
    let list = template_plugins(plugins);
    (list, gen(all_targets, installed, skip_targets_install, mobile_device_types, desktop_device_types))
}

} // verus!
