//! Edits to the configuration files of the OpenHarmony project that make it
//! build the bundled plugins and the requested entry modules, stated as the
//! entries to add or keep; the JSON5 text is read and written around them.
use vstd::prelude::*;
use vstd::string::*;
use crate::plugins::{
    is_ascii_alnum, is_ascii_alpha, is_name_char, plugin_name_result,
    verify_all_plugins_before_update, verify_outcome, PluginDirState, PluginError, PluginMeta,
};
use crate::json::{
    elems_view, field, fields_view, json5_document, json_pretty, lemma_array_view, lemma_object_view,
    lemma_take_then_set, member, parse_json5, pretty_json, set_field, string_array, string_member,
    take_field, with_field, find_field, json_view, lemma_field_index_from, field_index, lemma_with_field_get, lemma_with_field_twice,
    Json, JsonValue,
};
use crate::jsonfmt::{json5_text, serialize_json5};
use crate::text::{has_infix, has_prefix, contains, replace, replace_all, starts_with, str_eq};

verus! {

/// A module of `build-profile.json5`: its name and source path.
#[derive(Debug)]
pub struct ModuleEntry {
    pub name: String,
    pub src_path: String,
}

/// The name and source path of a module entry.
pub open spec fn module_view(m: ModuleEntry) -> (Seq<char>, Seq<char>) {
    (m.name@, m.src_path@)
}

/// The target that every module added to `build-profile.json5` gets: the
/// target `default`, applied to the product `default`.
pub fn default_module_target() -> (r: (String, Vec<String>))
    ensures
        r.0@ == "default"@,
        r.1@.len() == 1,
        r.1@[0]@ == "default"@,
{
    proof {
        reveal_strlit("default");
    }
    let mut products: Vec<String> = Vec::new();
    products.push("default".to_owned());
    ("default".to_owned(), products)
}

/// The OpenHarmony module name of a plugin: its name without `-`, since
/// module names may hold no hyphen.
pub open spec fn module_name_of(name: Seq<char>) -> Seq<char> {
    replace_all(name, "-"@, seq![])
}

/// The modules that `update_build_profile` appends, in order, for plugins
/// with the given names to a `modules` array whose entries have the given
/// names (none for an entry without a string name): one module
/// `{name: <module name>, srcPath: ./<plugin name>}` per plugin whose module
/// name is not yet in the array, counting the modules added before it.
pub open spec fn profile_additions(existing: Seq<Option<Seq<char>>>, names: Seq<Seq<char>>) -> Seq<
    (Seq<char>, Seq<char>),
>
    decreases names.len(),
{
    if names.len() == 0 {
        seq![]
    } else {
        let prev = profile_additions(existing, names.drop_last());
        let m = module_name_of(names.last());
        if existing.contains(Some(m)) || prev.map_values(|e: (Seq<char>, Seq<char>)| e.0).contains(
            m,
        ) {
            prev
        } else {
            prev.push((m, "./"@ + names.last()))
        }
    }
}

/// The names of the plugins in a list of metadata.
pub open spec fn plugin_names(plugins: Seq<PluginMeta>) -> Seq<Seq<char>> {
    plugins.map_values(|p: PluginMeta| p.name@)
}

fn has_name(existing: &Vec<Option<String>>, name: &str) -> (r: bool)
    ensures
        r == existing.deep_view().contains(Some(name@)),
{
    let mut i: usize = 0;
    while i < existing.len()
        invariant
            i <= existing@.len(),
            forall|k: int| 0 <= k < i ==> existing.deep_view()[k] != Some(name@),
        decreases existing.len() - i,
    {
        if let Some(n) = &existing[i] {
            if str_eq(n.as_str(), name) {
                assert(existing.deep_view()[i as int] == Some(name@));
                return true;
            }
        }
        i = i + 1;
    }
    false
}

fn has_module(added: &Vec<ModuleEntry>, name: &str) -> (r: bool)
    ensures
        r == added@.map_values(|m: ModuleEntry| module_view(m)).map_values(
            |e: (Seq<char>, Seq<char>)| e.0,
        ).contains(name@),
{
    let ghost names = added@.map_values(|m: ModuleEntry| module_view(m)).map_values(
        |e: (Seq<char>, Seq<char>)| e.0,
    );
    let mut i: usize = 0;
    while i < added.len()
        invariant
            names == added@.map_values(|m: ModuleEntry| module_view(m)).map_values(
                |e: (Seq<char>, Seq<char>)| e.0,
            ),
            i <= added@.len(),
            forall|k: int| 0 <= k < i ==> names[k] != name@,
        decreases added.len() - i,
    {
        if str_eq(added[i].name.as_str(), name) {
            assert(names[i as int] == name@);
            return true;
        }
        i = i + 1;
    }
    false
}

/// The modules to append to the `modules` array of `build-profile.json5`
/// for the plugins, given the names of the modules already there.
pub fn update_build_profile(existing: &Vec<Option<String>>, plugins: &Vec<PluginMeta>) -> (r: Vec<
    ModuleEntry,
>)
    ensures
        r@.map_values(|m: ModuleEntry| module_view(m)) == profile_additions(
            existing.deep_view(),
            plugin_names(plugins@),
        ),
{
    let ghost names = plugin_names(plugins@);
    let mut out: Vec<ModuleEntry> = Vec::new();
    let mut i: usize = 0;
    while i < plugins.len()
        invariant
            names == plugin_names(plugins@),
            i <= plugins@.len(),
            out@.map_values(|m: ModuleEntry| module_view(m)) == profile_additions(
                existing.deep_view(),
                names.subrange(0, i as int),
            ),
        decreases plugins.len() - i,
    {
        let ghost pre = names.subrange(0, i + 1);
        assert(pre.drop_last() =~= names.subrange(0, i as int));
        assert(pre.last() == plugins@[i as int].name@);
        let name = &plugins[i].name;
        proof {
            reveal_strlit("-");
            reveal_strlit("");
        }
        let module = replace(name.as_str(), "-", "");
        assert(""@ =~= Seq::<char>::empty());
        if !has_name(existing, module.as_str()) && !has_module(&out, module.as_str()) {
            let mut src = String::new();
            src.append("./");
            src.append(name.as_str());
            let ghost before = out@.map_values(|m: ModuleEntry| module_view(m));
            out.push(ModuleEntry { name: module, src_path: src });
            assert(out@.map_values(|m: ModuleEntry| module_view(m)) =~= before.push(
                (module_name_of(name@), "./"@ + name@),
            ));
        }
        i = i + 1;
    }
    assert(names.subrange(0, plugins@.len() as int) =~= names);
    out
}

/// Whether a module of the build profile is an entry module: its name
/// starts with `entry`.
pub open spec fn is_entry_module(name: Option<Seq<char>>) -> bool {
    name matches Some(n) && has_prefix(n, "entry"@)
}

/// The indices, in order, of the modules among the first `n` that are not
/// entry modules.
pub open spec fn kept_modules(existing: Seq<Option<Seq<char>>>, n: int) -> Seq<usize>
    decreases n,
{
    if n <= 0 {
        seq![]
    } else if is_entry_module(existing[n - 1]) {
        kept_modules(existing, n - 1)
    } else {
        kept_modules(existing, n - 1).push((n - 1) as usize)
    }
}

/// The `modules` array that `write_build_profile_modules` writes: one module
/// `{name, srcPath: ./<name>}` per active entry, in order, followed by the
/// existing modules at `kept`, verbatim.
#[derive(Debug)]
pub struct ModulePlan {
    pub entries: Vec<ModuleEntry>,
    pub kept: Vec<usize>,
}

/// The modules that select exactly the given entry modules: the active
/// entries first, then every existing module that is not an entry module
/// (its name, when a string, does not start with `entry`).
pub fn write_build_profile_modules(existing: &Vec<Option<String>>, active_entries: &Vec<String>) -> (r:
    ModulePlan)
    ensures
        r.entries@.map_values(|m: ModuleEntry| module_view(m)) == active_entries@.map_values(
            |n: String| (n@, "./"@ + n@),
        ),
        r.kept@ == kept_modules(existing.deep_view(), existing@.len() as int),
{
    let mut entries: Vec<ModuleEntry> = Vec::new();
    let mut i: usize = 0;
    while i < active_entries.len()
        invariant
            i <= active_entries@.len(),
            entries@.map_values(|m: ModuleEntry| module_view(m)) == active_entries@.subrange(
                0,
                i as int,
            ).map_values(|n: String| (n@, "./"@ + n@)),
        decreases active_entries.len() - i,
    {
        let name = &active_entries[i];
        let mut src = String::new();
        src.append("./");
        src.append(name.as_str());
        let ghost before = entries@.map_values(|m: ModuleEntry| module_view(m));
        entries.push(ModuleEntry { name: name.clone(), src_path: src });
        assert(entries@.map_values(|m: ModuleEntry| module_view(m)) =~= before.push(
            (name@, "./"@ + name@),
        ));
        assert(entries@.map_values(|m: ModuleEntry| module_view(m)) =~= active_entries@.subrange(
            0,
            i + 1,
        ).map_values(|n: String| (n@, "./"@ + n@)));
        i = i + 1;
    }
    assert(active_entries@.subrange(0, active_entries@.len() as int) =~= active_entries@);
    let mut kept: Vec<usize> = Vec::new();
    let mut j: usize = 0;
    while j < existing.len()
        invariant
            j <= existing@.len(),
            kept@ == kept_modules(existing.deep_view(), j as int),
        decreases existing.len() - j,
    {
        let is_entry = match &existing[j] {
            Some(n) => starts_with(n.as_str(), "entry"),
            None => false,
        };
        assert(is_entry == is_entry_module(existing.deep_view()[j as int]));
        if !is_entry {
            kept.push(j);
        }
        j = j + 1;
    }
    ModulePlan { entries, kept }
}

/// The dependencies that `update_entry_package` adds, in order, to an entry
/// package whose dependencies have the given keys: `<identifier>:
/// file:../<name>` for each plugin whose identifier is not yet a key,
/// counting those added before it.
pub open spec fn dependency_additions(existing: Seq<Seq<char>>, plugins: Seq<PluginMeta>) -> Seq<
    (Seq<char>, Seq<char>),
>
    decreases plugins.len(),
{
    if plugins.len() == 0 {
        seq![]
    } else {
        let prev = dependency_additions(existing, plugins.drop_last());
        let p = plugins.last();
        if existing.contains(p.identifier@) || prev.map_values(
            |e: (Seq<char>, Seq<char>)| e.0,
        ).contains(p.identifier@) {
            prev
        } else {
            prev.push((p.identifier@, "file:../"@ + p.name@))
        }
    }
}

/// A dependency entry: its key and value.
pub open spec fn pair_view(e: (String, String)) -> (Seq<char>, Seq<char>) {
    (e.0@, e.1@)
}

fn has_key(keys: &Vec<String>, key: &str) -> (r: bool)
    ensures
        r == keys.deep_view().contains(key@),
{
    let mut i: usize = 0;
    while i < keys.len()
        invariant
            i <= keys@.len(),
            forall|k: int| 0 <= k < i ==> keys.deep_view()[k] != key@,
        decreases keys.len() - i,
    {
        if str_eq(keys[i].as_str(), key) {
            assert(keys.deep_view()[i as int] == key@);
            return true;
        }
        i = i + 1;
    }
    false
}

fn has_pair_key(added: &Vec<(String, String)>, key: &str) -> (r: bool)
    ensures
        r == added@.map_values(|e: (String, String)| pair_view(e)).map_values(
            |e: (Seq<char>, Seq<char>)| e.0,
        ).contains(key@),
{
    let ghost keys = added@.map_values(|e: (String, String)| pair_view(e)).map_values(
        |e: (Seq<char>, Seq<char>)| e.0,
    );
    let mut i: usize = 0;
    while i < added.len()
        invariant
            keys == added@.map_values(|e: (String, String)| pair_view(e)).map_values(
                |e: (Seq<char>, Seq<char>)| e.0,
            ),
            i <= added@.len(),
            forall|k: int| 0 <= k < i ==> keys[k] != key@,
        decreases added.len() - i,
    {
        if str_eq(added[i].0.as_str(), key) {
            assert(keys[i as int] == key@);
            return true;
        }
        i = i + 1;
    }
    false
}

/// The dependencies to add to the entry module's `oh-package.json5` for the
/// plugins, given the keys of its `dependencies` object.
pub fn update_entry_package(existing_keys: &Vec<String>, plugins: &Vec<PluginMeta>) -> (r: Vec<
    (String, String),
>)
    ensures
        r@.map_values(|e: (String, String)| pair_view(e)) == dependency_additions(
            existing_keys.deep_view(),
            plugins@,
        ),
{
    let mut out: Vec<(String, String)> = Vec::new();
    let mut i: usize = 0;
    while i < plugins.len()
        invariant
            i <= plugins@.len(),
            out@.map_values(|e: (String, String)| pair_view(e)) == dependency_additions(
                existing_keys.deep_view(),
                plugins@.subrange(0, i as int),
            ),
        decreases plugins.len() - i,
    {
        let ghost pre = plugins@.subrange(0, i + 1);
        assert(pre.drop_last() =~= plugins@.subrange(0, i as int));
        let p = &plugins[i];
        if !has_key(existing_keys, p.identifier.as_str()) && !has_pair_key(
            &out,
            p.identifier.as_str(),
        ) {
            let mut value = String::new();
            value.append("file:../");
            value.append(p.name.as_str());
            let ghost before = out@.map_values(|e: (String, String)| pair_view(e));
            out.push((p.identifier.clone(), value));
            assert(out@.map_values(|e: (String, String)| pair_view(e)) =~= before.push(
                (p.identifier@, "file:../"@ + p.name@),
            ));
        }
        i = i + 1;
    }
    assert(plugins@.subrange(0, plugins@.len() as int) =~= plugins@);
    out
}

/// The text by which the build profile names the module of a plugin.
pub open spec fn module_name_entry(name: Seq<char>) -> Seq<char> {
    "\"name\": \""@ + module_name_of(name) + "\""@
}

/// The first plugin, from index `i` on, whose module the build profile text
/// does not name.
pub open spec fn first_unregistered_module(profile: Seq<char>, plugins: Seq<PluginMeta>, i: int) -> Option<
    int,
>
    decreases plugins.len() - i,
{
    if i < 0 || i >= plugins.len() {
        None
    } else if !has_infix(profile, module_name_entry(plugins[i].name@)) {
        Some(i)
    } else {
        first_unregistered_module(profile, plugins, i + 1)
    }
}

/// The first plugin, from index `i` on, whose identifier the entry package
/// text does not hold.
pub open spec fn first_unregistered_dependency(
    package: Seq<char>,
    plugins: Seq<PluginMeta>,
    i: int,
) -> Option<int>
    decreases plugins.len() - i,
{
    if i < 0 || i >= plugins.len() {
        None
    } else if !has_infix(package, plugins[i].identifier@) {
        Some(i)
    } else {
        first_unregistered_dependency(package, plugins, i + 1)
    }
}

/// Checks, by their text, that the build profile names the module of every
/// plugin and that the entry package holds every plugin's identifier; the
/// first plugin missing from the profile, else the first missing from the
/// package, gives the error.
pub fn validate_plugin_configs(build_profile: &str, entry_package: &str, plugins: &Vec<PluginMeta>) -> (r:
    Result<(), PluginError>)
    ensures
        match first_unregistered_module(build_profile@, plugins@, 0) {
            Some(i) => r matches Err(PluginError::ModuleNotRegistered { name, module }) && name@
                == plugins@[i].name@ && module@ == module_name_of(plugins@[i].name@),
            None => match first_unregistered_dependency(entry_package@, plugins@, 0) {
                Some(i) => r matches Err(PluginError::DependencyNotRegistered { identifier })
                    && identifier@ == plugins@[i].identifier@,
                None => r is Ok,
            },
        },
{
    let mut i: usize = 0;
    while i < plugins.len()
        invariant
            i <= plugins@.len(),
            first_unregistered_module(build_profile@, plugins@, 0) == first_unregistered_module(
                build_profile@,
                plugins@,
                i as int,
            ),
        decreases plugins.len() - i,
    {
        let name = &plugins[i].name;
        proof {
            reveal_strlit("-");
            reveal_strlit("");
        }
        let module = replace(name.as_str(), "-", "");
        assert(""@ =~= Seq::<char>::empty());
        let mut needle = String::new();
        needle.append("\"name\": \"");
        needle.append(module.as_str());
        needle.append("\"");
        if !contains(build_profile, needle.as_str()) {
            return Err(PluginError::ModuleNotRegistered { name: name.clone(), module });
        }
        i = i + 1;
    }
    let mut j: usize = 0;
    while j < plugins.len()
        invariant
            j <= plugins@.len(),
            first_unregistered_module(build_profile@, plugins@, 0) is None,
            first_unregistered_dependency(entry_package@, plugins@, 0)
                == first_unregistered_dependency(entry_package@, plugins@, j as int),
        decreases plugins.len() - j,
    {
        let identifier = &plugins[j].identifier;
        if !contains(entry_package, identifier.as_str()) {
            return Err(PluginError::DependencyNotRegistered { identifier: identifier.clone() });
        }
        j = j + 1;
    }
    Ok(())
}

/// The new texts of the project's files that make it build the plugins:
/// the build profile, and the entry package or the error its edit (or the
/// reading of it) met. The build profile is written first.
#[derive(Debug)]
pub struct ConfigUpdate {
    pub build_profile: String,
    pub entry_package: Result<String, PluginError>,
}

/// The build-profile part of an outcome of `update_plugin_configs`.
pub open spec fn profile_part(r: Result<ConfigUpdate, PluginError>) -> Result<String, PluginError> {
    match r {
        Ok(u) => Ok(u.build_profile),
        Err(e) => Err(e),
    }
}

/// Verifies every plugin's copy in the project (plugin `i` against
/// `states[i]`) and, when all pass, edits the text of `build-profile.json5`
/// as `update_build_profile_text` does and then the entry package as
/// `update_entry_package_text` does (`build_profile` and `entry_package` are
/// the outcomes of reading them).
pub fn update_plugin_configs(
    plugins: &Vec<PluginMeta>,
    states: Vec<PluginDirState>,
    build_profile: Result<String, PluginError>,
    entry_package: Result<String, PluginError>,
) -> (r: Result<ConfigUpdate, PluginError>)
    requires
        states@.len() == plugins@.len(),
    ensures
        (forall|i: int|
            0 <= i < plugins@.len() ==> verify_outcome(
                #[trigger] plugins@[i],
                states@[i],
                Ok::<(), PluginError>(()),
            )) ==> match build_profile {
            Err(e) => r == Err::<ConfigUpdate, PluginError>(e),
            Ok(t) => edited_json5(
                t@,
                profile_edit(t@, plugins@),
                PluginError::NoModulesArray,
                profile_part(r),
            ),
        },
        !(forall|i: int|
            0 <= i < plugins@.len() ==> verify_outcome(
                #[trigger] plugins@[i],
                states@[i],
                Ok::<(), PluginError>(()),
            )) ==> (r matches Err(PluginError::Verification { name, cause }) && exists|i: int|
            0 <= i < plugins@.len() && name@ == plugins@[i].name@ && verify_outcome(
                #[trigger] plugins@[i],
                states@[i],
                Err::<(), PluginError>(*cause),
            ) && forall|k: int|
                0 <= k < i ==> verify_outcome(plugins@[k], states@[k], Ok::<(), PluginError>(()))),
        r matches Ok(u) ==> match entry_package {
            Err(e) => u.entry_package == Err::<String, PluginError>(e),
            Ok(t) => edited_json5(
                t@,
                package_edit(t@, plugins@),
                PluginError::NoDependenciesObject,
                u.entry_package,
            ),
        },
{
    match verify_all_plugins_before_update(plugins, states) {
        Err(e) => {
            return Err(e);
        },
        Ok(()) => {},
    }
    let text = match build_profile {
        Ok(t) => t,
        Err(e) => {
            return Err(e);
        },
    };
    let profile = match update_build_profile_text(text.as_str(), plugins) {
        Ok(t) => t,
        Err(e) => {
            return Err(e);
        },
    };
    let package = match entry_package {
        Err(e) => Err(e),
        Ok(t) => update_entry_package_text(t.as_str(), plugins),
    };
    Ok(ConfigUpdate { build_profile: profile, entry_package: package })
}

/// Whether a text is a valid OpenHarmony module name: it matches
/// `^[a-zA-Z][0-9a-zA-Z_.]*$`.
pub open spec fn is_ohos_module_name(m: Seq<char>) -> bool {
    &&& m.len() > 0
    &&& is_ascii_alpha(m[0])
    &&& forall|i: int| 0 <= i < m.len() ==> is_ascii_alnum(#[trigger] m[i]) || m[i] == '_' || m[i]
        == '.'
}

proof fn lemma_remove_hyphens(s: Seq<char>)
    requires
        forall|j: int| 0 <= j < s.len() ==> is_name_char(#[trigger] s[j]),
    ensures
        forall|i: int|
            0 <= i < module_name_of(s).len() ==> is_name_char(#[trigger] module_name_of(s)[i])
                && module_name_of(s)[i] != '-',
        s.len() > 0 && s[0] != '-' ==> module_name_of(s).len() > 0 && module_name_of(s)[0]
            == s[0],
    decreases s.len(),
{
    reveal_strlit("-");
    if s.len() > 0 {
        let rest = s.subrange(1, s.len() as int);
        assert forall|j: int| 0 <= j < rest.len() implies is_name_char(#[trigger] rest[j]) by {
            assert(rest[j] == s[j + 1]);
        }
        lemma_remove_hyphens(rest);
        if s[0] == '-' {
            assert(s.subrange(0, 1) =~= "-"@);
            assert(has_prefix(s, "-"@));
            assert(module_name_of(s) == Seq::<char>::empty() + module_name_of(rest));
            assert(Seq::<char>::empty() + module_name_of(rest) =~= module_name_of(rest));
        } else {
            assert(s.subrange(0, 1)[0] != "-"@[0]);
            assert(!has_prefix(s, "-"@));
            assert(module_name_of(s) == seq![s[0]] + module_name_of(rest));
            assert forall|i: int| 0 <= i < module_name_of(s).len() implies is_name_char(
                #[trigger] module_name_of(s)[i],
            ) && module_name_of(s)[i] != '-' by {
                if i > 0 {
                    assert(module_name_of(s)[i] == module_name_of(rest)[i - 1]);
                }
            }
        }
    }
}

/// A plugin name that `validate_plugin_name` accepts and that starts with
/// a letter gives a valid OpenHarmony module name once its hyphens are
/// removed.
pub proof fn lemma_valid_plugin_module_name(name: Seq<char>)
    requires
        plugin_name_result(name) is Ok,
        name.len() > 0 && is_ascii_alpha(name[0]),
    ensures
        is_ohos_module_name(module_name_of(name)),
{
    lemma_remove_hyphens(name);
}

proof fn lemma_profile_names_covered(existing: Seq<Option<Seq<char>>>, names: Seq<Seq<char>>)
    ensures
        forall|k: int|
            0 <= k < names.len() ==> existing.contains(Some(module_name_of(#[trigger] names[k])))
                || profile_additions(existing, names).map_values(
                |e: (Seq<char>, Seq<char>)| e.0,
            ).contains(module_name_of(names[k])),
    decreases names.len(),
{
    if names.len() > 0 {
        let prev_names = names.drop_last();
        lemma_profile_names_covered(existing, prev_names);
        let prev = profile_additions(existing, prev_names);
        let cur = profile_additions(existing, names);
        let pm = prev.map_values(|e: (Seq<char>, Seq<char>)| e.0);
        let cm = cur.map_values(|e: (Seq<char>, Seq<char>)| e.0);
        assert forall|x: Seq<char>| pm.contains(x) implies cm.contains(x) by {
            let i = choose|i: int| 0 <= i < pm.len() && pm[i] == x;
            if cur != prev {
                assert(cur == prev.push((module_name_of(names.last()), "./"@ + names.last())));
                assert(cm[i] == pm[i]);
            }
        }
        assert forall|k: int| 0 <= k < names.len() implies existing.contains(
            Some(module_name_of(#[trigger] names[k])),
        ) || cm.contains(module_name_of(names[k])) by {
            if k < names.len() - 1 {
                assert(names[k] == prev_names[k]);
            } else {
                let m = module_name_of(names.last());
                if !existing.contains(Some(m)) && !pm.contains(m) {
                    assert(cur == prev.push((m, "./"@ + names.last())));
                    assert(cm[cm.len() - 1] == m);
                }
            }
        }
    }
}

proof fn lemma_profile_nothing_new(existing: Seq<Option<Seq<char>>>, names: Seq<Seq<char>>)
    requires
        forall|k: int| 0 <= k < names.len() ==> existing.contains(Some(module_name_of(#[trigger] names[k]))),
    ensures
        profile_additions(existing, names).len() == 0,
    decreases names.len(),
{
    if names.len() > 0 {
        assert forall|k: int| 0 <= k < names.drop_last().len() implies existing.contains(
            Some(module_name_of(#[trigger] names.drop_last()[k])),
        ) by {
            assert(names.drop_last()[k] == names[k]);
        }
        lemma_profile_nothing_new(existing, names.drop_last());
        assert(existing.contains(Some(module_name_of(names[names.len() - 1]))));
    }
}

/// Updating `build-profile.json5` a second time adds nothing: once the
/// modules of the first update are in the `modules` array, every plugin's
/// module is found there and skipped.
pub proof fn lemma_build_profile_update_idempotent(existing: Seq<Option<Seq<char>>>, names: Seq<Seq<char>>)
    ensures
        profile_additions(
            existing + profile_additions(existing, names).map_values(
                |e: (Seq<char>, Seq<char>)| Some(e.0),
            ),
            names,
        ).len() == 0,
{
    let adds = profile_additions(existing, names);
    let after = existing + adds.map_values(|e: (Seq<char>, Seq<char>)| Some(e.0));
    lemma_profile_names_covered(existing, names);
    assert forall|k: int| 0 <= k < names.len() implies after.contains(
        Some(module_name_of(#[trigger] names[k])),
    ) by {
        let m = module_name_of(names[k]);
        if existing.contains(Some(m)) {
            let i = choose|i: int| 0 <= i < existing.len() && existing[i] == Some(m);
            assert(after[i] == Some(m));
        } else {
            let am = adds.map_values(|e: (Seq<char>, Seq<char>)| e.0);
            let i = choose|i: int| 0 <= i < am.len() && am[i] == m;
            assert(after[existing.len() + i] == Some(m));
        }
    }
    lemma_profile_nothing_new(after, names);
}

proof fn lemma_dependencies_covered(existing: Seq<Seq<char>>, plugins: Seq<PluginMeta>)
    ensures
        forall|k: int|
            0 <= k < plugins.len() ==> existing.contains((#[trigger] plugins[k]).identifier@)
                || dependency_additions(existing, plugins).map_values(
                |e: (Seq<char>, Seq<char>)| e.0,
            ).contains(plugins[k].identifier@),
    decreases plugins.len(),
{
    if plugins.len() > 0 {
        let prev_ps = plugins.drop_last();
        lemma_dependencies_covered(existing, prev_ps);
        let prev = dependency_additions(existing, prev_ps);
        let cur = dependency_additions(existing, plugins);
        let pm = prev.map_values(|e: (Seq<char>, Seq<char>)| e.0);
        let cm = cur.map_values(|e: (Seq<char>, Seq<char>)| e.0);
        let p = plugins.last();
        assert forall|x: Seq<char>| pm.contains(x) implies cm.contains(x) by {
            let i = choose|i: int| 0 <= i < pm.len() && pm[i] == x;
            if cur != prev {
                assert(cur == prev.push((p.identifier@, "file:../"@ + p.name@)));
                assert(cm[i] == pm[i]);
            }
        }
        assert forall|k: int| 0 <= k < plugins.len() implies existing.contains(
            (#[trigger] plugins[k]).identifier@,
        ) || cm.contains(plugins[k].identifier@) by {
            if k < plugins.len() - 1 {
                assert(plugins[k] == prev_ps[k]);
            } else {
                if !existing.contains(p.identifier@) && !pm.contains(p.identifier@) {
                    assert(cur == prev.push((p.identifier@, "file:../"@ + p.name@)));
                    assert(cm[cm.len() - 1] == p.identifier@);
                }
            }
        }
    }
}

proof fn lemma_dependencies_nothing_new(existing: Seq<Seq<char>>, plugins: Seq<PluginMeta>)
    requires
        forall|k: int| 0 <= k < plugins.len() ==> existing.contains((#[trigger] plugins[k]).identifier@),
    ensures
        dependency_additions(existing, plugins).len() == 0,
    decreases plugins.len(),
{
    if plugins.len() > 0 {
        assert forall|k: int| 0 <= k < plugins.drop_last().len() implies existing.contains(
            (#[trigger] plugins.drop_last()[k]).identifier@,
        ) by {
            assert(plugins.drop_last()[k] == plugins[k]);
        }
        lemma_dependencies_nothing_new(existing, plugins.drop_last());
        assert(existing.contains(plugins[plugins.len() - 1].identifier@));
    }
}

/// Updating the entry module's `oh-package.json5` a second time adds
/// nothing: once the dependencies of the first update are keys, every
/// plugin's identifier is found and skipped.
pub proof fn lemma_entry_package_update_idempotent(existing: Seq<Seq<char>>, plugins: Seq<PluginMeta>)
    ensures
        dependency_additions(
            existing + dependency_additions(existing, plugins).map_values(
                |e: (Seq<char>, Seq<char>)| e.0,
            ),
            plugins,
        ).len() == 0,
{
    let adds = dependency_additions(existing, plugins);
    let am = adds.map_values(|e: (Seq<char>, Seq<char>)| e.0);
    let after = existing + am;
    lemma_dependencies_covered(existing, plugins);
    assert forall|k: int| 0 <= k < plugins.len() implies after.contains(
        (#[trigger] plugins[k]).identifier@,
    ) by {
        let id = plugins[k].identifier@;
        if existing.contains(id) {
            let i = choose|i: int| 0 <= i < existing.len() && existing[i] == id;
            assert(after[i] == id);
        } else {
            let i = choose|i: int| 0 <= i < am.len() && am[i] == id;
            assert(after[existing.len() + i] == id);
        }
    }
    lemma_dependencies_nothing_new(after, plugins);
}

/// The edit of `write_entry_device_types`: the `module.json5` of the entry
/// module `entry_<form>` under the project directory, and the `deviceTypes`
/// list it receives.
pub fn write_entry_device_types(project_dir: &str, form: &str, device_types: &Vec<String>) -> (r: (
    String,
    Vec<String>,
))
    ensures
        r.0@ == crate::path::path_join(project_dir@, "entry_"@ + form@ + "/src/main/module.json5"@),
        r.1.deep_view() == device_types.deep_view(),
{
    let path = crate::plugin_build::entry_module_json(project_dir, form);
    (path, crate::cli::clone_strings(device_types))
}

/// Writing the build profile's modules leaves no stale entry module: every
/// module kept from the existing array is one whose name does not start
/// with `entry`, so the entry modules are exactly the active ones; and
/// every non-entry module is kept, in order.
pub proof fn lemma_kept_modules_are_not_entries(existing: Seq<Option<Seq<char>>>, n: int)
    requires
        0 <= n <= existing.len(),
        existing.len() <= usize::MAX,
    ensures
        forall|k: int|
            0 <= k < kept_modules(existing, n).len() ==> !is_entry_module(
                existing[#[trigger] kept_modules(existing, n)[k] as int],
            ) && kept_modules(existing, n)[k] < n,
        forall|j: int|
            0 <= j < n && !is_entry_module(#[trigger] existing[j]) ==> kept_modules(
                existing,
                n,
            ).contains(j as usize),
        forall|a: int, b: int|
            0 <= a < b < kept_modules(existing, n).len() ==> kept_modules(existing, n)[a]
                < kept_modules(existing, n)[b],
    decreases n,
{
    if n > 0 {
        lemma_kept_modules_are_not_entries(existing, n - 1);
        let prev = kept_modules(existing, n - 1);
        if !is_entry_module(existing[n - 1]) {
            let cur = prev.push((n - 1) as usize);
            assert(((n - 1) as usize) as int == n - 1);
            assert(kept_modules(existing, n) == cur);
            assert forall|k: int| 0 <= k < cur.len() implies !is_entry_module(
                existing[#[trigger] cur[k] as int],
            ) && cur[k] < n by {
                if k < prev.len() {
                    assert(cur[k] == prev[k]);
                }
            }
            assert forall|j: int| 0 <= j < n && !is_entry_module(#[trigger] existing[j]) implies cur.contains(
                j as usize,
            ) by {
                if j < n - 1 {
                    let k = choose|k: int| 0 <= k < prev.len() && prev[k] == j as usize;
                    assert(cur[k] == prev[k]);
                } else {
                    assert(cur[cur.len() - 1] == j as usize);
                }
            }
            assert forall|a: int, b: int| 0 <= a < b < cur.len() implies cur[a] < cur[b] by {
                if b < prev.len() {
                    assert(cur[a] == prev[a] && cur[b] == prev[b]);
                } else {
                    assert(cur[a] == prev[a]);
                }
            }
        } else {
            assert forall|j: int| 0 <= j < n && !is_entry_module(#[trigger] existing[j]) implies prev.contains(
                j as usize,
            ) by {
                if j == n - 1 {
                    assert(false);
                }
            }
        }
    }
}


// ------------------------------------------------------------------
// The project's JSON5 documents
// ------------------------------------------------------------------

/// The module object written into `build-profile.json5` for a module: its
/// name and source path, with the `default` target applied to the
/// `default` product.
pub open spec fn module_json(name: Seq<char>, src: Seq<char>) -> Json {
    Json::Object(
        seq![
            ("name"@, Json::Str(name)),
            ("srcPath"@, Json::Str(src)),
            (
                "targets"@,
                Json::Array(
                    seq![
                        Json::Object(
                            seq![
                                ("name"@, Json::Str("default"@)),
                                ("applyToProducts"@, Json::Array(seq![Json::Str("default"@)])),
                            ],
                        ),
                    ],
                ),
            ),
        ],
    )
}

/// The name of each module of a `modules` array, when it is a string.
pub open spec fn module_names_in(ms: Seq<Json>) -> Seq<Option<Seq<char>>> {
    ms.map_values(|m: Json| string_member(m, "name"@))
}

/// The `modules` array after `update_build_profile`: the modules there,
/// followed by one module per plugin whose module is not yet listed.
pub open spec fn profile_modules_after(ms: Seq<Json>, plugins: Seq<PluginMeta>) -> Seq<Json> {
    ms + profile_additions(module_names_in(ms), plugin_names(plugins)).map_values(
        |e: (Seq<char>, Seq<char>)| module_json(e.0, e.1),
    )
}

/// The document after `update_build_profile`, when it is an object with a
/// `modules` array: that array extended, every other member unchanged.
pub open spec fn build_profile_updated(doc: Json, plugins: Seq<PluginMeta>) -> Option<Json> {
    match doc {
        Json::Object(f) => match field(f, "modules"@) {
            Some(Json::Array(ms)) => Some(
                Json::Object(with_field(f, "modules"@, Json::Array(profile_modules_after(ms, plugins)))),
            ),
            _ => None,
        },
        _ => None,
    }
}

/// The outcome of an edit of a JSON5 document: no document is a parse
/// error, an edit that does not apply is `missing`, and an edited document
/// is written pretty-printed in JSON5 layout.
pub open spec fn edited_json5(
    content: Seq<char>,
    edited: Option<Json>,
    missing: PluginError,
    r: Result<String, PluginError>,
) -> bool {
    match json5_document(content) {
        None => r == Err::<String, PluginError>(PluginError::DocumentParse),
        Some(_) => match edited {
            None => r == Err::<String, PluginError>(missing),
            Some(d) => r matches Ok(t) && t@ == json5_text(json_pretty(d)),
        },
    }
}

/// The build profile after `update_build_profile_text`, when its text is a
/// JSON5 document the edit applies to.
pub open spec fn profile_edit(content: Seq<char>, plugins: Seq<PluginMeta>) -> Option<Json> {
    match json5_document(content) {
        Some(doc) => build_profile_updated(doc, plugins),
        None => None,
    }
}

/// The entry package after `update_entry_package_text`, when its text is a
/// JSON5 document the edit applies to.
pub open spec fn package_edit(content: Seq<char>, plugins: Seq<PluginMeta>) -> Option<Json> {
    match json5_document(content) {
        Some(doc) => entry_package_updated(doc, plugins),
        None => None,
    }
}

/// The module object of a module of the build profile.
fn module_value(name: &String, src: &String) -> (r: JsonValue)
    ensures
        r@ == module_json(name@, src@),
{
    let (target, products) = default_module_target();
    let prods = string_array(&products);
    assert(products@.map_values(|s: String| Json::Str(s@)) =~= seq![Json::Str("default"@)]);
    let mut tf: Vec<(String, JsonValue)> = Vec::new();
    tf.push(("name".to_owned(), JsonValue::Str(target)));
    tf.push(("applyToProducts".to_owned(), prods));
    proof {
        lemma_object_view(tf);
    }
    let tv = JsonValue::Object(tf);
    let ghost tj = Json::Object(
        seq![
            ("name"@, Json::Str("default"@)),
            ("applyToProducts"@, Json::Array(seq![Json::Str("default"@)])),
        ],
    );
    assert(fields_view(tf@) =~= seq![
        ("name"@, Json::Str("default"@)),
        ("applyToProducts"@, Json::Array(seq![Json::Str("default"@)])),
    ]);
    assert(tv@ == tj);
    let mut targets: Vec<JsonValue> = Vec::new();
    targets.push(tv);
    proof {
        lemma_array_view(targets);
    }
    assert(elems_view(targets@) =~= seq![tj]);
    let mut f: Vec<(String, JsonValue)> = Vec::new();
    f.push(("name".to_owned(), JsonValue::Str(name.clone())));
    f.push(("srcPath".to_owned(), JsonValue::Str(src.clone())));
    f.push(("targets".to_owned(), JsonValue::Array(targets)));
    proof {
        lemma_object_view(f);
    }
    assert(fields_view(f@) =~= seq![
        ("name"@, Json::Str(name@)),
        ("srcPath"@, Json::Str(src@)),
        ("targets"@, Json::Array(seq![tj])),
    ]);
    JsonValue::Object(f)
}

/// The string value of member `key` of a value, as `string_member` gives it.
fn string_member_of(v: &JsonValue, key: &str) -> (r: Option<String>)
    ensures
        r.deep_view() == string_member(v@, key@),
{
    match v {
        JsonValue::Object(f) => {
            proof {
                lemma_object_view(*f);
            }
            match find_field(f, key) {
                Some(i) => {
                    assert(fields_view(f@)[i as int].1 == json_view(f@[i as int].1));
                    match &f[i].1 {
                        JsonValue::Str(s) => Some(s.clone()),
                        _ => None,
                    }
                },
                None => None,
            }
        },
        _ => None,
    }
}

/// The name of each module of a `modules` array.
fn module_names_of(modules: &Vec<JsonValue>) -> (r: Vec<Option<String>>)
    ensures
        r.deep_view() == module_names_in(elems_view(modules@)),
{
    let mut out: Vec<Option<String>> = Vec::new();
    let mut i: usize = 0;
    while i < modules.len()
        invariant
            i <= modules@.len(),
            out.deep_view() == module_names_in(elems_view(modules@.subrange(0, i as int))),
        decreases modules.len() - i,
    {
        let n = string_member_of(&modules[i], "name");
        let ghost before = out.deep_view();
        out.push(n);
        assert(out.deep_view() =~= before.push(n.deep_view()));
        assert(module_names_in(elems_view(modules@.subrange(0, i + 1))) =~= module_names_in(
            elems_view(modules@.subrange(0, i as int)),
        ).push(string_member(json_view(modules@[i as int]), "name"@)));
        i = i + 1;
    }
    assert(modules@.subrange(0, modules@.len() as int) =~= modules@);
    out
}

/// Appends a module object for each module entry.
fn push_modules(modules: &mut Vec<JsonValue>, entries: &Vec<ModuleEntry>)
    ensures
        elems_view(final(modules)@) == elems_view(old(modules)@) + entries@.map_values(
            |m: ModuleEntry| module_json(m.name@, m.src_path@),
        ),
{
    let ghost start = elems_view(modules@);
    let mut k: usize = 0;
    while k < entries.len()
        invariant
            k <= entries@.len(),
            elems_view(modules@) == start + entries@.subrange(0, k as int).map_values(
                |m: ModuleEntry| module_json(m.name@, m.src_path@),
            ),
        decreases entries.len() - k,
    {
        let ghost before = elems_view(modules@);
        let m = module_value(&entries[k].name, &entries[k].src_path);
        modules.push(m);
        assert(elems_view(modules@) =~= before.push(module_json(entries@[k as int].name@, entries@[k as int].src_path@)));
        assert(start + entries@.subrange(0, k + 1).map_values(
            |m: ModuleEntry| module_json(m.name@, m.src_path@),
        ) =~= before.push(module_json(entries@[k as int].name@, entries@[k as int].src_path@)));
        k = k + 1;
    }
    assert(entries@.subrange(0, entries@.len() as int) =~= entries@);
}

/// Adds a module to the `modules` array of the text of `build-profile.json5`
/// for every plugin whose module it does not list, keeping every other
/// member; refused when the text is no JSON5 document or has no `modules`
/// array. The result is the new text, pretty-printed in JSON5 layout.
pub fn update_build_profile_text(content: &str, plugins: &Vec<PluginMeta>) -> (r: Result<
    String,
    PluginError,
>)
    ensures
        edited_json5(content@, profile_edit(content@, plugins@), PluginError::NoModulesArray, r),
{
    let doc = match parse_json5(content) {
        Some(d) => d,
        None => {
            return Err(PluginError::DocumentParse);
        },
    };
    let ghost d = doc@;
    let mut fields = match doc {
        JsonValue::Object(f) => f,
        _ => {
            return Err(PluginError::NoModulesArray);
        },
    };
    let ghost fv0 = fields_view(fields@);
    proof {
        lemma_object_view(fields);
    }
    let (i, value) = match take_field(&mut fields, "modules") {
        Some(x) => x,
        None => {
            return Err(PluginError::NoModulesArray);
        },
    };
    let mut modules = match value {
        JsonValue::Array(m) => m,
        _ => {
            return Err(PluginError::NoModulesArray);
        },
    };
    proof {
        lemma_array_view(modules);
    }
    let ghost ms = elems_view(modules@);
    let names = module_names_of(&modules);
    let additions = update_build_profile(&names, plugins);
    push_modules(&mut modules, &additions);
    assert(additions@.map_values(|m: ModuleEntry| module_json(m.name@, m.src_path@)) =~= profile_additions(
        module_names_in(ms),
        plugin_names(plugins@),
    ).map_values(|e: (Seq<char>, Seq<char>)| module_json(e.0, e.1))) by {
        assert(additions@.map_values(|m: ModuleEntry| module_view(m)).len() == additions@.len());
    }
    proof {
        lemma_array_view(modules);
        lemma_take_then_set(fv0, "modules"@, i as int, json_view(JsonValue::Array(modules)));
    }
    set_field(&mut fields, "modules".to_owned(), JsonValue::Array(modules));
    proof {
        lemma_object_view(fields);
    }
    let out = JsonValue::Object(fields);
    let pretty = pretty_json(&out);
    Ok(serialize_json5(pretty.as_str()))
}


/// The `modules` array after `write_build_profile_modules`: a module per
/// active entry, in order, then the modules there that are not entry
/// modules, verbatim and in order.
pub open spec fn modules_selected(ms: Seq<Json>, entries: Seq<String>) -> Seq<Json> {
    entries.map_values(|n: String| module_json(n@, "./"@ + n@)) + kept_modules(
        module_names_in(ms),
        ms.len() as int,
    ).map_values(|i: usize| ms[i as int])
}

/// The document after `write_build_profile_modules`, when it is an object
/// with a `modules` array: that array replaced, every other member
/// unchanged.
pub open spec fn build_profile_selected(doc: Json, entries: Seq<String>) -> Option<Json> {
    match doc {
        Json::Object(f) => match field(f, "modules"@) {
            Some(Json::Array(ms)) => Some(
                Json::Object(with_field(f, "modules"@, Json::Array(modules_selected(ms, entries)))),
            ),
            _ => None,
        },
        _ => None,
    }
}

/// Makes the `modules` array of the text of `build-profile.json5` activate
/// exactly the given entry modules, keeping the other modules and every
/// other member; refused when the text is no JSON5 document or has no
/// `modules` array. The result is the new text in JSON5 layout.
pub fn write_build_profile_modules_text(content: &str, active_entries: &Vec<String>) -> (r: Result<
    String,
    PluginError,
>)
    ensures
        edited_json5(
            content@,
            match json5_document(content@) {
                Some(doc) => build_profile_selected(doc, active_entries@),
                None => None,
            },
            PluginError::NoModulesArray,
            r,
        ),
{
    let doc = match parse_json5(content) {
        Some(d) => d,
        None => {
            return Err(PluginError::DocumentParse);
        },
    };
    let mut fields = match doc {
        JsonValue::Object(f) => f,
        _ => {
            return Err(PluginError::NoModulesArray);
        },
    };
    let ghost fv0 = fields_view(fields@);
    proof {
        lemma_object_view(fields);
    }
    let (i, value) = match take_field(&mut fields, "modules") {
        Some(x) => x,
        None => {
            return Err(PluginError::NoModulesArray);
        },
    };
    let modules = match value {
        JsonValue::Array(m) => m,
        _ => {
            return Err(PluginError::NoModulesArray);
        },
    };
    proof {
        lemma_array_view(modules);
    }
    let ghost orig = modules@;
    let ghost ms = elems_view(orig);
    let names = module_names_of(&modules);
    let ghost nv = names.deep_view();
    let plan = write_build_profile_modules(&names, active_entries);
    let mut out: Vec<JsonValue> = Vec::new();
    push_modules(&mut out, &plan.entries);
    let ghost head = active_entries@.map_values(|n: String| module_json(n@, "./"@ + n@));
    assert(elems_view(out@) =~= head) by {
        assert(plan.entries@.map_values(|m: ModuleEntry| module_view(m)).len() == plan.entries@.len());
        assert forall|k: int| 0 <= k < plan.entries@.len() implies plan.entries@[k].name@
            == active_entries@[k]@ && plan.entries@[k].src_path@ == "./"@ + active_entries@[k]@ by {
            assert(plan.entries@.map_values(|m: ModuleEntry| module_view(m))[k] == module_view(
                plan.entries@[k],
            ));
        }
    }
    let n = modules.len();
    assert(names@.len() == nv.len());
    assert(nv.len() == ms.len());
    let mut rest = modules;
    let mut j: usize = 0;
    while j < n
        invariant
            n == orig.len(),
            ms == elems_view(orig),
            nv == names.deep_view(),
            nv == module_names_in(ms),
            names@.len() == n,
            j <= n,
            rest@ == orig.subrange(j as int, n as int),
            elems_view(out@) == head + kept_modules(nv, j as int).map_values(|x: usize| ms[x as int]),
        decreases n - j,
    {
        let x = rest.remove(0);
        assert(x == orig[j as int]);
        assert(nv[j as int] == names@[j as int].deep_view());
        let is_entry = match &names[j] {
            Some(nm) => {
                assert(nv[j as int] == Some(nm@));
                starts_with(nm.as_str(), "entry")
            },
            None => false,
        };
        assert(is_entry == is_entry_module(nv[j as int]));
        let ghost before = elems_view(out@);
        if !is_entry {
            out.push(x);
            assert(elems_view(out@) =~= before.push(ms[j as int]));
            assert(kept_modules(nv, j + 1).map_values(|x: usize| ms[x as int]) =~= kept_modules(
                nv,
                j as int,
            ).map_values(|x: usize| ms[x as int]).push(ms[j as int]));
        }
        j = j + 1;
        assert(rest@ =~= orig.subrange(j as int, n as int));
    }
    proof {
        lemma_array_view(out);
        lemma_take_then_set(fv0, "modules"@, i as int, json_view(JsonValue::Array(out)));
    }
    assert(elems_view(out@) == modules_selected(ms, active_entries@));
    set_field(&mut fields, "modules".to_owned(), JsonValue::Array(out));
    proof {
        lemma_object_view(fields);
    }
    let res = JsonValue::Object(fields);
    let pretty = pretty_json(&res);
    Ok(serialize_json5(pretty.as_str()))
}

/// The document after `write_entry_device_types`, when it is an object with
/// a `module` object: `module.deviceTypes` set to the device types, in
/// order, everything else unchanged.
pub open spec fn device_types_set(doc: Json, types: Seq<String>) -> Option<Json> {
    match doc {
        Json::Object(f) => match field(f, "module"@) {
            Some(Json::Object(mf)) => Some(
                Json::Object(
                    with_field(
                        f,
                        "module"@,
                        Json::Object(
                            with_field(
                                mf,
                                "deviceTypes"@,
                                Json::Array(types.map_values(|t: String| Json::Str(t@))),
                            ),
                        ),
                    ),
                ),
            ),
            _ => None,
        },
        _ => None,
    }
}

/// Sets `module.deviceTypes` of the text of an entry module's
/// `module.json5`, keeping everything else; refused when the text is no
/// JSON5 document or has no `module` object. The result is the new text in
/// JSON5 layout.
pub fn write_entry_device_types_text(content: &str, device_types: &Vec<String>) -> (r: Result<
    String,
    PluginError,
>)
    ensures
        edited_json5(
            content@,
            match json5_document(content@) {
                Some(doc) => device_types_set(doc, device_types@),
                None => None,
            },
            PluginError::NoModuleObject,
            r,
        ),
{
    let doc = match parse_json5(content) {
        Some(d) => d,
        None => {
            return Err(PluginError::DocumentParse);
        },
    };
    let mut fields = match doc {
        JsonValue::Object(f) => f,
        _ => {
            return Err(PluginError::NoModuleObject);
        },
    };
    let ghost fv0 = fields_view(fields@);
    proof {
        lemma_object_view(fields);
    }
    let (i, value) = match take_field(&mut fields, "module") {
        Some(x) => x,
        None => {
            return Err(PluginError::NoModuleObject);
        },
    };
    let mut mf = match value {
        JsonValue::Object(m) => m,
        _ => {
            return Err(PluginError::NoModuleObject);
        },
    };
    proof {
        lemma_object_view(mf);
    }
    set_field(&mut mf, "deviceTypes".to_owned(), string_array(device_types));
    proof {
        lemma_object_view(mf);
        lemma_take_then_set(fv0, "module"@, i as int, json_view(JsonValue::Object(mf)));
    }
    set_field(&mut fields, "module".to_owned(), JsonValue::Object(mf));
    proof {
        lemma_object_view(fields);
    }
    let res = JsonValue::Object(fields);
    let pretty = pretty_json(&res);
    Ok(serialize_json5(pretty.as_str()))
}

/// The members `f` with each `(key, value)` of `adds` set, in order, to the
/// string `value`.
pub open spec fn with_string_fields(f: Seq<(Seq<char>, Json)>, adds: Seq<(Seq<char>, Seq<char>)>) -> Seq<
    (Seq<char>, Json),
>
    decreases adds.len(),
{
    if adds.len() == 0 {
        f
    } else {
        with_field(with_string_fields(f, adds.drop_last()), adds.last().0, Json::Str(adds.last().1))
    }
}

/// The keys of an object's members, in order.
pub open spec fn field_keys(f: Seq<(Seq<char>, Json)>) -> Seq<Seq<char>> {
    f.map_values(|e: (Seq<char>, Json)| e.0)
}

/// The document after `update_entry_package`, when it is an object with a
/// `dependencies` object: a dependency added for each plugin that it does
/// not list, every existing entry and every other member unchanged.
pub open spec fn entry_package_updated(doc: Json, plugins: Seq<PluginMeta>) -> Option<Json> {
    match doc {
        Json::Object(f) => match field(f, "dependencies"@) {
            Some(Json::Object(deps)) => Some(
                Json::Object(
                    with_field(
                        f,
                        "dependencies"@,
                        Json::Object(
                            with_string_fields(deps, dependency_additions(field_keys(deps), plugins)),
                        ),
                    ),
                ),
            ),
            _ => None,
        },
        _ => None,
    }
}

/// The keys of an object's members.
fn keys_of(fields: &Vec<(String, JsonValue)>) -> (r: Vec<String>)
    ensures
        r.deep_view() == field_keys(fields_view(fields@)),
{
    let mut out: Vec<String> = Vec::new();
    let mut i: usize = 0;
    while i < fields.len()
        invariant
            i <= fields@.len(),
            out.deep_view() == field_keys(fields_view(fields@.subrange(0, i as int))),
        decreases fields.len() - i,
    {
        let ghost before = out.deep_view();
        out.push(fields[i].0.clone());
        assert(out.deep_view() =~= before.push(fields@[i as int].0@));
        assert(field_keys(fields_view(fields@.subrange(0, i + 1))) =~= before.push(
            fields@[i as int].0@,
        ));
        i = i + 1;
    }
    assert(fields@.subrange(0, fields@.len() as int) =~= fields@);
    out
}

/// Adds a dependency to the `dependencies` object of the text of the entry
/// module's `oh-package.json5` for every plugin whose identifier it does
/// not list, never overwriting an entry and keeping every other member;
/// refused when the text is no JSON5 document or has no `dependencies`
/// object. The result is the new text in JSON5 layout.
pub fn update_entry_package_text(content: &str, plugins: &Vec<PluginMeta>) -> (r: Result<
    String,
    PluginError,
>)
    ensures
        edited_json5(
            content@,
            package_edit(content@, plugins@),
            PluginError::NoDependenciesObject,
            r,
        ),
{
    let doc = match parse_json5(content) {
        Some(d) => d,
        None => {
            return Err(PluginError::DocumentParse);
        },
    };
    let mut fields = match doc {
        JsonValue::Object(f) => f,
        _ => {
            return Err(PluginError::NoDependenciesObject);
        },
    };
    let ghost fv0 = fields_view(fields@);
    proof {
        lemma_object_view(fields);
    }
    let (i, value) = match take_field(&mut fields, "dependencies") {
        Some(x) => x,
        None => {
            return Err(PluginError::NoDependenciesObject);
        },
    };
    let mut deps = match value {
        JsonValue::Object(m) => m,
        _ => {
            return Err(PluginError::NoDependenciesObject);
        },
    };
    proof {
        lemma_object_view(deps);
    }
    let ghost dv0 = fields_view(deps@);
    let keys = keys_of(&deps);
    let adds = update_entry_package(&keys, plugins);
    let ghost av = adds@.map_values(|e: (String, String)| pair_view(e));
    let mut k: usize = 0;
    while k < adds.len()
        invariant
            k <= adds@.len(),
            av == adds@.map_values(|e: (String, String)| pair_view(e)),
            fields_view(deps@) == with_string_fields(dv0, av.subrange(0, k as int)),
        decreases adds.len() - k,
    {
        assert(av.subrange(0, k + 1).drop_last() =~= av.subrange(0, k as int));
        assert(av[k as int] == pair_view(adds@[k as int]));
        set_field(&mut deps, adds[k].0.clone(), JsonValue::Str(adds[k].1.clone()));
        k = k + 1;
    }
    assert(av.subrange(0, adds@.len() as int) =~= av);
    proof {
        lemma_object_view(deps);
        lemma_take_then_set(fv0, "dependencies"@, i as int, json_view(JsonValue::Object(deps)));
    }
    set_field(&mut fields, "dependencies".to_owned(), JsonValue::Object(deps));
    proof {
        lemma_object_view(fields);
    }
    let res = JsonValue::Object(fields);
    let pretty = pretty_json(&res);
    Ok(serialize_json5(pretty.as_str()))
}


/// Updating the text of `build-profile.json5` a second time with the same
/// plugins gives the same document: after the first update every plugin's
/// module is listed, so the second adds nothing.
pub proof fn lemma_build_profile_document_idempotent(doc: Json, plugins: Seq<PluginMeta>)
    requires
        build_profile_updated(doc, plugins) is Some,
    ensures
        build_profile_updated(build_profile_updated(doc, plugins)->0, plugins) == build_profile_updated(
            doc,
            plugins,
        ),
{
    let f = doc->Object_0;
    let ms = field(f, "modules"@)->0->Array_0;
    let names = plugin_names(plugins);
    let existing = module_names_in(ms);
    let adds = profile_additions(existing, names);
    let a = profile_modules_after(ms, plugins);
    let am = adds.map_values(|e: (Seq<char>, Seq<char>)| module_json(e.0, e.1));
    lemma_with_field_get(f, "modules"@, Json::Array(a));
    let an = module_names_in(a);
    let after = existing + adds.map_values(|e: (Seq<char>, Seq<char>)| Some(e.0));
    assert forall|w: int| 0 <= w < an.len() implies #[trigger] an[w] == after[w] by {
        if w < ms.len() {
            assert(a[w] == ms[w]);
        } else {
            assert(a[w] == am[w - ms.len()]);
            assert(am[w - ms.len()] == module_json(adds[w - ms.len()].0, adds[w - ms.len()].1));
        }
    }
    assert(an =~= after);
    lemma_build_profile_update_idempotent(existing, names);
    assert(profile_modules_after(a, plugins) =~= a);
    lemma_with_field_twice(f, "modules"@, Json::Array(a));
}


/// Setting a member keeps every key and adds the one set.
proof fn lemma_with_field_keys(f: Seq<(Seq<char>, Json)>, key: Seq<char>, v: Json)
    ensures
        field_keys(with_field(f, key, v)).contains(key),
        forall|x: Seq<char>| field_keys(f).contains(x) ==> field_keys(with_field(f, key, v)).contains(x),
{
    lemma_field_index_from(f, key, 0);
    let g = with_field(f, key, v);
    let gk = field_keys(g);
    let fk = field_keys(f);
    match field_index(f, key) {
        Some(i) => {
            assert(gk[i] == key);
            assert forall|x: Seq<char>| fk.contains(x) implies gk.contains(x) by {
                let w = choose|w: int| 0 <= w < fk.len() && fk[w] == x;
                if w == i {
                    assert(gk[w] == key && fk[w] == key);
                } else {
                    assert(gk[w] == fk[w]);
                }
            }
        },
        None => {
            assert(gk[f.len() as int] == key);
            assert forall|x: Seq<char>| fk.contains(x) implies gk.contains(x) by {
                let w = choose|w: int| 0 <= w < fk.len() && fk[w] == x;
                assert(gk[w] == fk[w]);
            }
        },
    }
}

/// Setting string members keeps every key and adds each key set.
proof fn lemma_with_string_fields_keys(f: Seq<(Seq<char>, Json)>, adds: Seq<(Seq<char>, Seq<char>)>)
    ensures
        forall|x: Seq<char>| field_keys(f).contains(x) ==> field_keys(with_string_fields(f, adds)).contains(x),
        forall|i: int| 0 <= i < adds.len() ==> field_keys(with_string_fields(f, adds)).contains(
            (#[trigger] adds[i]).0,
        ),
    decreases adds.len(),
{
    if adds.len() > 0 {
        let p = adds.drop_last();
        lemma_with_string_fields_keys(f, p);
        lemma_with_field_keys(with_string_fields(f, p), adds.last().0, Json::Str(adds.last().1));
        assert forall|i: int| 0 <= i < adds.len() implies field_keys(with_string_fields(f, adds)).contains(
            (#[trigger] adds[i]).0,
        ) by {
            if i < p.len() {
                assert(adds[i] == p[i]);
            }
        }
    }
}

/// Updating the text of the entry package a second time with the same
/// plugins gives the same document: after the first update every plugin's
/// identifier is a dependency, so the second adds nothing.
pub proof fn lemma_entry_package_document_idempotent(doc: Json, plugins: Seq<PluginMeta>)
    requires
        entry_package_updated(doc, plugins) is Some,
    ensures
        entry_package_updated(entry_package_updated(doc, plugins)->0, plugins) == entry_package_updated(
            doc,
            plugins,
        ),
{
    let f = doc->Object_0;
    let deps = field(f, "dependencies"@)->0->Object_0;
    let existing = field_keys(deps);
    let adds = dependency_additions(existing, plugins);
    let deps2 = with_string_fields(deps, adds);
    lemma_with_field_get(f, "dependencies"@, Json::Object(deps2));
    lemma_with_string_fields_keys(deps, adds);
    lemma_dependencies_covered(existing, plugins);
    let keys2 = field_keys(deps2);
    assert forall|k: int| 0 <= k < plugins.len() implies keys2.contains((#[trigger] plugins[k]).identifier@) by {
        let id = plugins[k].identifier@;
        if !existing.contains(id) {
            let am = adds.map_values(|e: (Seq<char>, Seq<char>)| e.0);
            let w = choose|w: int| 0 <= w < am.len() && am[w] == id;
            assert(adds[w].0 == id);
        }
    }
    lemma_dependencies_nothing_new(keys2, plugins);
    assert(dependency_additions(keys2, plugins) =~= Seq::<(Seq<char>, Seq<char>)>::empty());
    lemma_with_field_twice(f, "dependencies"@, Json::Object(deps2));
}

} // verus!

