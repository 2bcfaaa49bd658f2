//! Discovery, metadata and validation of the Tauri plugins that an
//! OpenHarmony project bundles as HAR modules.
use vstd::prelude::*;
use vstd::string::*;
use crate::path::{join_path, parent_path, path_join, path_parent};
use crate::text::{
    has_prefix, has_suffix, lemma_seq_less_irreflexive, lemma_seq_less_total,
    lemma_seq_less_transitive, push_char, replace, replace_all, seq_less, starts_with, ends_with,
    str_eq, str_less, to_chars,
};

verus! {

/// A plugin found among the dependencies, with the directory of its HAR
/// module (or `__builtin__<name>` for a plugin rendered from the built-in
/// templates).
#[derive(Debug)]
pub struct DetectedPlugin {
    pub name: String,
    pub har_path: String,
}

/// The fields of an `oh-package.json5` manifest that the plugin logic reads.
#[derive(Debug)]
pub struct OhPackage {
    pub name: String,
    pub version: String,
    pub main: Option<String>,
    pub dependencies: Vec<(String, String)>,
}

/// What the project needs to know of one plugin: its crate name, its ArkTS
/// package identifier, its ArkTS class name and the directory of its HAR.
#[derive(Debug)]
pub struct PluginMeta {
    pub name: String,
    pub identifier: String,
    pub class_name: String,
    pub har_path: String,
}

/// Why a plugin, its metadata or its files were refused.
#[derive(Debug)]
pub enum PluginError {
    /// The plugin name is empty or longer than 64 bytes.
    NameLength,
    /// The plugin name holds a character other than an ASCII letter or digit,
    /// `-` or `_`.
    NameCharacters,
    /// The plugin name starts with `-` or `_`.
    NameLeadingSeparator,
    /// The identifier does not start with `@tauri/plugin-`.
    IdentifierPrefix,
    /// The class name does not end with `Plugin`.
    ClassNameSuffix,
    /// Nothing is left of the class name once its `Plugin` suffixes are removed.
    ClassNameEmptyBase,
    /// The class name base holds a character that is not an ASCII letter.
    ClassNameCharacters,
    /// The class name base does not start with an upper-case letter.
    ClassNameLowercase,
    /// No search path of the plugin holds its OpenHarmony HAR.
    HarNotFound { name: String, searched: Vec<String> },
    /// The `Cargo.toml` of the project is no TOML document.
    ManifestParse,
    /// The `oh-package.json5` at `path` is missing or could not be read.
    Package { path: String, reason: String },
    /// The file or directory at `path` could not be read or resolved.
    Io { path: String, reason: String },
    /// The copied HAR directory of the plugin does not exist.
    PluginDirMissing { name: String, path: String },
    /// The copied HAR directory of the plugin has no `oh-package.json5`.
    PluginPackageMissing { name: String },
    /// The copied package names another identifier than the metadata.
    IdentifierMismatch { expected: String, found: String },
    /// The verification of the named plugin failed for `cause`.
    Verification { name: String, cause: Box<PluginError> },
    /// The build profile lists no module of the plugin.
    ModuleNotRegistered { name: String, module: String },
    /// The entry package lists no dependency on the identifier.
    DependencyNotRegistered { identifier: String },
    /// A relative path inside a HAR starts at the root.
    AbsolutePath,
    /// A relative path inside a HAR climbs with `..`.
    ParentTraversal,
    /// A component of a relative path inside a HAR holds `..` or `\`.
    UnsafeComponent { component: String },
    /// A destination path lies outside the plugin directory.
    OutsideDestination { path: String, root: String },
    /// A project file is no JSON5 document.
    DocumentParse,
    /// `build-profile.json5` has no `modules` array.
    NoModulesArray,
    /// The entry package has no `dependencies` object.
    NoDependenciesObject,
    /// An entry module's `module.json5` has no `module` object.
    NoModuleObject,
}

// ------------------------------------------------------------------
// Plugin names
// ------------------------------------------------------------------

/// An ASCII letter or digit.
pub open spec fn is_ascii_alnum(c: char) -> bool {
    ('a' <= c && c <= 'z') || ('A' <= c && c <= 'Z') || ('0' <= c && c <= '9')
}

/// An ASCII letter.
pub open spec fn is_ascii_alpha(c: char) -> bool {
    ('a' <= c && c <= 'z') || ('A' <= c && c <= 'Z')
}

/// A character that a plugin name may hold.
pub open spec fn is_name_char(c: char) -> bool {
    is_ascii_alnum(c) || c == '-' || c == '_'
}

/// The number of bytes that UTF-8 takes for `c`.
pub open spec fn utf8_width(c: char) -> nat {
    if (c as u32) < 0x80 {
        1
    } else if (c as u32) < 0x800 {
        2
    } else if (c as u32) < 0x10000 {
        3
    } else {
        4
    }
}

/// The number of bytes that UTF-8 takes for `s`, which `str::len` gives.
pub open spec fn utf8_len(s: Seq<char>) -> nat
    decreases s.len(),
{
    if s.len() == 0 {
        0
    } else {
        utf8_len(s.drop_last()) + utf8_width(s.last())
    }
}

/// Whether the UTF-8 length of `s` exceeds `limit` bytes.
fn utf8_len_exceeds(s: &[char], limit: usize) -> (r: bool)
    requires
        limit < 1000,
    ensures
        r == (utf8_len(s@) > limit),
{
    let mut total: usize = 0;
    let mut i: usize = 0;
    while i < s.len()
        invariant
            limit < 1000,
            i <= s@.len(),
            total == utf8_len(s@.subrange(0, i as int)),
            total <= limit,
        decreases s.len() - i,
    {
        let u = s[i] as u32;
        let w: usize = if u < 0x80 {
            1
        } else if u < 0x800 {
            2
        } else if u < 0x10000 {
            3
        } else {
            4
        };
        assert(s@.subrange(0, i + 1).drop_last() =~= s@.subrange(0, i as int));
        total = total + w;
        i = i + 1;
        if total > limit {
            proof {
                lemma_utf8_len_prefix(s@, i as int);
            }
            return true;
        }
    }
    assert(s@.subrange(0, i as int) =~= s@);
    false
}

proof fn lemma_utf8_len_prefix(s: Seq<char>, i: int)
    requires
        0 <= i <= s.len(),
    ensures
        utf8_len(s.subrange(0, i)) <= utf8_len(s),
    decreases s.len() - i,
{
    if i < s.len() {
        lemma_utf8_len_prefix(s.drop_last(), i);
        assert(s.drop_last().subrange(0, i) =~= s.subrange(0, i));
    } else {
        assert(s.subrange(0, i) =~= s);
    }
}

/// The outcome of validating a plugin name: its UTF-8 length must be 1 to
/// 64 bytes, it may hold only ASCII letters, digits, `-` and `_`, and must
/// not start with `-` or `_`; the first rule broken decides the error.
pub open spec fn plugin_name_result(name: Seq<char>) -> Result<(), PluginError> {
    if name.len() == 0 || utf8_len(name) > 64 {
        Err(PluginError::NameLength)
    } else if !(forall|i: int| 0 <= i < name.len() ==> is_name_char(#[trigger] name[i])) {
        Err(PluginError::NameCharacters)
    } else if name[0] == '-' || name[0] == '_' {
        Err(PluginError::NameLeadingSeparator)
    } else {
        Ok(())
    }
}

/// Checks that a plugin name is 1 to 64 bytes of ASCII letters, digits,
/// `-` and `_`, not starting with `-` or `_`.
pub fn validate_plugin_name(name: &str) -> (r: Result<(), PluginError>)
    ensures
        r == plugin_name_result(name@),
{
    let chars = to_chars(name);
    if chars.len() == 0 || utf8_len_exceeds(chars.as_slice(), 64) {
        return Err(PluginError::NameLength);
    }
    let mut i: usize = 0;
    while i < chars.len()
        invariant
            chars@ == name@,
            i <= chars@.len(),
            !(name@.len() == 0 || utf8_len(name@) > 64),
            forall|k: int| 0 <= k < i ==> is_name_char(#[trigger] name@[k]),
        decreases chars.len() - i,
    {
        let c = chars[i];
        if !(('a' <= c && c <= 'z') || ('A' <= c && c <= 'Z') || ('0' <= c && c <= '9') || c
            == '-' || c == '_') {
            assert(!is_name_char(name@[i as int]));
            assert(!(forall|k: int| 0 <= k < name@.len() ==> is_name_char(#[trigger] name@[k])));

            return Err(PluginError::NameCharacters);
        }
        i = i + 1;
    }
    if chars[0] == '-' || chars[0] == '_' {
        return Err(PluginError::NameLeadingSeparator);
    }
    Ok(())
}

// ------------------------------------------------------------------
// Identifiers and class names
// ------------------------------------------------------------------

/// `s` with every leading copy of `p` removed, as `trim_start_matches` does.
pub open spec fn strip_prefixes(s: Seq<char>, p: Seq<char>) -> Seq<char>
    decreases s.len(),
{
    if p.len() > 0 && has_prefix(s, p) {
        strip_prefixes(s.subrange(p.len() as int, s.len() as int), p)
    } else {
        s
    }
}

/// `s` with every trailing copy of `p` removed, as `trim_end_matches` does.
pub open spec fn strip_suffixes(s: Seq<char>, p: Seq<char>) -> Seq<char>
    decreases s.len(),
{
    if p.len() > 0 && has_suffix(s, p) {
        strip_suffixes(s.subrange(0, s.len() - p.len()), p)
    } else {
        s
    }
}

/// The outcome of validating an identifier: it must start with
/// `@tauri/plugin-`, and what is left once all such prefixes are removed
/// must be a valid plugin name.
pub open spec fn identifier_result(id: Seq<char>) -> Result<(), PluginError> {
    if !has_prefix(id, "@tauri/plugin-"@) {
        Err(PluginError::IdentifierPrefix)
    } else {
        plugin_name_result(strip_prefixes(id, "@tauri/plugin-"@))
    }
}

fn trim_start_matches<'a>(s: &'a str, p: &str) -> (r: &'a str)
    requires
        p@.len() > 0,
    ensures
        r@ == strip_prefixes(s@, p@),
{
    let mut cur: &str = s;
    let m = p.unicode_len();
    while starts_with(cur, p)
        invariant
            m == p@.len(),
            m > 0,
            strip_prefixes(cur@, p@) == strip_prefixes(s@, p@),
        decreases cur@.len(),
    {
        let n = cur.unicode_len();
        cur = cur.substring_char(m, n);
    }
    cur
}

fn trim_end_matches<'a>(s: &'a str, p: &str) -> (r: &'a str)
    requires
        p@.len() > 0,
    ensures
        r@ == strip_suffixes(s@, p@),
{
    let mut cur: &str = s;
    let m = p.unicode_len();
    while ends_with(cur, p)
        invariant
            m == p@.len(),
            m > 0,
            strip_suffixes(cur@, p@) == strip_suffixes(s@, p@),
        decreases cur@.len(),
    {
        let n = cur.unicode_len();
        cur = cur.substring_char(0, n - m);
    }
    cur
}

/// Checks that an identifier is `@tauri/plugin-` followed by a valid plugin
/// name.
pub fn validate_identifier(identifier: &str) -> (r: Result<(), PluginError>)
    ensures
        r == identifier_result(identifier@),
{
    if !starts_with(identifier, "@tauri/plugin-") {
        return Err(PluginError::IdentifierPrefix);
    }
    proof {
        reveal_strlit("@tauri/plugin-");
    }
    let name_part = trim_start_matches(identifier, "@tauri/plugin-");
    validate_plugin_name(name_part)
}

/// An ASCII upper-case letter.
pub open spec fn is_ascii_upper(c: char) -> bool {
    'A' <= c && c <= 'Z'
}

/// The outcome of validating a class name: it must end with `Plugin`, and
/// the base left once all `Plugin` suffixes are removed must be non-empty,
/// all ASCII letters, and start with an upper-case one.
pub open spec fn class_name_result(c: Seq<char>) -> Result<(), PluginError> {
    let base = strip_suffixes(c, "Plugin"@);
    if !has_suffix(c, "Plugin"@) {
        Err(PluginError::ClassNameSuffix)
    } else if base.len() == 0 {
        Err(PluginError::ClassNameEmptyBase)
    } else if !(forall|i: int| 0 <= i < base.len() ==> is_ascii_alpha(#[trigger] base[i])) {
        Err(PluginError::ClassNameCharacters)
    } else if !is_ascii_upper(base[0]) {
        Err(PluginError::ClassNameLowercase)
    } else {
        Ok(())
    }
}

/// Checks that a class name is an upper-case ASCII word ending with `Plugin`.
pub fn validate_class_name(class_name: &str) -> (r: Result<(), PluginError>)
    ensures
        r == class_name_result(class_name@),
{
    if !ends_with(class_name, "Plugin") {
        return Err(PluginError::ClassNameSuffix);
    }
    proof {
        reveal_strlit("Plugin");
    }
    let base = trim_end_matches(class_name, "Plugin");
    let chars = to_chars(base);
    if chars.len() == 0 {
        return Err(PluginError::ClassNameEmptyBase);
    }
    let mut i: usize = 0;
    while i < chars.len()
        invariant
            chars@ == base@,
            base@ == strip_suffixes(class_name@, "Plugin"@),
            has_suffix(class_name@, "Plugin"@),
            base@.len() > 0,
            i <= chars@.len(),
            forall|k: int| 0 <= k < i ==> is_ascii_alpha(#[trigger] base@[k]),
        decreases chars.len() - i,
    {
        let c = chars[i];
        if !(('a' <= c && c <= 'z') || ('A' <= c && c <= 'Z')) {
            assert(!is_ascii_alpha(base@[i as int]));
            assert(!(forall|k: int| 0 <= k < base@.len() ==> is_ascii_alpha(#[trigger] base@[k])));
            return Err(PluginError::ClassNameCharacters);
        }
        i = i + 1;
    }
    if !('A' <= chars[0] && chars[0] <= 'Z') {
        return Err(PluginError::ClassNameLowercase);
    }
    Ok(())
}

/// The outcome of validating plugin metadata: its name, then its
/// identifier, then its class name; the first failure is the result.
pub open spec fn plugin_meta_result(meta: PluginMeta) -> Result<(), PluginError> {
    if plugin_name_result(meta.name@) is Err {
        plugin_name_result(meta.name@)
    } else if identifier_result(meta.identifier@) is Err {
        identifier_result(meta.identifier@)
    } else {
        class_name_result(meta.class_name@)
    }
}

/// Checks the name, identifier and class name of plugin metadata, in that
/// order.
pub fn validate_plugin_meta(meta: &PluginMeta) -> (r: Result<(), PluginError>)
    ensures
        r == plugin_meta_result(*meta),
{
    validate_plugin_name(meta.name.as_str())?;
    validate_identifier(meta.identifier.as_str())?;
    validate_class_name(meta.class_name.as_str())?;
    Ok(())
}

/// Whether `name` reads as the class name of a plugin in an `index.ets`:
/// ASCII letters only, more than six of them, ending with `Plugin` and
/// starting with an upper-case letter.
pub open spec fn class_name_pattern(name: Seq<char>) -> bool {
    &&& has_suffix(name, "Plugin"@)
    &&& name.len() > 6
    &&& forall|i: int| 0 <= i < name.len() ==> is_ascii_alpha(#[trigger] name[i])
    &&& is_ascii_upper(name[0])
}

/// Whether `name` reads as the class name of a plugin.
pub fn validate_class_name_pattern(name: &str) -> (r: bool)
    ensures
        r == class_name_pattern(name@),
{
    if !ends_with(name, "Plugin") {
        return false;
    }
    let chars = to_chars(name);
    if chars.len() <= 6 {
        return false;
    }
    let mut i: usize = 0;
    while i < chars.len()
        invariant
            chars@ == name@,
            i <= chars@.len(),
            forall|k: int| 0 <= k < i ==> is_ascii_alpha(#[trigger] name@[k]),
        decreases chars.len() - i,
    {
        let c = chars[i];
        if !(('a' <= c && c <= 'z') || ('A' <= c && c <= 'Z')) {
            return false;
        }
        i = i + 1;
    }
    'A' <= chars[0] && chars[0] <= 'Z'
}

/// Removing trailing copies of `p` leaves a prefix of `s`; what was removed
/// is made of characters of `p`, and at least one copy goes when `s` ends
/// with `p`.
proof fn lemma_strip_suffixes_prefix(s: Seq<char>, p: Seq<char>)
    requires
        p.len() > 0,
    ensures
        strip_suffixes(s, p).len() <= s.len(),
        strip_suffixes(s, p) == s.subrange(0, strip_suffixes(s, p).len() as int),
        has_suffix(s, p) ==> strip_suffixes(s, p).len() + p.len() <= s.len(),
        (forall|k: int| 0 <= k < p.len() ==> is_ascii_alpha(#[trigger] p[k])) ==> forall|i: int|
            strip_suffixes(s, p).len() <= i < s.len() ==> is_ascii_alpha(#[trigger] s[i]),
    decreases s.len(),
{
    if has_suffix(s, p) {
        let t = s.subrange(0, s.len() - p.len());
        lemma_strip_suffixes_prefix(t, p);
        let r = strip_suffixes(t, p);
        assert(r =~= s.subrange(0, r.len() as int));
        if forall|k: int| 0 <= k < p.len() ==> is_ascii_alpha(#[trigger] p[k]) {
            assert forall|i: int| r.len() <= i < s.len() implies is_ascii_alpha(#[trigger] s[i]) by {
                if i < t.len() {
                    assert(s[i] == t[i]);
                } else {
                    assert(s[i] == s.subrange(s.len() - p.len(), s.len() as int)[i - t.len()]);
                    assert(is_ascii_alpha(p[i - t.len()]));
                }
            }
        }
    } else {
        assert(s =~= s.subrange(0, s.len() as int));
    }
}

/// A class name passes `validate_class_name` exactly when it matches the
/// class-name pattern and something is left of it once every trailing
/// `Plugin` is removed.
pub proof fn lemma_class_name_valid_iff_pattern(name: Seq<char>)
    ensures
        class_name_result(name) is Ok <==> (class_name_pattern(name) && strip_suffixes(
            name,
            "Plugin"@,
        ).len() > 0),
{
    reveal_strlit("Plugin");
    let p = "Plugin"@;
    assert(p.len() == 6);
    assert forall|k: int| 0 <= k < p.len() implies is_ascii_alpha(#[trigger] p[k]) by {
        assert(p[0] == 'P' && p[1] == 'l' && p[2] == 'u' && p[3] == 'g' && p[4] == 'i' && p[5]
            == 'n');
    }
    lemma_strip_suffixes_prefix(name, p);
    let base = strip_suffixes(name, p);
    if class_name_result(name) is Ok {
        assert forall|i: int| 0 <= i < name.len() implies is_ascii_alpha(#[trigger] name[i]) by {
            if i < base.len() {
                assert(name[i] == base[i]);
                assert(is_ascii_alpha(base[i]));
            }
        }
        assert(name[0] == base[0]);
    }
    if class_name_pattern(name) && base.len() > 0 {
        assert forall|i: int| 0 <= i < base.len() implies is_ascii_alpha(#[trigger] base[i]) by {
            assert(base[i] == name[i]);
        }
        assert(base[0] == name[0]);
    }
}


// ------------------------------------------------------------------
// Plugins among the dependencies
// ------------------------------------------------------------------

/// Every two entries of `s` are in strictly increasing order.
pub open spec fn strictly_sorted(s: Seq<Seq<char>>) -> bool {
    forall|i: int, j: int| 0 <= i < j < s.len() ==> seq_less(s[i], s[j])
}

/// The plugin names that a list of dependency names yields: each name that
/// starts with `tauri-plugin-`, with every `tauri-plugin-` in it removed.
pub open spec fn plugin_names_of(deps: Seq<Seq<char>>) -> Set<Seq<char>> {
    Set::new(
        |n: Seq<char>|
            exists|i: int|
                0 <= i < deps.len() && has_prefix(deps[i], "tauri-plugin-"@) && n == replace_all(
                    #[trigger] deps[i],
                    "tauri-plugin-"@,
                    seq![],
                ),
    )
}

/// Inserts `x` into a strictly sorted list unless it is already there.
fn insert_sorted(v: &mut Vec<String>, x: String)
    requires
        strictly_sorted(old(v).deep_view()),
    ensures
        strictly_sorted(final(v).deep_view()),
        final(v).deep_view().to_set() == old(v).deep_view().to_set().insert(x@),
{
    let ghost old_dv = v.deep_view();
    let mut i: usize = 0;
    while i < v.len() && str_less(v[i].as_str(), x.as_str())
        invariant
            v.deep_view() == old_dv,
            strictly_sorted(old_dv),
            i <= v@.len(),
            forall|k: int| 0 <= k < i ==> seq_less(#[trigger] old_dv[k], x@),
        decreases v.len() - i,
    {
        i = i + 1;
    }
    if i < v.len() && str_eq(v[i].as_str(), x.as_str()) {
        assert(old_dv[i as int] == x@);
        assert(old_dv.to_set().insert(x@) =~= old_dv.to_set());
        return;
    }
    proof {
        assert forall|k: int| i <= k < old_dv.len() implies seq_less(x@, #[trigger] old_dv[k]) by {
            lemma_seq_less_total(old_dv[i as int], x@);
            if k > i {
                lemma_seq_less_transitive(x@, old_dv[i as int], old_dv[k]);
            }
        }
    }
    v.insert(i, x);
    proof {
        let dv = v.deep_view();
        assert(dv =~= old_dv.insert(i as int, x@));
        assert forall|a: int, b: int| 0 <= a < b < dv.len() implies seq_less(dv[a], dv[b]) by {
            if b < i {
            } else if b == i {
            } else if a < i {
                lemma_seq_less_transitive(dv[a], x@, dv[b]);
            } else if a == i {
            } else {
            }
        }
        assert(dv.to_set() =~= old_dv.to_set().insert(x@)) by {
            assert forall|y: Seq<char>| dv.to_set().contains(y) implies old_dv.to_set().insert(
                x@,
            ).contains(y) by {
                let k = choose|k: int| 0 <= k < dv.len() && dv[k] == y;
                if k < i {
                    assert(old_dv[k] == y);
                } else if k > i {
                    assert(old_dv[k - 1] == y);
                }
            }
            assert forall|y: Seq<char>| old_dv.to_set().insert(x@).contains(y) implies dv.to_set().contains(y) by {
                if y == x@ {
                    assert(dv[i as int] == y);
                } else {
                    let k = choose|k: int| 0 <= k < old_dv.len() && old_dv[k] == y;
                    if k < i {
                        assert(dv[k] == y);
                    } else {
                        assert(dv[k + 1] == y);
                    }
                }
            }
        }
    }
}

/// The plugins among a list of dependency names (as the `dependencies`
/// tables of a `Cargo.toml` list them): each name that starts with
/// `tauri-plugin-`, with every `tauri-plugin-` in it removed, sorted and
/// without duplicates.
pub fn detect_plugins(dependency_names: &Vec<String>) -> (r: Vec<String>)
    ensures
        strictly_sorted(r.deep_view()),
        r.deep_view().to_set() == plugin_names_of(dependency_names.deep_view()),
{
    let ghost deps = dependency_names.deep_view();
    let mut out: Vec<String> = Vec::new();
    let mut i: usize = 0;
    while i < dependency_names.len()
        invariant
            deps == dependency_names.deep_view(),
            i <= deps.len(),
            strictly_sorted(out.deep_view()),
            out.deep_view().to_set() == Set::new(
                |n: Seq<char>|
                    exists|k: int|
                        0 <= k < i && has_prefix(deps[k], "tauri-plugin-"@) && n == replace_all(
                            #[trigger] deps[k],
                            "tauri-plugin-"@,
                            seq![],
                        ),
            ),
        decreases dependency_names.len() - i,
    {
        let ghost before = out.deep_view().to_set();
        let dep = &dependency_names[i];
        assert(dep@ == deps[i as int]);
        if starts_with(dep.as_str(), "tauri-plugin-") {
            proof {
                reveal_strlit("tauri-plugin-");
                reveal_strlit("");
            }
            let name = replace(dep.as_str(), "tauri-plugin-", "");
            assert(""@ =~= Seq::<char>::empty());
            let ghost nv = name@;
            insert_sorted(&mut out, name);
            let ghost after = Set::new(
                |n: Seq<char>|
                    exists|k: int|
                        0 <= k < i + 1 && has_prefix(deps[k], "tauri-plugin-"@) && n == replace_all(
                            #[trigger] deps[k],
                            "tauri-plugin-"@,
                            seq![],
                        ),
            );
            assert forall|y: Seq<char>| after.contains(y) implies before.insert(nv).contains(y) by {
                let k = choose|k: int|
                    0 <= k < i + 1 && has_prefix(deps[k], "tauri-plugin-"@) && y == replace_all(
                        #[trigger] deps[k],
                        "tauri-plugin-"@,
                        seq![],
                    );
                if k < i {
                    assert(before.contains(y));
                }
            }
            assert forall|y: Seq<char>| before.insert(nv).contains(y) implies after.contains(y) by {
                if y == nv {
                    assert(has_prefix(deps[i as int], "tauri-plugin-"@));
                } else {
                    let k = choose|k: int|
                        0 <= k < i && has_prefix(deps[k], "tauri-plugin-"@) && y == replace_all(
                            #[trigger] deps[k],
                            "tauri-plugin-"@,
                            seq![],
                        );
                    assert(0 <= k < i + 1);
                }
            }
            assert(out.deep_view().to_set() =~= Set::new(
                |n: Seq<char>|
                    exists|k: int|
                        0 <= k < i + 1 && has_prefix(deps[k], "tauri-plugin-"@) && n == replace_all(
                            #[trigger] deps[k],
                            "tauri-plugin-"@,
                            seq![],
                        ),
            ));
        } else {
            assert(out.deep_view().to_set() =~= Set::new(
                |n: Seq<char>|
                    exists|k: int|
                        0 <= k < i + 1 && has_prefix(deps[k], "tauri-plugin-"@) && n == replace_all(
                            #[trigger] deps[k],
                            "tauri-plugin-"@,
                            seq![],
                        ),
            ));
        }
        i = i + 1;
    }
    assert(out.deep_view().to_set() =~= plugin_names_of(deps));
    out
}

/// Whether `toml_edit` parses `text` as a TOML document.
pub uninterp spec fn toml_document_parses(text: Seq<char>) -> bool;

/// The keys, in the order `toml_edit` yields them, of the table under `key`
/// at the top of the TOML document `text`; none when the text does not
/// parse or that item is no table.
pub uninterp spec fn toml_table_keys(text: Seq<char>, key: Seq<char>) -> Option<Seq<Seq<char>>>;

/// The keys, in the order `toml_edit` yields them, of the table at
/// `k1.k2.k3` of the TOML document `text`; none when the text does not parse
/// or an item on that path is no table.
pub uninterp spec fn toml_nested_table_keys(
    text: Seq<char>,
    k1: Seq<char>,
    k2: Seq<char>,
    k3: Seq<char>,
) -> Option<Seq<Seq<char>>>;

/// Whether `text` parses as a TOML document (`str::parse` into
/// `toml_edit::DocumentMut`). The contract claims that the result is the
/// fact named `toml_document_parses`.
#[verifier::external_body]
fn toml_parses(text: &str) -> (r: bool)
    ensures
        r == toml_document_parses(text@),
{
    text.parse::<toml_edit::DocumentMut>().is_ok()
}

/// The keys of a top-level table of a TOML document (`toml_edit`: parse,
/// `Table::get`, `Item::as_table`, `Table::iter`). The contract claims that
/// the result is the value named `toml_table_keys`, and, as the body shows,
/// none for a text that does not parse.
#[verifier::external_body]
fn table_keys(text: &str, key: &str) -> (r: Option<Vec<String>>)
    ensures
        r.deep_view() == toml_table_keys(text@, key@),
        !toml_document_parses(text@) ==> r is None,
{
    let doc = text.parse::<toml_edit::DocumentMut>().ok()?;
    let table = doc.get(key)?.as_table()?;
    Some(table.iter().map(|(k, _)| k.to_string()).collect())
}

/// The keys of the table at `k1.k2.k3` of a TOML document (`toml_edit`:
/// parse, then `Table::get` and `Item::as_table` along the path, then
/// `Table::iter`). The contract claims that the result is the value named
/// `toml_nested_table_keys`.
#[verifier::external_body]
fn nested_table_keys(text: &str, k1: &str, k2: &str, k3: &str) -> (r: Option<Vec<String>>)
    ensures
        r.deep_view() == toml_nested_table_keys(text@, k1@, k2@, k3@),
{
    let doc = text.parse::<toml_edit::DocumentMut>().ok()?;
    let t1 = doc.get(k1)?.as_table()?;
    let t2 = t1.get(k2)?.as_table()?;
    let t3 = t2.get(k3)?.as_table()?;
    Some(t3.iter().map(|(k, _)| k.to_string()).collect())
}

/// The keys of an optional table, none counting as empty.
pub open spec fn keys_or_empty(k: Option<Seq<Seq<char>>>) -> Seq<Seq<char>> {
    match k {
        Some(v) => v,
        None => seq![],
    }
}

/// The dependency names of the `target.<t>.dependencies` tables of a
/// manifest, for the target keys `targets`, in order.
pub open spec fn target_dependency_names(text: Seq<char>, targets: Seq<Seq<char>>) -> Seq<
    Seq<char>,
>
    decreases targets.len(),
{
    if targets.len() == 0 {
        seq![]
    } else {
        target_dependency_names(text, targets.drop_last()) + keys_or_empty(
            toml_nested_table_keys(text, "target"@, targets.last(), "dependencies"@),
        )
    }
}

/// The dependency names of a `Cargo.toml`: those of `[dependencies]`, then
/// those of each `[target.<t>.dependencies]`.
pub open spec fn manifest_dependency_names(text: Seq<char>) -> Seq<Seq<char>> {
    keys_or_empty(toml_table_keys(text, "dependencies"@)) + target_dependency_names(
        text,
        keys_or_empty(toml_table_keys(text, "target"@)),
    )
}

/// The Tauri plugins that a `Cargo.toml` depends on, as `detect_plugins`
/// finds them among its dependency names; an error when the text is no
/// TOML document.
pub fn detect_plugins_in_manifest(manifest: &str) -> (r: Result<Vec<String>, PluginError>)
    ensures
        r is Err <==> !toml_document_parses(manifest@),
        r matches Err(e) ==> e is ManifestParse,
        r matches Ok(v) ==> strictly_sorted(v.deep_view()) && v.deep_view().to_set()
            == plugin_names_of(manifest_dependency_names(manifest@)),
{
    if !toml_parses(manifest) {
        return Err(PluginError::ManifestParse);
    }
    let mut names: Vec<String> = match table_keys(manifest, "dependencies") {
        Some(k) => k,
        None => Vec::new(),
    };
    proof {
        reveal_strlit("dependencies");
    }
    assert(names.deep_view() =~= keys_or_empty(toml_table_keys(manifest@, "dependencies"@)));
    let targets: Vec<String> = match table_keys(manifest, "target") {
        Some(k) => k,
        None => Vec::new(),
    };
    let ghost tv = targets.deep_view();
    assert(tv =~= keys_or_empty(toml_table_keys(manifest@, "target"@)));
    let ghost top = names.deep_view();
    let mut i: usize = 0;
    while i < targets.len()
        invariant
            tv == targets.deep_view(),
            i <= tv.len(),
            names.deep_view() == top + target_dependency_names(manifest@, tv.subrange(0, i as int)),
        decreases targets.len() - i,
    {
        let ghost before = names.deep_view();
        let mut more = match nested_table_keys(manifest, "target", targets[i].as_str(), "dependencies") {
            Some(k) => k,
            None => Vec::new(),
        };
        let ghost mv = more.deep_view();
        assert(mv =~= keys_or_empty(
            toml_nested_table_keys(manifest@, "target"@, tv[i as int], "dependencies"@),
        ));
        names.append(&mut more);
        assert(names.deep_view() =~= before + mv);
        assert(tv.subrange(0, i + 1).drop_last() =~= tv.subrange(0, i as int));
        i = i + 1;
    }
    assert(tv.subrange(0, tv.len() as int) =~= tv);
    Ok(detect_plugins(&names))
}


// ------------------------------------------------------------------
// Class names
// ------------------------------------------------------------------

/// What `char::to_uppercase` yields for `c` under the Unicode case tables.
pub uninterp spec fn unicode_upper(c: char) -> Seq<char>;

/// An ASCII lower-case letter.
pub open spec fn is_ascii_lower(c: char) -> bool {
    'a' <= c && c <= 'z'
}

/// The upper-case form of `c` (std's `char::to_uppercase`, collected into a
/// string). The contract claims that the result is the case mapping named
/// `unicode_upper`, and, as std documents for ASCII, that an ASCII lower-case
/// letter maps to its upper-case letter (`ascii_upper`, 32 code points
/// below) and any other ASCII character to itself. The mapping of other characters is left to the name.
#[verifier::external_body]
fn char_to_upper(c: char) -> (r: String)
    ensures
        r@ == unicode_upper(c),
        is_ascii_lower(c) ==> r@ == seq![ascii_upper(c)],
        (c as u32) < 128 && !is_ascii_lower(c) ==> r@ == seq![c],
{
    c.to_uppercase().collect()
}

/// The text that character `i` of a plugin name adds to its class name: a
/// `-` adds nothing, the first character of a word adds its upper-case form,
/// and any other character adds itself.
pub open spec fn word_piece(s: Seq<char>, i: int) -> Seq<char> {
    if s[i] == '-' {
        seq![]
    } else if i == 0 || s[i - 1] == '-' {
        unicode_upper(s[i])
    } else {
        seq![s[i]]
    }
}

/// The `-`-separated words of `s`, each with its first character upper-cased,
/// concatenated.
pub open spec fn pascal_case(s: Seq<char>) -> Seq<char>
    decreases s.len(),
{
    if s.len() == 0 {
        seq![]
    } else {
        pascal_case(s.drop_last()) + word_piece(s, s.len() - 1)
    }
}

/// The class name inferred for a plugin: its name in Pascal case, followed by
/// `Plugin`.
pub open spec fn inferred_class_name(name: Seq<char>) -> Seq<char> {
    pascal_case(name) + "Plugin"@
}

/// Whether every character of `s` is ASCII.
pub open spec fn is_ascii_text(s: Seq<char>) -> bool {
    forall|i: int| 0 <= i < s.len() ==> (#[trigger] s[i] as u32) < 128
}

/// The upper-case form of an ASCII character: a lower-case letter becomes
/// the letter 32 code points below, any other character stays.
pub open spec fn ascii_upper(c: char) -> char {
    if is_ascii_lower(c) {
        ((c as u32) - 32) as char
    } else {
        c
    }
}

/// `word_piece` for an ASCII name, with the case mapping spelled out.
pub open spec fn ascii_word_piece(s: Seq<char>, i: int) -> Seq<char> {
    if s[i] == '-' {
        seq![]
    } else if i == 0 || s[i - 1] == '-' {
        seq![ascii_upper(s[i])]
    } else {
        seq![s[i]]
    }
}

/// `pascal_case` for an ASCII name, with the case mapping spelled out.
pub open spec fn ascii_pascal_case(s: Seq<char>) -> Seq<char>
    decreases s.len(),
{
    if s.len() == 0 {
        seq![]
    } else {
        ascii_pascal_case(s.drop_last()) + ascii_word_piece(s, s.len() - 1)
    }
}

/// Infers the ArkTS class name of a plugin from its name: `global-shortcut`
/// gives `GlobalShortcutPlugin`.
pub fn infer_class_name(plugin_name: &str) -> (r: String)
    ensures
        r@ == inferred_class_name(plugin_name@),
        is_ascii_text(plugin_name@) ==> r@ == ascii_pascal_case(plugin_name@) + "Plugin"@,
{
    let chars = to_chars(plugin_name);
    let mut out = String::new();
    let mut i: usize = 0;
    while i < chars.len()
        invariant
            chars@ == plugin_name@,
            i <= chars@.len(),
            out@ == pascal_case(plugin_name@.subrange(0, i as int)),
            is_ascii_text(plugin_name@) ==> out@ == ascii_pascal_case(
                plugin_name@.subrange(0, i as int),
            ),
        decreases chars.len() - i,
    {
        let ghost pre = plugin_name@.subrange(0, i + 1);
        assert(pre.drop_last() =~= plugin_name@.subrange(0, i as int));
        assert(word_piece(pre, i as int) == word_piece(plugin_name@, i as int));
        assert(ascii_word_piece(pre, i as int) == ascii_word_piece(plugin_name@, i as int));
        let c = chars[i];
        if c == '-' {
            assert(out@ + Seq::<char>::empty() =~= out@);
        } else if i == 0 || chars[i - 1] == '-' {
            let up = char_to_upper(c);
            proof {
                if is_ascii_text(plugin_name@) {
                    assert((plugin_name@[i as int] as u32) < 128);
                    if is_ascii_lower(c) {
                        assert(up@ =~= seq![ascii_upper(c)]);
                    } else {
                        assert(up@ =~= seq![ascii_upper(c)]);
                    }
                }
            }
            out.append(up.as_str());
        } else {
            push_char(&mut out, c);
        }
        i = i + 1;
    }
    assert(plugin_name@.subrange(0, chars@.len() as int) =~= plugin_name@);
    out.append("Plugin");
    out
}

/// The plugins whose ArkTS side is rendered from built-in templates: the
/// identifier and class name of the plugin called `name`, if it is one.
pub open spec fn builtin_entry(name: Seq<char>) -> Option<(Seq<char>, Seq<char>)> {
    if name == "dialog"@ {
        Some(("@tauri/plugin-dialog"@, "DialogPlugin"@))
    } else if name == "notification"@ {
        Some(("@tauri/plugin-notification"@, "NotificationPlugin"@))
    } else if name == "global-shortcut"@ {
        Some(("@tauri/plugin-global-shortcut"@, "GlobalShortcutPlugin"@))
    } else {
        None
    }
}

/// The identifier and class name of a built-in plugin.
pub fn builtin_plugin(name: &str) -> (r: Option<(&'static str, &'static str)>)
    ensures
        r is None <==> builtin_entry(name@) is None,
        r matches Some((id, class)) ==> builtin_entry(name@) == Some((id@, class@)),
{
    if str_eq(name, "dialog") {
        Some(("@tauri/plugin-dialog", "DialogPlugin"))
    } else if str_eq(name, "notification") {
        Some(("@tauri/plugin-notification", "NotificationPlugin"))
    } else if str_eq(name, "global-shortcut") {
        Some(("@tauri/plugin-global-shortcut", "GlobalShortcutPlugin"))
    } else {
        None
    }
}

/// What the `regex` crate finds for `pattern` in `haystack`: none when the
/// pattern does not compile, else the text of capture group 1 of each
/// successive non-overlapping match (none where the group took no part).
pub uninterp spec fn regex_group1(pattern: Seq<char>, haystack: Seq<char>) -> Option<
    Seq<Option<Seq<char>>>,
>;

/// Compiles `pattern` with `regex::Regex::new` and lists capture group 1 of
/// each match that `Regex::captures_iter` yields on `haystack`. The contract
/// claims only that the outcome is `regex_group1` of the two texts: the
/// matching itself is the `regex` crate's and is not stated here.
#[verifier::external_body]
fn regex_captures(pattern: &str, haystack: &str) -> (r: Option<Vec<Option<String>>>)
    ensures
        r.deep_view() == regex_group1(pattern@, haystack@),
{
    match regex::Regex::new(pattern) {
        Ok(re) => Some(
            re.captures_iter(haystack).map(|c| c.get(1).map(|m| m.as_str().to_string())).collect(),
        ),
        Err(_) => None,
    }
}

/// The first capture, in order, that reads as a plugin class name.
pub open spec fn first_class_capture(caps: Seq<Option<Seq<char>>>) -> Option<Seq<char>>
    decreases caps.len(),
{
    if caps.len() == 0 {
        None
    } else {
        match caps[0] {
            Some(m) => if class_name_pattern(m) {
                Some(m)
            } else {
                first_class_capture(caps.drop_first())
            },
            None => first_class_capture(caps.drop_first()),
        }
    }
}

/// The class name that the outcomes of the `index.ets` patterns, taken in
/// order, give: none as soon as a pattern fails to compile, else the first
/// capture of the first pattern that has one reading as a class name.
pub open spec fn first_class_name(results: Seq<Option<Seq<Option<Seq<char>>>>>) -> Option<
    Seq<char>,
>
    decreases results.len(),
{
    if results.len() == 0 {
        None
    } else {
        match results[0] {
            None => None,
            Some(caps) => match first_class_capture(caps) {
                Some(m) => Some(m),
                None => first_class_name(results.drop_first()),
            },
        }
    }
}

/// Picks the class name out of the outcomes of the `index.ets` patterns, as
/// `first_class_name` states.
pub fn first_class_name_in(results: &Vec<Option<Vec<Option<String>>>>) -> (r: Option<String>)
    ensures
        r.deep_view() == first_class_name(results.deep_view()),
{
    let ghost all = results.deep_view();
    let mut i: usize = 0;
    assert(all.subrange(0, all.len() as int) =~= all);
    while i < results.len()
        invariant
            all == results.deep_view(),
            i <= all.len(),
            first_class_name(all) == first_class_name(all.subrange(i as int, all.len() as int)),
        decreases results.len() - i,
    {
        let ghost rest = all.subrange(i as int, all.len() as int);
        assert(rest[0] == results@[i as int].deep_view());
        assert(rest.drop_first() =~= all.subrange(i + 1, all.len() as int));
        match &results[i] {
            None => {
                return None;
            },
            Some(caps) => {
                let ghost cv = caps.deep_view();
                let mut j: usize = 0;
                assert(cv.subrange(0, cv.len() as int) =~= cv);
                while j < caps.len()
                    invariant
                        cv == caps.deep_view(),
                        rest[0] == Some(cv),
                        rest == all.subrange(i as int, all.len() as int),
                        rest.len() > 0,
                        i < all.len(),
                        all == results.deep_view(),
                        first_class_name(all) == first_class_name(rest),
                        j <= cv.len(),
                        first_class_capture(cv) == first_class_capture(
                            cv.subrange(j as int, cv.len() as int),
                        ),
                    decreases caps.len() - j,
                {
                    let ghost crest = cv.subrange(j as int, cv.len() as int);
                    assert(crest[0] == caps@[j as int].deep_view());
                    assert(crest.drop_first() =~= cv.subrange(j + 1, cv.len() as int));
                    if let Some(m) = &caps[j] {
                        if validate_class_name_pattern(m.as_str()) {
                            assert(crest[0] == Some(m@));
                            assert(first_class_capture(crest) == Some(m@));
                            assert(first_class_name(rest) == Some(m@));
                            let found: String = m.clone();
                            assert(found@ == m@);
                            assert(Some(found).deep_view() == Some(m@));
                            return Some(found);
                        }
                    }
                    j = j + 1;
                }
            },
        }
        i = i + 1;
    }
    None
}

/// The patterns by which an `index.ets` exports a plugin class, in the
/// order they are tried.
pub open spec fn index_patterns() -> Seq<Seq<char>> {
    seq![
        "export\\s+\\{\\s*\\w+\\s+as\\s+(\\w+Plugin)\\s*\\}"@,
        "export\\s+default\\s+class\\s+(\\w+Plugin)"@,
        "export\\s+class\\s+(\\w+Plugin)\\s+extends\\s+Plugin"@,
    ]
}

/// The class name that an `index.ets` text exports, as `regex_group1`
/// finds it for each of `index_patterns`.
pub open spec fn index_class_name(content: Seq<char>) -> Option<Seq<char>> {
    first_class_name(index_patterns().map_values(|p: Seq<char>| regex_group1(p, content)))
}

/// The plugin class name that the text of an `index.ets` exports, if any:
/// the first match of the re-export, default-export and subclass patterns
/// that reads as a class name.
pub fn class_name_from_index(content: &str) -> (r: Option<String>)
    ensures
        r.deep_view() == index_class_name(content@),
{
    let mut results: Vec<Option<Vec<Option<String>>>> = Vec::new();
    results.push(regex_captures("export\\s+\\{\\s*\\w+\\s+as\\s+(\\w+Plugin)\\s*\\}", content));
    results.push(regex_captures("export\\s+default\\s+class\\s+(\\w+Plugin)", content));
    results.push(regex_captures("export\\s+class\\s+(\\w+Plugin)\\s+extends\\s+Plugin", content));
    assert(results.deep_view() =~= index_patterns().map_values(
        |p: Seq<char>| regex_group1(p, content@),
    ));
    first_class_name_in(&results)
}

// ------------------------------------------------------------------
// Plugin metadata
// ------------------------------------------------------------------

/// What was read of a plugin's HAR directory: its parsed `oh-package.json5`
/// (or why it could not be had) and the text of its `src/main/ets/index.ets`
/// if that file exists and could be read.
#[derive(Debug)]
pub struct PluginSource {
    pub oh_package: Result<OhPackage, PluginError>,
    pub index_ets: Option<String>,
}

/// The class name of a plugin that is not built in: the one its `index.ets`
/// exports, or else the one inferred from its name.
pub open spec fn source_class_name(name: Seq<char>, index_ets: Option<String>) -> Seq<char> {
    match index_ets {
        Some(content) => match index_class_name(content@) {
            Some(c) => c,
            None => inferred_class_name(name),
        },
        None => inferred_class_name(name),
    }
}

/// Whether `r` is the metadata that `parse_plugin_meta` owes for a plugin.
pub open spec fn plugin_meta_outcome(
    har_path: Seq<char>,
    name: Seq<char>,
    source: PluginSource,
    r: Result<PluginMeta, PluginError>,
) -> bool {
    match builtin_entry(name) {
        Some((id, class)) => r matches Ok(m) && m.name@ == name && m.identifier@ == id
            && m.class_name@ == class && m.har_path@ == har_path,
        None => match source.oh_package {
            Err(e) => r == Err::<PluginMeta, PluginError>(e),
            Ok(p) => r matches Ok(m) && m.name@ == name && m.identifier@ == p.name@
                && m.class_name@ == source_class_name(name, source.index_ets) && m.har_path@
                == har_path,
        },
    }
}

/// The metadata of a plugin: a built-in one takes its identifier and class
/// name from the built-in table; any other takes its identifier from its
/// `oh-package.json5` and its class name from its `index.ets` or, failing
/// that, from its name.
pub fn parse_plugin_meta(har_path: &str, plugin_name: &str, source: PluginSource) -> (r: Result<
    PluginMeta,
    PluginError,
>)
    ensures
        plugin_meta_outcome(har_path@, plugin_name@, source, r),
{
    if let Some((identifier, class_name)) = builtin_plugin(plugin_name) {
        return Ok(
            PluginMeta {
                name: plugin_name.to_owned(),
                identifier: identifier.to_owned(),
                class_name: class_name.to_owned(),
                har_path: har_path.to_owned(),
            },
        );
    }
    let ghost src = source;
    let PluginSource { oh_package, index_ets } = source;
    let package = match oh_package {
        Ok(p) => p,
        Err(e) => {
            return Err(e);
        },
    };
    let from_index = match &index_ets {
        Some(content) => class_name_from_index(content.as_str()),
        None => None,
    };
    let class_name = match from_index {
        Some(c) => c,
        None => infer_class_name(plugin_name),
    };
    Ok(
        PluginMeta {
            name: plugin_name.to_owned(),
            identifier: package.name,
            class_name,
            har_path: har_path.to_owned(),
        },
    )
}


// ------------------------------------------------------------------
// Locating plugin HARs
// ------------------------------------------------------------------

/// `base/plugins-workspace/plugins/<name>/openharmony`.
pub open spec fn workspace_har_dir(base: Seq<char>, name: Seq<char>) -> Seq<char> {
    path_join(
        path_join(path_join(path_join(base, "plugins-workspace"@), "plugins"@), name),
        "openharmony"@,
    )
}

/// The grandparent of `p`, if it has one.
pub open spec fn grandparent(p: Seq<char>) -> Option<Seq<char>> {
    match path_parent(p) {
        Some(q) => path_parent(q),
        None => None,
    }
}

/// The directories searched, in order, for the OpenHarmony HAR of a plugin:
/// under the project's `plugins`, under the `plugins-workspace` beside the
/// project's grandparent (the empty path when it has none), and under the
/// `plugins-workspace` of the Tauri workspace root.
pub open spec fn plugin_search_paths_of(name: Seq<char>, project: Seq<char>, root: Seq<char>) -> Seq<
    Seq<char>,
> {
    seq![
        path_join(path_join(path_join(project, "plugins"@), name), "openharmony"@),
        match grandparent(project) {
            Some(g) => workspace_har_dir(g, name),
            None => seq![],
        },
        workspace_har_dir(root, name),
    ]
}

fn workspace_har_path(base: &str, name: &str) -> (r: String)
    ensures
        r@ == workspace_har_dir(base@, name@),
{
    let a = join_path(base, "plugins-workspace");
    let b = join_path(a.as_str(), "plugins");
    let c = join_path(b.as_str(), name);
    join_path(c.as_str(), "openharmony")
}

/// The directories searched for the OpenHarmony HAR of a plugin, given the
/// canonical project directory and the Tauri workspace root.
pub fn plugin_search_paths(plugin_name: &str, canonical_project: &str, workspace_root: &str) -> (r:
    Vec<String>)
    ensures
        r.deep_view() == plugin_search_paths_of(plugin_name@, canonical_project@, workspace_root@),
{
    let a = join_path(canonical_project, "plugins");
    let b = join_path(a.as_str(), plugin_name);
    let first = join_path(b.as_str(), "openharmony");
    let second = match parent_path(canonical_project) {
        Some(p) => match parent_path(p.as_str()) {
            Some(g) => workspace_har_path(g.as_str(), plugin_name),
            None => String::new(),
        },
        None => String::new(),
    };
    let third = workspace_har_path(workspace_root, plugin_name);
    let mut r: Vec<String> = Vec::new();
    r.push(first);
    r.push(second);
    r.push(third);
    assert(r.deep_view() =~= plugin_search_paths_of(
        plugin_name@,
        canonical_project@,
        workspace_root@,
    ));
    r
}

/// The Tauri workspace root: `TAURI_WORKSPACE_ROOT` when set, else the
/// grandparent of `CARGO_MANIFEST_DIR`, else the empty path.
pub open spec fn workspace_root_of(workspace_var: Option<Seq<char>>, manifest_dir_var: Option<
    Seq<char>,
>) -> Seq<char> {
    match workspace_var {
        Some(root) => root,
        None => {
            let dir = match manifest_dir_var {
                Some(d) => d,
                None => seq![],
            };
            match grandparent(dir) {
                Some(g) => g,
                None => seq![],
            }
        },
    }
}

/// The Tauri workspace root, from the values of `TAURI_WORKSPACE_ROOT` and
/// `CARGO_MANIFEST_DIR` (none where unset).
pub fn get_tauri_workspace_root(workspace_var: Option<String>, manifest_dir_var: Option<String>) -> (r:
    String)
    ensures
        r@ == workspace_root_of(workspace_var.deep_view(), manifest_dir_var.deep_view()),
{
    if let Some(root) = workspace_var {
        return root;
    }
    let dir = match manifest_dir_var {
        Some(d) => d,
        None => String::new(),
    };
    match parent_path(dir.as_str()) {
        Some(p) => match parent_path(p.as_str()) {
            Some(g) => g,
            None => String::new(),
        },
        None => String::new(),
    }
}

/// The first of the three search paths that exists, by the flags in `exists`.
pub open spec fn first_existing(exists: Seq<bool>) -> Option<int> {
    if exists.len() > 0 && exists[0] {
        Some(0)
    } else if exists.len() > 1 && exists[1] {
        Some(1)
    } else if exists.len() > 2 && exists[2] {
        Some(2)
    } else {
        None
    }
}

/// The first existing search path is the earliest of the three whose flag
/// is set: its flag is set and no earlier one is; there is none exactly
/// when none of the three flags is set.
pub proof fn lemma_first_existing_is_first(exists: Seq<bool>)
    ensures
        match first_existing(exists) {
            Some(i) => 0 <= i < 3 && i < exists.len() && exists[i] && forall|j: int|
                0 <= j < i ==> !(j < exists.len() && #[trigger] exists[j]),
            None => forall|k: int| 0 <= k < 3 ==> !(k < exists.len() && #[trigger] exists[k]),
        },
{
}

/// The three search paths of a plugin, in order: `plugins/<name>/openharmony`
/// under the project, the `plugins-workspace` one beside the project's
/// grandparent, and `plugins-workspace/plugins/<name>/openharmony` under the
/// Tauri workspace root.
pub proof fn lemma_search_paths(name: Seq<char>, project: Seq<char>, root: Seq<char>)
    ensures
        plugin_search_paths_of(name, project, root).len() == 3,
        plugin_search_paths_of(name, project, root)[0] == path_join(
            path_join(path_join(project, "plugins"@), name),
            "openharmony"@,
        ),
        grandparent(project) matches Some(g) ==> plugin_search_paths_of(name, project, root)[1]
            == path_join(
            path_join(path_join(path_join(g, "plugins-workspace"@), "plugins"@), name),
            "openharmony"@,
        ),
        plugin_search_paths_of(name, project, root)[2] == path_join(
            path_join(path_join(path_join(root, "plugins-workspace"@), "plugins"@), name),
            "openharmony"@,
        ),
{
}

/// Finds the OpenHarmony HAR directory of a plugin: the name must be valid,
/// and the result is the first of `plugin_search_paths` (for the canonical
/// project directory and the workspace root) that exists, where `exists[i]`
/// tells whether search path `i` exists.
pub fn find_plugin_har(
    plugin_name: &str,
    canonical_project: &str,
    workspace_root: &str,
    exists: &Vec<bool>,
) -> (r: Result<String, PluginError>)
    ensures
        plugin_name_result(plugin_name@) is Err ==> r == Err::<String, PluginError>(
            plugin_name_result(plugin_name@)->Err_0,
        ),
        plugin_name_result(plugin_name@) is Ok ==> match first_existing(exists@) {
            Some(i) => r matches Ok(p) && p@ == plugin_search_paths_of(
                plugin_name@,
                canonical_project@,
                workspace_root@,
            )[i],
            None => r matches Err(PluginError::HarNotFound { name, searched }) && name@
                == plugin_name@ && searched.deep_view() == plugin_search_paths_of(
                plugin_name@,
                canonical_project@,
                workspace_root@,
            ),
        },
        plugin_name_result(plugin_name@) is Ok ==> (r is Ok <==> exists|k: int|
            0 <= k < 3 && k < exists@.len() && #[trigger] exists@[k]),
        r matches Ok(p) ==> exists|k: int|
            0 <= k < 3 && k < exists@.len() && #[trigger] exists@[k] && p@ == plugin_search_paths_of(
                plugin_name@,
                canonical_project@,
                workspace_root@,
            )[k] && forall|j: int| 0 <= j < k ==> !(j < exists@.len() && exists@[j]),
{
    proof {
        lemma_first_existing_is_first(exists@);
    }
    match validate_plugin_name(plugin_name) {
        Err(e) => {
            return Err(e);
        },
        Ok(()) => {},
    }
    let paths = plugin_search_paths(plugin_name, canonical_project, workspace_root);
    assert(paths@.len() == paths.deep_view().len());
    let mut i: usize = 0;
    while i < 3
        invariant
            paths@.len() == 3,
            plugin_name_result(plugin_name@) is Ok,
            paths.deep_view() == plugin_search_paths_of(
                plugin_name@,
                canonical_project@,
                workspace_root@,
            ),
            i <= 3,
            forall|k: int| 0 <= k < i ==> !(k < exists@.len() && exists@[k]),
        decreases 3 - i,
    {
        if i < exists.len() && exists[i] {
            assert(paths.deep_view()[i as int] == paths@[i as int]@);
            return Ok(paths[i].clone());
        }
        i = i + 1;
    }
    Err(PluginError::HarNotFound { name: plugin_name.to_owned(), searched: paths })
}

/// One plugin of the list that `detect_all_plugins` returns, as a pair of
/// name and HAR path: a built-in plugin gets `__builtin__<name>`, any other
/// the HAR found for it, and none when none was found.
pub open spec fn detected_entry(name: Seq<char>, located: Result<String, PluginError>) -> Option<
    (Seq<char>, Seq<char>),
> {
    if builtin_entry(name) is Some {
        Some((name, "__builtin__"@ + name))
    } else {
        match located {
            Ok(p) => Some((name, p@)),
            Err(_) => None,
        }
    }
}

/// The plugins that `detect_all_plugins` returns for the names and search
/// outcomes, in order.
pub open spec fn detected_list(names: Seq<Seq<char>>, located: Seq<Result<String, PluginError>>) -> Seq<
    (Seq<char>, Seq<char>),
>
    decreases names.len(),
{
    if names.len() == 0 {
        seq![]
    } else {
        let prev = detected_list(names.drop_last(), located);
        match detected_entry(names.last(), located[names.len() - 1]) {
            Some(e) => prev.push(e),
            None => prev,
        }
    }
}

/// The name and HAR path of each detected plugin.
pub open spec fn detected_view(d: Seq<DetectedPlugin>) -> Seq<(Seq<char>, Seq<char>)> {
    d.map_values(|p: DetectedPlugin| (p.name@, p.har_path@))
}

/// The plugins with an OpenHarmony side among the detected plugin names:
/// built-in plugins, and the others whose HAR was found (`located[i]` is the
/// outcome of `find_plugin_har` for `plugin_names[i]`); a plugin whose HAR
/// was not found is skipped.
pub fn detect_all_plugins(plugin_names: &Vec<String>, located: Vec<Result<String, PluginError>>) -> (r:
    Vec<DetectedPlugin>)
    requires
        located@.len() == plugin_names@.len(),
    ensures
        detected_view(r@) == detected_list(plugin_names.deep_view(), located@),
{
    let ghost names = plugin_names.deep_view();
    let ghost all = located@;
    let mut rest = located;
    let mut out: Vec<DetectedPlugin> = Vec::new();
    let mut i: usize = 0;
    while i < plugin_names.len()
        invariant
            names == plugin_names.deep_view(),
            all.len() == names.len(),
            i <= names.len(),
            rest@ == all.subrange(i as int, all.len() as int),
            detected_view(out@) == detected_list(names.subrange(0, i as int), all),
        decreases plugin_names.len() - i,
    {
        let name = &plugin_names[i];
        let loc = rest.remove(0);
        assert(loc == all[i as int]);
        let ghost pre = names.subrange(0, i + 1);
        assert(pre.drop_last() =~= names.subrange(0, i as int));
        assert(pre.last() == name@);
        if builtin_plugin(name.as_str()).is_some() {
            let mut har = String::new();
            har.append("__builtin__");
            har.append(name.as_str());
            out.push(DetectedPlugin { name: name.clone(), har_path: har });
            assert(detected_view(out@) =~= detected_view(out@.drop_last()).push(
                (name@, "__builtin__"@ + name@),
            ));
        } else {
            match loc {
                Ok(p) => {
                    out.push(DetectedPlugin { name: name.clone(), har_path: p });
                    assert(detected_view(out@) =~= detected_view(out@.drop_last()).push(
                        (name@, out@.last().har_path@),
                    ));
                },
                Err(_) => {},
            }
        }
        assert(rest@ =~= all.subrange(i + 1, all.len() as int));
        i = i + 1;
    }
    assert(names.subrange(0, names.len() as int) =~= names);
    out
}

/// A plugin whose metadata cannot be had: it is not built in and its
/// package could not be read.
pub open spec fn meta_fails(name: Seq<char>, source: PluginSource) -> bool {
    builtin_entry(name) is None && source.oh_package is Err
}

/// The metadata of every detected plugin, taken from `sources[i]` for
/// `detected[i]` as `parse_plugin_meta` states; the first plugin whose
/// package could not be read gives the error.
pub fn get_all_plugin_metadata(detected: &Vec<DetectedPlugin>, sources: Vec<PluginSource>) -> (r:
    Result<Vec<PluginMeta>, PluginError>)
    requires
        sources@.len() == detected@.len(),
    ensures
        r is Ok <==> forall|i: int|
            0 <= i < detected@.len() ==> !meta_fails(#[trigger] detected@[i].name@, sources@[i]),
        r matches Ok(v) ==> v@.len() == detected@.len() && forall|i: int|
            0 <= i < detected@.len() ==> plugin_meta_outcome(
                #[trigger] detected@[i].har_path@,
                detected@[i].name@,
                sources@[i],
                Ok::<PluginMeta, PluginError>(v@[i]),
            ),
        r matches Err(e) ==> exists|i: int|
            0 <= i < detected@.len() && meta_fails(#[trigger] detected@[i].name@, sources@[i])
                && (forall|k: int| 0 <= k < i ==> !meta_fails(detected@[k].name@, sources@[k]))
                && sources@[i].oh_package == Err::<OhPackage, PluginError>(e),
{
    let ghost all = sources@;
    let mut rest = sources;
    let mut out: Vec<PluginMeta> = Vec::new();
    let mut i: usize = 0;
    while i < detected.len()
        invariant
            all == sources@,
            all.len() == detected@.len(),
            i <= all.len(),
            rest@ == all.subrange(i as int, all.len() as int),
            out@.len() == i,
            forall|k: int| 0 <= k < i ==> !meta_fails(#[trigger] detected@[k].name@, all[k]),
            forall|k: int|
                0 <= k < i ==> plugin_meta_outcome(
                    #[trigger] detected@[k].har_path@,
                    detected@[k].name@,
                    all[k],
                    Ok::<PluginMeta, PluginError>(out@[k]),
                ),
        decreases detected.len() - i,
    {
        let d = &detected[i];
        let source = rest.remove(0);
        assert(source == all[i as int]);
        assert(rest@ =~= all.subrange(i + 1, all.len() as int));
        let m = parse_plugin_meta(d.har_path.as_str(), d.name.as_str(), source);
        match m {
            Ok(meta) => {
                out.push(meta);
            },
            Err(e) => {
                return Err(e);
            },
        }
        i = i + 1;
    }
    Ok(out)
}

// ------------------------------------------------------------------
// Verification of copied plugins
// ------------------------------------------------------------------

/// What was found of a plugin's copy in the project: no directory at `path`,
/// a directory without `oh-package.json5`, or the outcome of reading that
/// package.
#[derive(Debug)]
pub enum PluginDirState {
    Missing { path: String },
    NoPackage,
    Package(Result<OhPackage, PluginError>),
}

/// Whether `har_path` marks a plugin rendered from the built-in templates.
pub open spec fn is_builtin_har(har_path: Seq<char>) -> bool {
    has_prefix(har_path, "__builtin__"@)
}

/// Whether `r` is the outcome that `verify_plugin_before_update` owes.
pub open spec fn verify_outcome(plugin: PluginMeta, state: PluginDirState, r: Result<(), PluginError>) -> bool {
    if is_builtin_har(plugin.har_path@) {
        r is Ok
    } else {
        match state {
            PluginDirState::Missing { path } => r matches Err(
                PluginError::PluginDirMissing { name, path: p },
            ) && name@ == plugin.name@ && p@ == path@,
            PluginDirState::NoPackage => r matches Err(PluginError::PluginPackageMissing { name })
                && name@ == plugin.name@,
            PluginDirState::Package(Err(e)) => r == Err::<(), PluginError>(e),
            PluginDirState::Package(Ok(p)) => if p.name@ == plugin.identifier@ {
                r is Ok
            } else {
                r matches Err(PluginError::IdentifierMismatch { expected, found }) && expected@
                    == plugin.identifier@ && found@ == p.name@
            },
        }
    }
}

/// Checks that a copied (not built-in) plugin is in the project: its
/// directory and `oh-package.json5` exist and the package is named by the
/// plugin's identifier.
pub fn verify_plugin_before_update(plugin: &PluginMeta, state: PluginDirState) -> (r: Result<
    (),
    PluginError,
>)
    ensures
        verify_outcome(*plugin, state, r),
{
    if starts_with(plugin.har_path.as_str(), "__builtin__") {
        return Ok(());
    }
    match state {
        PluginDirState::Missing { path } => Err(
            PluginError::PluginDirMissing { name: plugin.name.clone(), path },
        ),
        PluginDirState::NoPackage => Err(
            PluginError::PluginPackageMissing { name: plugin.name.clone() },
        ),
        PluginDirState::Package(Err(e)) => Err(e),
        PluginDirState::Package(Ok(p)) => {
            if str_eq(p.name.as_str(), plugin.identifier.as_str()) {
                Ok(())
            } else {
                Err(
                    PluginError::IdentifierMismatch {
                        expected: plugin.identifier.clone(),
                        found: p.name,
                    },
                )
            }
        },
    }
}

/// Checks every plugin with `verify_plugin_before_update` (plugin `i`
/// against `states[i]`), stopping at the first failure, which it reports
/// with the plugin's name.
pub fn verify_all_plugins_before_update(plugins: &Vec<PluginMeta>, states: Vec<PluginDirState>) -> (r:
    Result<(), PluginError>)
    requires
        states@.len() == plugins@.len(),
    ensures
        r is Ok <==> forall|i: int|
            0 <= i < plugins@.len() ==> verify_outcome(
                #[trigger] plugins@[i],
                states@[i],
                Ok::<(), PluginError>(()),
            ),
        r matches Err(PluginError::Verification { name, cause }) ==> exists|i: int|
            0 <= i < plugins@.len() && name@ == plugins@[i].name@ && verify_outcome(
                #[trigger] plugins@[i],
                states@[i],
                Err::<(), PluginError>(*cause),
            ) && forall|k: int|
                0 <= k < i ==> verify_outcome(plugins@[k], states@[k], Ok::<(), PluginError>(())),
        r is Err ==> r matches Err(PluginError::Verification { .. }),
{
    let ghost all = states@;
    let mut rest = states;
    let mut i: usize = 0;
    while i < plugins.len()
        invariant
            all == states@,
            all.len() == plugins@.len(),
            i <= all.len(),
            rest@ == all.subrange(i as int, all.len() as int),
            forall|k: int|
                0 <= k < i ==> verify_outcome(
                    #[trigger] plugins@[k],
                    all[k],
                    Ok::<(), PluginError>(()),
                ),
        decreases plugins.len() - i,
    {
        let state = rest.remove(0);
        assert(state == all[i as int]);
        assert(rest@ =~= all.subrange(i + 1, all.len() as int));
        let outcome = verify_plugin_before_update(&plugins[i], state);
        match outcome {
            Ok(()) => {},
            Err(e) => {
                proof {
                    if verify_outcome(plugins@[i as int], all[i as int], Ok::<(), PluginError>(())) {
                        assert(false);
                    }
                }
                return Err(
                    PluginError::Verification { name: plugins[i].name.clone(), cause: Box::new(e) },
                );
            },
        }
        i = i + 1;
    }
    Ok(())
}

proof fn lemma_detected_from_names(names: Seq<Seq<char>>, located: Seq<Result<String, PluginError>>)
    requires
        located.len() == names.len(),
    ensures
        forall|i: int|
            0 <= i < detected_list(names, located).len() ==> exists|k: int|
                0 <= k < names.len() && (#[trigger] detected_list(names, located)[i]).0
                    == names[k],
        strictly_sorted(names) ==> forall|a: int, b: int|
            0 <= a < b < detected_list(names, located).len() ==> seq_less(
                detected_list(names, located)[a].0,
                detected_list(names, located)[b].0,
            ),
    decreases names.len(),
{
    if names.len() > 0 {
        let pn = names.drop_last();
        let pl = located.subrange(0, names.len() - 1);
        lemma_detected_list_prefix(names, located);
        lemma_detected_from_names(pn, pl);
        let prev = detected_list(pn, pl);
        let cur = detected_list(names, located);
        assert forall|i: int| 0 <= i < cur.len() implies exists|k: int|
            0 <= k < names.len() && (#[trigger] cur[i]).0 == names[k] by {
            if i < prev.len() {
                let k = choose|k: int| 0 <= k < pn.len() && (#[trigger] prev[i]).0 == pn[k];
                assert(cur[i] == prev[i]);
                assert(names[k] == pn[k]);
            } else {
                assert(cur[i].0 == names[names.len() - 1]);
            }
        }
        if strictly_sorted(names) {
            assert(strictly_sorted(pn)) by {
                assert forall|a: int, b: int| 0 <= a < b < pn.len() implies seq_less(pn[a], pn[b]) by {
                    assert(pn[a] == names[a] && pn[b] == names[b]);
                }
            }
            assert forall|a: int, b: int| 0 <= a < b < cur.len() implies seq_less(cur[a].0, cur[b].0) by {
                if b < prev.len() {
                    assert(cur[a] == prev[a] && cur[b] == prev[b]);
                } else {
                    assert(cur[a] == prev[a]);
                    let k = choose|k: int| 0 <= k < pn.len() && (#[trigger] prev[a]).0 == pn[k];
                    assert(names[k] == pn[k]);
                    assert(cur[b].0 == names[names.len() - 1]);
                }
            }
        }
    }
}

proof fn lemma_detected_list_prefix(names: Seq<Seq<char>>, located: Seq<Result<String, PluginError>>)
    requires
        located.len() == names.len(),
        names.len() > 0,
    ensures
        detected_list(names.drop_last(), located.subrange(0, names.len() - 1)) == detected_list(
            names.drop_last(),
            located,
        ),
{
    lemma_detected_list_ignores_tail(names.drop_last(), located.subrange(0, names.len() - 1), located);
}

proof fn lemma_detected_list_ignores_tail(
    names: Seq<Seq<char>>,
    a: Seq<Result<String, PluginError>>,
    b: Seq<Result<String, PluginError>>,
)
    requires
        names.len() <= a.len(),
        names.len() <= b.len(),
        forall|i: int| 0 <= i < names.len() ==> a[i] == b[i],
    ensures
        detected_list(names, a) == detected_list(names, b),
    decreases names.len(),
{
    if names.len() > 0 {
        lemma_detected_list_ignores_tail(names.drop_last(), a, b);
    }
}

/// `detect_all_plugins` keeps exactly the plugin names that are built in or
/// whose HAR was found, each with its HAR path: every such name is in the
/// result with the path that `detected_entry` gives it, a name whose HAR
/// was not found is dropped, and nothing else is in the result.
pub proof fn lemma_detected_are_kept_names(
    names: Seq<Seq<char>>,
    located: Seq<Result<String, PluginError>>,
)
    requires
        located.len() == names.len(),
    ensures
        forall|k: int|
            0 <= k < names.len() ==> (#[trigger] detected_entry(names[k], located[k]) matches Some(
                e,
            ) ==> detected_list(names, located).contains(e)),
        forall|i: int|
            0 <= i < detected_list(names, located).len() ==> exists|k: int|
                0 <= k < names.len() && detected_entry(names[k], located[k]) == Some(
                    #[trigger] detected_list(names, located)[i],
                ),
    decreases names.len(),
{
    if names.len() > 0 {
        let n = names.len() - 1;
        let pn = names.drop_last();
        let pl = located.subrange(0, n);
        lemma_detected_list_prefix(names, located);
        lemma_detected_are_kept_names(pn, pl);
        let prev = detected_list(pn, pl);
        let cur = detected_list(names, located);
        assert forall|k: int| 0 <= k < names.len() implies (#[trigger] detected_entry(
            names[k],
            located[k],
        ) matches Some(e) ==> cur.contains(e)) by {
            if let Some(e) = detected_entry(names[k], located[k]) {
                if k < n {
                    assert(pn[k] == names[k] && pl[k] == located[k]);
                    assert(detected_entry(pn[k], pl[k]) == Some(e));
                    let w = choose|w: int| 0 <= w < prev.len() && prev[w] == e;
                    assert(cur[w] == e);
                } else {
                    assert(cur[cur.len() - 1] == e);
                }
            }
        }
        assert forall|i: int| 0 <= i < cur.len() implies exists|k: int|
            0 <= k < names.len() && detected_entry(names[k], located[k]) == Some(
                #[trigger] cur[i],
            ) by {
            if i < prev.len() {
                assert(cur[i] == prev[i]);
                let k = choose|k: int|
                    0 <= k < pn.len() && detected_entry(pn[k], pl[k]) == Some(#[trigger] prev[i]);
                assert(pn[k] == names[k] && pl[k] == located[k]);
            } else {
                assert(detected_entry(names[n], located[n]) == Some(cur[i]));
            }
        }
    }
}

/// The detected plugins keep the order of the plugin names: they are some
/// of those names, in order, so for the sorted, distinct names that
/// `detect_plugins` gives they are sorted and distinct too; and the metadata
/// of `get_all_plugin_metadata` lists the same names in the same order.
pub proof fn lemma_detected_plugins_sorted(
    names: Seq<Seq<char>>,
    located: Seq<Result<String, PluginError>>,
    detected: Seq<DetectedPlugin>,
    sources: Seq<PluginSource>,
    metadata: Seq<PluginMeta>,
)
    requires
        located.len() == names.len(),
        strictly_sorted(names),
        detected_view(detected) == detected_list(names, located),
        sources.len() == detected.len(),
        metadata.len() == detected.len(),
        forall|i: int|
            0 <= i < detected.len() ==> plugin_meta_outcome(
                #[trigger] detected[i].har_path@,
                detected[i].name@,
                sources[i],
                Ok::<PluginMeta, PluginError>(metadata[i]),
            ),
    ensures
        forall|a: int, b: int|
            0 <= a < b < detected.len() ==> seq_less(detected[a].name@, detected[b].name@),
        forall|i: int| 0 <= i < metadata.len() ==> (#[trigger] metadata[i]).name@ == detected[i].name@,
        forall|a: int, b: int|
            0 <= a < b < metadata.len() ==> seq_less(metadata[a].name@, metadata[b].name@),
{
    lemma_detected_from_names(names, located);
    let d = detected_list(names, located);
    assert forall|a: int, b: int| 0 <= a < b < detected.len() implies seq_less(
        detected[a].name@,
        detected[b].name@,
    ) by {
        assert(detected_view(detected)[a] == d[a]);
        assert(detected_view(detected)[b] == d[b]);
    }
    assert forall|i: int| 0 <= i < metadata.len() implies (#[trigger] metadata[i]).name@
        == detected[i].name@ by {
        assert(plugin_meta_outcome(
            detected[i].har_path@,
            detected[i].name@,
            sources[i],
            Ok::<PluginMeta, PluginError>(metadata[i]),
        ));
    }
    assert forall|a: int, b: int| 0 <= a < b < metadata.len() implies seq_less(
        metadata[a].name@,
        metadata[b].name@,
    ) by {
        assert(metadata[a].name@ == detected[a].name@);
        assert(metadata[b].name@ == detected[b].name@);
        assert(detected_view(detected)[a] == d[a]);
        assert(detected_view(detected)[b] == d[b]);
    }
}

} // verus!
