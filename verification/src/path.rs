//! `/`-separated paths as strings, joined and split as `std::path` does on
//! Unix.
use vstd::prelude::*;
use vstd::string::*;
use crate::text::{push_char, split_chars, split_on, string_of, to_chars};

verus! {

/// `base` joined with `part` as `Path::join` does: an absolute `part`
/// replaces `base`, an empty `base` gives `part`, and otherwise one `/` stands
/// between them unless `base` already ends with one.
pub open spec fn path_join(base: Seq<char>, part: Seq<char>) -> Seq<char> {
    if part.len() > 0 && part[0] == '/' {
        part
    } else if base.len() == 0 {
        part
    } else if base.last() == '/' {
        base + part
    } else {
        base.push('/') + part
    }
}

/// The index of the last occurrence of `c` in `s`, or -1.
pub open spec fn last_index_of(s: Seq<char>, c: char) -> int
    decreases s.len(),
{
    if s.len() == 0 {
        -1
    } else if s.last() == c {
        s.len() - 1
    } else {
        last_index_of(s.drop_last(), c)
    }
}

/// The parent of a normalized path (no empty, `.` or trailing components),
/// as `Path::parent` gives it: none for `""` and `"/"`, `""` for a single
/// relative component, `"/"` for a single absolute one, and otherwise all
/// before the last `/`.
pub open spec fn path_parent(p: Seq<char>) -> Option<Seq<char>> {
    if p.len() == 0 || p =~= seq!['/'] {
        None
    } else {
        let i = last_index_of(p, '/');
        if i < 0 {
            Some(seq![])
        } else if i == 0 {
            Some(seq!['/'])
        } else {
            Some(p.subrange(0, i))
        }
    }
}

proof fn lemma_last_index_of_bounds(s: Seq<char>, c: char)
    ensures
        -1 <= last_index_of(s, c) < s.len(),
        last_index_of(s, c) >= 0 ==> s[last_index_of(s, c)] == c,
        forall|k: int| last_index_of(s, c) < k < s.len() ==> s[k] != c,
    decreases s.len(),
{
    if s.len() > 0 && s.last() != c {
        lemma_last_index_of_bounds(s.drop_last(), c);
        assert forall|k: int| last_index_of(s, c) < k < s.len() implies s[k] != c by {
            if k < s.len() - 1 {
                assert(s.drop_last()[k] == s[k]);
            }
        }
    }
}

/// `base` joined with `part`.
pub fn join_path(base: &str, part: &str) -> (r: String)
    ensures
        r@ == path_join(base@, part@),
{
    let pc = to_chars(part);
    let bc = to_chars(base);
    if pc.len() > 0 && pc[0] == '/' {
        return part.to_owned();
    }
    if bc.len() == 0 {
        return part.to_owned();
    }
    let mut out = base.to_owned();
    if bc[bc.len() - 1] != '/' {
        push_char(&mut out, '/');
    }
    out.append(part);
    out
}

/// The parent of a normalized path, as `path_parent` states.
pub fn parent_path(p: &str) -> (r: Option<String>)
    ensures
        r.is_some() == path_parent(p@).is_some(),
        r matches Some(q) ==> q@ == path_parent(p@).unwrap(),
{
    let pc = to_chars(p);
    let n = pc.len();
    if n == 0 || (n == 1 && pc[0] == '/') {
        assert(n == 1 ==> p@ =~= seq!['/']);
        return None;
    }
    assert(!(p@ =~= seq!['/']));
    let mut i: usize = n;
    assert(p@.subrange(0, n as int) =~= p@);
    while i > 0 && pc[i - 1] != '/'
        invariant
            pc@ == p@,
            n == p@.len(),
            i <= n,
            last_index_of(p@, '/') == last_index_of(p@.subrange(0, i as int), '/'),
        decreases i,
    {
        assert(p@.subrange(0, i - 1) =~= p@.subrange(0, i as int).drop_last());
        i = i - 1;
    }
    proof {
        if i > 0 {
            assert(p@.subrange(0, i as int).last() == '/');
        } else {
            assert(p@.subrange(0, 0) =~= Seq::<char>::empty());
        }
        lemma_last_index_of_bounds(p@, '/');
    }
    if i == 0 {
        Some(String::new())
    } else if i == 1 {
        let mut s = String::new();
        push_char(&mut s, '/');
        assert(s@ =~= seq!['/']);
        Some(s)
    } else {
        let q = p.substring_char(0, i - 1);
        Some(q.to_owned())
    }
}

/// The file name of a path split at its `/`s, as `Path::file_name` gives it:
/// its last piece that is neither empty nor `.`, unless that is `..`.
pub open spec fn file_name_of(segs: Seq<Seq<char>>) -> Option<Seq<char>>
    decreases segs.len(),
{
    if segs.len() == 0 {
        None
    } else if segs.last().len() == 0 || segs.last() == "."@ {
        file_name_of(segs.drop_last())
    } else if segs.last() == ".."@ {
        None
    } else {
        Some(segs.last())
    }
}

/// The file name of a `/`-separated path.
pub open spec fn path_file_name(p: Seq<char>) -> Option<Seq<char>> {
    file_name_of(split_on(p, '/'))
}

/// The file name of `p`, as `path_file_name` states.
pub fn file_name(p: &str) -> (r: Option<String>)
    ensures
        r is Some <==> path_file_name(p@) is Some,
        r matches Some(n) ==> path_file_name(p@) == Some(n@),
{
    let pc = to_chars(p);
    let segs = split_chars(pc.as_slice(), '/');
    let ghost sv = segs.deep_view();
    let mut i: usize = segs.len();
    assert(sv.subrange(0, sv.len() as int) =~= sv);
    proof {
        reveal_strlit(".");
        reveal_strlit("..");
    }
    while i > 0
        invariant
            sv == segs.deep_view(),
            sv == split_on(p@, '/'),
            i <= sv.len(),
            file_name_of(sv.subrange(0, i as int)) == file_name_of(sv),
            "."@ == seq!['.'],
            ".."@ == seq!['.', '.'],
        decreases i,
    {
        let seg = &segs[i - 1];
        let ghost pre = sv.subrange(0, i as int);
        assert(pre.last() == seg@);
        assert(pre.drop_last() =~= sv.subrange(0, i - 1));
        if seg.len() == 0 || (seg.len() == 1 && seg[0] == '.') {
            assert(seg.len() == 1 ==> seg@ =~= "."@);
            i = i - 1;
        } else if seg.len() == 2 && seg[0] == '.' && seg[1] == '.' {
            assert(seg@ =~= ".."@);
            return None;
        } else {
            assert(seg@ != "."@);
            assert(seg@ != ".."@);
            return Some(string_of(seg.as_slice()));
        }
    }
    assert(sv.subrange(0, 0) =~= Seq::<Seq<char>>::empty());
    None
}

/// The position of the dot that splits a file name into stem and extension:
/// its last dot, unless that is its first character.
pub open spec fn ext_dot(name: Seq<char>) -> Option<int> {
    let i = last_index_of(name, '.');
    if i <= 0 {
        None
    } else {
        Some(i)
    }
}

/// The stem of a file name (`Path::file_stem`): all before its extension
/// dot.
pub open spec fn stem_of(name: Seq<char>) -> Seq<char> {
    match ext_dot(name) {
        Some(i) => name.subrange(0, i),
        None => name,
    }
}

/// The extension of a file name (`Path::extension`): all after its
/// extension dot.
pub open spec fn extension_of(name: Seq<char>) -> Option<Seq<char>> {
    match ext_dot(name) {
        Some(i) => Some(name.subrange(i + 1, name.len() as int)),
        None => None,
    }
}

/// The stem and the extension of a file name.
pub fn split_extension(name: &str) -> (r: (String, Option<String>))
    ensures
        r.0@ == stem_of(name@),
        r.1 is Some <==> extension_of(name@) is Some,
        r.1 matches Some(e) ==> extension_of(name@) == Some(e@),
{
    let nc = to_chars(name);
    let n = nc.len();
    let mut i: usize = n;
    assert(name@.subrange(0, n as int) =~= name@);
    while i > 0 && nc[i - 1] != '.'
        invariant
            nc@ == name@,
            n == name@.len(),
            i <= n,
            last_index_of(name@, '.') == last_index_of(name@.subrange(0, i as int), '.'),
        decreases i,
    {
        assert(name@.subrange(0, i - 1) =~= name@.subrange(0, i as int).drop_last());
        i = i - 1;
    }
    proof {
        if i > 0 {
            assert(name@.subrange(0, i as int).last() == '.');
        } else {
            assert(name@.subrange(0, 0) =~= Seq::<char>::empty());
        }
    }
    if i <= 1 {
        (name.to_owned(), None)
    } else {
        let stem = name.substring_char(0, i - 1);
        let ext = name.substring_char(i, n);
        (stem.to_owned(), Some(ext.to_owned()))
    }
}

} // verus!
