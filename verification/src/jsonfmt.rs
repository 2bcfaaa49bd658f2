//! The JSON5 layout that configuration files of the OpenHarmony project are
//! written in: pretty-printed JSON whose value lines carry a trailing comma.
use vstd::prelude::*;
use vstd::string::*;
use crate::text::{
    has_prefix, has_suffix, join, join_chars, lines, lines_of, matches_at, string_of, to_chars, trim,
    trim_chars,
};

verus! {

/// One output line: `line` itself when its trimmed text is empty, a `//`
/// comment, or ends with `{`, `[`, `,`, `}` or `]`, or when the trimmed
/// `next` line starts with `}` or `]`; otherwise `line` followed by `,`.
pub open spec fn json5_line(line: Seq<char>, next: Seq<char>) -> Seq<char> {
    let t = trim(line);
    let nt = trim(next);
    if t.len() == 0 || has_prefix(t, "//"@) || has_prefix(nt, "}"@) || has_prefix(nt, "]"@)
        || has_suffix(t, "{"@) || has_suffix(t, "["@) || has_suffix(t, ","@) || has_suffix(
        t,
        "}"@,
    ) || has_suffix(t, "]"@) {
        line
    } else {
        line + ","@
    }
}

/// The line after index `i` of `ls`, or the empty line after the last one.
pub open spec fn next_line(ls: Seq<Seq<char>>, i: int) -> Seq<char> {
    if i + 1 < ls.len() {
        ls[i + 1]
    } else {
        seq![]
    }
}

/// Every line of `ls` laid out by `json5_line`.
pub open spec fn json5_lines(ls: Seq<Seq<char>>) -> Seq<Seq<char>> {
    Seq::new(ls.len(), |i: int| json5_line(ls[i], next_line(ls, i)))
}

/// The JSON5 text for a pretty-printed JSON text: its lines laid out by
/// `json5_line` and joined with `'\n'`.
pub open spec fn json5_text(pretty: Seq<char>) -> Seq<char> {
    join(json5_lines(lines_of(pretty)), "\n"@)
}

fn has_prefix_chars(s: &[char], p: &str) -> (r: bool)
    ensures
        r == has_prefix(s@, p@),
{
    let pv = to_chars(p);
    matches_at(s, pv.as_slice(), 0)
}

fn has_suffix_chars(s: &[char], p: &str) -> (r: bool)
    ensures
        r == has_suffix(s@, p@),
{
    let pv = to_chars(p);
    if pv.len() > s.len() {
        false
    } else {
        matches_at(s, pv.as_slice(), s.len() - pv.len())
    }
}

/// Whether a line of the layout is kept as it stands.
fn keeps_line(line: &[char], next: &[char]) -> (r: bool)
    ensures
        r == (json5_line(line@, next@) == line@),
{
    let t = trim_chars(line);
    let nt = trim_chars(next);
    let r = t.len() == 0 || has_prefix_chars(t.as_slice(), "//") || has_prefix_chars(
        nt.as_slice(),
        "}",
    ) || has_prefix_chars(nt.as_slice(), "]") || has_suffix_chars(t.as_slice(), "{")
        || has_suffix_chars(t.as_slice(), "[") || has_suffix_chars(t.as_slice(), ",")
        || has_suffix_chars(t.as_slice(), "}") || has_suffix_chars(t.as_slice(), "]");
    proof {
        if !r {
            let c = ","@;
            reveal_strlit(",");
            assert((line@ + c).len() != line@.len());
        }
    }
    r
}

/// Lays out a pretty-printed JSON text (as `serde_json::to_string_pretty`
/// writes it) as JSON5: a comma is added to each line that holds a value and
/// is followed by another entry.
pub fn serialize_json5(pretty: &str) -> (r: String)
    ensures
        r@ == json5_text(pretty@),
{
    let chars = to_chars(pretty);
    let ls = lines(chars.as_slice());
    let ghost lsv = lines_of(pretty@);
    let comma = to_chars(",");
    let empty: Vec<char> = Vec::new();
    let mut out_lines: Vec<Vec<char>> = Vec::new();
    let mut i: usize = 0;
    while i < ls.len()
        invariant
            lsv == lines_of(pretty@),
            ls@.len() == lsv.len(),
            forall|k: int| 0 <= k < ls@.len() ==> #[trigger] ls@[k]@ == lsv[k],
            comma@ == ","@,
            empty@ == Seq::<char>::empty(),
            i <= ls@.len(),
            out_lines@.len() == i,
            forall|k: int| 0 <= k < i ==> #[trigger] out_lines@[k]@ == json5_lines(lsv)[k],
        decreases ls.len() - i,
    {
        let line = &ls[i];
        let next = if i + 1 < ls.len() {
            &ls[i + 1]
        } else {
            &empty
        };
        assert(next@ == next_line(lsv, i as int));
        let mut l = line.clone();
        assert(l@ == line@);
        if !keeps_line(line.as_slice(), next.as_slice()) {
            l.push(comma[0]);
            proof {
                reveal_strlit(",");
                assert(l@ =~= line@ + ","@);
            }
        }
        out_lines.push(l);
        i = i + 1;
    }
    let sep = to_chars("\n");
    let joined = join_chars(&out_lines, sep.as_slice());
    assert(out_lines@.map_values(|p: Vec<char>| p@) =~= json5_lines(lsv));
    string_of(joined.as_slice())
}

/// The JSON5 layout only ever adds one trailing comma to a line: every
/// output line is its input line, or that line followed by `,`; a line
/// whose text already ends with a comma is kept as it is, so no line ends
/// up with two; and the lines keep their number and order.
pub proof fn lemma_json5_lines_add_at_most_a_comma(ls: Seq<Seq<char>>)
    ensures
        json5_lines(ls).len() == ls.len(),
        forall|i: int|
            0 <= i < ls.len() ==> #[trigger] json5_lines(ls)[i] == ls[i] || json5_lines(ls)[i]
                == ls[i] + ","@,
        forall|i: int|
            0 <= i < ls.len() && has_suffix(trim(ls[i]), ","@) ==> #[trigger] json5_lines(ls)[i]
                == ls[i],
{
}

} // verus!
