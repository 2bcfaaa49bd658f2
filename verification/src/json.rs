//! JSON documents as the project's `.json5` files hold them: a value type
//! whose numbers are kept as their text, its mathematical view, the JSON5
//! parser and the pretty printer, and the edits made to a document.
use vstd::prelude::*;
use crate::text::str_eq;

verus! {

/// A JSON value. Numbers are kept as the text the printer writes for them;
/// an object lists its members in order.
#[derive(Debug)]
pub enum JsonValue {
    Null,
    Bool(bool),
    Number(String),
    Str(String),
    Array(Vec<JsonValue>),
    Object(Vec<(String, JsonValue)>),
}

/// The mathematical form of a JSON value.
pub enum Json {
    Null,
    Bool(bool),
    Number(Seq<char>),
    Str(Seq<char>),
    Array(Seq<Json>),
    Object(Seq<(Seq<char>, Json)>),
}

/// The mathematical form of a JSON value: strings by their characters,
/// arrays and objects element by element.
pub open spec fn json_view(v: JsonValue) -> Json
    decreases v,
{
    match v {
        JsonValue::Null => Json::Null,
        JsonValue::Bool(b) => Json::Bool(b),
        JsonValue::Number(n) => Json::Number(n@),
        JsonValue::Str(s) => Json::Str(s@),
        JsonValue::Array(a) => Json::Array(
            Seq::new(
                a@.len(),
                |i: int|
                    if 0 <= i < a@.len() {
                        json_view(a@[i])
                    } else {
                        Json::Null
                    },
            ),
        ),
        JsonValue::Object(f) => Json::Object(
            Seq::new(
                f@.len(),
                |i: int|
                    if 0 <= i < f@.len() {
                        (f@[i].0@, json_view(f@[i].1))
                    } else {
                        (Seq::empty(), Json::Null)
                    },
            ),
        ),
    }
}

impl View for JsonValue {
    type V = Json;

    open spec fn view(&self) -> Json {
        json_view(*self)
    }
}

/// The values of a list, each by `json_view`.
pub open spec fn elems_view(a: Seq<JsonValue>) -> Seq<Json> {
    a.map_values(|x: JsonValue| json_view(x))
}

/// The members of an object, each key by its characters and each value by
/// `json_view`.
pub open spec fn fields_view(f: Seq<(String, JsonValue)>) -> Seq<(Seq<char>, Json)> {
    f.map_values(|e: (String, JsonValue)| (e.0@, json_view(e.1)))
}

/// An array is viewed element by element.
pub proof fn lemma_array_view(a: Vec<JsonValue>)
    ensures
        json_view(JsonValue::Array(a)) == Json::Array(elems_view(a@)),
{
    let s = match json_view(JsonValue::Array(a)) {
        Json::Array(s) => s,
        _ => Seq::empty(),
    };
    assert(s.len() == a@.len());
    assert forall|i: int| 0 <= i < s.len() implies s[i] == elems_view(a@)[i] by {}
    assert(s =~= elems_view(a@));
}

/// An object is viewed member by member.
pub proof fn lemma_object_view(f: Vec<(String, JsonValue)>)
    ensures
        json_view(JsonValue::Object(f)) == Json::Object(fields_view(f@)),
{
    let s = match json_view(JsonValue::Object(f)) {
        Json::Object(s) => s,
        _ => Seq::empty(),
    };
    assert(s.len() == f@.len());
    assert forall|i: int| 0 <= i < s.len() implies s[i] == fields_view(f@)[i] by {}
    assert(s =~= fields_view(f@));
}

// ------------------------------------------------------------------
// Parsing and printing
// ------------------------------------------------------------------

#[verifier::external_type_specification]
#[verifier::external_body]
pub struct ExSerdeValue(serde_json::Value);

/// What `json5::from_str` parses `text` into, as a `serde_json::Value` seen
/// through `json_view`; none when `text` is no JSON5 document.
pub uninterp spec fn json5_document(text: Seq<char>) -> Option<Json>;

/// What `serde_json::to_string_pretty` writes for a value.
pub uninterp spec fn json_pretty(v: Json) -> Seq<char>;

/// Converts serde_json's value into the library's, variant for variant; a
/// number becomes the text serde_json writes for it. Used by `parse_json5`.
#[verifier::external_body]
fn value_from_serde(v: serde_json::Value) -> JsonValue {
    match v {
        serde_json::Value::Null => JsonValue::Null,
        serde_json::Value::Bool(b) => JsonValue::Bool(b),
        serde_json::Value::Number(n) => JsonValue::Number(n.to_string()),
        serde_json::Value::String(s) => JsonValue::Str(s),
        serde_json::Value::Array(a) => JsonValue::Array(a.into_iter().map(value_from_serde).collect()),
        serde_json::Value::Object(m) => {
            JsonValue::Object(m.into_iter().map(|(k, x)| (k, value_from_serde(x))).collect())
        },
    }
}

/// Converts the library's value into serde_json's, variant for variant; a
/// number's text is read back as serde_json's number. Used by `pretty_json`.
#[verifier::external_body]
fn value_to_serde(v: &JsonValue) -> serde_json::Value {
    match v {
        JsonValue::Null => serde_json::Value::Null,
        JsonValue::Bool(b) => serde_json::Value::Bool(*b),
        JsonValue::Number(n) => match n.parse::<serde_json::Number>() {
            Ok(x) => serde_json::Value::Number(x),
            Err(_) => serde_json::Value::String(n.clone()),
        },
        JsonValue::Str(s) => serde_json::Value::String(s.clone()),
        JsonValue::Array(a) => serde_json::Value::Array(a.iter().map(value_to_serde).collect()),
        JsonValue::Object(f) => {
            serde_json::Value::Object(f.iter().map(|(k, x)| (k.clone(), value_to_serde(x))).collect())
        },
    }
}

/// Parses a JSON5 document (`json5::from_str` into a `serde_json::Value`).
/// The contract claims only that the result is the document named
/// `json5_document` of the text, none when the parse fails.
#[verifier::external_body]
pub(crate) fn parse_json5(text: &str) -> (r: Option<JsonValue>)
    ensures
        match r {
            Some(v) => json5_document(text@) == Some(v@),
            None => json5_document(text@) is None,
        },
{
    json5::from_str::<serde_json::Value>(text).ok().map(value_from_serde)
}

/// Prints a value with `serde_json::to_string_pretty`, which cannot fail on
/// a value with string keys. The contract claims only that the result is
/// the text named `json_pretty` of the value.
#[verifier::external_body]
pub(crate) fn pretty_json(v: &JsonValue) -> (r: String)
    ensures
        r@ == json_pretty(v@),
{
    serde_json::to_string_pretty(&value_to_serde(v)).unwrap_or_default()
}

// ------------------------------------------------------------------
// Members of objects
// ------------------------------------------------------------------

/// The index of the first member at or after `j` whose key is `key`.
pub open spec fn field_index_from(f: Seq<(Seq<char>, Json)>, key: Seq<char>, j: int) -> Option<int>
    decreases f.len() - j,
{
    if j < 0 || j >= f.len() {
        None
    } else if f[j].0 == key {
        Some(j)
    } else {
        field_index_from(f, key, j + 1)
    }
}

/// The index of the first member whose key is `key`.
pub open spec fn field_index(f: Seq<(Seq<char>, Json)>, key: Seq<char>) -> Option<int> {
    field_index_from(f, key, 0)
}

/// The value of the first member whose key is `key`.
pub open spec fn field(f: Seq<(Seq<char>, Json)>, key: Seq<char>) -> Option<Json> {
    match field_index(f, key) {
        Some(i) => Some(f[i].1),
        None => None,
    }
}

/// The members with `key` set to `v`, as a map's insert does: the member
/// with that key gets the new value in its place, or a new member is added
/// at the end.
pub open spec fn with_field(f: Seq<(Seq<char>, Json)>, key: Seq<char>, v: Json) -> Seq<
    (Seq<char>, Json),
> {
    match field_index(f, key) {
        Some(i) => f.update(i, (key, v)),
        None => f.push((key, v)),
    }
}

/// The value of member `key` of a document, when it is an object that has
/// one.
pub open spec fn member(doc: Json, key: Seq<char>) -> Option<Json> {
    match doc {
        Json::Object(f) => field(f, key),
        _ => None,
    }
}

/// The string value of member `key`, when there is one.
pub open spec fn string_member(doc: Json, key: Seq<char>) -> Option<Seq<char>> {
    match member(doc, key) {
        Some(Json::Str(s)) => Some(s),
        _ => None,
    }
}

/// What `field_index_from` finds is a member with that key at or after `j`,
/// with none before it from `j` on.
pub proof fn lemma_field_index_from(f: Seq<(Seq<char>, Json)>, key: Seq<char>, j: int)
    requires
        0 <= j,
    ensures
        match field_index_from(f, key, j) {
            Some(i) => j <= i < f.len() && f[i].0 == key && forall|k: int|
                j <= k < i ==> #[trigger] f[k].0 != key,
            None => forall|k: int| j <= k < f.len() ==> #[trigger] f[k].0 != key,
        },
    decreases f.len() - j,
{
    if j < f.len() && f[j].0 != key {
        lemma_field_index_from(f, key, j + 1);
    }
}

/// The index found depends on the keys alone.
proof fn lemma_field_index_keys(
    f: Seq<(Seq<char>, Json)>,
    g: Seq<(Seq<char>, Json)>,
    key: Seq<char>,
    j: int,
)
    requires
        f.len() == g.len(),
        forall|k: int| 0 <= k < f.len() ==> #[trigger] f[k].0 == g[k].0,
    ensures
        field_index_from(f, key, j) == field_index_from(g, key, j),
    decreases f.len() - j,
{
    if 0 <= j < f.len() {
        assert(f[j].0 == g[j].0);
        lemma_field_index_keys(f, g, key, j + 1);
    }
}

/// After the last member, a new member with key `key` is found when no
/// member from `j` on has that key.
proof fn lemma_field_index_push(f: Seq<(Seq<char>, Json)>, key: Seq<char>, v: Json, j: int)
    requires
        0 <= j <= f.len(),
        forall|k: int| j <= k < f.len() ==> #[trigger] f[k].0 != key,
    ensures
        field_index_from(f.push((key, v)), key, j) == Some(f.len() as int),
    decreases f.len() - j,
{
    let g = f.push((key, v));
    if j < f.len() {
        assert(g[j] == f[j]);
        lemma_field_index_push(f, key, v, j + 1);
    } else {
        assert(g[j] == (key, v));
    }
}

/// A member that was just set is found with its new value.
pub proof fn lemma_with_field_get(f: Seq<(Seq<char>, Json)>, key: Seq<char>, v: Json)
    ensures
        field(with_field(f, key, v), key) == Some(v),
        field_index(with_field(f, key, v), key) == (match field_index(f, key) {
            Some(i) => Some(i),
            None => Some(f.len() as int),
        }),
{
    lemma_field_index_from(f, key, 0);
    match field_index(f, key) {
        Some(i) => {
            let g = f.update(i, (key, v));
            assert forall|k: int| 0 <= k < f.len() implies #[trigger] f[k].0 == g[k].0 by {}
            lemma_field_index_keys(f, g, key, 0);
        },
        None => {
            lemma_field_index_push(f, key, v, 0);
        },
    }
}

/// Setting a member to the value it was just set to changes nothing.
pub proof fn lemma_with_field_twice(f: Seq<(Seq<char>, Json)>, key: Seq<char>, v: Json)
    ensures
        with_field(with_field(f, key, v), key, v) == with_field(f, key, v),
{
    lemma_with_field_get(f, key, v);
    let g = with_field(f, key, v);
    let i = field_index(g, key)->0;
    lemma_field_index_from(g, key, 0);
    assert(g.update(i, (key, v)) =~= g);
}

/// The position of the member with key `key`, as `field_index` gives it.
pub(crate) fn find_field(fields: &Vec<(String, JsonValue)>, key: &str) -> (r: Option<usize>)
    ensures
        r matches Some(i) ==> i < fields@.len(),
        match r {
            Some(i) => field_index(fields_view(fields@), key@) == Some(i as int),
            None => field_index(fields_view(fields@), key@) is None,
        },
{
    let ghost fv = fields_view(fields@);
    let mut i: usize = 0;
    while i < fields.len()
        invariant
            fv == fields_view(fields@),
            i <= fields@.len(),
            field_index_from(fv, key@, 0) == field_index_from(fv, key@, i as int),
        decreases fields.len() - i,
    {
        assert(fv[i as int].0 == fields@[i as int].0@);
        if str_eq(fields[i].0.as_str(), key) {
            return Some(i);
        }
        i = i + 1;
    }
    None
}

/// Takes the value of member `key` out of an object's members, leaving
/// `null` in its place; none, and no change, when there is no such member.
pub(crate) fn take_field(fields: &mut Vec<(String, JsonValue)>, key: &str) -> (r: Option<(usize, JsonValue)>)
    ensures
        match r {
            Some((i, v)) => field_index(fields_view(old(fields)@), key@) == Some(i as int) && v@
                == fields_view(old(fields)@)[i as int].1 && fields_view(final(fields)@) == fields_view(
                old(fields)@,
            ).update(i as int, (key@, Json::Null)),
            None => field_index(fields_view(old(fields)@), key@) is None && final(fields)@ == old(
                fields,
            )@,
        },
{
    match find_field(fields, key) {
        None => None,
        Some(i) => {
            let ghost before = fields_view(fields@);
            proof {
                lemma_field_index_from(before, key@, 0);
            }
            let (k, v) = fields.remove(i);
            fields.insert(i, (k, JsonValue::Null));
            assert(fields_view(fields@) =~= before.update(i as int, (key@, Json::Null)));
            Some((i, v))
        },
    }
}

/// Sets member `key` of an object's members to `v`, as `with_field` does.
pub(crate) fn set_field(fields: &mut Vec<(String, JsonValue)>, key: String, v: JsonValue)
    ensures
        fields_view(final(fields)@) == with_field(fields_view(old(fields)@), key@, v@),
{
    let ghost before = fields_view(fields@);
    match find_field(fields, key.as_str()) {
        Some(i) => {
            proof {
                lemma_field_index_from(before, key@, 0);
            }
            fields.remove(i);
            fields.insert(i, (key, v));
            assert(fields_view(fields@) =~= before.update(i as int, (key@, v@)));
        },
        None => {
            fields.push((key, v));
            assert(fields_view(fields@) =~= before.push((key@, v@)));
        },
    }
}

/// Setting a member whose value was taken out gives the same members as
/// setting it in the original object.
pub(crate) proof fn lemma_take_then_set(f: Seq<(Seq<char>, Json)>, key: Seq<char>, i: int, v: Json)
    requires
        field_index(f, key) == Some(i),
    ensures
        with_field(f.update(i, (key, Json::Null)), key, v) == with_field(f, key, v),
{
    lemma_field_index_from(f, key, 0);
    let g = f.update(i, (key, Json::Null));
    assert forall|k: int| 0 <= k < f.len() implies #[trigger] f[k].0 == g[k].0 by {}
    lemma_field_index_keys(f, g, key, 0);
    assert(g.update(i, (key, v)) =~= f.update(i, (key, v)));
}

/// An array of strings.
pub(crate) fn string_array(v: &Vec<String>) -> (r: JsonValue)
    ensures
        r@ == Json::Array(v@.map_values(|s: String| Json::Str(s@))),
{
    let mut out: Vec<JsonValue> = Vec::new();
    let mut i: usize = 0;
    while i < v.len()
        invariant
            i <= v@.len(),
            elems_view(out@) == v@.subrange(0, i as int).map_values(|s: String| Json::Str(s@)),
        decreases v.len() - i,
    {
        let ghost before = elems_view(out@);
        let x = JsonValue::Str(v[i].clone());
        assert(json_view(x) == Json::Str(v@[i as int]@));
        out.push(x);
        assert(elems_view(out@) =~= before.push(Json::Str(v@[i as int]@)));
        assert(elems_view(out@) =~= v@.subrange(0, i + 1).map_values(|s: String| Json::Str(s@)));
        i = i + 1;
    }
    assert(v@.subrange(0, v@.len() as int) =~= v@);
    proof {
        lemma_array_view(out);
    }
    JsonValue::Array(out)
}

} // verus!
