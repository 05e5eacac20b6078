//! JSON values: read from text and written out with `serde_json`, and edited
//! as values of the library's own.

use crate::text::eq_str;
use vstd::prelude::*;

verus! {

#[verifier::external_type_specification]
#[verifier::external_body]
pub struct ExJsonError(serde_json::Error);

#[verifier::external_type_specification]
#[verifier::external_body]
pub struct ExOutsideValue(serde_json::Value);

/// A JSON value. A number keeps its text; an object keeps its fields in
/// order, each key with its value.
pub enum JsonValue {
    Null,
    Bool(bool),
    Number(String),
    Str(String),
    Array(Vec<JsonValue>),
    Object(Vec<(String, JsonValue)>),
}

/// The value a text holds as JSON, or nothing where it is no JSON text.
pub uninterp spec fn parsed_json(text: Seq<char>) -> Option<JsonValue>;

/// The compact JSON text of a value, where it can be written.
pub uninterp spec fn compact_json(v: JsonValue) -> Seq<char>;

/// The pretty-printed JSON text of a value, where it can be written.
pub uninterp spec fn pretty_json(v: JsonValue) -> Seq<char>;

/// A `serde_json::Value` converted, one for one, into a value of the library;
/// a number keeps the text that `Display` of `serde_json::Number` gives it.
/// Nothing is claimed of the conversion.
#[verifier::external_body]
fn from_outside(v: serde_json::Value) -> JsonValue {
    match v {
        serde_json::Value::Null => JsonValue::Null,
        serde_json::Value::Bool(b) => JsonValue::Bool(b),
        serde_json::Value::Number(n) => JsonValue::Number(n.to_string()),
        serde_json::Value::String(s) => JsonValue::Str(s),
        serde_json::Value::Array(items) => JsonValue::Array(items.into_iter().map(from_outside).collect()),
        serde_json::Value::Object(map) => JsonValue::Object(map.into_iter().map(|(k, x)| (k, from_outside(x))).collect()),
    }
}

/// A value of the library converted, one for one, into a `serde_json::Value`;
/// a number's text is read back with `FromStr` of `serde_json::Number`, whose
/// error is handed on. Nothing is claimed of the conversion.
#[verifier::external_body]
fn to_outside(v: &JsonValue) -> Result<serde_json::Value, serde_json::Error> {
    let out = match v {
        JsonValue::Null => serde_json::Value::Null,
        JsonValue::Bool(b) => serde_json::Value::Bool(*b),
        JsonValue::Number(n) => serde_json::Value::Number(n.parse()?),
        JsonValue::Str(s) => serde_json::Value::String(s.clone()),
        JsonValue::Array(items) => serde_json::Value::Array(items.iter().map(to_outside).collect::<Result<_, _>>()?),
        JsonValue::Object(fields) => serde_json::Value::Object(
            fields.iter().map(|(k, x)| to_outside(x).map(|y| (k.clone(), y))).collect::<Result<_, _>>()?,
        ),
    };
    Ok(out)
}

/// `serde_json::from_str` into a `serde_json::Value`: the text read as JSON.
/// Claimed: it succeeds exactly on the texts that `parsed_json` gives a value
/// for, and gives that value (a function of the text alone).
#[verifier::external_body]
pub fn read_value(s: &str) -> (r: Result<JsonValue, serde_json::Error>)
    ensures
        r is Ok <==> parsed_json(s@) is Some,
        r matches Ok(v) ==> v == parsed_json(s@)->0,
{
    serde_json::from_str::<serde_json::Value>(s).map(from_outside)
}

/// `serde_json::to_string` of the value: its compact JSON text. Claimed: the
/// text, where it is written, is a function of the value alone; when writing
/// fails is not stated.
#[verifier::external_body]
pub fn write_value(v: &JsonValue) -> (r: Result<String, serde_json::Error>)
    ensures
        r matches Ok(s) ==> s@ == compact_json(*v),
{
    serde_json::to_string(&to_outside(v)?)
}

/// `serde_json::to_string_pretty` of the value: its pretty-printed JSON text.
/// Claimed as for `write_value`.
#[verifier::external_body]
pub fn write_value_pretty(v: &JsonValue) -> (r: Result<String, serde_json::Error>)
    ensures
        r matches Ok(s) ==> s@ == pretty_json(*v),
{
    serde_json::to_string_pretty(&to_outside(v)?)
}

/// The position of the first field named `key`, if any.
pub open spec fn field_position(fields: Seq<(String, JsonValue)>, key: Seq<char>) -> Option<int> {
    if exists|i: int| 0 <= i < fields.len() && (#[trigger] fields[i]).0@ == key {
        Some(
            choose|i: int|
                0 <= i < fields.len() && (#[trigger] fields[i]).0@ == key && forall|j: int|
                    0 <= j < i ==> (#[trigger] fields[j]).0@ != key,
        )
    } else {
        None
    }
}

/// The fields of a value: an object's, and none for anything else.
pub open spec fn fields_of(v: JsonValue) -> Seq<(String, JsonValue)> {
    match v {
        JsonValue::Object(f) => f@,
        _ => Seq::empty(),
    }
}

/// The value under `key`: the first such field's, and null where there is none.
pub open spec fn value_at(v: JsonValue, key: Seq<char>) -> JsonValue {
    match field_position(fields_of(v), key) {
        Some(i) => fields_of(v)[i].1,
        None => JsonValue::Null,
    }
}

/// Whether a value can be written into by key: an object, or null, which
/// becomes an empty object.
pub open spec fn keyable(v: JsonValue) -> bool {
    v is Null || v is Object
}

/// `after` is `before` with `value` under `key`: the first field named `key`
/// holds it, or a new field at the end where none is named so.
pub open spec fn field_set(
    before: Seq<(String, JsonValue)>,
    key: Seq<char>,
    value: JsonValue,
    after: Seq<(String, JsonValue)>,
) -> bool {
    match field_position(before, key) {
        Some(i) => after == before.update(i, (before[i].0, value)),
        None => {
            &&& after.len() == before.len() + 1
            &&& after.take(before.len() as int) == before
            &&& after.last().0@ == key
            &&& after.last().1 == value
        },
    }
}

/// The first field named `key` is at `i`.
proof fn lemma_first_position(fields: Seq<(String, JsonValue)>, key: Seq<char>, i: int)
    requires
        0 <= i < fields.len(),
        fields[i].0@ == key,
        forall|j: int| 0 <= j < i ==> (#[trigger] fields[j]).0@ != key,
    ensures
        field_position(fields, key) == Some(i),
{
    assert(fields[i].0@ == key);
    let c = choose|c: int|
        0 <= c < fields.len() && (#[trigger] fields[c]).0@ == key && forall|j: int|
            0 <= j < c ==> (#[trigger] fields[j]).0@ != key;
    if c < i {
        assert(fields[c].0@ != key);
    }
    if i < c {
        assert(fields[i].0@ != key);
    }
}

/// The first field named `key`, found by a search from the front.
fn find_field(fields: &Vec<(String, JsonValue)>, key: &str) -> (r: Option<usize>)
    ensures
        match r {
            Some(i) => i < fields@.len() && field_position(fields@, key@) == Some(i as int),
            None => field_position(fields@, key@) is None,
        },
{
    let mut i: usize = 0;
    while i < fields.len()
        invariant
            i <= fields@.len(),
            forall|j: int| 0 <= j < i ==> (#[trigger] fields@[j]).0@ != key@,
        decreases fields@.len() - i,
    {
        if eq_str(fields[i].0.as_str(), key) {
            proof {
                lemma_first_position(fields@, key@, i as int);
            }
            return Some(i);
        }
        i = i + 1;
    }
    None
}

/// The value with `value` under `key`, as writing `v[key] = value` does on a
/// JSON value: null becomes an object first, the first field named `key` gets
/// the value, or a new field at the end does.
pub fn with_field(v: JsonValue, key: &str, value: JsonValue) -> (r: JsonValue)
    requires
        keyable(v),
    ensures
        r is Object,
        field_set(fields_of(v), key@, value, fields_of(r)),
{
    let mut fields = match v {
        JsonValue::Object(f) => f,
        _ => Vec::new(),
    };
    let ghost before = fields@;
    match find_field(&fields, key) {
        Some(i) => {
            let (k, _old) = fields.remove(i);
            fields.insert(i, (k, value));
            assert(fields@ =~= before.update(i as int, (before[i as int].0, value)));
        },
        None => {
            fields.push((key.to_owned(), value));
            assert(fields@.take(before.len() as int) =~= before);
        },
    }
    JsonValue::Object(fields)
}

/// Where some field is named `key`, the first one is found.
proof fn lemma_first_exists(fields: Seq<(String, JsonValue)>, key: Seq<char>, i: int)
    requires
        0 <= i < fields.len(),
        fields[i].0@ == key,
    ensures
        field_position(fields, key) matches Some(p) && 0 <= p <= i && fields[p].0@ == key && forall|j: int|
            0 <= j < p ==> (#[trigger] fields[j]).0@ != key,
    decreases i,
{
    if exists|j: int| 0 <= j < i && (#[trigger] fields[j]).0@ == key {
        let j = choose|j: int| 0 <= j < i && (#[trigger] fields[j]).0@ == key;
        lemma_first_exists(fields, key, j);
    } else {
        lemma_first_position(fields, key, i);
    }
}

/// What a position is: the first field named `key`; none where no field is
/// named so.
proof fn lemma_position_props(fields: Seq<(String, JsonValue)>, key: Seq<char>)
    ensures
        match field_position(fields, key) {
            Some(p) => 0 <= p < fields.len() && fields[p].0@ == key && forall|j: int|
                0 <= j < p ==> (#[trigger] fields[j]).0@ != key,
            None => forall|j: int| 0 <= j < fields.len() ==> (#[trigger] fields[j]).0@ != key,
        },
{
    if exists|i: int| 0 <= i < fields.len() && (#[trigger] fields[i]).0@ == key {
        let i = choose|i: int| 0 <= i < fields.len() && (#[trigger] fields[i]).0@ == key;
        lemma_first_exists(fields, key, i);
    }
}

/// The position of a key depends on the keys alone.
proof fn lemma_position_same_keys(a: Seq<(String, JsonValue)>, b: Seq<(String, JsonValue)>, key: Seq<char>)
    requires
        a.len() == b.len(),
        forall|j: int| 0 <= j < a.len() ==> (#[trigger] a[j]).0@ == b[j].0@,
    ensures
        field_position(a, key) == field_position(b, key),
{
    if exists|i: int| 0 <= i < a.len() && (#[trigger] a[i]).0@ == key {
        let i = choose|i: int| 0 <= i < a.len() && (#[trigger] a[i]).0@ == key;
        lemma_first_exists(a, key, i);
        let p = field_position(a, key)->0;
        assert forall|j: int| 0 <= j < p implies (#[trigger] b[j]).0@ != key by {
            assert(a[j].0@ != key);
        }
        assert(b[p].0@ == a[p].0@);
        lemma_first_position(b, key, p);
    } else {
        assert forall|j: int| 0 <= j < b.len() implies (#[trigger] b[j]).0@ != key by {
            assert(a[j].0@ == b[j].0@);
        }
    }
}

/// Takes the value under `key` out of `v`, leaving null in its place: the rest
/// of the value and the value taken (null where no field is named `key`).
pub fn take_value(v: JsonValue, key: &str) -> (r: (JsonValue, JsonValue))
    requires
        keyable(v),
    ensures
        keyable(r.0),
        r.1 == value_at(v, key@),
        match field_position(fields_of(v), key@) {
            Some(p) => fields_of(r.0) == fields_of(v).update(p, (fields_of(v)[p].0, JsonValue::Null)),
            None => fields_of(r.0) == fields_of(v),
        },
{
    let mut fields = match v {
        JsonValue::Object(f) => f,
        _ => Vec::new(),
    };
    let ghost before = fields@;
    match find_field(&fields, key) {
        Some(i) => {
            let (k, taken) = fields.remove(i);
            fields.insert(i, (k, JsonValue::Null));
            assert(fields@ =~= before.update(i as int, (before[i as int].0, JsonValue::Null)));
            (JsonValue::Object(fields), taken)
        },
        None => (JsonValue::Object(fields), JsonValue::Null),
    }
}

/// Writing `v[key] = value` on a value whose field under `key` was taken out:
/// the same as writing it on the value as it was.
pub proof fn lemma_put_back(v: JsonValue, rest: JsonValue, key: Seq<char>, value: JsonValue, after: Seq<(String, JsonValue)>)
    requires
        match field_position(fields_of(v), key) {
            Some(p) => fields_of(rest) == fields_of(v).update(p, (fields_of(v)[p].0, JsonValue::Null)),
            None => fields_of(rest) == fields_of(v),
        },
        field_set(fields_of(rest), key, value, after),
    ensures
        field_set(fields_of(v), key, value, after),
{
    let a = fields_of(v);
    let b = fields_of(rest);
    lemma_position_props(a, key);
    assert(a.len() == b.len());
    assert forall|j: int| 0 <= j < a.len() implies (#[trigger] a[j]).0@ == b[j].0@ by {}
    lemma_position_same_keys(a, b, key);
    match field_position(a, key) {
        Some(p) => {
            assert(after =~= a.update(p, (a[p].0, value)));
        },
        None => {},
    }
}

/// A value written by key reads back: after `v[key] = value`, the first field
/// named `key` holds `value`.
pub proof fn law_field_reads_back(
    before: Seq<(String, JsonValue)>,
    key: Seq<char>,
    value: JsonValue,
    after: Seq<(String, JsonValue)>,
)
    requires
        field_set(before, key, value, after),
    ensures
        field_position(after, key) matches Some(p) && 0 <= p < after.len() && after[p].1 == value,
{
    lemma_position_props(before, key);
    match field_position(before, key) {
        Some(i) => {
            assert forall|j: int| 0 <= j < before.len() implies (#[trigger] before[j]).0@ == after[j].0@ by {}
            lemma_position_same_keys(before, after, key);
        },
        None => {
            let n = before.len() as int;
            assert forall|j: int| 0 <= j < n implies (#[trigger] after[j]).0@ != key by {
                assert(after[j] == after.take(n)[j]);
            }
            lemma_first_position(after, key, n);
        },
    }
}

/// An array of strings, in order.
pub fn string_array(items: Vec<String>) -> (r: JsonValue)
    ensures
        r matches JsonValue::Array(vs) && vs@.len() == items@.len() && forall|j: int|
            0 <= j < items@.len() ==> #[trigger] vs@[j] == JsonValue::Str(items@[j]),
{
    let mut out: Vec<JsonValue> = Vec::new();
    let mut i: usize = 0;
    while i < items.len()
        invariant
            i <= items@.len(),
            out@.len() == i,
            forall|j: int| 0 <= j < i ==> #[trigger] out@[j] == JsonValue::Str(items@[j]),
        decreases items@.len() - i,
    {
        out.push(JsonValue::Str(items[i].clone()));
        i = i + 1;
    }
    JsonValue::Array(out)
}

} // verus!
