//! JSON values of `serde_json`, and what the library asks of that crate.
//!
//! `Json` says what a value is. The functions in this file hand the work to
//! `serde_json`; their contracts are not proved but stated after its source and
//! documentation, with the features `preserve_order` and `float_roundtrip` on.

use serde_json::{Error, Map as Object, Value};

use vstd::prelude::*;

verus! {

/// Declares `serde_json::Value`. Nothing is claimed of it but what `json_of`
/// names.
#[verifier::external_type_specification]
#[verifier::external_body]
pub struct ExValue(Value);

/// Declares `serde_json::Map`. Nothing is claimed of it but what `entries`
/// names.
#[verifier::external_type_specification]
#[verifier::external_body]
#[verifier::reject_recursive_types(K)]
#[verifier::reject_recursive_types(V)]
pub struct ExObject<K, V>(Object<K, V>);

/// Declares `serde_json::Error`, which is only handed on.
#[verifier::external_type_specification]
#[verifier::external_body]
pub struct ExError(Error);

/// What a JSON value is.
#[verifier::ext_equal]
pub enum Json {
    Null,
    Bool(bool),
    /// A whole number that is not negative.
    Count(u64),
    /// A negative whole number.
    Negative(i64),
    /// Any other number, by its bit pattern.
    Float(u64),
    Text(Seq<char>),
    Array(Seq<Json>),
    Object(Seq<(Seq<char>, Json)>),
}

/// What a value of `serde_json` is.
pub uninterp spec fn json_of(v: Value) -> Json;

/// The keys of an object of `serde_json` in their order, each with its value.
pub uninterp spec fn entries(m: Object<String, Value>) -> Seq<(Seq<char>, Json)>;

/// The text of an object: what `serde_json::to_string` gives.
pub uninterp spec fn object_text(entries: Seq<(Seq<char>, Json)>) -> Seq<char>;

/// The object that a text stands for: what `serde_json::from_str` gives for it,
/// or nothing where that is an error.
pub uninterp spec fn parsed_object(text: Seq<char>) -> Option<Seq<(Seq<char>, Json)>>;

/// The bit pattern of a whole number as a floating-point number: what
/// `Value::as_f64` gives for it.
pub uninterp spec fn whole_as_float(n: int) -> u64;

/// The values of an array.
pub open spec fn elements(values: Seq<Value>) -> Seq<Json> {
    values.map_values(|v: Value| json_of(v))
}

/// A value that is neither an array nor an object.
pub open spec fn is_scalar(j: Json) -> bool {
    !(j is Array) && !(j is Object)
}

/// How many arrays and objects may stand inside each other in the value of a
/// key for `serde_json::from_str` to read it.
pub const NESTING: u64 = 126;

/// Whether no more than `n` arrays and objects stand inside each other.
pub open spec fn nests_within(j: Json, n: nat) -> bool
    decreases n,
{
    match j {
        Json::Array(values) => n > 0 && forall|i: int|
            0 <= i < values.len() ==> nests_within(#[trigger] values[i], (n - 1) as nat),
        Json::Object(entries) => n > 0 && forall|i: int|
            0 <= i < entries.len() ==> nests_within((#[trigger] entries[i]).1, (n - 1) as nat),
        _ => true,
    }
}

/// Whether the value of every key can be read.
pub open spec fn is_shallow(entries: Seq<(Seq<char>, Json)>) -> bool {
    forall|i: int| 0 <= i < entries.len() ==> nests_within((#[trigger] entries[i]).1, NESTING as nat)
}

/// Whether a key occurs.
pub open spec fn has_key(entries: Seq<(Seq<char>, Json)>, key: Seq<char>) -> bool {
    exists|i: int| 0 <= i < entries.len() && (#[trigger] entries[i]).0 == key
}

/// Whether no key occurs twice.
pub open spec fn has_distinct_keys(entries: Seq<(Seq<char>, Json)>) -> bool {
    forall|i: int, j: int|
        0 <= i < j < entries.len() ==> (#[trigger] entries[i]).0 != (#[trigger] entries[j]).0
}

/// The value of a key.
pub open spec fn lookup(entries: Seq<(Seq<char>, Json)>, key: Seq<char>) -> Option<Json>
    decreases entries.len(),
{
    if entries.len() == 0 {
        None
    } else if entries[0].0 == key {
        Some(entries[0].1)
    } else {
        lookup(entries.skip(1), key)
    }
}

/// The entries with `key` set to a value: in its place where it occurs, and
/// behind the others where it does not.
pub open spec fn with_entry(
    entries: Seq<(Seq<char>, Json)>,
    key: Seq<char>,
    value: Json,
) -> Seq<(Seq<char>, Json)> {
    if has_key(entries, key) {
        entries.map_values(
            |e: (Seq<char>, Json)|
                if e.0 == key {
                    (key, value)
                } else {
                    e
                },
        )
    } else {
        entries.push((key, value))
    }
}

/// The whole number that a value is, where it is one and not negative.
pub open spec fn count_in(j: Json) -> Option<u64> {
    match j {
        Json::Count(n) => Some(n),
        _ => None,
    }
}

/// The text that a value is, where it is one.
pub open spec fn text_in(j: Json) -> Option<Seq<char>> {
    match j {
        Json::Text(s) => Some(s),
        _ => None,
    }
}

/// The bit pattern of the number that a value is, where it is one.
pub open spec fn number_in(j: Json) -> Option<u64> {
    match j {
        Json::Count(n) => Some(whole_as_float(n as int)),
        Json::Negative(n) => Some(whole_as_float(n as int)),
        Json::Float(bits) => Some(bits),
        _ => None,
    }
}

/// Calls `Value::as_u64`, which gives a whole number that is not negative, and
/// nothing for any other value.
#[verifier::external_body]
pub(crate) fn value_count(v: &Value) -> (r: Option<u64>)
    ensures
        r == count_in(json_of(*v)),
{
    v.as_u64()
}

/// Calls `Value::as_str`, which gives a text, and nothing for any other value.
#[verifier::external_body]
pub(crate) fn value_text(v: &Value) -> (r: Option<&str>)
    ensures
        match r {
            Some(s) => text_in(json_of(*v)) == Some(s@),
            None => text_in(json_of(*v)) is None,
        },
{
    v.as_str()
}

/// Calls `Value::as_f64`, which gives any number as a floating-point number,
/// and nothing for any other value. The number comes as its bit pattern.
#[verifier::external_body]
pub(crate) fn value_number(v: &Value) -> (r: Option<u64>)
    ensures
        match json_of(*v) {
            Json::Count(n) => r == Some(whole_as_float(n as int)),
            Json::Negative(n) => r == Some(whole_as_float(n as int)),
            Json::Float(bits) => r == Some(bits),
            _ => r is None,
        },
{
    v.as_f64().map(|x| x.to_bits())
}

/// Calls `Value::as_array`, which gives the values of an array, and nothing for
/// any other value.
#[verifier::external_body]
pub(crate) fn value_array(v: &Value) -> (r: Option<&Vec<Value>>)
    ensures
        match r {
            Some(a) => json_of(*v) == Json::Array(elements(a@)),
            None => !(json_of(*v) is Array),
        },
{
    v.as_array()
}

/// Calls `Value::as_object`, which gives the entries of an object, and nothing
/// for any other value.
#[verifier::external_body]
pub(crate) fn value_object(v: &Value) -> (r: Option<&Object<String, Value>>)
    ensures
        match r {
            Some(m) => json_of(*v) == Json::Object(entries(*m)),
            None => !(json_of(*v) is Object),
        },
{
    v.as_object()
}

/// Calls `Value::from` on a whole number.
#[verifier::external_body]
pub(crate) fn count_value(n: u64) -> (r: Value)
    ensures
        json_of(r) == Json::Count(n),
{
    Value::from(n)
}

/// Calls `Value::from` on a text.
#[verifier::external_body]
pub(crate) fn text_value(s: String) -> (r: Value)
    ensures
        json_of(r) == Json::Text(s@),
{
    Value::from(s)
}

/// Makes a value out of an object, with `Value::Object`.
#[verifier::external_body]
pub(crate) fn object_value(m: Object<String, Value>) -> (r: Value)
    ensures
        json_of(r) == Json::Object(entries(m)),
{
    Value::Object(m)
}

/// Calls `Map::new`, which makes an object without entries.
#[verifier::external_body]
pub(crate) fn empty_object() -> (r: Object<String, Value>)
    ensures
        entries(r) == Seq::<(Seq<char>, Json)>::empty(),
{
    Object::new()
}

/// Calls `Map::insert`, which replaces the value of a key that is there and
/// adds a key that is not there behind the others.
#[verifier::external_body]
pub(crate) fn insert(m: &mut Object<String, Value>, key: String, value: Value)
    ensures
        entries(*final(m)) == with_entry(entries(*old(m)), key@, json_of(value)),
{
    m.insert(key, value);
}

/// Calls `Map::get`, which finds the value of a key.
#[verifier::external_body]
pub(crate) fn get<'a>(m: &'a Object<String, Value>, key: &str) -> (r: Option<&'a Value>)
    ensures
        match r {
            Some(v) => lookup(entries(*m), key@) == Some(json_of(*v)),
            None => lookup(entries(*m), key@) is None,
        },
{
    m.get(key)
}

/// Calls `Map::len`, which counts the keys.
#[verifier::external_body]
pub(crate) fn entry_count(m: &Object<String, Value>) -> (r: usize)
    ensures
        r == entries(*m).len(),
{
    m.len()
}

/// Gives the entry at a place in the order of the keys, with `Map::iter`.
#[verifier::external_body]
pub(crate) fn entry_at(m: &Object<String, Value>, i: usize) -> (r: Option<(&String, &Value)>)
    ensures
        match r {
            Some((k, v)) => i < entries(*m).len() && entries(*m)[i as int] == (k@, json_of(*v)),
            None => i >= entries(*m).len(),
        },
{
    m.iter().nth(i)
}

/// Calls `serde_json::from_str` for an object. A text gives the entries that
/// `parsed_object` names, and an error where it names none.
#[verifier::external_body]
pub(crate) fn parse_object(text: &str) -> (r: Result<Object<String, Value>, Error>)
    ensures
        match r {
            Ok(m) => parsed_object(text@) == Some(entries(m)),
            Err(_) => parsed_object(text@) is None,
        },
{
    serde_json::from_str(text)
}

/// Calls `serde_json::to_string` on an object. There is a text for every
/// object, the one that `object_text` names. Where no more than `NESTING`
/// arrays and objects stand inside each other in the value of a key,
/// `serde_json::from_str` gives the same entries back for that text. The text
/// starts with a brace and holds no line break.
#[verifier::external_body]
pub(crate) fn object_line(m: &Object<String, Value>) -> (r: Result<String, Error>)
    ensures
        r is Ok,
        r->Ok_0@ == object_text(entries(*m)),
        is_shallow(entries(*m)) ==> parsed_object(r->Ok_0@) == Some(entries(*m)),
        r->Ok_0@.len() > 0,
        r->Ok_0@[0] == '{',
        !r->Ok_0@.contains('\n'),
{
    serde_json::to_string(m)
}

} // verus!
