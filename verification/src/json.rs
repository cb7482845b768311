//! JSON values as the tile and registry data holds them, with the accessors
//! the loaders use.
use vstd::prelude::*;
use serde_json::Value;
use crate::text::no_newline;

verus! {

/// A JSON number, as `serde_json` represents it: a non-negative integer, a
/// negative integer, or a float (kept as `serde_json` holds it; no accessor
/// here reads its value).
#[derive(Debug, PartialEq)]
pub enum JsonNumber {
    PosInt(u64),
    NegInt(i64),
    Float(serde_json::Number),
}

/// A JSON value. Object members keep `serde_json`'s iteration order (sorted
/// by key) and their keys are distinct.
#[derive(Debug)]
pub enum JsonValue {
    Null,
    Bool(bool),
    Number(JsonNumber),
    String(String),
    Array(Vec<JsonValue>),
    Object(Vec<(String, JsonValue)>),
}

#[verifier::external_type_specification]
#[verifier::external_body]
pub struct ExSerdeValue(serde_json::Value);

#[verifier::external_type_specification]
#[verifier::external_body]
pub struct ExSerdeNumber(serde_json::Number);

/// The value `serde_json` parses from a text, if the text is JSON.
pub uninterp spec fn json_parse(text: Seq<char>) -> Option<JsonValue>;

/// One-for-one conversion of a `serde_json::Value`.
#[verifier::external_body]
fn from_serde(v: serde_json::Value) -> JsonValue {
    match v {
        serde_json::Value::Null => JsonValue::Null,
        serde_json::Value::Bool(b) => JsonValue::Bool(b),
        serde_json::Value::Number(n) => JsonValue::Number(match (n.as_u64(), n.as_i64()) {
            (Some(u), _) => JsonNumber::PosInt(u),
            (None, Some(i)) => JsonNumber::NegInt(i),
            (None, None) => JsonNumber::Float(n),
        }),
        serde_json::Value::String(s) => JsonValue::String(s),
        serde_json::Value::Array(a) => JsonValue::Array(a.into_iter().map(from_serde).collect()),
        serde_json::Value::Object(m) => JsonValue::Object(
            m.into_iter().map(|(k, v)| (k, from_serde(v))).collect(),
        ),
    }
}

/// One-for-one conversion back to a `serde_json::Value`.
#[verifier::external_body]
fn to_serde(v: &JsonValue) -> Value {
    match v {
        JsonValue::Null => Value::Null,
        JsonValue::Bool(b) => Value::Bool(*b),
        JsonValue::Number(JsonNumber::PosInt(u)) => (*u).into(),
        JsonValue::Number(JsonNumber::NegInt(i)) => (*i).into(),
        JsonValue::Number(JsonNumber::Float(n)) => Value::Number(n.clone()),
        JsonValue::String(s) => Value::String(s.clone()),
        JsonValue::Array(a) => Value::Array(a.iter().map(to_serde).collect()),
        JsonValue::Object(m) => Value::Object(
            m.iter().map(|(k, v)| (k.clone(), to_serde(v))).collect(),
        ),
    }
}

/// The compact JSON text `serde_json` writes for a value.
pub uninterp spec fn json_serialize(v: JsonValue) -> Seq<char>;

/// `serde_json::to_string` of a value: its compact JSON text. Writing a
/// `serde_json::Value` cannot fail (its map keys are strings), so the
/// default of the error arm is never taken. The compact writer puts no
/// whitespace between tokens and writes a line break inside a string as the
/// escape `\n`, so the text holds no line break.
#[verifier::external_body]
pub(crate) fn serialize_json(v: &JsonValue) -> (r: String)
    ensures
        r@ == json_serialize(*v),
        no_newline(r@),
{
    serde_json::to_string(&to_serde(v)).unwrap_or_default()
}

/// The indented JSON text `serde_json` writes for a value.
pub uninterp spec fn json_pretty(v: JsonValue) -> Seq<char>;

/// `serde_json::to_string_pretty` of a value: its JSON text, indented by
/// two spaces. Writing a `serde_json::Value` cannot fail, so the default of
/// the error arm is never taken.
#[verifier::external_body]
pub(crate) fn pretty_json(v: &JsonValue) -> (r: String)
    ensures
        r@ == json_pretty(*v),
{
    serde_json::to_string_pretty(&to_serde(v)).unwrap_or_default()
}

/// `serde_json::from_str::<serde_json::Value>`: the value a text holds, or
/// `None` when it is not JSON.
#[verifier::external_body]
pub(crate) fn parse_json(text: &str) -> (r: Option<JsonValue>)
    ensures
        r == json_parse(text@),
{
    serde_json::from_str::<serde_json::Value>(text).ok().map(from_serde)
}

/// `Value::as_str`.
pub open spec fn as_str(v: JsonValue) -> Option<Seq<char>> {
    match v {
        JsonValue::String(s) => Some(s@),
        _ => None,
    }
}

/// `Value::as_u64`.
pub open spec fn as_u64(v: JsonValue) -> Option<u64> {
    match v {
        JsonValue::Number(JsonNumber::PosInt(n)) => Some(n),
        _ => None,
    }
}

/// `Value::as_i64`.
pub open spec fn as_i64(v: JsonValue) -> Option<i64> {
    match v {
        JsonValue::Number(JsonNumber::PosInt(n)) => if n <= i64::MAX {
            Some(n as i64)
        } else {
            None
        },
        JsonValue::Number(JsonNumber::NegInt(n)) => Some(n),
        _ => None,
    }
}

/// `Value::as_bool`.
pub open spec fn as_bool(v: JsonValue) -> Option<bool> {
    match v {
        JsonValue::Bool(b) => Some(b),
        _ => None,
    }
}

/// `Value::as_object`.
pub open spec fn as_object(v: JsonValue) -> Option<Seq<(String, JsonValue)>> {
    match v {
        JsonValue::Object(m) => Some(m@),
        _ => None,
    }
}

/// The member of an object named `key` (`Map::get`), the first such member.
pub open spec fn member(m: Seq<(String, JsonValue)>, key: Seq<char>) -> Option<JsonValue>
    decreases m.len(),
{
    if m.len() == 0 {
        None
    } else if m[0].0@ == key {
        Some(m[0].1)
    } else {
        member(m.drop_first(), key)
    }
}

/// The member named `key` of `v`, when `v` is an object that has one.
pub open spec fn field(v: Option<JsonValue>, key: Seq<char>) -> Option<JsonValue> {
    match v {
        Some(JsonValue::Object(m)) => member(m@, key),
        _ => None,
    }
}

pub open spec fn opt_u64(v: Option<JsonValue>) -> Option<u64> {
    match v {
        Some(x) => as_u64(x),
        None => None,
    }
}

pub open spec fn opt_i64(v: Option<JsonValue>) -> Option<i64> {
    match v {
        Some(x) => as_i64(x),
        None => None,
    }
}

pub open spec fn opt_bool(v: Option<JsonValue>) -> Option<bool> {
    match v {
        Some(x) => as_bool(x),
        None => None,
    }
}

pub open spec fn opt_str(v: Option<JsonValue>) -> Option<Seq<char>> {
    match v {
        Some(x) => as_str(x),
        None => None,
    }
}

/// Whether `a` and `b` hold the same characters.
pub(crate) fn str_eq(a: &str, b: &str) -> (r: bool)
    ensures
        r == (a@ == b@),
{
    let x = crate::text::chars_of(a);
    let y = crate::text::chars_of(b);
    if x.len() != y.len() {
        return false;
    }
    let mut i: usize = 0;
    while i < x.len()
        invariant
            x@ == a@,
            y@ == b@,
            x.len() == y.len(),
            i <= x.len(),
            forall|j: int| 0 <= j < i ==> x@[j] == y@[j],
        decreases x.len() - i,
    {
        if x[i] != y[i] {
            return false;
        }
        i = i + 1;
    }
    assert(a@ =~= b@);
    true
}

/// The member of the object `m` named `key`.
pub fn get_member<'a>(m: &'a Vec<(String, JsonValue)>, key: &str) -> (r: Option<&'a JsonValue>)
    ensures
        match r {
            Some(v) => member(m@, key@) == Some(*v),
            None => member(m@, key@) is None,
        },
{
    let mut i: usize = 0;
    assert(m@.skip(0) =~= m@);
    while i < m.len()
        invariant
            i <= m@.len(),
            member(m@, key@) == member(m@.skip(i as int), key@),
        decreases m@.len() - i,
    {
        proof {
            assert(m@.skip(i as int).drop_first() =~= m@.skip(i + 1));
            assert(m@.skip(i as int)[0] == m@[i as int]);
        }
        if str_eq(m[i].0.as_str(), key) {
            return Some(&m[i].1);
        }
        i = i + 1;
    }
    None
}

/// The member named `key` of `v`, when `v` is an object that has one.
pub fn get_field<'a>(v: Option<&'a JsonValue>, key: &str) -> (r: Option<&'a JsonValue>)
    ensures
        match v {
            Some(x) => match r {
                Some(y) => field(Some(*x), key@) == Some(*y),
                None => field(Some(*x), key@) is None,
            },
            None => r is None,
        },
{
    match v {
        Some(JsonValue::Object(m)) => get_member(m, key),
        _ => None,
    }
}

pub fn get_u64(v: Option<&JsonValue>) -> (r: Option<u64>)
    ensures
        match v {
            Some(x) => r == as_u64(*x),
            None => r is None,
        },
{
    match v {
        Some(JsonValue::Number(JsonNumber::PosInt(n))) => Some(*n),
        _ => None,
    }
}

pub fn get_i64(v: Option<&JsonValue>) -> (r: Option<i64>)
    ensures
        match v {
            Some(x) => r == as_i64(*x),
            None => r is None,
        },
{
    match v {
        Some(JsonValue::Number(JsonNumber::PosInt(n))) => if *n <= 0x7fff_ffff_ffff_ffffu64 {
            Some(*n as i64)
        } else {
            None
        },
        Some(JsonValue::Number(JsonNumber::NegInt(n))) => Some(*n),
        _ => None,
    }
}

pub fn get_bool(v: Option<&JsonValue>) -> (r: Option<bool>)
    ensures
        match v {
            Some(x) => r == as_bool(*x),
            None => r is None,
        },
{
    match v {
        Some(JsonValue::Bool(b)) => Some(*b),
        _ => None,
    }
}

} // verus!
