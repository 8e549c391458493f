//! JSON values as the API responses deliver them, and the accessors the
//! response parsers read them with. Decoding JSON text happens outside the
//! library, which receives the decoded value.

use vstd::prelude::*;

use crate::app_model::{key_pos, lemma_key_pos, lookup};
use crate::number::{clamp_i64, parse_fixed, parse_fixed_chars, pow10};
use crate::text::{chars_of, str_eq};
use serde_json::Value;

verus! {

/// A JSON number as the decoder keeps it: a non-negative integer, a
/// negative integer, or the decimal text of any other number.
pub enum JsonNumber {
    PosInt(u64),
    NegInt(i64),
    Float(String),
}

/// A decoded JSON value. Objects keep their members in order, each key once.
pub enum Json {
    Null,
    Bool(bool),
    Number(JsonNumber),
    Str(String),
    Array(Vec<Json>),
    Object(Vec<(String, Json)>),
}

impl Json {
    /// The member `key` of an object.
    pub open spec fn member(self, key: Seq<char>) -> Option<Json> {
        match self {
            Json::Object(fields) => lookup(fields@, key),
            _ => None,
        }
    }
}

/// The member `key` of `j`, when `j` is an object that has it.
pub open spec fn at(j: Option<Json>, key: Seq<char>) -> Option<Json> {
    match j {
        Some(v) => v.member(key),
        None => None,
    }
}

/// The text of a JSON string.
pub open spec fn text_of(j: Option<Json>) -> Option<Seq<char>> {
    match j {
        Some(Json::Str(s)) => Some(s@),
        _ => None,
    }
}

/// The string value of a JSON string.
pub open spec fn string_val(j: Option<Json>) -> Option<String> {
    match j {
        Some(Json::Str(s)) => Some(s),
        _ => None,
    }
}

/// A JSON number that is an integer in the range of `i64`.
pub open spec fn i64_of(j: Option<Json>) -> Option<i64> {
    match j {
        Some(Json::Number(JsonNumber::PosInt(n))) => if n <= i64::MAX {
            Some(n as i64)
        } else {
            None
        },
        Some(Json::Number(JsonNumber::NegInt(n))) => Some(n),
        _ => None,
    }
}

/// A JSON number that is a non-negative integer.
pub open spec fn u64_of(j: Option<Json>) -> Option<u64> {
    match j {
        Some(Json::Number(JsonNumber::PosInt(n))) => Some(n),
        _ => None,
    }
}

/// A JSON boolean.
pub open spec fn bool_of(j: Option<Json>) -> Option<bool> {
    match j {
        Some(Json::Bool(b)) => Some(b),
        _ => None,
    }
}

/// The elements of a JSON array.
pub open spec fn array_of(j: Option<Json>) -> Option<Seq<Json>> {
    match j {
        Some(Json::Array(v)) => Some(v@),
        _ => None,
    }
}

/// A JSON number in units of `10^-scale`, truncated toward zero and limited
/// to the `i64` range (a number written as text is read as the float parser
/// reads it); `None` for non-numbers.
pub open spec fn fixed_of(j: Option<Json>, scale: nat) -> Option<i64> {
    match j {
        Some(Json::Number(JsonNumber::PosInt(n))) => Some(clamp_i64(n * pow10(scale))),
        Some(Json::Number(JsonNumber::NegInt(n))) => Some(clamp_i64(n * pow10(scale))),
        Some(Json::Number(JsonNumber::Float(t))) => parse_fixed(t@, scale),
        _ => None,
    }
}

/// The value a reference points to.
pub open spec fn deref_opt(j: Option<&Json>) -> Option<Json> {
    match j {
        Some(x) => Some(*x),
        None => None,
    }
}

/// The member `key` of `j`.
pub fn get<'a>(j: Option<&'a Json>, key: &str) -> (r: Option<&'a Json>)
    ensures
        deref_opt(r) == at(deref_opt(j), key@),
{
    let fields = match j {
        Some(Json::Object(fields)) => fields,
        _ => {
            return None;
        },
    };
    proof {
        lemma_key_pos(fields@, key@);
    }
    let n = fields.len();
    for i in 0..n
        invariant
            n == fields.len(),
            deref_opt(j) == Some(Json::Object(*fields)),
            forall|k: int| 0 <= k < i ==> fields@[k].0@ != key@,
            match key_pos(fields@, key@) {
                Some(p) => 0 <= p < fields@.len() && fields@[p].0@ == key@ && forall|k: int|
                    0 <= k < p ==> fields@[k].0@ != key@,
                None => forall|k: int| 0 <= k < fields@.len() ==> fields@[k].0@ != key@,
            },
    {
        if str_eq(fields[i].0.as_str(), key) {
            assert(fields@[i as int].0@ == key@);
            assert(key_pos(fields@, key@) == Some(i as int));
            return Some(&fields[i].1);
        }
    }
    None
}

/// The text of a JSON string, copied.
pub fn as_text(j: Option<&Json>) -> (r: Option<String>)
    ensures
        crate::model::anime::opt_view(r) == text_of(deref_opt(j)),
{
    match j {
        Some(Json::Str(s)) => Some(s.clone()),
        _ => None,
    }
}

/// The string value of a JSON string, copied.
pub fn as_string(j: Option<&Json>) -> (r: Option<String>)
    ensures
        r == string_val(deref_opt(j)),
{
    match j {
        Some(Json::Str(s)) => Some(s.clone()),
        _ => None,
    }
}

/// The text of a JSON string, borrowed.
pub fn as_str<'a>(j: Option<&'a Json>) -> (r: Option<&'a String>)
    ensures
        match r {
            Some(s) => text_of(deref_opt(j)) == Some(s@),
            None => text_of(deref_opt(j)) is None,
        },
{
    match j {
        Some(Json::Str(s)) => Some(s),
        _ => None,
    }
}

/// An integer JSON number in the range of `i64`.
pub fn as_i64(j: Option<&Json>) -> (r: Option<i64>)
    ensures
        r == i64_of(deref_opt(j)),
{
    match j {
        Some(Json::Number(JsonNumber::PosInt(n))) => if *n <= i64::MAX as u64 {
            Some(*n as i64)
        } else {
            None
        },
        Some(Json::Number(JsonNumber::NegInt(n))) => Some(*n),
        _ => None,
    }
}

/// A non-negative integer JSON number.
pub fn as_u64(j: Option<&Json>) -> (r: Option<u64>)
    ensures
        r == u64_of(deref_opt(j)),
{
    match j {
        Some(Json::Number(JsonNumber::PosInt(n))) => Some(*n),
        _ => None,
    }
}

/// A JSON boolean.
pub fn as_bool(j: Option<&Json>) -> (r: Option<bool>)
    ensures
        r == bool_of(deref_opt(j)),
{
    match j {
        Some(Json::Bool(b)) => Some(*b),
        _ => None,
    }
}

/// The elements of a JSON array.
pub fn as_array<'a>(j: Option<&'a Json>) -> (r: Option<&'a Vec<Json>>)
    ensures
        match r {
            Some(v) => array_of(deref_opt(j)) == Some(v@),
            None => array_of(deref_opt(j)) is None,
        },
{
    match j {
        Some(Json::Array(v)) => Some(v),
        _ => None,
    }
}

fn scale_int(x: i128, p: i128) -> (r: Option<i64>)
    requires
        -18_446_744_073_709_551_616 <= x <= 18_446_744_073_709_551_615,
        1 <= p <= 1_000_000,
    ensures
        r == Some(clamp_i64(x * p)),
{
    assert(-18_446_744_073_709_551_616 * 1_000_000 <= x * p <= 18_446_744_073_709_551_615 * 1_000_000)
        by (nonlinear_arith)
        requires
            -18_446_744_073_709_551_616 <= x <= 18_446_744_073_709_551_615,
            1 <= p <= 1_000_000,
    ;
    let v = x * p;
    if v < i64::MIN as i128 {
        Some(i64::MIN)
    } else if v > i64::MAX as i128 {
        Some(i64::MAX)
    } else {
        Some(v as i64)
    }
}

fn pow10_small(scale: u32) -> (r: i128)
    requires
        scale <= 6,
    ensures
        r == pow10(scale as nat),
        1 <= r <= 1_000_000,
{
    reveal_with_fuel(pow10, 7);
    match scale {
        0 => 1,
        1 => 10,
        2 => 100,
        3 => 1000,
        4 => 10_000,
        5 => 100_000,
        _ => 1_000_000,
    }
}

/// A JSON number in units of `10^-scale`.
pub fn as_fixed(j: Option<&Json>, scale: u32) -> (r: Option<i64>)
    requires
        scale <= 6,
    ensures
        r == fixed_of(deref_opt(j), scale as nat),
{
    match j {
        Some(Json::Number(JsonNumber::PosInt(n))) => scale_int(*n as i128, pow10_small(scale)),
        Some(Json::Number(JsonNumber::NegInt(n))) => scale_int(*n as i128, pow10_small(scale)),
        Some(Json::Number(JsonNumber::Float(t))) => {
            let v = chars_of(t.as_str());
            parse_fixed_chars(&v, scale)
        },
        _ => None,
    }
}

/// `serde_json::Value`, a decoded JSON document; opaque here, only converted to `Json`.
#[verifier::external_type_specification]
#[verifier::external_body]
pub struct ExValue(Value);

/// The document that `serde_json::from_str` decodes from `text`, as a `Json`
/// value, or `None` when the text is not JSON. It depends on the text alone.
pub uninterp spec fn json_of_text(text: Seq<char>) -> Option<Json>;

/// `serde_json::from_str::<serde_json::Value>`, with the decoded document
/// converted to `Json` one value for one. Trusted: the result is named by
/// `json_of_text`; what JSON text decodes to what is not stated.
#[verifier::external_body]
pub fn parse_json_text(text: &str) -> (r: Option<Json>)
    ensures
        r == json_of_text(text@),
{
    match serde_json::from_str::<Value>(text) {
        Ok(v) => Some(json_of_value(&v)),
        Err(_) => None,
    }
}

/// The conversion used by `parse_json_text`: each serde_json value becomes
/// the `Json` variant of the same kind, numbers by the form serde_json keeps.
#[verifier::external_body]
fn json_of_value(v: &Value) -> Json {
    match v {
        Value::Null => Json::Null,
        Value::Bool(b) => Json::Bool(*b),
        Value::Number(n) => Json::Number(match (n.as_u64(), n.as_i64()) {
            (Some(u), _) => JsonNumber::PosInt(u),
            (None, Some(i)) => JsonNumber::NegInt(i),
            (None, None) => JsonNumber::Float(n.to_string()),
        }),
        Value::String(s) => Json::Str(s.clone()),
        Value::Array(a) => Json::Array(a.iter().map(json_of_value).collect()),
        Value::Object(m) => Json::Object(m.iter().map(|(k, x)| (k.clone(), json_of_value(x))).collect()),
    }
}

} // verus!
