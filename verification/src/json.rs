//! JSON documents, as `serde_json` holds them.
//!
//! A `serde_json::Value` is opaque to the proofs. What it holds is the tree [`Json`], and
//! the methods of `Value` that are called here are specified over that tree.
use vstd::prelude::*;

use serde_json::Value;

verus! {

/// A parsed JSON document.
#[verifier::external_type_specification]
#[verifier::external_body]
pub struct ExValue(serde_json::Value);

/// What a JSON document holds.
pub enum Json {
    /// `null`.
    Null,
    /// `true` or `false`.
    Bool(bool),
    /// An integer that is not negative.
    PosInt(u64),
    /// A negative integer.
    NegInt(i64),
    /// A number that is not held as an integer.
    Real(int),
    /// A string.
    Text(Seq<char>),
    /// An array.
    List(Seq<Json>),
    /// An object.
    Record(Map<Seq<char>, Json>),
}

/// What the document `v` holds: `Null`, `Bool`, `String`, `Array` and `Object` under the
/// names of [`Json`], and a `Number` by the way in which `serde_json` keeps it.
pub uninterp spec fn json_of(v: serde_json::Value) -> Json;

/// The member `key` of an object; `null` where there is none.
pub open spec fn member(j: Json, key: Seq<char>) -> Json {
    match j {
        Json::Record(m) => if m.dom().contains(key) {
            m[key]
        } else {
            Json::Null
        },
        _ => Json::Null,
    }
}

/// The text of a string.
pub open spec fn text_in(j: Json) -> Option<Seq<char>> {
    match j {
        Json::Text(s) => Some(s),
        _ => None,
    }
}

/// The value of a boolean.
pub open spec fn bool_in(j: Json) -> Option<bool> {
    match j {
        Json::Bool(b) => Some(b),
        _ => None,
    }
}

/// The value of an integer that is not negative.
pub open spec fn u64_in(j: Json) -> Option<u64> {
    match j {
        Json::PosInt(n) => Some(n),
        _ => None,
    }
}

/// The value of an integer in the range of `i64`.
pub open spec fn i64_in(j: Json) -> Option<i64> {
    match j {
        Json::PosInt(n) => if n <= i64::MAX {
            Some(n as i64)
        } else {
            None
        },
        Json::NegInt(n) => Some(n),
        _ => None,
    }
}

/// Whether a document is a number.
pub open spec fn holds_number(j: Json) -> bool {
    j is PosInt || j is NegInt || j is Real
}

/// `null`.
///
/// `Value::Null`, the variant.
#[verifier::external_body]
pub(crate) fn null() -> (r: Value)
    ensures
        json_of(r) == Json::Null,
{
    Value::Null
}

/// The member `key` of `v`; `null` where there is none.
///
/// The indexing operator of `Value`, with a string: the member of that name of an object,
/// and `null` where the object has none and where `v` is not an object. It does not panic.
#[verifier::external_body]
pub(crate) fn at<'a>(v: &'a Value, key: &str) -> (r: &'a Value)
    ensures
        json_of(*r) == member(json_of(*v), key@),
{
    &v[key]
}

/// `Value::as_str`: the text of a string, and nothing for any other document.
pub assume_specification<'a>[ serde_json::Value::as_str ](v: &'a serde_json::Value) -> (r: Option<
    &'a str,
>)
    ensures
        match r {
            Some(s) => text_in(json_of(*v)) == Some(s@),
            None => text_in(json_of(*v)) is None,
        },
;

/// `Value::as_bool`: the value of a boolean, and nothing for any other document.
pub assume_specification[ serde_json::Value::as_bool ](v: &serde_json::Value) -> (r: Option<bool>)
    ensures
        r == bool_in(json_of(*v)),
;

/// `Value::as_u64`: the value of an integer that is not negative, and nothing for any other
/// document.
pub assume_specification[ serde_json::Value::as_u64 ](v: &serde_json::Value) -> (r: Option<u64>)
    ensures
        r == u64_in(json_of(*v)),
;

/// `Value::as_i64`: the value of an integer in the range of `i64`, and nothing for any other
/// document.
pub assume_specification[ serde_json::Value::as_i64 ](v: &serde_json::Value) -> (r: Option<i64>)
    ensures
        r == i64_in(json_of(*v)),
;

/// `Value::is_number`: whether the document is a number of any kind.
pub assume_specification[ serde_json::Value::is_number ](v: &serde_json::Value) -> (r: bool)
    ensures
        r == holds_number(json_of(*v)),
;

/// `Value::as_array`: the items of an array in their order, and nothing for any other document.
pub assume_specification<'a>[ serde_json::Value::as_array ](v: &'a serde_json::Value) -> (r: Option<
    &'a Vec<serde_json::Value>,
>)
    ensures
        match r {
            Some(items) => json_of(*v) is List && json_of(*v)->List_0 == Seq::new(
                items@.len(),
                |i: int| json_of(items@[i]),
            ),
            None => !(json_of(*v) is List),
        },
;

/// Each way of reading a document reads one kind of document, and gives what it holds.
pub proof fn law_documents_are_read_by_kind(
    m: Map<Seq<char>, Json>,
    key: Seq<char>,
    b: bool,
    n: u64,
    i: i64,
    s: Seq<char>,
    j: Json,
)
    ensures
        m.contains_key(key) ==> member(Json::Record(m), key) == m[key],
        !m.contains_key(key) ==> member(Json::Record(m), key) is Null,
        !(j is Record) ==> member(j, key) is Null,
        bool_in(Json::Bool(b)) == Some(b),
        !(j is Bool) ==> bool_in(j) is None,
        u64_in(Json::PosInt(n)) == Some(n),
        !(j is PosInt) ==> u64_in(j) is None,
        i64_in(Json::NegInt(i)) == Some(i),
        n <= i64::MAX ==> i64_in(Json::PosInt(n)) == Some(n as i64),
        n > i64::MAX ==> i64_in(Json::PosInt(n)) is None,
        !(j is NegInt) && !(j is PosInt) ==> i64_in(j) is None,
        text_in(Json::Text(s)) == Some(s),
        !(j is Text) ==> text_in(j) is None,
        holds_number(j) <==> !(j is Null) && !(j is Bool) && !(j is Text) && !(j is List) && !(
        j is Record),
{
}

}
