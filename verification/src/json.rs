//! The stored puzzle document is a `serde_json::Value`, kept opaque. The two
//! spec names below describe what such a document holds as plain maps, and the
//! two wrappers read single fields of it through `serde_json`'s accessors.

use vstd::prelude::*;

verus! {

#[verifier::external_type_specification]
#[verifier::external_body]
pub struct ExValue(serde_json::Value);

/// The string-valued fields of a document: the map from each key of `v`
/// (when `v` is a JSON object) whose value is a JSON string, to the
/// characters of that string. For a document that is not an object the map
/// is empty. A fixed function of the document alone.
pub uninterp spec fn obj_str_fields(v: serde_json::Value) -> Map<Seq<char>, Seq<char>>;

/// The unsigned-integer-valued fields of a document: the map from each key
/// of `v` (when `v` is a JSON object) whose value is a JSON number
/// representable as a `u64`, to that number. For a document that is not an
/// object the map is empty. A fixed function of the document alone.
pub uninterp spec fn obj_u64_fields(v: serde_json::Value) -> Map<Seq<char>, u64>;

/// Relies on `serde_json::Value::get` (the value at a key of an object, else
/// `None`) and `Value::as_str` (the content of the `String` variant, else
/// `None`): together they read a string-valued field of an object.
#[verifier::external_body]
pub(crate) fn get_str_field(v: &serde_json::Value, key: &str) -> (r: Option<String>)
    ensures
        r is Some <==> obj_str_fields(*v).dom().contains(key@),
        r matches Some(s) ==> s@ == obj_str_fields(*v)[key@],
{
    v.get(key).and_then(|f| f.as_str()).map(|s| s.to_string())
}

/// Relies on `serde_json::Value`'s derived `Clone`: the copy equals the
/// original document.
#[verifier::external_body]
pub(crate) fn clone_value(v: &serde_json::Value) -> (r: serde_json::Value)
    ensures
        r == *v,
{
    v.clone()
}

/// Relies on `serde_json::Value::get` (the value at a key of an object, else
/// `None`) and `Value::as_u64` (the `Number` variant when it fits a `u64`,
/// else `None`): together they read an unsigned-integer field of an object.
#[verifier::external_body]
pub(crate) fn get_u64_field(v: &serde_json::Value, key: &str) -> (r: Option<u64>)
    ensures
        r is Some <==> obj_u64_fields(*v).dom().contains(key@),
        r matches Some(n) ==> n == obj_u64_fields(*v)[key@],
{
    v.get(key).and_then(|f| f.as_u64())
}

} // verus!
