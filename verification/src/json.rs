//! Trusted interface to serde_json. The external tool answers some queries in
//! JSON; the library parses that text through serde_json and walks the
//! resulting document with the accessors below. A document value is opaque
//! here, but each accessor's result is a function of the value alone, so each
//! carries a name; the decoders in `brew` are specified over those names.

use vstd::prelude::*;

verus! {

#[verifier::external_type_specification]
#[verifier::external_body]
pub struct ExValue(serde_json::Value);

/// Whether `s` is a well-formed JSON document in serde_json's eyes; parsing
/// depends on the text alone.
pub uninterp spec fn json_parses(s: Seq<char>) -> bool;

/// The document that parsing `s` yields, when `s` parses.
pub uninterp spec fn doc_of(s: Seq<char>) -> serde_json::Value;

/// The member a string-keyed lookup finds: the named member when `v` is an
/// object that has one, nothing otherwise.
pub uninterp spec fn member_of(v: serde_json::Value, key: Seq<char>) -> Option<serde_json::Value>;

/// The text of `v` when `v` is a string value, nothing otherwise.
pub uninterp spec fn text_of(v: serde_json::Value) -> Option<Seq<char>>;

/// The elements of `v` when `v` is an array value, nothing otherwise.
pub uninterp spec fn elements_of(v: serde_json::Value) -> Option<Seq<serde_json::Value>>;

/// Whether `v` is JSON null.
pub uninterp spec fn null_doc(v: serde_json::Value) -> bool;

/// Whether `v` is a JSON object.
pub uninterp spec fn object_doc(v: serde_json::Value) -> bool;

/// Relies on serde_json::from_str::<Value>: it returns the document parsed
/// from `s`, or an error exactly when `s` is not well-formed JSON; parsing
/// the same text always yields the same answer. The error is carried on as
/// its message.
#[verifier::external_body]
pub(crate) fn json_parse(s: &str) -> (r: Result<serde_json::Value, String>)
    ensures
        r is Ok <==> json_parses(s@),
        r matches Ok(v) ==> v == doc_of(s@),
{
    match serde_json::from_str::<serde_json::Value>(s) {
        Ok(v) => Ok(v),
        Err(e) => Err(e.to_string()),
    }
}

/// Relies on serde_json::Value::get with a string index: the named member
/// when the value is an object that has one, nothing otherwise.
#[verifier::external_body]
pub(crate) fn json_get<'a>(v: &'a serde_json::Value, key: &str) -> (r: Option<
    &'a serde_json::Value,
>)
    ensures
        r matches Some(x) ==> member_of(*v, key@) == Some(*x),
        r is None ==> member_of(*v, key@) is None,
{
    v.get(key)
}

/// Relies on serde_json::Value::as_str: the text when the value is a string,
/// nothing otherwise.
#[verifier::external_body]
pub(crate) fn json_as_str(v: &serde_json::Value) -> (r: Option<String>)
    ensures
        r matches Some(s) ==> text_of(*v) == Some(s@),
        r is None ==> text_of(*v) is None,
{
    v.as_str().map(|s| s.to_owned())
}

/// Relies on serde_json::Value::as_array: the elements when the value is an
/// array, nothing otherwise.
#[verifier::external_body]
pub(crate) fn json_as_array<'a>(v: &'a serde_json::Value) -> (r: Option<
    &'a Vec<serde_json::Value>,
>)
    ensures
        r matches Some(a) ==> elements_of(*v) == Some(a@),
        r is None ==> elements_of(*v) is None,
{
    v.as_array()
}

/// Relies on serde_json::Value::is_null: whether the value is JSON null.
pub assume_specification[ serde_json::Value::is_null ](v: &serde_json::Value) -> (r: bool)
    ensures
        r == null_doc(*v),
;

/// Relies on serde_json::Value::is_object: whether the value is a JSON
/// object.
pub assume_specification[ serde_json::Value::is_object ](v: &serde_json::Value) -> (r: bool)
    ensures
        r == object_doc(*v),
;

/// Relies on serde_json::Value's derived Clone: a deep copy denoting the same
/// document value.
#[verifier::external_body]
pub(crate) fn json_clone(v: &serde_json::Value) -> (r: serde_json::Value)
    ensures
        r == *v,
{
    v.clone()
}

} // verus!
