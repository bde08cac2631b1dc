use vstd::prelude::*;
use vstd::string::StringExecFns;

verus! {

/// `serde_json::Value`, a JSON document or a part of one. Nothing is known
/// of what one holds but what the accessors below say of it.
#[verifier::external_type_specification]
#[verifier::external_body]
pub struct ExJsonValue(serde_json::Value);

/// `serde_json::Error`, the parser's account of a fault. Nothing is known
/// of what one holds but the words that it is put in.
#[verifier::external_type_specification]
#[verifier::external_body]
pub struct ExJsonError(serde_json::Error);

/// What `serde_json` reads a text as: the document that it holds, or the
/// fault that it finds in it.
pub uninterp spec fn json_document(text: Seq<char>) -> Result<serde_json::Value, serde_json::Error>;

/// The member of a JSON object that has the name `key`. A value that is no
/// object has no members.
pub uninterp spec fn json_member(value: serde_json::Value, key: Seq<char>) -> Option<
    serde_json::Value,
>;

/// The elements of a JSON array, in their order. A value that is no array
/// has none.
pub uninterp spec fn json_elements(value: serde_json::Value) -> Option<Seq<serde_json::Value>>;

/// The text of a JSON string. A value that is no string has none.
pub uninterp spec fn json_text(value: serde_json::Value) -> Option<Seq<char>>;

/// A JSON number as `i64`, where it is an integer that fits.
pub uninterp spec fn json_signed(value: serde_json::Value) -> Option<i64>;

/// A JSON number as `u64`, where it is an integer that fits.
pub uninterp spec fn json_unsigned(value: serde_json::Value) -> Option<u64>;

/// Whether a value is a JSON object.
pub uninterp spec fn json_is_object(value: serde_json::Value) -> bool;

/// The words that `serde_json` puts a fault in.
pub uninterp spec fn fault_words(fault: serde_json::Error) -> Seq<char>;

/// A text as a JSON string: between double quotes, with the escapes that
/// `serde_json` writes.
pub uninterp spec fn json_string(text: Seq<char>) -> Seq<char>;

/// `serde_json::Value::as_str`: the text of a JSON string, `None` for any
/// other value. The claim is that the answer depends on the value alone:
/// it is the one named [`json_text`].
pub assume_specification[ serde_json::Value::as_str ](value: &serde_json::Value) -> (text: Option<
    &str,
>)
    ensures
        match text {
            Some(found) => json_text(*value) == Some(found@),
            None => json_text(*value) is None,
        },
;

/// `serde_json::Value::as_i64`: a JSON integer that fits `i64`, `None` for
/// any other value. The claim is that the answer depends on the value
/// alone: it is the one named [`json_signed`].
pub assume_specification[ serde_json::Value::as_i64 ](value: &serde_json::Value) -> (number:
    Option<i64>)
    ensures
        number == json_signed(*value),
;

/// `serde_json::Value::as_u64`: a JSON integer that fits `u64`, `None` for
/// any other value. The claim is that the answer depends on the value
/// alone: it is the one named [`json_unsigned`].
pub assume_specification[ serde_json::Value::as_u64 ](value: &serde_json::Value) -> (number:
    Option<u64>)
    ensures
        number == json_unsigned(*value),
;

/// `serde_json::Value::is_object`: whether the value is a JSON object. The
/// claim is that the answer depends on the value alone: it is the one
/// named [`json_is_object`].
pub assume_specification[ serde_json::Value::is_object ](value: &serde_json::Value) -> (object:
    bool)
    ensures
        object == json_is_object(*value),
;

/// `serde_json::Value::as_array`: the elements of a JSON array, `None` for
/// any other value. The claim is that the answer depends on the value
/// alone: it is the one named [`json_elements`].
pub assume_specification[ serde_json::Value::as_array ](value: &serde_json::Value) -> (elements:
    Option<&Vec<serde_json::Value>>)
    ensures
        match elements {
            Some(found) => json_elements(*value) == Some(found@),
            None => json_elements(*value) is None,
        },
;

/// `serde_json::from_str` at `serde_json::Value`: the document that a text
/// holds, or the fault in it. What the parser makes of a text is its own
/// matter; the claim is that it depends on the text alone: it is what is
/// named [`json_document`].
#[verifier::external_body]
pub(crate) fn parse_document(text: &str) -> (document: Result<
    serde_json::Value,
    serde_json::Error,
>)
    ensures
        document == json_document(text@),
{
    serde_json::from_str(text)
}

/// `serde_json::Value::get` with a key: the member of that name, `None`
/// where the value is no object or has no such member. The claim is that
/// the answer depends on value and key alone: it is the one named
/// [`json_member`].
#[verifier::external_body]
pub(crate) fn member<'a>(value: &'a serde_json::Value, key: &str) -> (found: Option<
    &'a serde_json::Value,
>)
    ensures
        match found {
            Some(part) => json_member(*value, key@) == Some(*part),
            None => json_member(*value, key@) is None,
        },
{
    value.get(key)
}

/// The `Display` of `serde_json::Error`, through `to_string`: the fault in
/// words. The claim is that the words depend on the fault alone: they are
/// those named [`fault_words`].
#[verifier::external_body]
pub(crate) fn fault_text(fault: &serde_json::Error) -> (words: String)
    ensures
        words@ == fault_words(*fault),
{
    fault.to_string()
}

/// `serde_json::to_string` at `str`: the text as a JSON string. The claim
/// is that the result depends on the text alone: it is the one named
/// [`json_string`]. The serializer writes into memory and cannot fail on a
/// `str`, so the empty fallback is never taken.
#[verifier::external_body]
pub(crate) fn quote(text: &str) -> (quoted: String)
    ensures
        quoted@ == json_string(text@),
{
    serde_json::to_string(text).unwrap_or_default()
}

/// The text of the member `key` of `value`, where there is such a member
/// and it is a string.
pub open spec fn member_text(value: serde_json::Value, key: Seq<char>) -> Option<Seq<char>> {
    match json_member(value, key) {
        Some(part) => json_text(part),
        None => None,
    }
}

/// The member `key` of `value` as `u64`, where there is such a member and
/// it is an integer that fits.
pub open spec fn member_unsigned(value: serde_json::Value, key: Seq<char>) -> Option<u64> {
    match json_member(value, key) {
        Some(part) => json_unsigned(part),
        None => None,
    }
}

/// The member `key` of `value` as `i64`, where there is such a member and
/// it is an integer that fits.
pub open spec fn member_signed(value: serde_json::Value, key: Seq<char>) -> Option<i64> {
    match json_member(value, key) {
        Some(part) => json_signed(part),
        None => None,
    }
}

/// The view of a text that may be missing.
pub open spec fn text_view(text: Option<String>) -> Option<Seq<char>> {
    match text {
        Some(found) => Some(found@),
        None => None,
    }
}

/// Computes [`member_text`].
pub(crate) fn text_member(value: &serde_json::Value, key: &str) -> (text: Option<String>)
    ensures
        text_view(text) == member_text(*value, key@),
{
    match member(value, key) {
        Some(part) => match part.as_str() {
            Some(found) => Some(String::from_str(found)),
            None => None,
        },
        None => None,
    }
}

/// Computes [`member_unsigned`].
pub(crate) fn unsigned_member(value: &serde_json::Value, key: &str) -> (number: Option<u64>)
    ensures
        number == member_unsigned(*value, key@),
{
    match member(value, key) {
        Some(part) => part.as_u64(),
        None => None,
    }
}

/// Computes [`member_signed`].
pub(crate) fn signed_member(value: &serde_json::Value, key: &str) -> (number: Option<i64>)
    ensures
        number == member_signed(*value, key@),
{
    match member(value, key) {
        Some(part) => part.as_i64(),
        None => None,
    }
}

} // verus!
