//! The structured document that a message is rendered to for matching, and
//! the regular expressions that selectors may hold.
//!
//! Documents and compiled expressions are values of the crates that make
//! them. What this library reads from them is named below, and each operation
//! states its result over those names. None of these contracts is proved.

use dhcproto::v4::Message;
use regex::Regex;
use serde_json::Value;
use vstd::prelude::*;

verus! {

/// A JSON document.
#[verifier::external_type_specification]
#[verifier::external_body]
pub struct ExValue(serde_json::Value);

/// Why a value could not be rendered to a document.
#[verifier::external_type_specification]
#[verifier::external_body]
pub struct ExJsonError(serde_json::Error);

/// A compiled regular expression.
#[verifier::external_type_specification]
#[verifier::external_body]
pub struct ExRegex(regex::Regex);

/// Why a pattern is no regular expression.
#[verifier::external_type_specification]
#[verifier::external_body]
pub struct ExRegexError(regex::Error);

/// The compact JSON text of a document.
pub uninterp spec fn json_text(v: Value) -> Seq<char>;

/// The member of an object under a key; none where the document is no object
/// or has no such key.
pub uninterp spec fn json_member(v: Value, key: Seq<char>) -> Option<Value>;

/// The elements of an array; none where the document is no array.
pub uninterp spec fn json_array(v: Value) -> Option<Seq<Value>>;

/// The number that a document is, where it is a number that fits 64 unsigned
/// bits.
pub uninterp spec fn json_u64(v: Value) -> Option<u64>;

/// The document that a message renders to, if it renders.
pub uninterp spec fn rendered_doc(m: Message) -> Option<Value>;

/// Whether a pattern compiles to a regular expression.
pub uninterp spec fn regex_valid(pattern: Seq<char>) -> bool;

/// The pattern that an expression was compiled from.
pub uninterp spec fn regex_source(re: Regex) -> Seq<char>;

/// Whether the expression compiled from a pattern matches somewhere in a text.
pub uninterp spec fn regex_accepts(pattern: Seq<char>, text: Seq<char>) -> bool;

/// `serde_json::to_value` on a message: the outcome is a function of the
/// message alone.
#[verifier::external_body]
pub(crate) fn render_message(m: &Message) -> (r: Result<Value, serde_json::Error>)
    ensures
        match r {
            Ok(v) => rendered_doc(*m) == Some(v),
            Err(_) => rendered_doc(*m) is None,
        },
{
    serde_json::to_value(m)
}

/// `Value::get` with a string key.
#[verifier::external_body]
pub(crate) fn doc_member<'a>(v: &'a Value, key: &str) -> (r: Option<&'a Value>)
    ensures
        match r {
            Some(x) => json_member(*v, key@) == Some(*x),
            None => json_member(*v, key@) is None,
        },
{
    v.get(key)
}

/// `Value::as_array`.
#[verifier::external_body]
pub(crate) fn doc_as_array<'a>(v: &'a Value) -> (r: Option<&'a Vec<Value>>)
    ensures
        match r {
            Some(a) => json_array(*v) == Some(a@),
            None => json_array(*v) is None,
        },
{
    v.as_array()
}

/// `Value::as_u64`.
#[verifier::external_body]
pub(crate) fn doc_as_u64(v: &Value) -> (r: Option<u64>)
    ensures
        r == json_u64(*v),
{
    v.as_u64()
}

/// `Value::to_string`, which writes the document as compact JSON.
#[verifier::external_body]
pub(crate) fn doc_text(v: &Value) -> (r: String)
    ensures
        r@ == json_text(*v),
{
    v.to_string()
}

/// `Regex::new`: whether a pattern compiles is a function of the pattern, and
/// the expression remembers what it was compiled from.
#[verifier::external_body]
pub(crate) fn compile_regex(pattern: &str) -> (r: Result<Regex, regex::Error>)
    ensures
        match r {
            Ok(re) => regex_valid(pattern@) && regex_source(re) == pattern@,
            Err(_) => !regex_valid(pattern@),
        },
{
    Regex::new(pattern)
}

/// `Regex::is_match`.
#[verifier::external_body]
pub(crate) fn regex_is_match(re: &Regex, text: &str) -> (r: bool)
    ensures
        r == regex_accepts(regex_source(*re), text@),
{
    re.is_match(text)
}

} // verus!
