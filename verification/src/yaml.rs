//! YAML documents, as the YAML parser holds them.
//!
//! A document is a value of the parser's crate. What this library reads from
//! one is named below, and each operation states its result over those names.
//! None of these contracts is proved.

use vstd::prelude::*;
use yaml_rust2::{ScanError, Yaml, YamlLoader};

verus! {

/// A node of a YAML document.
#[verifier::external_type_specification]
#[verifier::external_body]
pub struct ExYaml(yaml_rust2::Yaml);

/// Why a text is no YAML.
#[verifier::external_type_specification]
#[verifier::external_body]
pub struct ExScanError(yaml_rust2::ScanError);

/// The documents that a text holds, if it is YAML.
pub uninterp spec fn yaml_documents(source: Seq<char>) -> Option<Seq<Yaml>>;

/// The value of a mapping under a string key; the parser's bad value where
/// the node is no mapping or has no such key.
pub uninterp spec fn yaml_at(y: Yaml, key: Seq<char>) -> Yaml;

/// The text of a node that is a string.
pub uninterp spec fn yaml_str(y: Yaml) -> Option<Seq<char>>;

/// The number of a node that is an integer.
pub uninterp spec fn yaml_i64(y: Yaml) -> Option<i64>;

/// The truth value of a node that is a boolean.
pub uninterp spec fn yaml_bool(y: Yaml) -> Option<bool>;

/// The items of a node that is a sequence.
pub uninterp spec fn yaml_items(y: Yaml) -> Option<Seq<Yaml>>;

/// The keys and values of a node that is a mapping, in the order in which
/// the document gives them.
pub uninterp spec fn yaml_entries(y: Yaml) -> Option<Seq<(Yaml, Yaml)>>;

/// The pairs behind a list of pairs of references.
pub open spec fn entry_values(v: Seq<(&Yaml, &Yaml)>) -> Seq<(Yaml, Yaml)> {
    Seq::new(v.len(), |i: int| (*v[i].0, *v[i].1))
}

/// `YamlLoader::load_from_str`: the outcome is a function of the text alone.
#[verifier::external_body]
pub(crate) fn load_yaml(source: &str) -> (r: Result<Vec<Yaml>, ScanError>)
    ensures
        match r {
            Ok(docs) => yaml_documents(source@) == Some(docs@),
            Err(_) => yaml_documents(source@) is None,
        },
{
    YamlLoader::load_from_str(source)
}

/// Indexing a node by a string key.
#[verifier::external_body]
pub(crate) fn yaml_member<'a>(y: &'a Yaml, key: &str) -> (r: &'a Yaml)
    ensures
        *r == yaml_at(*y, key@),
{
    &y[key]
}

/// `Yaml::as_str`.
#[verifier::external_body]
pub(crate) fn yaml_as_str<'a>(y: &'a Yaml) -> (r: Option<&'a str>)
    ensures
        match r {
            Some(s) => yaml_str(*y) == Some(s@),
            None => yaml_str(*y) is None,
        },
{
    y.as_str()
}

/// `Yaml::as_i64`.
#[verifier::external_body]
pub(crate) fn yaml_as_i64(y: &Yaml) -> (r: Option<i64>)
    ensures
        r == yaml_i64(*y),
{
    y.as_i64()
}

/// `Yaml::as_bool`.
#[verifier::external_body]
pub(crate) fn yaml_as_bool(y: &Yaml) -> (r: Option<bool>)
    ensures
        r == yaml_bool(*y),
{
    y.as_bool()
}

/// `Yaml::as_vec`.
#[verifier::external_body]
pub(crate) fn yaml_as_vec<'a>(y: &'a Yaml) -> (r: Option<&'a Vec<Yaml>>)
    ensures
        match r {
            Some(items) => yaml_items(*y) == Some(items@),
            None => yaml_items(*y) is None,
        },
{
    y.as_vec()
}

/// `Yaml::as_hash`, with the entries of the mapping in the order in which it
/// walks them, which is that of the document.
#[verifier::external_body]
pub(crate) fn yaml_as_entries<'a>(y: &'a Yaml) -> (r: Option<Vec<(&'a Yaml, &'a Yaml)>>)
    ensures
        match r {
            Some(entries) => yaml_entries(*y) == Some(entry_values(entries@)),
            None => yaml_entries(*y) is None,
        },
{
    y.as_hash().map(|h| h.iter().collect())
}

} // verus!
