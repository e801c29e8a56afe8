//! Reading the configuration from a YAML document.

use crate::conf::{
    opt_entry, pair_views, rule_views, Conf, ConfEntry, ConfEntryView, ConfError,
    ConfView, MatchEntry, MatchEntryView, MatchType, DEFAULT_MAX_SESSIONS,
};
use crate::doc::{compile_regex, regex_valid};
use crate::net::{ipv4_of_text, parse_ipv4};
use crate::text::{chars_of, string_views};
use crate::yaml::{
    entry_values, load_yaml, yaml_as_bool, yaml_as_entries, yaml_as_i64, yaml_as_str,
    yaml_as_vec, yaml_at, yaml_bool, yaml_documents, yaml_entries, yaml_i64, yaml_items,
    yaml_member, yaml_str,
};
use vstd::prelude::*;
use yaml_rust2::Yaml;

verus! {

/// A character with an upper-case letter of the basic alphabet turned to
/// lower case.
pub open spec fn lower_ascii(c: char) -> char {
    if 'A' <= c <= 'Z' {
        ((c as u32) + 32) as char
    } else {
        c
    }
}

/// A text with its upper-case letters of the basic alphabet turned to lower
/// case.
pub open spec fn lowered(s: Seq<char>) -> Seq<char> {
    Seq::new(s.len(), |i: int| lower_ascii(s[i]))
}

/// Whether a text is a given one, but for the case of its letters.
pub fn is_text_ignoring_case(s: &str, lower: &str) -> (r: bool)
    ensures
        r == (lowered(s@) == lower@),
{
    let a = chars_of(s);
    let b = chars_of(lower);
    if a.len() != b.len() {
        return false;
    }
    let mut i: usize = 0;
    while i < a.len()
        invariant
            i <= a@.len(),
            a@.len() == b@.len(),
            a@ == s@,
            b@ == lower@,
            forall|j: int| 0 <= j < i ==> lower_ascii(a@[j]) == b@[j],
        decreases a@.len() - i,
    {
        let c = a[i];
        let lowered_c = if c >= 'A' && c <= 'Z' {
            match char::from_u32(c as u32 + 32) {
                Some(l) => l,
                None => c,
            }
        } else {
            c
        };
        if lowered_c != b[i] {
            proof {
                assert(lowered(s@)[i as int] != lower@[i as int]);
            }
            return false;
        }
        i = i + 1;
    }
    proof {
        assert(lowered(s@) =~= lower@);
    }
    true
}

/// The boot parameters that a node holds: none where it is no mapping, else
/// its `boot_file` and `boot_server_ipv4`, each where it is a string. An
/// address that is no IPv4 literal is an error.
pub open spec fn entry_of_yaml(y: Yaml) -> Result<Option<ConfEntryView>, ConfError> {
    if yaml_entries(y) is None {
        Ok(None)
    } else {
        let boot_file = yaml_str(yaml_at(y, "boot_file"@));
        match yaml_str(yaml_at(y, "boot_server_ipv4"@)) {
            None => Ok(Some(ConfEntryView { boot_file, boot_server_ipv4: None })),
            Some(s) => match ipv4_of_text(s) {
                Some(ip) => Ok(Some(ConfEntryView { boot_file, boot_server_ipv4: Some(ip) })),
                None => Err(ConfError::InvalidIpv4),
            },
        }
    }
}

/// How the selectors of a rule combine: as its `match_type` says, `any` or
/// `all` in any case of letters, and `all` where it says nothing.
pub open spec fn match_type_of_yaml(y: Yaml) -> Result<MatchType, ConfError> {
    match yaml_str(yaml_at(y, "match_type"@)) {
        None => Ok(MatchType::All),
        Some(s) => if lowered(s) == "any"@ {
            Ok(MatchType::Any)
        } else if lowered(s) == "all"@ {
            Ok(MatchType::All)
        } else {
            Err(ConfError::InvalidMatchType)
        },
    }
}

/// The selectors that the entries of a mapping spell, or the first error: a
/// key or a value that is no string.
pub open spec fn selectors_of_yaml(entries: Seq<(Yaml, Yaml)>) -> Result<
    Seq<(Seq<char>, Seq<char>)>,
    ConfError,
>
    decreases entries.len(),
{
    if entries.len() == 0 {
        Ok(Seq::empty())
    } else {
        match selectors_of_yaml(entries.drop_last()) {
            Err(e) => Err(e),
            Ok(before) => match yaml_str(entries.last().0) {
                None => Err(ConfError::ExpectedStringKey),
                Some(k) => match yaml_str(entries.last().1) {
                    None => Err(ConfError::ExpectedStringValue),
                    Some(v) => Ok(before.push((k, v))),
                },
            },
        }
    }
}

/// Whether every selector holds a pattern that is a regular expression.
pub open spec fn patterns_valid(selectors: Seq<(Seq<char>, Seq<char>)>) -> bool {
    forall|i: int| 0 <= i < selectors.len() ==> regex_valid((#[trigger] selectors[i]).1)
}

/// The rule that a node holds, or the first error in this order: in its
/// `conf`, in its `match_type`, in its `select`, in a pattern.
pub open spec fn rule_of_yaml(y: Yaml) -> Result<MatchEntryView, ConfError> {
    match entry_of_yaml(yaml_at(y, "conf"@)) {
        Err(e) => Err(e),
        Ok(None) => Err(ConfError::MissingMatchConf),
        Ok(Some(conf)) => match match_type_of_yaml(y) {
            Err(e) => Err(e),
            Ok(match_type) => match yaml_entries(yaml_at(y, "select"@)) {
                None => Err(ConfError::ExpectedSelectHash),
                Some(entries) => match selectors_of_yaml(entries) {
                    Err(e) => Err(e),
                    Ok(fields_values) => {
                        let regex = yaml_bool(yaml_at(y, "regex"@)) == Some(true);
                        if regex && !patterns_valid(fields_values) {
                            Err(ConfError::InvalidRegex)
                        } else {
                            Ok(MatchEntryView { fields_values, conf, match_type, regex })
                        }
                    },
                },
            },
        },
    }
}

/// The rules that the items of a sequence hold, or the first error.
pub open spec fn rules_of_yaml(items: Seq<Yaml>) -> Result<Seq<MatchEntryView>, ConfError>
    decreases items.len(),
{
    if items.len() == 0 {
        Ok(Seq::empty())
    } else {
        match rules_of_yaml(items.drop_last()) {
            Err(e) => Err(e),
            Ok(before) => match rule_of_yaml(items.last()) {
                Err(e) => Err(e),
                Ok(rule) => Ok(before.push(rule)),
            },
        }
    }
}

/// The texts of those items of a sequence that are strings.
pub open spec fn strings_of_yaml(items: Seq<Yaml>) -> Seq<Seq<char>>
    decreases items.len(),
{
    if items.len() == 0 {
        Seq::empty()
    } else {
        match yaml_str(items.last()) {
            Some(s) => strings_of_yaml(items.drop_last()).push(s),
            None => strings_of_yaml(items.drop_last()),
        }
    }
}

/// The session limit that a document names: the default where it names none,
/// and an error where it is negative.
pub open spec fn max_sessions_of_yaml(doc: Yaml) -> Result<u64, ConfError> {
    match yaml_i64(yaml_at(doc, "max_sessions"@)) {
        None => Ok(DEFAULT_MAX_SESSIONS),
        Some(n) => if n < 0 {
            Err(ConfError::InvalidMaxSessions)
        } else {
            Ok(n as u64)
        },
    }
}

/// The configuration that a document holds, or the first error in this
/// order: in `default`, in `max_sessions`, in `match`.
pub open spec fn conf_of_document(doc: Yaml) -> Result<ConfView, ConfError> {
    match entry_of_yaml(yaml_at(doc, "default"@)) {
        Err(e) => Err(e),
        Ok(default) => match max_sessions_of_yaml(doc) {
            Err(e) => Err(e),
            Ok(max_sessions) => {
                let tftp_server_dir = yaml_str(yaml_at(doc, "tftp_server_dir"@));
                let ifaces = match yaml_items(yaml_at(doc, "ifaces"@)) {
                    Some(items) => Some(strings_of_yaml(items)),
                    None => None,
                };
                match yaml_items(yaml_at(doc, "match"@)) {
                    None => Ok(
                        ConfView { default, ifaces, match_map: None, tftp_server_dir, max_sessions },
                    ),
                    Some(items) => match rules_of_yaml(items) {
                        Err(e) => Err(e),
                        Ok(rules) => Ok(
                            ConfView {
                                default,
                                ifaces,
                                match_map: Some(rules),
                                tftp_server_dir,
                                max_sessions,
                            },
                        ),
                    },
                }
            },
        },
    }
}

/// The configuration that a YAML text holds: that of its first document. A
/// text that is no YAML, or holds no document, is an error.
pub open spec fn conf_of_yaml(source: Seq<char>) -> Result<ConfView, ConfError> {
    match yaml_documents(source) {
        None => Err(ConfError::InvalidYaml),
        Some(docs) => if docs.len() == 0 {
            Err(ConfError::InvalidYaml)
        } else {
            conf_of_document(docs[0])
        },
    }
}

/// Once a leading part of the entries gives an error, every longer part
/// gives the same.
pub proof fn lemma_selectors_error(entries: Seq<(Yaml, Yaml)>, j: int, k: int)
    requires
        0 <= j <= k <= entries.len(),
        selectors_of_yaml(entries.take(j)) is Err,
    ensures
        selectors_of_yaml(entries.take(k)) == selectors_of_yaml(entries.take(j)),
    decreases k,
{
    if j < k {
        lemma_selectors_error(entries, j, k - 1);
        assert(entries.take(k).drop_last() =~= entries.take(k - 1));
    }
}

/// Once a leading part of the items gives an error, every longer part gives
/// the same.
pub proof fn lemma_rules_error(items: Seq<Yaml>, j: int, k: int)
    requires
        0 <= j <= k <= items.len(),
        rules_of_yaml(items.take(j)) is Err,
    ensures
        rules_of_yaml(items.take(k)) == rules_of_yaml(items.take(j)),
    decreases k,
{
    if j < k {
        lemma_rules_error(items, j, k - 1);
        assert(items.take(k).drop_last() =~= items.take(k - 1));
    }
}

/// Whether what was read is what the document holds.
pub open spec fn entry_read(r: Result<Option<ConfEntry>, ConfError>, y: Yaml) -> bool {
    match r {
        Ok(e) => entry_of_yaml(y) == Ok::<Option<ConfEntryView>, ConfError>(opt_entry(e)),
        Err(e) => entry_of_yaml(y) == Err::<Option<ConfEntryView>, ConfError>(e),
    }
}

/// Whether what was read is what the document holds.
pub open spec fn rule_read(r: Result<MatchEntry, ConfError>, y: Yaml) -> bool {
    match r {
        Ok(m) => rule_of_yaml(y) == Ok::<MatchEntryView, ConfError>(m@),
        Err(e) => rule_of_yaml(y) == Err::<MatchEntryView, ConfError>(e),
    }
}

/// Whether what was read is what the text holds.
pub open spec fn conf_read(r: Result<Conf, ConfError>, source: Seq<char>) -> bool {
    match r {
        Ok(c) => conf_of_yaml(source) == Ok::<ConfView, ConfError>(c@),
        Err(e) => conf_of_yaml(source) == Err::<ConfView, ConfError>(e),
    }
}

impl Conf {
    /// Reads boot parameters from a node of a document.
    pub fn base_conf_from_yaml(yaml_conf: &Yaml) -> (r: Result<Option<ConfEntry>, ConfError>)
        ensures
            entry_read(r, *yaml_conf),
    {
        if yaml_as_entries(yaml_conf).is_none() {
            return Ok(None);
        }
        let boot_file = match yaml_as_str(yaml_member(yaml_conf, "boot_file")) {
            Some(s) => Some(s.to_owned()),
            None => None,
        };
        let boot_server_ipv4 = match yaml_as_str(yaml_member(yaml_conf, "boot_server_ipv4")) {
            Some(s) => match parse_ipv4(s) {
                Some(ip) => Some(ip),
                None => {
                    return Err(ConfError::InvalidIpv4);
                },
            },
            None => None,
        };
        Ok(Some(ConfEntry { boot_file, boot_server_ipv4 }))
    }

    /// Reads a rule from a node of a document.
    pub fn match_entry_from_yaml(item: &Yaml) -> (r: Result<MatchEntry, ConfError>)
        ensures
            rule_read(r, *item),
    {
        let conf = match Self::base_conf_from_yaml(yaml_member(item, "conf")) {
            Ok(Some(c)) => c,
            Ok(None) => {
                return Err(ConfError::MissingMatchConf);
            },
            Err(e) => {
                return Err(e);
            },
        };
        let match_type = match yaml_as_str(yaml_member(item, "match_type")) {
            None => MatchType::All,
            Some(s) => if is_text_ignoring_case(s, "any") {
                MatchType::Any
            } else if is_text_ignoring_case(s, "all") {
                MatchType::All
            } else {
                return Err(ConfError::InvalidMatchType);
            },
        };
        let entries = match yaml_as_entries(yaml_member(item, "select")) {
            Some(e) => e,
            None => {
                return Err(ConfError::ExpectedSelectHash);
            },
        };
        let ghost all = entry_values(entries@);
        let mut fields_values: Vec<(String, String)> = Vec::new();
        let mut i: usize = 0;
        proof {
            assert(pair_views(fields_values@) =~= Seq::empty());
            assert(all.take(0).len() == 0);
        }
        while i < entries.len()
            invariant
                i <= entries@.len(),
                all == entry_values(entries@),
                yaml_entries(yaml_at(*item, "select"@)) == Some(all),
                entry_of_yaml(yaml_at(*item, "conf"@)) == Ok::<Option<ConfEntryView>, ConfError>(
                    Some(conf@),
                ),
                match_type_of_yaml(*item) == Ok::<MatchType, ConfError>(match_type),
                selectors_of_yaml(all.take(i as int)) == Ok::<
                    Seq<(Seq<char>, Seq<char>)>,
                    ConfError,
                >(pair_views(fields_values@)),
            decreases entries@.len() - i,
        {
            proof {
                assert(all.take(i + 1).drop_last() =~= all.take(i as int));
                assert(all.take(i + 1).last() == all[i as int]);
                assert(all[i as int] == (*entries@[i as int].0, *entries@[i as int].1));
            }
            let key = match yaml_as_str(entries[i].0) {
                Some(k) => k,
                None => {
                    proof {
                        lemma_selectors_error(all, i + 1, all.len() as int);
                        assert(all.take(all.len() as int) =~= all);
                    }
                    return Err(ConfError::ExpectedStringKey);
                },
            };
            let value = match yaml_as_str(entries[i].1) {
                Some(v) => v,
                None => {
                    proof {
                        lemma_selectors_error(all, i + 1, all.len() as int);
                        assert(all.take(all.len() as int) =~= all);
                    }
                    return Err(ConfError::ExpectedStringValue);
                },
            };
            let ghost before = pair_views(fields_values@);
            fields_values.push((key.to_owned(), value.to_owned()));
            proof {
                assert(pair_views(fields_values@) =~= before.push((key@, value@)));
            }
            i = i + 1;
        }
        proof {
            assert(all.take(all.len() as int) =~= all);
        }
        let regex = match yaml_as_bool(yaml_member(item, "regex")) {
            Some(b) => b,
            None => false,
        };
        if regex {
            let mut j: usize = 0;
            while j < fields_values.len()
                invariant
                    j <= fields_values@.len(),
                    regex,
                    yaml_bool(yaml_at(*item, "regex"@)) == Some(true),
                    yaml_entries(yaml_at(*item, "select"@)) == Some(all),
                    entry_of_yaml(yaml_at(*item, "conf"@)) == Ok::<
                        Option<ConfEntryView>,
                        ConfError,
                    >(Some(conf@)),
                    match_type_of_yaml(*item) == Ok::<MatchType, ConfError>(match_type),
                    selectors_of_yaml(all) == Ok::<Seq<(Seq<char>, Seq<char>)>, ConfError>(
                        pair_views(fields_values@),
                    ),
                    forall|k: int|
                        0 <= k < j ==> regex_valid((#[trigger] pair_views(fields_values@)[k]).1),
                decreases fields_values@.len() - j,
            {
                if compile_regex(fields_values[j].1.as_str()).is_err() {
                    proof {
                        assert(!regex_valid(pair_views(fields_values@)[j as int].1));
                    }
                    return Err(ConfError::InvalidRegex);
                }
                j = j + 1;
            }
        }
        Ok(MatchEntry { conf, fields_values, match_type, regex })
    }

    /// Reads the configuration from the text of a YAML file.
    pub fn from_yaml_config(source: &str) -> (r: Result<Conf, ConfError>)
        ensures
            conf_read(r, source@),
    {
        let docs = match load_yaml(source) {
            Ok(d) => d,
            Err(_) => {
                return Err(ConfError::InvalidYaml);
            },
        };
        if docs.len() == 0 {
            return Err(ConfError::InvalidYaml);
        }
        let doc = &docs[0];
        let default = match Self::base_conf_from_yaml(yaml_member(doc, "default")) {
            Ok(d) => d,
            Err(e) => {
                return Err(e);
            },
        };
        let tftp_server_dir = match yaml_as_str(yaml_member(doc, "tftp_server_dir")) {
            Some(s) => Some(s.to_owned()),
            None => None,
        };
        let ifaces = match yaml_as_vec(yaml_member(doc, "ifaces")) {
            Some(items) => {
                let mut names: Vec<String> = Vec::new();
                let mut i: usize = 0;
                while i < items.len()
                    invariant
                        i <= items@.len(),
                        string_views(names@) == strings_of_yaml(items@.take(i as int)),
                    decreases items@.len() - i,
                {
                    proof {
                        assert(items@.take(i + 1).drop_last() =~= items@.take(i as int));
                        assert(items@.take(i + 1).last() == items@[i as int]);
                    }
                    let ghost before = string_views(names@);
                    if let Some(s) = yaml_as_str(&items[i]) {
                        names.push(s.to_owned());
                        proof {
                            assert(string_views(names@) =~= before.push(s@));
                        }
                    }
                    i = i + 1;
                }
                proof {
                    assert(items@.take(items@.len() as int) =~= items@);
                }
                Some(names)
            },
            None => None,
        };
        let max_sessions: u64 = match yaml_as_i64(yaml_member(doc, "max_sessions")) {
            None => DEFAULT_MAX_SESSIONS,
            Some(n) => if n < 0 {
                return Err(ConfError::InvalidMaxSessions);
            } else {
                n as u64
            },
        };
        let match_map = match yaml_as_vec(yaml_member(doc, "match")) {
            None => None,
            Some(items) => {
                let mut rules: Vec<MatchEntry> = Vec::new();
                let mut i: usize = 0;
                proof {
                    assert(rule_views(rules@) =~= Seq::empty());
                    assert(items@.take(0).len() == 0);
                }
                while i < items.len()
                    invariant
                        i <= items@.len(),
                        yaml_items(yaml_at(*doc, "match"@)) == Some(items@),
                        entry_of_yaml(yaml_at(*doc, "default"@)) == Ok::<
                            Option<ConfEntryView>,
                            ConfError,
                        >(opt_entry(default)),
                        max_sessions_of_yaml(*doc) == Ok::<u64, ConfError>(max_sessions),
                        yaml_documents(source@) == Some(docs@),
                        docs@.len() > 0,
                        *doc == docs@[0],
                        rules_of_yaml(items@.take(i as int)) == Ok::<
                            Seq<MatchEntryView>,
                            ConfError,
                        >(rule_views(rules@)),
                    decreases items@.len() - i,
                {
                    proof {
                        assert(items@.take(i + 1).drop_last() =~= items@.take(i as int));
                        assert(items@.take(i + 1).last() == items@[i as int]);
                    }
                    let ghost before = rule_views(rules@);
                    match Self::match_entry_from_yaml(&items[i]) {
                        Ok(rule) => {
                            rules.push(rule);
                            proof {
                                assert(rule_views(rules@) =~= before.push(rule@));
                            }
                        },
                        Err(e) => {
                            proof {
                                lemma_rules_error(items@, i + 1, items@.len() as int);
                                assert(items@.take(items@.len() as int) =~= items@);
                            }
                            return Err(e);
                        },
                    }
                    i = i + 1;
                }
                proof {
                    assert(items@.take(items@.len() as int) =~= items@);
                }
                Some(rules)
            },
        };
        Ok(Conf::new(default, ifaces, match_map, tftp_server_dir, max_sessions))
    }
}

} // verus!
