//! Configuration: the boot parameters to hand out, and the ordered rules
//! that choose them for a client.

use crate::doc::{
    compile_regex, doc_as_array, doc_as_u64, doc_member, doc_text, json_array, json_member,
    json_text, json_u64, regex_accepts, regex_is_match, regex_valid,
};
use crate::net::{ipv4_of_text, parse_ipv4, Ipv4};
use crate::text::{
    fields, hex_padded, parse_u64, push_hex_padded, scalar_value, split_text, string_views,
    u64_of_text,
};
use serde_json::Value;
use vstd::prelude::*;
use vstd::std_specs::convert::FromSpecImpl;

verus! {

/// Number of sessions tracked at once when nothing else is configured.
pub const DEFAULT_MAX_SESSIONS: u64 = 500;

/// Folder of the configuration file below the user's configuration directory.
pub const CONFIG_FOLDER: &'static str = "preboot-oxide";

/// Name of the configuration file.
pub const YAML_FILENAME: &'static str = "preboot-oxide.yaml";

/// Prefix of every environment variable that the program reads.
pub const ENV_VAR_PREFIX: &'static str = "PO_";

/// Why a configuration was refused.
#[derive(Clone, Copy, Debug, PartialEq, Eq, Structural)]
pub enum ConfError {
    /// Neither a TFTP directory nor an external TFTP server is configured.
    NoTftpServer,
    /// No boot file name is configured, by default or by any rule.
    NoBootFilename,
    /// The text is no YAML document.
    InvalidYaml,
    /// An address is no IPv4 literal.
    InvalidIpv4,
    /// `max_sessions` is negative.
    InvalidMaxSessions,
    /// A rule has no `conf` section.
    MissingMatchConf,
    /// `match_type` is neither `any` nor `all`.
    InvalidMatchType,
    /// A selector's key is no string.
    ExpectedStringKey,
    /// A selector's value is no string.
    ExpectedStringValue,
    /// A rule's `select` section is missing or is no mapping.
    ExpectedSelectHash,
    /// A selector of a rule with `regex` set is no regular expression.
    InvalidRegex,
}

/// Boot parameters for a client.
#[derive(Clone, Debug)]
pub struct ConfEntry {
    pub boot_file: Option<String>,
    pub boot_server_ipv4: Option<Ipv4>,
}

/// The mathematical value of a [`ConfEntry`].
pub struct ConfEntryView {
    pub boot_file: Option<Seq<char>>,
    pub boot_server_ipv4: Option<Ipv4>,
}

impl ConfEntryView {
    /// This entry with each missing field taken from `other`.
    pub open spec fn merge(self, other: Option<ConfEntryView>) -> ConfEntryView {
        match other {
            Some(o) => ConfEntryView {
                boot_file: if self.boot_file is Some {
                    self.boot_file
                } else {
                    o.boot_file
                },
                boot_server_ipv4: if self.boot_server_ipv4 is Some {
                    self.boot_server_ipv4
                } else {
                    o.boot_server_ipv4
                },
            },
            None => self,
        }
    }
}

/// The text of an optional string.
pub open spec fn opt_text(s: Option<String>) -> Option<Seq<char>> {
    match s {
        Some(t) => Some(t@),
        None => None,
    }
}

impl View for ConfEntry {
    type V = ConfEntryView;

    open spec fn view(&self) -> ConfEntryView {
        ConfEntryView {
            boot_file: opt_text(self.boot_file),
            boot_server_ipv4: self.boot_server_ipv4,
        }
    }
}

/// The value of an optional entry.
pub open spec fn opt_entry(e: Option<ConfEntry>) -> Option<ConfEntryView> {
    match e {
        Some(x) => Some(x@),
        None => None,
    }
}

/// The entry behind an optional reference.
pub open spec fn opt_entry_view(e: Option<&ConfEntry>) -> Option<ConfEntryView> {
    match e {
        Some(x) => Some(x@),
        None => None,
    }
}

impl ConfEntry {
    /// A copy of the entry.
    pub fn duplicate(&self) -> (r: ConfEntry)
        ensures
            r@ == self@,
    {
        let boot_file = match &self.boot_file {
            Some(s) => Some(s.clone()),
            None => None,
        };
        ConfEntry { boot_file, boot_server_ipv4: self.boot_server_ipv4 }
    }

    /// This entry with each missing field taken from `other_option`.
    pub fn merge(self, other_option: Option<&ConfEntry>) -> (r: ConfEntry)
        ensures
            r@ == self@.merge(opt_entry_view(other_option)),
    {
        let other = match other_option {
            Some(other) => other,
            None => {
                return self;
            },
        };
        let boot_file = match self.boot_file {
            Some(s) => Some(s),
            None => match &other.boot_file {
                Some(s) => Some(s.clone()),
                None => None,
            },
        };
        let boot_server_ipv4 = match self.boot_server_ipv4 {
            Some(ip) => Some(ip),
            None => other.boot_server_ipv4,
        };
        ConfEntry { boot_file, boot_server_ipv4 }
    }
}

/// How the selectors of a rule combine.
#[derive(Clone, Copy, Debug, PartialEq, Eq, Structural)]
pub enum MatchType {
    /// One selector that matches is enough.
    Any,
    /// Every selector has to match.
    All,
}

/// A rule: selectors over the fields of a message, and the boot parameters
/// for the clients they select.
#[derive(Clone, Debug)]
pub struct MatchEntry {
    /// Field names with the text, or the pattern, that the field is held to.
    /// A rule holds each field name once: read from a document they are the
    /// keys of a mapping. Should a rule built by hand hold a name twice, each
    /// occurrence is a selector of its own.
    pub fields_values: Vec<(String, String)>,
    pub conf: ConfEntry,
    pub match_type: MatchType,
    /// Whether the selectors hold patterns rather than literal texts.
    pub regex: bool,
}

/// The texts of a list of pairs of strings.
pub open spec fn pair_views(v: Seq<(String, String)>) -> Seq<(Seq<char>, Seq<char>)> {
    Seq::new(v.len(), |i: int| (v[i].0@, v[i].1@))
}

/// The mathematical value of a [`MatchEntry`].
pub struct MatchEntryView {
    pub fields_values: Seq<(Seq<char>, Seq<char>)>,
    pub conf: ConfEntryView,
    pub match_type: MatchType,
    pub regex: bool,
}

impl View for MatchEntry {
    type V = MatchEntryView;

    open spec fn view(&self) -> MatchEntryView {
        MatchEntryView {
            fields_values: pair_views(self.fields_values@),
            conf: self.conf@,
            match_type: self.match_type,
            regex: self.regex,
        }
    }
}

/// The field name that stands for the client's hardware address.
pub open spec fn client_mac_key() -> Seq<char> {
    "ClientMacAddress"@
}

/// The field name that stands for the hardware type.
pub open spec fn hardware_type_key() -> Seq<char> {
    "HardwareType"@
}

/// The field name of the vendor class identifier option.
pub open spec fn class_identifier_key() -> Seq<char> {
    "ClassIdentifier"@
}

/// The document key that a field name of a selector stands for.
pub open spec fn remapped_key(key: Seq<char>) -> Seq<char> {
    if key == client_mac_key() {
        "chaddr"@
    } else if key == hardware_type_key() {
        "htype"@
    } else {
        key
    }
}

/// The value that a selector's field name finds in a document: the member
/// under the remapped name or, failing that, the option of that name.
pub open spec fn field_value(doc: Value, key: Seq<char>) -> Option<Value> {
    match json_member(doc, remapped_key(key)) {
        Some(v) => Some(v),
        None => match json_member(doc, "opts"@) {
            Some(opts) => match json_member(opts, key) {
                Some(opt) => json_member(opt, key),
                None => None,
            },
            None => None,
        },
    }
}

/// The hardware address that the leading items of an array spell, each in
/// two hexadecimal digits, with colons between them; none once an item is no
/// number.
pub open spec fn mac_items_text(items: Seq<Value>) -> Option<Seq<char>>
    decreases items.len(),
{
    if items.len() == 0 {
        Some(Seq::empty())
    } else {
        match (mac_items_text(items.drop_last()), json_u64(items.last())) {
            (Some(prefix), Some(n)) => Some(
                if items.len() == 1 {
                    hex_padded(n as nat)
                } else {
                    prefix + seq![':'] + hex_padded(n as nat)
                },
            ),
            _ => None,
        }
    }
}

/// The hardware address that a document spells: its first six items.
pub open spec fn mac_text(v: Value) -> Option<Seq<char>> {
    match json_array(v) {
        Some(items) => mac_items_text(
            items.take(
                if items.len() < 6 {
                    items.len() as int
                } else {
                    6
                },
            ),
        ),
        None => None,
    }
}

/// The code point that an item of a class identifier stands for: its number,
/// or zero where it is none, cut to 32 bits.
pub open spec fn class_code(v: Value) -> u32 {
    match json_u64(v) {
        Some(n) => (n % 0x1_0000_0000) as u32,
        None => 0,
    }
}

/// The text that the items of an array spell, one character per item; none
/// once an item is no character.
pub open spec fn class_items_text(items: Seq<Value>) -> Option<Seq<char>>
    decreases items.len(),
{
    if items.len() == 0 {
        Some(Seq::empty())
    } else {
        match (class_items_text(items.drop_last()), scalar_value(class_code(items.last()))) {
            (Some(prefix), Some(c)) => Some(prefix.push(c)),
            _ => None,
        }
    }
}

/// The text of a class identifier: empty where the document is no array.
pub open spec fn class_text(v: Value) -> Option<Seq<char>> {
    match json_array(v) {
        Some(items) => class_items_text(items),
        None => Some(Seq::empty()),
    }
}

/// The text that a field's value is compared by: the hardware address in
/// colon-separated hexadecimal, the class identifier as text, and the JSON
/// text of every other value, or of one that its converter cannot read.
pub open spec fn converted_value(key: Seq<char>, v: Value) -> Seq<char> {
    if key == client_mac_key() {
        match mac_text(v) {
            Some(t) => t,
            None => json_text(v),
        }
    } else if key == class_identifier_key() {
        match class_text(v) {
            Some(t) => t,
            None => json_text(v),
        }
    } else {
        json_text(v)
    }
}

/// Whether one selector holds of a document. A field that the document lacks
/// never matches, nor does a pattern that is no regular expression.
pub open spec fn pair_matches(doc: Value, key: Seq<char>, value: Seq<char>, regex: bool) -> bool {
    match field_value(doc, key) {
        Some(v) => if regex {
            regex_valid(value) && regex_accepts(value, converted_value(key, v))
        } else {
            converted_value(key, v) == value
        },
        None => false,
    }
}

impl MatchEntryView {
    /// Whether the selector at `i` holds of a document.
    pub open spec fn pair_holds(self, doc: Value, i: int) -> bool {
        pair_matches(doc, self.fields_values[i].0, self.fields_values[i].1, self.regex)
    }

    /// Whether the rule selects the client that a document describes.
    pub open spec fn matches(self, doc: Value) -> bool {
        match self.match_type {
            MatchType::Any => exists|i: int|
                0 <= i < self.fields_values.len() && #[trigger] self.pair_holds(doc, i),
            MatchType::All => forall|i: int|
                0 <= i < self.fields_values.len() ==> #[trigger] self.pair_holds(doc, i),
        }
    }
}

/// Whether two texts are the same.
pub fn same_text(a: &str, b: &str) -> (r: bool)
    ensures
        r == (a@ == b@),
{
    a.to_owned() == b.to_owned()
}

/// The document key that a field name of a selector stands for.
pub fn get_remapped_key<'a>(key: &'a str) -> (r: &'a str)
    ensures
        r@ == remapped_key(key@),
{
    if same_text(key, "ClientMacAddress") {
        "chaddr"
    } else if same_text(key, "HardwareType") {
        "htype"
    } else {
        key
    }
}

/// The value that a selector's field name finds in a document.
pub fn lookup_field<'a>(doc: &'a Value, key: &str) -> (r: Option<&'a Value>)
    ensures
        match r {
            Some(v) => field_value(*doc, key@) == Some(*v),
            None => field_value(*doc, key@) is None,
        },
{
    match doc_member(doc, get_remapped_key(key)) {
        Some(v) => Some(v),
        None => match doc_member(doc, "opts") {
            Some(opts) => match doc_member(opts, key) {
                Some(opt) => doc_member(opt, key),
                None => None,
            },
            None => None,
        },
    }
}

/// Once a leading part of the items spells no hardware address, no longer
/// part does.
pub proof fn lemma_mac_items_none(items: Seq<Value>, j: int, k: int)
    requires
        0 <= j <= k <= items.len(),
        mac_items_text(items.take(j)) is None,
    ensures
        mac_items_text(items.take(k)) is None,
    decreases k,
{
    if j < k {
        lemma_mac_items_none(items, j, k - 1);
        assert(items.take(k).drop_last() =~= items.take(k - 1));
    }
}

/// Once a leading part of the items spells no text, no longer part does.
pub proof fn lemma_class_items_none(items: Seq<Value>, j: int, k: int)
    requires
        0 <= j <= k <= items.len(),
        class_items_text(items.take(j)) is None,
    ensures
        class_items_text(items.take(k)) is None,
    decreases k,
{
    if j < k {
        lemma_class_items_none(items, j, k - 1);
        assert(items.take(k).drop_last() =~= items.take(k - 1));
    }
}

/// The hardware address that a document spells, in colon-separated
/// upper-case hexadecimal; none where the document is no array or one of its
/// first six items is no number.
pub fn get_mac_from_doc_string(doc: &Value) -> (r: Option<String>)
    ensures
        opt_text(r) == mac_text(*doc),
{
    let items = match doc_as_array(doc) {
        Some(a) => a,
        None => {
            return None;
        },
    };
    let n: usize = if items.len() < 6 {
        items.len()
    } else {
        6
    };
    let mut out = String::new();
    let mut i: usize = 0;
    while i < n
        invariant
            i <= n <= items@.len(),
            n == (if items@.len() < 6 {
                items@.len()
            } else {
                6
            }),
            json_array(*doc) == Some(items@),
            mac_items_text(items@.take(i as int)) == Some(out@),
        decreases n - i,
    {
        proof {
            assert(items@.take(i + 1).drop_last() =~= items@.take(i as int));
            assert(items@.take(i + 1).last() == items@[i as int]);
        }
        match doc_as_u64(&items[i]) {
            Some(b) => {
                if i > 0 {
                    out.push(':');
                }
                push_hex_padded(&mut out, b);
            },
            None => {
                proof {
                    lemma_mac_items_none(items@, i + 1, n as int);
                }
                return None;
            },
        }
        i = i + 1;
    }
    Some(out)
}

/// The text of a class identifier; none where one of its items is no
/// character.
pub fn get_class_from_doc(doc: &Value) -> (r: Option<String>)
    ensures
        opt_text(r) == class_text(*doc),
{
    let items = match doc_as_array(doc) {
        Some(a) => a,
        None => {
            return Some(String::new());
        },
    };
    let n: usize = items.len();
    let mut out = String::new();
    let mut i: usize = 0;
    while i < n
        invariant
            i <= n,
            n == items@.len(),
            json_array(*doc) == Some(items@),
            class_items_text(items@.take(i as int)) == Some(out@),
        decreases n - i,
    {
        proof {
            assert(items@.take(i + 1).drop_last() =~= items@.take(i as int));
            assert(items@.take(i + 1).last() == items@[i as int]);
        }
        let number: u64 = match doc_as_u64(&items[i]) {
            Some(b) => b,
            None => 0,
        };
        let code: u32 = (number % 0x1_0000_0000) as u32;
        match char::from_u32(code) {
            Some(c) => {
                out.push(c);
            },
            None => {
                proof {
                    lemma_class_items_none(items@, i + 1, n as int);
                    assert(items@.take(n as int) =~= items@);
                }
                return None;
            },
        }
        i = i + 1;
    }
    proof {
        assert(items@.take(n as int) =~= items@);
    }
    Some(out)
}

/// The text that a field's value is compared by.
pub fn convert_field(key: &str, v: &Value) -> (r: String)
    ensures
        r@ == converted_value(key@, *v),
{
    let converted = if same_text(key, "ClientMacAddress") {
        get_mac_from_doc_string(v)
    } else if same_text(key, "ClassIdentifier") {
        get_class_from_doc(v)
    } else {
        None
    };
    match converted {
        Some(t) => t,
        None => doc_text(v),
    }
}

/// Whether one selector holds of a document.
pub fn selector_matches(doc: &Value, key: &str, value: &str, regex: bool) -> (r: bool)
    ensures
        r == pair_matches(*doc, key@, value@, regex),
{
    match lookup_field(doc, key) {
        Some(v) => {
            let converted = convert_field(key, v);
            if regex {
                match compile_regex(value) {
                    Ok(re) => regex_is_match(&re, converted.as_str()),
                    Err(_) => false,
                }
            } else {
                same_text(converted.as_str(), value)
            }
        },
        None => false,
    }
}

/// Whether a rule selects the client that a document describes.
pub fn is_match(doc: &Value, match_entry: &MatchEntry) -> (r: bool)
    ensures
        r == match_entry@.matches(*doc),
{
    let n = match_entry.fields_values.len();
    let mut i: usize = 0;
    match match_entry.match_type {
        MatchType::Any => {
            while i < n
                invariant
                    i <= n,
                    n == match_entry.fields_values@.len(),
                    match_entry.match_type == MatchType::Any,
                    forall|j: int| 0 <= j < i ==> !#[trigger] match_entry@.pair_holds(*doc, j),
                decreases n - i,
            {
                let pair = &match_entry.fields_values[i];
                if selector_matches(doc, pair.0.as_str(), pair.1.as_str(), match_entry.regex) {
                    proof {
                        assert(match_entry@.pair_holds(*doc, i as int));
                    }
                    return true;
                }
                i = i + 1;
            }
            false
        },
        MatchType::All => {
            while i < n
                invariant
                    i <= n,
                    n == match_entry.fields_values@.len(),
                    match_entry.match_type == MatchType::All,
                    forall|j: int| 0 <= j < i ==> #[trigger] match_entry@.pair_holds(*doc, j),
                decreases n - i,
            {
                let pair = &match_entry.fields_values[i];
                if !selector_matches(doc, pair.0.as_str(), pair.1.as_str(), match_entry.regex) {
                    proof {
                        assert(!match_entry@.pair_holds(*doc, i as int));
                    }
                    return false;
                }
                i = i + 1;
            }
            true
        },
    }
}

/// The values of a list of rules.
pub open spec fn rule_views(v: Seq<MatchEntry>) -> Seq<MatchEntryView> {
    Seq::new(v.len(), |i: int| v[i]@)
}

/// The whole configuration.
#[derive(Clone, Debug)]
pub struct Conf {
    default: Option<ConfEntry>,
    ifaces: Option<Vec<String>>,
    match_map: Option<Vec<MatchEntry>>,
    tftp_server_dir: Option<String>,
    max_sessions: u64,
}

/// The mathematical value of a [`Conf`].
pub struct ConfView {
    /// Boot parameters for clients that no rule selects, and the fallback for
    /// what a rule leaves out.
    pub default: Option<ConfEntryView>,
    /// Names of the interfaces to listen on; every interface where none.
    pub ifaces: Option<Seq<Seq<char>>>,
    /// The rules, in the order in which they are tried.
    pub match_map: Option<Seq<MatchEntryView>>,
    /// Directory that the embedded TFTP server serves.
    pub tftp_server_dir: Option<Seq<char>>,
    /// Upper bound on the sessions tracked at once.
    pub max_sessions: u64,
}

/// The boot parameters of the first rule, from position `from` on, that
/// selects the client a document describes.
pub open spec fn first_match(rules: Seq<MatchEntryView>, doc: Value, from: int) -> Option<
    ConfEntryView,
>
    decreases rules.len() - from,
{
    if from < 0 || from >= rules.len() {
        None
    } else if rules[from].matches(doc) {
        Some(rules[from].conf)
    } else {
        first_match(rules, doc, from + 1)
    }
}

impl ConfView {
    /// The boot parameters chosen for a client before the default is merged
    /// in: those of the first rule that selects it, else the default.
    pub open spec fn selected(self, doc: Value) -> Option<ConfEntryView> {
        let matched = match self.match_map {
            Some(rules) => first_match(rules, doc, 0),
            None => None,
        };
        if matched is Some {
            matched
        } else {
            self.default
        }
    }

    /// The boot parameters for the client that a document describes: those
    /// chosen for it, with what they leave out taken from the default. None
    /// where no rule selects the client and there is no default.
    pub open spec fn resolve(self, doc: Value) -> Option<ConfEntryView> {
        match self.selected(doc) {
            Some(c) => Some(c.merge(self.default)),
            None => None,
        }
    }

    /// Whether the default or any rule names an external TFTP server.
    pub open spec fn has_boot_server(self) -> bool {
        ||| self.default matches Some(d) && d.boot_server_ipv4 is Some
        ||| self.match_map matches Some(rules) && exists|i: int|
            0 <= i < rules.len() && (#[trigger] rules[i]).conf.boot_server_ipv4 is Some
    }

    /// Whether the default or any rule names a boot file.
    pub open spec fn has_boot_file(self) -> bool {
        ||| self.default matches Some(d) && d.boot_file is Some
        ||| self.match_map matches Some(rules) && exists|i: int|
            0 <= i < rules.len() && (#[trigger] rules[i]).conf.boot_file is Some
    }

    /// Whether the interface of the given name is to be listened on.
    pub open spec fn listens_on(self, name: Seq<char>) -> bool {
        match self.ifaces {
            Some(names) => names.contains(name),
            None => true,
        }
    }

    /// What validation answers: a boot file has to be resolvable, and the file
    /// has to come from somewhere, the embedded server's directory or an
    /// external server.
    pub open spec fn validity(self) -> Result<(), ConfError> {
        if !self.has_boot_server() && self.tftp_server_dir is None {
            Err(ConfError::NoTftpServer)
        } else if !self.has_boot_file() {
            Err(ConfError::NoBootFilename)
        } else {
            Ok(())
        }
    }

    /// This configuration with each missing field of its default taken from
    /// `other`, which becomes the default where there was none.
    pub open spec fn with_default_merged(self, other: ConfEntryView) -> ConfView {
        ConfView {
            default: match self.default {
                Some(mine) => Some(mine.merge(Some(other))),
                None => Some(other),
            },
            ..self
        }
    }
}

impl View for Conf {
    type V = ConfView;

    closed spec fn view(&self) -> ConfView {
        ConfView {
            default: match self.default {
                Some(d) => Some(d@),
                None => None,
            },
            ifaces: match self.ifaces {
                Some(l) => Some(string_views(l@)),
                None => None,
            },
            match_map: match self.match_map {
                Some(rules) => Some(rule_views(rules@)),
                None => None,
            },
            tftp_server_dir: opt_text(self.tftp_server_dir),
            max_sessions: self.max_sessions,
        }
    }
}

impl Conf {
    /// A configuration of the given parts.
    pub fn new(
        default: Option<ConfEntry>,
        ifaces: Option<Vec<String>>,
        match_map: Option<Vec<MatchEntry>>,
        tftp_server_dir: Option<String>,
        max_sessions: u64,
    ) -> (r: Conf)
        ensures
            r@.default == (match default {
                Some(d) => Some(d@),
                None => None,
            }),
            r@.ifaces == (match ifaces {
                Some(l) => Some(string_views(l@)),
                None => None,
            }),
            r@.match_map == (match match_map {
                Some(rules) => Some(rule_views(rules@)),
                None => None,
            }),
            r@.tftp_server_dir == opt_text(tftp_server_dir),
            r@.max_sessions == max_sessions,
    {
        Conf { default, ifaces, match_map, tftp_server_dir, max_sessions }
    }

    /// Checks that a boot file can be resolved and that there is a place to
    /// fetch it from.
    pub fn validate(&self) -> (r: Result<(), ConfError>)
        ensures
            r == self@.validity(),
    {
        let mut has_boot_server = match &self.default {
            Some(d) => d.boot_server_ipv4.is_some(),
            None => false,
        };
        let mut has_boot_file = match &self.default {
            Some(d) => d.boot_file.is_some(),
            None => false,
        };
        if let Some(rules) = &self.match_map {
            let n = rules.len();
            let mut i: usize = 0;
            while i < n
                invariant
                    i <= n,
                    n == rules@.len(),
                    self.match_map == Some(*rules),
                    has_boot_server == ((self@.default matches Some(d) && d.boot_server_ipv4 is Some)
                        || exists|j: int|
                        0 <= j < i && (#[trigger] rule_views(rules@)[j]).conf.boot_server_ipv4
                            is Some),
                    has_boot_file == ((self@.default matches Some(d) && d.boot_file is Some)
                        || exists|j: int|
                        0 <= j < i && (#[trigger] rule_views(rules@)[j]).conf.boot_file is Some),
                decreases n - i,
            {
                if rules[i].conf.boot_server_ipv4.is_some() {
                    proof {
                        assert(rule_views(rules@)[i as int].conf.boot_server_ipv4 is Some);
                    }
                    has_boot_server = true;
                }
                if rules[i].conf.boot_file.is_some() {
                    proof {
                        assert(rule_views(rules@)[i as int].conf.boot_file is Some);
                    }
                    has_boot_file = true;
                }
                i = i + 1;
            }
        }
        if !has_boot_server && self.tftp_server_dir.is_none() {
            return Err(ConfError::NoTftpServer);
        }
        if !has_boot_file {
            return Err(ConfError::NoBootFilename);
        }
        Ok(())
    }

    /// Fills what the default leaves out from `other`, which becomes the
    /// default where there was none.
    pub fn merge_left_into_default(&mut self, other: &ConfEntry)
        ensures
            final(self)@ == old(self)@.with_default_merged(other@),
    {
        let merged = match self.default.take() {
            Some(mine) => mine.merge(Some(other)),
            None => other.duplicate(),
        };
        self.default = Some(merged);
    }

    /// Names of the interfaces to listen on; every interface where none.
    pub fn get_ifaces(&self) -> (r: Option<&Vec<String>>)
        ensures
            match r {
                Some(l) => self@.ifaces == Some(string_views(l@)),
                None => self@.ifaces is None,
            },
    {
        self.ifaces.as_ref()
    }

    /// Whether the interface of the given name is to be listened on: any
    /// where none is configured, else those that are listed.
    pub fn listens_on(&self, name: &str) -> (r: bool)
        ensures
            r == self@.listens_on(name@),
    {
        match &self.ifaces {
            None => true,
            Some(names) => {
                let mut i: usize = 0;
                while i < names.len()
                    invariant
                        i <= names@.len(),
                        self.ifaces == Some(*names),
                        forall|j: int| 0 <= j < i ==> #[trigger] string_views(names@)[j] != name@,
                    decreases names@.len() - i,
                {
                    if same_text(names[i].as_str(), name) {
                        proof {
                            assert(string_views(names@)[i as int] == name@);
                        }
                        return true;
                    }
                    i = i + 1;
                }
                false
            },
        }
    }

    /// Directory that the embedded TFTP server serves.
    pub fn get_tftp_serve_path(&self) -> (r: Option<String>)
        ensures
            opt_text(r) == self@.tftp_server_dir,
    {
        match &self.tftp_server_dir {
            Some(s) => Some(s.clone()),
            None => None,
        }
    }

    /// Upper bound on the sessions tracked at once.
    pub fn get_max_sessions(&self) -> (r: u64)
        ensures
            r == self@.max_sessions,
    {
        self.max_sessions
    }

    /// The boot parameters for the client that a document describes: those of
    /// the first rule that selects it, else the default, with what they leave
    /// out taken from the default.
    pub fn get_from_doc(&self, doc: Value) -> (r: Result<Option<ConfEntry>, ConfError>)
        ensures
            r matches Ok(found) && opt_entry(found) == self@.resolve(doc),
    {
        let mut matched: Option<&ConfEntry> = None;
        if let Some(rules) = &self.match_map {
            let n = rules.len();
            let mut i: usize = 0;
            while i < n && matched.is_none()
                invariant
                    i <= n,
                    n == rules@.len(),
                    self.match_map == Some(*rules),
                    matched is None ==> first_match(rule_views(rules@), doc, 0) == first_match(
                        rule_views(rules@),
                        doc,
                        i as int,
                    ),
                    matched matches Some(c) ==> first_match(rule_views(rules@), doc, 0) == Some(
                        c@,
                    ),
                decreases n - i + (if matched is None { 1int } else { 0int }),
            {
                if is_match(&doc, &rules[i]) {
                    matched = Some(&rules[i].conf);
                } else {
                    i = i + 1;
                }
            }
        }
        let chosen = match matched {
            Some(c) => Some(c),
            None => self.default.as_ref(),
        };
        Ok(
            match chosen {
                Some(c) => Some(c.duplicate().merge(self.default.as_ref())),
                None => None,
            },
        )
    }
}

/// The values of the environment variables that configure the program, each
/// as it was found.
#[derive(Debug)]
pub struct EnvValues {
    /// `PO_TFTP_SERVER_IPV4`
    pub tftp_server_ipv4: Option<String>,
    /// `PO_BOOT_FILE`
    pub boot_file: Option<String>,
    /// `PO_TFTP_SERVER_DIR_PATH`
    pub tftp_server_dir: Option<String>,
    /// `PO_IFACES`
    pub ifaces: Option<String>,
    /// `PO_MAX_SESSIONS`
    pub max_sessions: Option<String>,
}

/// The configuration that the environment holds.
#[derive(Debug)]
pub struct ProcessEnvConf {
    conf: ConfEntry,
    ifaces: Option<Vec<String>>,
    tftp_server_dir: Option<String>,
    max_sessions: Option<u64>,
}

/// The mathematical value of a [`ProcessEnvConf`].
pub struct ProcessEnvConfView {
    pub conf: ConfEntryView,
    pub ifaces: Option<Seq<Seq<char>>>,
    pub tftp_server_dir: Option<Seq<char>>,
    pub max_sessions: Option<u64>,
}

/// What the environment configures: the server address where it is an IPv4
/// literal, the interface names between the commas of their list, and the
/// session limit where it is a number.
pub open spec fn env_conf(env: EnvValues) -> ProcessEnvConfView {
    ProcessEnvConfView {
        conf: ConfEntryView {
            boot_file: opt_text(env.boot_file),
            boot_server_ipv4: match env.tftp_server_ipv4 {
                Some(s) => ipv4_of_text(s@),
                None => None,
            },
        },
        ifaces: match env.ifaces {
            Some(csv) => Some(fields(csv@, ',')),
            None => None,
        },
        tftp_server_dir: opt_text(env.tftp_server_dir),
        max_sessions: match env.max_sessions {
            Some(s) => u64_of_text(s@),
            None => None,
        },
    }
}

/// The configuration that stands on the environment alone: what it holds
/// becomes the default, there are no rules, and the session limit is the
/// default one where the environment names none.
pub open spec fn conf_of_env(env: ProcessEnvConfView) -> ConfView {
    ConfView {
        default: Some(env.conf),
        ifaces: env.ifaces,
        match_map: None,
        tftp_server_dir: env.tftp_server_dir,
        max_sessions: match env.max_sessions {
            Some(n) => n,
            None => DEFAULT_MAX_SESSIONS,
        },
    }
}

impl View for ProcessEnvConf {
    type V = ProcessEnvConfView;

    closed spec fn view(&self) -> ProcessEnvConfView {
        ProcessEnvConfView {
            conf: self.conf@,
            ifaces: match self.ifaces {
                Some(l) => Some(string_views(l@)),
                None => None,
            },
            tftp_server_dir: opt_text(self.tftp_server_dir),
            max_sessions: self.max_sessions,
        }
    }
}

impl ProcessEnvConf {
    /// Reads the configuration out of the values of the environment
    /// variables.
    pub fn from_process_env(env: EnvValues) -> (r: ProcessEnvConf)
        ensures
            r@ == env_conf(env),
    {
        let boot_server_ipv4 = match &env.tftp_server_ipv4 {
            Some(s) => parse_ipv4(s.as_str()),
            None => None,
        };
        let ifaces = match &env.ifaces {
            Some(csv) => Some(split_text(csv.as_str(), ',')),
            None => None,
        };
        let max_sessions = match &env.max_sessions {
            Some(s) => parse_u64(s.as_str()),
            None => None,
        };
        ProcessEnvConf {
            conf: ConfEntry { boot_server_ipv4, boot_file: env.boot_file },
            tftp_server_dir: env.tftp_server_dir,
            ifaces,
            max_sessions,
        }
    }
}

impl Conf {
    /// The configuration that stands on the environment alone.
    pub closed spec fn spec_from_env(env: ProcessEnvConf) -> Conf {
        Conf {
            default: Some(env.conf),
            ifaces: env.ifaces,
            match_map: None,
            tftp_server_dir: env.tftp_server_dir,
            max_sessions: match env.max_sessions {
                Some(n) => n,
                None => DEFAULT_MAX_SESSIONS,
            },
        }
    }

    /// The value of the configuration that stands on the environment alone.
    pub proof fn lemma_from_env(env: ProcessEnvConf)
        ensures
            Conf::spec_from_env(env)@ == conf_of_env(env@),
    {
    }
}

impl From<ProcessEnvConf> for Conf {
    fn from(env_conf: ProcessEnvConf) -> (conf: Self) {
        Conf {
            default: Some(env_conf.conf),
            ifaces: env_conf.ifaces,
            match_map: None,
            tftp_server_dir: env_conf.tftp_server_dir,
            max_sessions: match env_conf.max_sessions {
                Some(n) => n,
                None => DEFAULT_MAX_SESSIONS,
            },
        }
    }
}

impl FromSpecImpl<ProcessEnvConf> for Conf {
    open spec fn obeys_from_spec() -> bool {
        true
    }

    open spec fn from_spec(env: ProcessEnvConf) -> Conf {
        Conf::spec_from_env(env)
    }
}

} // verus!
