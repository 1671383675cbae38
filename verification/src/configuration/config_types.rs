//! Generic configuration values, the key/value map they arrive in, and the
//! diagnostics resolution produces.

use vstd::prelude::*;

use crate::text::str_eq;

verus! {

pub const DEFAULT_LINE_WIDTH: u32 = 120;

pub const DEFAULT_INDENT_WIDTH: u8 = 2;

/// Generic configuration value accepted by the formatter.
#[derive(Debug, PartialEq)]
pub enum ConfigKeyValue {
    Bool(bool),
    Number(i64),
    Text(String),
}

/// The mathematical value of a `ConfigKeyValue`: text is abstracted to its
/// character sequence.
pub enum ConfigValueView {
    Bool(bool),
    Number(i64),
    Text(Seq<char>),
}

impl View for ConfigKeyValue {
    type V = ConfigValueView;

    open spec fn view(&self) -> ConfigValueView {
        match self {
            ConfigKeyValue::Bool(b) => ConfigValueView::Bool(*b),
            ConfigKeyValue::Number(n) => ConfigValueView::Number(*n),
            ConfigKeyValue::Text(t) => ConfigValueView::Text(t@),
        }
    }
}

impl Clone for ConfigKeyValue {
    fn clone(&self) -> (r: Self)
        ensures
            r@ == self@,
    {
        match self {
            ConfigKeyValue::Bool(b) => ConfigKeyValue::Bool(*b),
            ConfigKeyValue::Number(n) => ConfigKeyValue::Number(*n),
            ConfigKeyValue::Text(t) => ConfigKeyValue::Text(t.clone()),
        }
    }
}

impl From<bool> for ConfigKeyValue {
    fn from(value: bool) -> (r: Self) {
        ConfigKeyValue::Bool(value)
    }
}

impl vstd::std_specs::convert::FromSpecImpl<bool> for ConfigKeyValue {
    open spec fn obeys_from_spec() -> bool {
        true
    }

    open spec fn from_spec(value: bool) -> Self {
        ConfigKeyValue::Bool(value)
    }
}

impl From<i64> for ConfigKeyValue {
    fn from(value: i64) -> (r: Self) {
        ConfigKeyValue::Number(value)
    }
}

impl vstd::std_specs::convert::FromSpecImpl<i64> for ConfigKeyValue {
    open spec fn obeys_from_spec() -> bool {
        true
    }

    open spec fn from_spec(value: i64) -> Self {
        ConfigKeyValue::Number(value)
    }
}

impl From<i32> for ConfigKeyValue {
    fn from(value: i32) -> (r: Self) {
        ConfigKeyValue::Number(value as i64)
    }
}

impl vstd::std_specs::convert::FromSpecImpl<i32> for ConfigKeyValue {
    open spec fn obeys_from_spec() -> bool {
        true
    }

    open spec fn from_spec(value: i32) -> Self {
        ConfigKeyValue::Number(value as i64)
    }
}

impl From<u32> for ConfigKeyValue {
    fn from(value: u32) -> (r: Self) {
        ConfigKeyValue::Number(value as i64)
    }
}

impl vstd::std_specs::convert::FromSpecImpl<u32> for ConfigKeyValue {
    open spec fn obeys_from_spec() -> bool {
        true
    }

    open spec fn from_spec(value: u32) -> Self {
        ConfigKeyValue::Number(value as i64)
    }
}

impl From<u8> for ConfigKeyValue {
    fn from(value: u8) -> (r: Self) {
        ConfigKeyValue::Number(value as i64)
    }
}

impl vstd::std_specs::convert::FromSpecImpl<u8> for ConfigKeyValue {
    open spec fn obeys_from_spec() -> bool {
        true
    }

    open spec fn from_spec(value: u8) -> Self {
        ConfigKeyValue::Number(value as i64)
    }
}

impl From<usize> for ConfigKeyValue {
    fn from(value: usize) -> (r: Self) {
        ConfigKeyValue::Number(value as i64)
    }
}

impl vstd::std_specs::convert::FromSpecImpl<usize> for ConfigKeyValue {
    open spec fn obeys_from_spec() -> bool {
        true
    }

    open spec fn from_spec(value: usize) -> Self {
        ConfigKeyValue::Number(value as i64)
    }
}

impl From<String> for ConfigKeyValue {
    fn from(value: String) -> (r: Self) {
        ConfigKeyValue::Text(value)
    }
}

impl vstd::std_specs::convert::FromSpecImpl<String> for ConfigKeyValue {
    open spec fn obeys_from_spec() -> bool {
        true
    }

    open spec fn from_spec(value: String) -> Self {
        ConfigKeyValue::Text(value)
    }
}

impl<'a> From<&'a str> for ConfigKeyValue {
    fn from(value: &'a str) -> (r: Self) {
        ConfigKeyValue::Text(String::from_str(value))
    }
}

impl<'a> vstd::std_specs::convert::FromSpecImpl<&'a str> for ConfigKeyValue {
    /// A `String` cannot be synthesized in specification code, so nothing is
    /// claimed of this conversion.
    open spec fn obeys_from_spec() -> bool {
        false
    }

    open spec fn from_spec(value: &'a str) -> Self {
        arbitrary()
    }
}

/// The index of the first entry with key `k`, or `-1` when no entry has it.
pub open spec fn assoc_idx(s: Seq<(Seq<char>, ConfigValueView)>, k: Seq<char>) -> int
    decreases s.len(),
{
    if s.len() == 0 {
        -1
    } else if s[0].0 == k {
        0
    } else {
        let r = assoc_idx(s.drop_first(), k);
        if r < 0 {
            -1
        } else {
            r + 1
        }
    }
}

/// Whether some entry has key `k`.
pub open spec fn has_key(s: Seq<(Seq<char>, ConfigValueView)>, k: Seq<char>) -> bool {
    assoc_idx(s, k) >= 0
}

pub proof fn lemma_assoc_idx(s: Seq<(Seq<char>, ConfigValueView)>, k: Seq<char>)
    ensures
        -1 <= assoc_idx(s, k) < s.len(),
        assoc_idx(s, k) >= 0 ==> s[assoc_idx(s, k)].0 == k && forall|j: int|
            0 <= j < assoc_idx(s, k) ==> s[j].0 != k,
        assoc_idx(s, k) < 0 ==> forall|j: int| 0 <= j < s.len() ==> s[j].0 != k,
    decreases s.len(),
{
    if s.len() > 0 && s[0].0 != k {
        lemma_assoc_idx(s.drop_first(), k);
        assert(forall|j: int| 1 <= j < s.len() ==> s[j] == s.drop_first()[j - 1]);
    }
}

/// Inserting under key `k`: the first entry with that key is replaced, or a
/// new entry is appended.
pub open spec fn spec_insert(
    s: Seq<(Seq<char>, ConfigValueView)>,
    k: Seq<char>,
    v: ConfigValueView,
) -> Seq<(Seq<char>, ConfigValueView)> {
    if has_key(s, k) {
        s.update(assoc_idx(s, k), (k, v))
    } else {
        s.push((k, v))
    }
}

/// A key/value configuration map with deterministic (insertion) order.
///
/// Its view is the sequence of entries, each a pair of the key's text and
/// the value.
pub struct ConfigKeyMap {
    entries: Vec<(String, ConfigKeyValue)>,
}

impl View for ConfigKeyMap {
    type V = Seq<(Seq<char>, ConfigValueView)>;

    closed spec fn view(&self) -> Seq<(Seq<char>, ConfigValueView)> {
        self.entries@.map_values(|p: (String, ConfigKeyValue)| (p.0@, p.1@))
    }
}

impl ConfigKeyMap {
    pub fn new() -> (r: ConfigKeyMap)
        ensures
            r@ == Seq::<(Seq<char>, ConfigValueView)>::empty(),
    {
        let r = ConfigKeyMap { entries: Vec::new() };
        proof {
            assert(r@ =~= Seq::<(Seq<char>, ConfigValueView)>::empty());
        }
        r
    }

    pub fn len(&self) -> (n: usize)
        ensures
            n == self@.len(),
    {
        self.entries.len()
    }

    pub fn is_empty(&self) -> (r: bool)
        ensures
            r == (self@.len() == 0),
    {
        self.entries.len() == 0
    }

    /// The index of the first entry whose key is `key`, if any.
    fn find(&self, key: &str) -> (r: Option<usize>)
        ensures
            match r {
                Some(i) => i == assoc_idx(self@, key@) && i < self@.len(),
                None => assoc_idx(self@, key@) < 0,
            },
    {
        proof {
            lemma_assoc_idx(self@, key@);
        }
        let mut i: usize = 0;
        while i < self.entries.len()
            invariant
                i <= self@.len(),
                self@.len() == self.entries@.len(),
                forall|j: int| 0 <= j < i ==> self@[j].0 != key@,
                -1 <= assoc_idx(self@, key@) < self@.len(),
                assoc_idx(self@, key@) >= 0 ==> self@[assoc_idx(self@, key@)].0 == key@
                    && forall|j: int| 0 <= j < assoc_idx(self@, key@) ==> self@[j].0 != key@,
                assoc_idx(self@, key@) < 0 ==> forall|j: int|
                    0 <= j < self@.len() ==> self@[j].0 != key@,
            decreases self@.len() - i,
        {
            proof {
                assert(self@[i as int].0 == self.entries@[i as int].0@);
            }
            if str_eq(self.entries[i].0.as_str(), key) {
                return Some(i);
            }
            i = i + 1;
        }
        None
    }

    /// Inserts `value` under `key`, replacing the first entry with that key
    /// if one exists.
    pub fn insert(&mut self, key: String, value: ConfigKeyValue)
        ensures
            final(self)@ == spec_insert(old(self)@, key@, value@),
    {
        let ghost pre = self@;
        match self.find(key.as_str()) {
            Some(i) => {
                self.entries.remove(i);
                self.entries.insert(i, (key, value));
                proof {
                    assert(self@ =~= spec_insert(pre, key@, value@));
                }
            },
            None => {
                self.entries.push((key, value));
                proof {
                    assert(self@ =~= spec_insert(pre, key@, value@));
                }
            },
        }
    }

    /// Removes the first entry whose key is `key` and returns its value.
    pub fn remove(&mut self, key: &str) -> (r: Option<ConfigKeyValue>)
        ensures
            has_key(old(self)@, key@) ==> r is Some && r->0@ == old(self)@[assoc_idx(
                old(self)@,
                key@,
            )].1 && final(self)@ == old(self)@.remove(assoc_idx(old(self)@, key@)),
            !has_key(old(self)@, key@) ==> r is None && final(self)@ == old(self)@,
    {
        let ghost pre = self@;
        match self.find(key) {
            Some(i) => {
                let entry = self.entries.remove(i);
                proof {
                    assert(self@ =~= pre.remove(i as int));
                    assert(entry.1@ == pre[i as int].1);
                }
                Some(entry.1)
            },
            None => None,
        }
    }

    /// An independent copy holding the same entries.
    pub fn duplicate(&self) -> (r: ConfigKeyMap)
        ensures
            r@ == self@,
    {
        let mut entries: Vec<(String, ConfigKeyValue)> = Vec::new();
        let mut i: usize = 0;
        while i < self.entries.len()
            invariant
                i <= self.entries@.len(),
                entries@.len() == i,
                forall|j: int|
                    0 <= j < i ==> (#[trigger] entries@[j]).0@ == self.entries@[j].0@
                        && entries@[j].1@ == self.entries@[j].1@,
            decreases self.entries@.len() - i,
        {
            let k = self.entries[i].0.clone();
            let v = self.entries[i].1.clone();
            entries.push((k, v));
            i = i + 1;
        }
        let r = ConfigKeyMap { entries };
        proof {
            assert(r@ =~= self@);
        }
        r
    }

    /// Whether some entry has key `key`.
    pub fn contains_key(&self, key: &str) -> (r: bool)
        ensures
            r == has_key(self@, key@),
    {
        proof {
            lemma_assoc_idx(self@, key@);
        }
        match self.find(key) {
            Some(_) => true,
            None => false,
        }
    }

    /// The keys of the remaining entries, in order.
    pub fn keys(&self) -> (r: Vec<String>)
        ensures
            r@.len() == self@.len(),
            forall|i: int| 0 <= i < r@.len() ==> r@[i]@ == self@[i].0,
    {
        let mut out: Vec<String> = Vec::new();
        let mut i: usize = 0;
        while i < self.entries.len()
            invariant
                i <= self@.len(),
                self@.len() == self.entries@.len(),
                out@.len() == i,
                forall|j: int| 0 <= j < i ==> out@[j]@ == self@[j].0,
            decreases self@.len() - i,
        {
            let k = self.entries[i].0.clone();
            proof {
                assert(self@[i as int].0 == self.entries@[i as int].0@);
            }
            out.push(k);
            i = i + 1;
        }
        out
    }
}

/// A non-fatal problem found while resolving configuration.
#[derive(Debug, Clone, PartialEq)]
pub struct ConfigurationDiagnostic {
    pub property: String,
    pub message: String,
}

/// The property/message texts of a diagnostic list.
pub open spec fn diag_views(ds: Seq<ConfigurationDiagnostic>) -> Seq<(Seq<char>, Seq<char>)> {
    ds.map_values(|d: ConfigurationDiagnostic| (d.property@, d.message@))
}

/// A resolved configuration together with the diagnostics produced on the
/// way.
#[derive(Debug, Clone, PartialEq)]
pub struct ResolveConfigurationResult<T> {
    pub config: T,
    pub diagnostics: Vec<ConfigurationDiagnostic>,
}

/// A defaults layer shared across file types, consulted before the
/// formatter's own built-in defaults.
#[derive(Debug, Clone, PartialEq)]
pub struct GlobalConfiguration {
    pub line_width: Option<u32>,
    pub indent_width: Option<u8>,
    pub new_line_kind: Option<String>,
}

impl Default for GlobalConfiguration {
    fn default() -> (r: Self)
        ensures
            r.line_width == Some(DEFAULT_LINE_WIDTH),
            r.indent_width == Some(DEFAULT_INDENT_WIDTH),
            r.new_line_kind is Some && r.new_line_kind->0@ == "lf"@,
    {
        GlobalConfiguration {
            line_width: Some(DEFAULT_LINE_WIDTH),
            indent_width: Some(DEFAULT_INDENT_WIDTH),
            new_line_kind: Some(String::from_str("lf")),
        }
    }
}

} // verus!
