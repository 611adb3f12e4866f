//! Settings that plugins keep, one namespace per plugin id. Reading and
//! writing `plugin-settings.json` is the caller's work; the store decides which
//! keys are acceptable and what a read gives back after a write.
use vstd::prelude::*;
use crate::registry::{find_key, first_index_from, keys_of, lemma_first_index_from};
use crate::text::{concat2, string_from, utf8_len_at_most};

verus! {

pub const SETTINGS_FILE_NAME: &'static str = "plugin-settings.json";

// ---------------------------------------------------------------------------
// Keyed lists: the first entry with a key is the one that counts.

/// The value stored under `key`, if any.
pub open spec fn lookup<V>(entries: Seq<(String, V)>, key: Seq<char>) -> Option<V> {
    match first_index_from(keys_of(entries), key, 0) {
        Some(i) => Some(entries[i].1),
        None => None,
    }
}

proof fn lemma_first_index_push<V>(entries: Seq<(String, V)>, x: (String, V), key: Seq<char>, from: int)
    requires
        0 <= from <= entries.len(),
    ensures
        first_index_from(keys_of(entries.push(x)), key, from) == match first_index_from(keys_of(entries), key, from) {
            Some(i) => Some(i),
            None => if x.0@ == key { Some(entries.len() as int) } else { None },
        },
    decreases entries.len() - from,
{
    let ks = keys_of(entries);
    let kp = keys_of(entries.push(x));
    assert(kp.len() == ks.len() + 1);
    assert(kp[entries.len() as int] == x.0@);
    assert forall|j: int| 0 <= j < entries.len() implies kp[j] == ks[j] by {}
    if from < entries.len() {
        lemma_first_index_push(entries, x, key, from + 1);
    }
}

/// No key occurs twice, as in the map the entries stand for.
pub open spec fn string_keys_unique<V>(entries: Seq<(String, V)>) -> bool {
    forall|i: int, j: int| 0 <= i < j < entries.len() ==> #[trigger] keys_of(entries)[i] != #[trigger] keys_of(entries)[j]
}

/// Stores `value` under `key`: the entry that counts for the key is updated,
/// or a new entry is added after the others.
fn upsert<V>(entries: &mut Vec<(String, V)>, key: String, value: V)
    ensures
        forall|k: Seq<char>| #[trigger] lookup(final(entries)@, k) == if k == key@ { Some(value) } else { lookup(old(entries)@, k) },
        string_keys_unique(old(entries)@) ==> string_keys_unique(final(entries)@),
        final(entries)@.len() >= old(entries)@.len(),
        forall|i: int| 0 <= i < final(entries)@.len() ==>
            (i < old(entries)@.len() && #[trigger] final(entries)@[i] == old(entries)@[i]) || final(entries)@[i].1 == value,
{
    let ghost before = entries@;
    match find_key(entries, key.as_str()) {
        Some(i) => {
            proof { lemma_first_index_from(keys_of(before), key@, 0); }
            let old_entry = entries.remove(i);
            entries.insert(i, (old_entry.0, value));
            proof {
                assert(keys_of(entries@) =~= keys_of(before));
                assert forall|k: Seq<char>| #[trigger] lookup(entries@, k) == if k == key@ { Some(value) } else { lookup(before, k) } by {
                    lemma_first_index_from(keys_of(before), k, 0);
                }
                assert forall|j: int| 0 <= j < entries@.len() implies
                    (j < before.len() && #[trigger] entries@[j] == before[j]) || entries@[j].1 == value by {
                    if j != i {
                        assert(entries@[j] == before[j]);
                    }
                }
            }
        },
        None => {
            let ghost x = (key, value);
            entries.push((key, value));
            proof {
                assert forall|k: Seq<char>| #[trigger] lookup(entries@, k) == if k == x.0@ { Some(value) } else { lookup(before, k) } by {
                    lemma_first_index_push(before, x, k, 0);
                    lemma_first_index_from(keys_of(before), k, 0);
                    assert(entries@ == before.push(x));
                    match first_index_from(keys_of(before), k, 0) {
                        Some(i) => assert(entries@[i] == before[i]),
                        None => assert(entries@[before.len() as int] == x),
                    }
                }
                lemma_first_index_from(keys_of(before), x.0@, 0);
                if string_keys_unique(before) {
                    assert forall|a: int, b: int| 0 <= a < b < entries@.len() implies
                        #[trigger] keys_of(entries@)[a] != #[trigger] keys_of(entries@)[b] by {
                        assert(keys_of(entries@)[a] == keys_of(before)[a]);
                        if b < before.len() {
                            assert(keys_of(entries@)[b] == keys_of(before)[b]);
                            assert(keys_of(before)[a] != keys_of(before)[b]);
                        } else {
                            assert(keys_of(entries@)[b] == x.0@);
                        }
                    }
                }
                assert forall|j: int| 0 <= j < entries@.len() implies
                    (j < before.len() && #[trigger] entries@[j] == before[j]) || entries@[j].1 == value by {
                    if j < before.len() {
                        assert(entries@[j] == before[j]);
                    }
                }
            }
        },
    }
}

// ---------------------------------------------------------------------------
// The store

/// A value's JSON copy. Claimed: the copy equals the original (`Value`'s
/// `Clone` is derived, field by field).
#[verifier::external_body]
fn copy_json_value(value: &serde_json::Value) -> (c: serde_json::Value)
    ensures
        c == *value,
{
    value.clone()
}

/// Plugin id and its settings: key and JSON value, one list per plugin.
pub struct PluginSettingsState {
    pub namespaces: Vec<(String, Vec<(String, serde_json::Value)>)>,
}

impl PluginSettingsState {
    pub fn empty() -> (s: Self)
        ensures
            forall|p: Seq<char>, k: Seq<char>| #[trigger] setting_value(s, p, k) is None,
    {
        PluginSettingsState { namespaces: Vec::new() }
    }
}

/// The value stored for `plugin_id` under `key`.
pub open spec fn setting_value(state: PluginSettingsState, plugin_id: Seq<char>, key: Seq<char>) -> Option<serde_json::Value> {
    match lookup(state.namespaces@, plugin_id) {
        Some(entries) => lookup(entries@, key),
        None => None,
    }
}

#[derive(Debug)]
pub enum PluginSettingsError {
    Io(std::io::Error),
    InvalidState(String),
    InvalidKey(String),
}

pub open spec fn is_control(c: char) -> bool {
    (c as u32) <= 0x1F || (0x7F <= (c as u32) && (c as u32) <= 0x9F)
}

/// A settings key: 1 to 128 bytes, with no control character and no `/` or `\`.
pub open spec fn key_valid(key: Seq<char>) -> bool {
    &&& key.len() > 0
    &&& vstd::utf8::encode_utf8(key).len() <= 128
    &&& forall|i: int| 0 <= i < key.len() ==> !is_control(#[trigger] key[i]) && key[i] != '/' && key[i] != '\\'
}

pub fn validate_key(key: &str) -> (r: Result<(), PluginSettingsError>)
    ensures
        r is Ok <==> key_valid(key@),
        r matches Err(e) ==> (e matches PluginSettingsError::InvalidKey(k) && k@ == key@),
{
    let chars = crate::text::chars_of(key);
    let mut ok = chars.len() > 0 && utf8_len_at_most(key, 128);
    let mut i: usize = 0;
    while i < chars.len()
        invariant
            chars@ == key@,
            i <= chars@.len(),
            ok == (chars@.len() > 0 && vstd::utf8::encode_utf8(key@).len() <= 128
                && forall|k: int| 0 <= k < i ==> !is_control(#[trigger] key@[k]) && key@[k] != '/' && key@[k] != '\\'),
        decreases chars.len() - i,
    {
        let c = chars[i];
        let u = c as u32;
        if u <= 0x1F || (0x7F <= u && u <= 0x9F) || c == '/' || c == '\\' {
            ok = false;
        }
        i += 1;
    }
    if !ok {
        return Err(PluginSettingsError::InvalidKey(string_from(key)));
    }
    Ok(())
}

/// No plugin id twice among the namespaces, and no key twice within one.
pub open spec fn namespaces_unique(state: PluginSettingsState) -> bool {
    &&& string_keys_unique(state.namespaces@)
    &&& forall|i: int| 0 <= i < state.namespaces@.len() ==> string_keys_unique(#[trigger] state.namespaces@[i].1@)
}

pub struct PluginSettingsStore {
    path: String,
    state: PluginSettingsState,
}

impl PluginSettingsStore {
    pub closed spec fn path_view(&self) -> Seq<char> {
        self.path@
    }

    pub closed spec fn value_of(&self, plugin_id: Seq<char>, key: Seq<char>) -> Option<serde_json::Value> {
        setting_value(self.state, plugin_id, key)
    }

    /// The settings are a map of maps: no plugin id twice, and no key twice
    /// within a plugin's settings.
    pub closed spec fn keys_unique(&self) -> bool {
        namespaces_unique(self.state)
    }

    /// A store for the settings file at `path`, holding what was read from it.
    pub fn new(path: String, state: PluginSettingsState) -> (s: Self)
        ensures
            s.path_view() == path@,
            forall|p: Seq<char>, k: Seq<char>| #[trigger] s.value_of(p, k) == setting_value(state, p, k),
            s.keys_unique() == namespaces_unique(state),
    {
        PluginSettingsStore { path, state }
    }

    pub fn path(&self) -> (p: &str)
        ensures
            p@ == self.path_view(),
    {
        self.path.as_str()
    }

    /// What is to be written back to the settings file.
    pub fn state(&self) -> (s: &PluginSettingsState)
        ensures
            forall|p: Seq<char>, k: Seq<char>| #[trigger] setting_value(*s, p, k) == self.value_of(p, k),
            namespaces_unique(*s) == self.keys_unique(),
    {
        &self.state
    }

    /// The value a plugin stored under `key`.
    pub fn get(&self, plugin_id: &str, key: &str) -> (r: Result<Option<serde_json::Value>, PluginSettingsError>)
        ensures
            !key_valid(key@) ==> (r matches Err(PluginSettingsError::InvalidKey(k)) && k@ == key@),
            key_valid(key@) ==> r == Ok::<Option<serde_json::Value>, PluginSettingsError>(self.value_of(plugin_id@, key@)),
    {
        match validate_key(key) {
            Err(e) => return Err(e),
            Ok(()) => {},
        }
        let namespaces = &self.state.namespaces;
        proof { lemma_first_index_from(keys_of(namespaces@), plugin_id@, 0); }
        match find_key(namespaces, plugin_id) {
            None => Ok(None),
            Some(n) => {
                let entries = &namespaces[n].1;
                proof { lemma_first_index_from(keys_of(entries@), key@, 0); }
                match find_key(entries, key) {
                    None => Ok(None),
                    Some(k) => Ok(Some(copy_json_value(&entries[k].1))),
                }
            },
        }
    }

    /// Stores `value` for a plugin under `key`; every other setting stays as it was.
    pub fn set(&mut self, plugin_id: &str, key: &str, value: serde_json::Value) -> (r: Result<(), PluginSettingsError>)
        ensures
            final(self).path_view() == old(self).path_view(),
            !key_valid(key@) ==> (r matches Err(PluginSettingsError::InvalidKey(k)) && k@ == key@)
                && forall|p: Seq<char>, k: Seq<char>| #[trigger] final(self).value_of(p, k) == old(self).value_of(p, k),
            key_valid(key@) ==> r is Ok && forall|p: Seq<char>, k: Seq<char>| #[trigger] final(self).value_of(p, k)
                == if p == plugin_id@ && k == key@ { Some(value) } else { old(self).value_of(p, k) },
            old(self).keys_unique() ==> final(self).keys_unique(),
    {
        match validate_key(key) {
            Err(e) => return Err(e),
            Ok(()) => {},
        }
        let ghost before = self.state;
        let mut entries: Vec<(String, serde_json::Value)> = Vec::new();
        let mut namespaces: Vec<(String, Vec<(String, serde_json::Value)>)> = Vec::new();
        std::mem::swap(&mut namespaces, &mut self.state.namespaces);
        proof { lemma_first_index_from(keys_of(namespaces@), plugin_id@, 0); }
        match find_key(&namespaces, plugin_id) {
            Some(n) => {
                let ghost whole = namespaces@;
                let (name, inner) = namespaces.remove(n);
                entries = inner;
                let ghost old_inner = entries@;
                upsert(&mut entries, string_from(key), value);
                let ghost new_inner = entries@;
                namespaces.insert(n, (name, Vec::new()));
                let ghost mid = namespaces@;
                upsert(&mut namespaces, string_from(plugin_id), entries);
                proof {
                    assert(old_inner == whole[n as int].1@);
                    assert forall|k: int| 0 <= k < mid.len() && k != n implies #[trigger] mid[k] == whole[k] by {}
                    if namespaces_unique(before) {
                        assert(string_keys_unique(old_inner));
                        assert(keys_of(mid) =~= keys_of(whole));
                        assert forall|k: int| 0 <= k < namespaces@.len() implies
                            string_keys_unique(#[trigger] namespaces@[k].1@) by {
                            if k < mid.len() && namespaces@[k] == mid[k] {
                                if k != n {
                                    assert(mid[k] == whole[k]);
                                } else {
                                    assert(mid[k].1@ =~= Seq::<(String, serde_json::Value)>::empty());
                                }
                            } else {
                                assert(namespaces@[k].1@ == new_inner);
                            }
                        }
                    }
                    assert(keys_of(mid) =~= keys_of(before.namespaces@));
                    assert forall|p: Seq<char>, k: Seq<char>| #[trigger] setting_value(PluginSettingsState { namespaces }, p, k)
                        == if p == plugin_id@ && k == key@ { Some(value) } else { setting_value(before, p, k) } by {
                        lemma_first_index_from(keys_of(before.namespaces@), p, 0);
                        lemma_first_index_from(keys_of(mid), p, 0);
                    }
                }
            },
            None => {
                entries.push((string_from(key), value));
                let ghost new_inner = entries@;
                proof {
                    assert(keys_of(new_inner) =~= seq![key@]);
                }
                upsert(&mut namespaces, string_from(plugin_id), entries);
                proof {
                    if namespaces_unique(before) {
                        assert forall|k: int| 0 <= k < namespaces@.len() implies
                            string_keys_unique(#[trigger] namespaces@[k].1@) by {
                            if !(k < before.namespaces@.len() && namespaces@[k] == before.namespaces@[k]) {
                                assert(namespaces@[k].1@ == new_inner);
                            }
                        }
                    }
                    assert forall|p: Seq<char>, k: Seq<char>| #[trigger] setting_value(PluginSettingsState { namespaces }, p, k)
                        == if p == plugin_id@ && k == key@ { Some(value) } else { setting_value(before, p, k) } by {
                        lemma_first_index_from(keys_of(before.namespaces@), p, 0);
                        lemma_first_index_from(keys_of(new_inner), k, 0);
                    }
                }
            },
        }
        self.state.namespaces = namespaces;
        Ok(())
    }
}

/// The message shown for a settings error (for an I/O error, after its prefix,
/// the system's own text).
pub fn settings_error_message(error: &PluginSettingsError) -> (s: String)
    ensures
        error matches PluginSettingsError::InvalidState(m) ==> s@ == "invalid plugin settings state: "@ + m@,
        error matches PluginSettingsError::InvalidKey(k) ==> s@ == "invalid plugin settings key: "@ + k@,
        error matches PluginSettingsError::Io(_) ==> s@.len() >= "plugin settings I/O error: "@.len()
            && s@.take("plugin settings I/O error: "@.len() as int) == "plugin settings I/O error: "@,
{
    match error {
        PluginSettingsError::Io(e) => {
            let detail = crate::registry::io_error_text(e);
            let s = concat2("plugin settings I/O error: ", detail.as_str());
            assert(s@.take("plugin settings I/O error: "@.len() as int) =~= "plugin settings I/O error: "@);
            s
        },
        PluginSettingsError::InvalidState(m) => concat2("invalid plugin settings state: ", m.as_str()),
        PluginSettingsError::InvalidKey(k) => concat2("invalid plugin settings key: ", k.as_str()),
    }
}

} // verus!
