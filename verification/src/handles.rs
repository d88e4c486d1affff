use vstd::prelude::*;
use crate::hashing::{
    ascii_lower, ascii_plugin_hash, ascii_property_hash, generate_plugin_name_hash, generate_property_name_hash,
    is_ascii_text, lemma_ascii_hashes, lemma_ascii_lower_facts, lemma_lower_char, spec_plugin_name_hash,
    spec_property_name_hash, starts_or_ends_with_dot, str_lowercase,
};
use crate::text::{
    all_whitespace, is_first_index, is_first_non_ws, is_last_non_ws, lemma_first_index_exists, lemma_split_first_at,
    spec_trim, split_first, split_once, trim,
};

verus! {

/// The pair of hashes named by a full name `plugin.rest`: the name is trimmed,
/// split at its first dot, the plugin part may not be empty, and each part is hashed
/// (the plugin part as a plugin name, the rest as a property name).
pub open spec fn spec_name_hashes(name: Seq<char>) -> Option<(u64, u64)> {
    match split_first(spec_trim(name), '.') {
        None => None,
        Some((p, q)) => {
            if p.len() == 0 {
                None
            } else {
                match (spec_plugin_name_hash(p), spec_property_name_hash(q)) {
                    (Some(a), Some(b)) => Some((a, b)),
                    _ => None,
                }
            }
        },
    }
}

/// The pair of hashes of an ASCII full name: as `spec_name_hashes`, with
/// each part lower-cased the ASCII way.
pub open spec fn ascii_name_hashes(name: Seq<char>) -> Option<(u64, u64)> {
    match split_first(spec_trim(name), '.') {
        None => None,
        Some((p, q)) => {
            if p.len() == 0 {
                None
            } else {
                match (ascii_plugin_hash(p), ascii_property_hash(q)) {
                    (Some(a), Some(b)) => Some((a, b)),
                    _ => None,
                }
            }
        },
    }
}

proof fn lemma_ascii_subrange(s: Seq<char>, a: int, b: int)
    requires
        is_ascii_text(s),
        0 <= a <= b <= s.len(),
    ensures
        is_ascii_text(s.subrange(a, b)),
{
    assert forall|i: int| 0 <= i < b - a implies (#[trigger] s.subrange(a, b)[i] as u32) < 128 by {
        assert(s.subrange(a, b)[i] == s[a + i]);
    }
}

proof fn lemma_ascii_trim(s: Seq<char>)
    requires
        is_ascii_text(s),
    ensures
        is_ascii_text(spec_trim(s)),
{
    if !all_whitespace(s) {
        let k = choose|k: int| 0 <= k < s.len() && !crate::text::is_whitespace(#[trigger] s[k]);
        crate::text::lemma_first_non_ws_exists(s, k);
        crate::text::lemma_last_non_ws_exists(s, k);
        let a = choose|a: int| is_first_non_ws(s, a);
        let b = choose|b: int| is_last_non_ws(s, b);
        assert(a <= b) by {
            if b < a {
                assert(crate::text::is_whitespace(s[b]));
            }
        }
        lemma_ascii_subrange(s, a, b + 1);
    }
}

/// Splitting at the first dot and lower-casing (ASCII) commute.
proof fn lemma_split_lower(t: Seq<char>)
    ensures
        split_first(ascii_lower(t), '.') == match split_first(t, '.') {
            None => None,
            Some((p, q)) => Some((ascii_lower(p), ascii_lower(q))),
        },
{
    let l = ascii_lower(t);
    lemma_ascii_lower_facts(t);
    if t.contains('.') {
        lemma_first_index_exists(t, '.');
        let i = choose|i: int| is_first_index(t, '.', i);
        lemma_split_first_at(t, '.', i);
        lemma_lower_char(t[i]);
        assert forall|j: int| 0 <= j < i implies #[trigger] l[j] != '.' by {
            lemma_lower_char(t[j]);
        }
        assert(is_first_index(l, '.', i));
        lemma_split_first_at(l, '.', i);
        assert(l.take(i) =~= ascii_lower(t.take(i)));
        assert(l.skip(i + 1) =~= ascii_lower(t.skip(i + 1)));
    }
}

/// Splits and hashes a full name `plugin.rest`.
pub fn name_hashes(name: &str) -> (r: Option<(u64, u64)>)
    ensures
        r == spec_name_hashes(name@),
        is_ascii_text(name@) ==> r == ascii_name_hashes(name@),
{
    let t = trim(name);
    proof {
        if is_ascii_text(name@) {
            lemma_ascii_trim(name@);
        }
    }
    match split_once(t, '.') {
        None => None,
        Some((p, q)) => {
            proof {
                if is_ascii_text(name@) {
                    lemma_first_index_exists(t@, '.');
                    let i = choose|i: int| is_first_index(t@, '.', i);
                    lemma_split_first_at(t@, '.', i);
                    lemma_ascii_subrange(t@, 0, i);
                    lemma_ascii_subrange(t@, i + 1, t@.len() as int);
                    assert(t@.take(i) =~= t@.subrange(0, i));
                    assert(t@.skip(i + 1) =~= t@.subrange(i + 1, t@.len() as int));
                }
            }
            if p.unicode_len() == 0 {
                return None;
            }
            let a = generate_plugin_name_hash(p);
            let b = generate_property_name_hash(q);
            match (a, b) {
                (Some(a), Some(b)) => Some((a, b)),
                _ => None,
            }
        },
    }
}

/// Identifies a property: the hash of the plugin name and of the property name.
#[derive(Debug, Clone, Copy, PartialEq, Eq, Structural, Hash)]
pub struct PropertyHandle {
    pub plugin: u64,
    pub property: u64,
}

/// Identifies an event: the hash of the plugin name and of the event name.
#[derive(Debug, Clone, Copy, PartialEq, Eq, Structural, Hash)]
pub struct EventHandle {
    pub plugin: u64,
    pub event: u64,
}

/// Identifies an action: the hash of the plugin name and of the action name.
#[derive(Debug, Clone, Copy, PartialEq, Eq, Structural, Hash)]
pub struct ActionHandle {
    pub plugin: u64,
    pub action: u64,
}

impl Default for PropertyHandle {
    fn default() -> (r: Self)
        ensures
            r.plugin == 0 && r.property == 0,
    {
        PropertyHandle { plugin: 0, property: 0 }
    }
}

impl PropertyHandle {
    /// Generates the handle of a property named `plugin.property` (case
    /// insensitive, surrounding whitespace ignored).
    pub fn new(name: &str) -> (r: Option<Self>)
        ensures
            r is None <==> spec_name_hashes(name@) is None,
            r matches Some(h) ==> spec_name_hashes(name@) == Some((h.plugin, h.property)),
            is_ascii_text(name@) ==> match ascii_name_hashes(name@) {
                None => r is None,
                Some((a, b)) => r == Some(PropertyHandle { plugin: a, property: b }),
            },
    {
        match name_hashes(name) {
            Some((plugin, property)) => Some(PropertyHandle { plugin, property }),
            None => None,
        }
    }

    /// Builds a handle from hashes computed beforehand.
    pub fn from_values(plugin_hash: u64, property_hash: u64) -> (r: Self)
        ensures
            r.plugin == plugin_hash && r.property == property_hash,
    {
        PropertyHandle { plugin: plugin_hash, property: property_hash }
    }
}

impl EventHandle {
    /// Generates the handle of an event named `plugin.event`.
    pub fn new(name: &str) -> (r: Option<Self>)
        ensures
            r is None <==> spec_name_hashes(name@) is None,
            r matches Some(h) ==> spec_name_hashes(name@) == Some((h.plugin, h.event)),
    {
        match name_hashes(name) {
            Some((plugin, event)) => Some(EventHandle { plugin, event }),
            None => None,
        }
    }

    pub fn from_values(plugin_hash: u64, event_hash: u64) -> (r: Self)
        ensures
            r.plugin == plugin_hash && r.event == event_hash,
    {
        EventHandle { plugin: plugin_hash, event: event_hash }
    }
}

impl ActionHandle {
    /// Generates the handle of an action named `plugin.action`.
    pub fn new(name: &str) -> (r: Option<Self>)
        ensures
            r is None <==> spec_name_hashes(name@) is None,
            r matches Some(h) ==> spec_name_hashes(name@) == Some((h.plugin, h.action)),
    {
        match name_hashes(name) {
            Some((plugin, action)) => Some(ActionHandle { plugin, action }),
            None => None,
        }
    }

    pub fn from_values(plugin_hash: u64, action_hash: u64) -> (r: Self)
        ensures
            r.plugin == plugin_hash && r.action == action_hash,
    {
        ActionHandle { plugin: plugin_hash, action: action_hash }
    }

    pub fn get_action_code(&self) -> (r: u64)
        ensures
            r == self.action,
    {
        self.action
    }
}

/// Whitespace around a name does not change the handle it names.
pub proof fn lemma_name_hashes_ignore_whitespace(name: Seq<char>)
    ensures
        spec_name_hashes(spec_trim(name)) == spec_name_hashes(name),
{
    crate::text::lemma_trim_idempotent(name);
}

/// Names are case-insensitive: two full names whose plugin parts lower-case
/// alike, and whose property parts lower-case alike, name the same handle
/// (given that an empty plugin part, and a property part with a dot at an
/// end, are refused in both or in neither).
pub proof fn lemma_name_hashes_ignore_case(a: Seq<char>, b: Seq<char>)
    requires
        split_first(spec_trim(a), '.') matches Some((pa, qa)) && split_first(spec_trim(b), '.') matches Some(
            (pb, qb),
        ) && str_lowercase(pa) == str_lowercase(pb) && str_lowercase(qa) == str_lowercase(qb)
            && (pa.len() == 0) == (pb.len() == 0) && starts_or_ends_with_dot(qa)
            == starts_or_ends_with_dot(qb),
    ensures
        spec_name_hashes(a) == spec_name_hashes(b),
{
    let ta = spec_trim(a);
    let tb = spec_trim(b);
    lemma_first_index_exists(ta, '.');
    lemma_first_index_exists(tb, '.');
    let ia = choose|i: int| is_first_index(ta, '.', i);
    let ib = choose|i: int| is_first_index(tb, '.', i);
    assert(!ta.take(ia).contains('.')) by {
        if ta.take(ia).contains('.') {
            let j = choose|j: int| 0 <= j < ta.take(ia).len() && ta.take(ia)[j] == '.';
            assert(ta[j] == '.');
        }
    }
    assert(!tb.take(ib).contains('.')) by {
        if tb.take(ib).contains('.') {
            let j = choose|j: int| 0 <= j < tb.take(ib).len() && tb.take(ib)[j] == '.';
            assert(tb[j] == '.');
        }
    }
}

/// ASCII names are case-insensitive: two ASCII full names that, without
/// their surrounding whitespace, lower-case alike name the same handle.
pub proof fn lemma_ascii_names_ignore_case(a: Seq<char>, b: Seq<char>)
    requires
        is_ascii_text(a),
        is_ascii_text(b),
        ascii_lower(spec_trim(a)) == ascii_lower(spec_trim(b)),
    ensures
        ascii_name_hashes(a) == ascii_name_hashes(b),
{
    let ta = spec_trim(a);
    let tb = spec_trim(b);
    lemma_ascii_trim(a);
    lemma_ascii_trim(b);
    lemma_split_lower(ta);
    lemma_split_lower(tb);
    if split_first(ta, '.') is Some && split_first(tb, '.') is Some {
        let (pa, qa) = split_first(ta, '.')->Some_0;
        let (pb, qb) = split_first(tb, '.')->Some_0;
        lemma_first_index_exists(ta, '.');
        lemma_first_index_exists(tb, '.');
        let ia = choose|i: int| is_first_index(ta, '.', i);
        let ib = choose|i: int| is_first_index(tb, '.', i);
        lemma_split_first_at(ta, '.', ia);
        lemma_split_first_at(tb, '.', ib);
        lemma_ascii_subrange(ta, 0, ia);
        lemma_ascii_subrange(ta, ia + 1, ta.len() as int);
        lemma_ascii_subrange(tb, 0, ib);
        lemma_ascii_subrange(tb, ib + 1, tb.len() as int);
        assert(ta.take(ia) =~= ta.subrange(0, ia));
        assert(ta.skip(ia + 1) =~= ta.subrange(ia + 1, ta.len() as int));
        assert(tb.take(ib) =~= tb.subrange(0, ib));
        assert(tb.skip(ib + 1) =~= tb.subrange(ib + 1, tb.len() as int));
        lemma_ascii_hashes(pa);
        lemma_ascii_hashes(pb);
        lemma_ascii_hashes(qa);
        lemma_ascii_hashes(qb);
        lemma_ascii_lower_facts(pa);
        lemma_ascii_lower_facts(pb);
    }
}

} // verus!
