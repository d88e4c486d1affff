use vstd::prelude::*;
use highway::{HighwayHash, HighwayHasher, Key};
use crate::text::{chars_of, contains_char};

verus! {

/// What `str::to_lowercase` returns for the characters `s` (Unicode lower
/// case mapping).
pub uninterp spec fn str_lowercase(s: Seq<char>) -> Seq<char>;

/// The 64 bit HighwayHash, under the 256 bit key `key`, of the UTF-8 bytes of
/// the text `text`.
pub uninterp spec fn highway_hash64(key: Seq<u64>, text: Seq<char>) -> u64;

/// A text made of ASCII characters only.
pub open spec fn is_ascii_text(s: Seq<char>) -> bool {
    forall|i: int| 0 <= i < s.len() ==> (#[trigger] s[i] as u32) < 128
}

/// An ASCII capital `A`-`Z` as its small letter; every other character as
/// it is.
pub open spec fn ascii_lower_char(c: char) -> char {
    if 65 <= (c as u32) && (c as u32) <= 90 {
        ((c as u32) + 32) as char
    } else {
        c
    }
}

/// The characters of `s`, each by `ascii_lower_char`.
pub open spec fn ascii_lower(s: Seq<char>) -> Seq<char> {
    s.map_values(|c: char| ascii_lower_char(c))
}

/// Calls `str::to_lowercase`. The contract names its result and claims of
/// the Unicode mapping only what holds of ASCII text: `A`-`Z` become
/// `a`-`z` and every other character stays (what `to_ascii_lowercase`
/// does, which its documentation sets beside this function for ASCII).
/// Nothing is claimed of other text.
#[verifier::external_body]
pub(crate) fn to_lowercase(s: &str) -> (r: String)
    ensures
        r@ == str_lowercase(s@),
        is_ascii_text(s@) ==> r@ == ascii_lower(s@),
{
    s.to_lowercase()
}

/// Calls `highway::HighwayHasher::new(Key(key)).hash64(..)` on the UTF-8
/// bytes of `text`. The contract claims that the result is a function of
/// the key and the text alone (the hash is keyed and unseeded); the
/// algorithm itself is not restated.
#[verifier::external_body]
fn highway_hash_text(key: [u64; 4], text: &str) -> (r: u64)
    ensures
        r == highway_hash64(key@, text@),
{
    HighwayHasher::new(Key(key)).hash64(text.as_bytes())
}

/// The key under which plugin names are hashed.
pub open spec fn plugin_name_key() -> Seq<u64> {
    seq![1u64, 2u64, 3u64, 4u64]
}

/// The key under which property, event and action names are hashed.
pub open spec fn property_name_key() -> Seq<u64> {
    seq![2u64, 4u64, 3u64, 4u64]
}

/// A plugin name may not hold a dot; it is hashed case-insensitively.
pub open spec fn spec_plugin_name_hash(name: Seq<char>) -> Option<u64> {
    if name.contains('.') {
        None
    } else {
        Some(highway_hash64(plugin_name_key(), str_lowercase(name)))
    }
}

pub open spec fn starts_or_ends_with_dot(name: Seq<char>) -> bool {
    name.len() > 0 && (name[0] == '.' || name.last() == '.')
}

/// A property name may not start or end with a dot; it is hashed
/// case-insensitively.
pub open spec fn spec_property_name_hash(name: Seq<char>) -> Option<u64> {
    if starts_or_ends_with_dot(name) {
        None
    } else {
        Some(highway_hash64(property_name_key(), str_lowercase(name)))
    }
}

fn plugin_key() -> (k: [u64; 4])
    ensures
        k@ == plugin_name_key(),
{
    let k: [u64; 4] = [1, 2, 3, 4];
    assert(k@ =~= plugin_name_key());
    k
}

fn property_key() -> (k: [u64; 4])
    ensures
        k@ == property_name_key(),
{
    let k: [u64; 4] = [2, 4, 3, 4];
    assert(k@ =~= property_name_key());
    k
}

/// Generates the id of a plugin from its name.
pub fn generate_plugin_name_hash(name: &str) -> (r: Option<u64>)
    ensures
        r == spec_plugin_name_hash(name@),
        is_ascii_text(name@) ==> r == ascii_plugin_hash(name@),
{
    if contains_char(name, '.') {
        return None;
    }
    let lower = to_lowercase(name);
    Some(highway_hash_text(plugin_key(), lower.as_str()))
}

/// Generates the hash of a property name (the part after the plugin name).
pub fn generate_property_name_hash(name: &str) -> (r: Option<u64>)
    ensures
        r == spec_property_name_hash(name@),
        is_ascii_text(name@) ==> r == ascii_property_hash(name@),
{
    let chars = chars_of(name);
    let n = chars.len();
    if n > 0 && (chars[0] == '.' || chars[n - 1] == '.') {
        return None;
    }
    let lower = to_lowercase(name);
    Some(highway_hash_text(property_key(), lower.as_str()))
}

/// The plugin id of an ASCII name: refused when it holds a dot, else the
/// hash of its ASCII lower case.
pub open spec fn ascii_plugin_hash(name: Seq<char>) -> Option<u64> {
    if name.contains('.') {
        None
    } else {
        Some(highway_hash64(plugin_name_key(), ascii_lower(name)))
    }
}

/// The property hash of an ASCII name: refused when it starts or ends with
/// a dot, else the hash of its ASCII lower case.
pub open spec fn ascii_property_hash(name: Seq<char>) -> Option<u64> {
    if starts_or_ends_with_dot(name) {
        None
    } else {
        Some(highway_hash64(property_name_key(), ascii_lower(name)))
    }
}

pub proof fn lemma_lower_char(c: char)
    ensures
        (c as u32) < 128 ==> (ascii_lower_char(c) as u32) < 128,
        (ascii_lower_char(c) == '.') == (c == '.'),
        ascii_lower_char(ascii_lower_char(c)) == ascii_lower_char(c),
{
}

/// Lower-casing keeps the length and the dots of a text, and lower-casing
/// twice is lower-casing once.
pub proof fn lemma_ascii_lower_facts(s: Seq<char>)
    ensures
        ascii_lower(s).len() == s.len(),
        ascii_lower(s).contains('.') == s.contains('.'),
        starts_or_ends_with_dot(ascii_lower(s)) == starts_or_ends_with_dot(s),
        ascii_lower(ascii_lower(s)) == ascii_lower(s),
        is_ascii_text(s) ==> is_ascii_text(ascii_lower(s)),
{
    let l = ascii_lower(s);
    assert forall|i: int| 0 <= i < s.len() implies (#[trigger] l[i] == '.') == (s[i] == '.') by {
        lemma_lower_char(s[i]);
    }
    if l.contains('.') {
        let i = choose|i: int| 0 <= i < l.len() && l[i] == '.';
        assert(s[i] == '.');
    }
    if s.contains('.') {
        let i = choose|i: int| 0 <= i < s.len() && s[i] == '.';
        assert(l[i] == '.');
    }
    if s.len() > 0 {
        assert(l.last() == l[s.len() - 1]);
        assert(s.last() == s[s.len() - 1]);
    }
    assert(ascii_lower(l) =~= l) by {
        assert forall|i: int| 0 <= i < s.len() implies #[trigger] ascii_lower(l)[i] == l[i] by {
            lemma_lower_char(s[i]);
        }
    }
    if is_ascii_text(s) {
        assert forall|i: int| 0 <= i < l.len() implies (#[trigger] l[i] as u32) < 128 by {
            lemma_lower_char(s[i]);
        }
    }
}

/// Hashing an ASCII name that was lower-cased already gives what hashing
/// the name gives.
pub proof fn lemma_ascii_hashes(s: Seq<char>)
    requires
        is_ascii_text(s),
    ensures
        ascii_plugin_hash(ascii_lower(s)) == ascii_plugin_hash(s),
        ascii_property_hash(ascii_lower(s)) == ascii_property_hash(s),
{
    lemma_ascii_lower_facts(s);
}

/// ASCII plugin names are case-insensitive: two that lower-case alike
/// get the same id (or are both refused).
pub proof fn lemma_ascii_plugin_names_ignore_case(a: Seq<char>, b: Seq<char>)
    requires
        ascii_lower(a) == ascii_lower(b),
    ensures
        ascii_plugin_hash(a) == ascii_plugin_hash(b),
        ascii_property_hash(a) == ascii_property_hash(b),
{
    lemma_ascii_lower_facts(a);
    lemma_ascii_lower_facts(b);
}

} // verus!
