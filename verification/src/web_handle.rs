use vstd::prelude::*;
use crate::decimal::{decimal, lemma_decimal_digits, lemma_parse_decimal, parse_u64, push_decimal, spec_parse_u64};
use crate::handles::{ActionHandle, PropertyHandle};
use crate::text::{lemma_split_first_concat, split_first, split_once};

verus! {

/// The web form of a pair of hashes: both numbers in decimal, joined by `|`.
pub open spec fn web_text(first: u64, second: u64) -> Seq<char> {
    decimal(first as nat) + seq!['|'] + decimal(second as nat)
}

/// The hashes that a web handle text denotes: the text is split at its first
/// `|` and each side is parsed as a `u64`.
pub open spec fn spec_extract_hashes(s: Seq<char>) -> Option<(u64, u64)> {
    match split_first(s, '|') {
        None => None,
        Some((a, b)) => match (spec_parse_u64(a), spec_parse_u64(b)) {
            (Some(x), Some(y)) => Some((x, y)),
            _ => None,
        },
    }
}

fn web_join(first: u64, second: u64) -> (r: String)
    ensures
        r@ == web_text(first, second),
{
    let mut s = String::new();
    push_decimal(&mut s, first);
    proof {
        reveal_strlit("|");
    }
    s.append("|");
    push_decimal(&mut s, second);
    assert(s@ =~= web_text(first, second));
    s
}

/// Reads the two hashes out of a web handle text.
pub fn extract_hashes(web_handle: &str) -> (r: Option<(u64, u64)>)
    ensures
        r == spec_extract_hashes(web_handle@),
{
    let (plugin, specific) = match split_once(web_handle, '|') {
        Some(p) => p,
        None => return None,
    };
    let plugin = match parse_u64(plugin) {
        Some(v) => v,
        None => return None,
    };
    let specific = match parse_u64(specific) {
        Some(v) => v,
        None => return None,
    };
    Some((plugin, specific))
}

/// Reading the hashes back out of the web text of two hashes gives them back.
pub proof fn lemma_web_text_round_trip(first: u64, second: u64)
    ensures
        spec_extract_hashes(web_text(first, second)) == Some((first, second)),
{
    lemma_decimal_digits(first as nat);
    lemma_split_first_concat(decimal(first as nat), '|', decimal(second as nat));
    lemma_parse_decimal(first);
    lemma_parse_decimal(second);
}

/// A property handle in its web form `plugin|property`.
#[derive(Debug, Clone)]
pub struct WebPropertyHandle(String);

/// An action handle in its web form `plugin|action`.
#[derive(Debug, Clone)]
pub struct WebActionHandle(String);

impl View for WebPropertyHandle {
    type V = Seq<char>;

    closed spec fn view(&self) -> Seq<char> {
        self.0@
    }
}

impl View for WebActionHandle {
    type V = Seq<char>;

    closed spec fn view(&self) -> Seq<char> {
        self.0@
    }
}

impl WebPropertyHandle {
    pub fn new(plugin: u64, prop: u64) -> (r: Self)
        ensures
            r@ == web_text(plugin, prop),
    {
        WebPropertyHandle(web_join(plugin, prop))
    }

    /// Wraps a text received from the web (as deserialization does).
    pub fn from_text(text: String) -> (r: Self)
        ensures
            r@ == text@,
    {
        WebPropertyHandle(text)
    }

    pub fn as_text(&self) -> (r: &str)
        ensures
            r@ == self@,
    {
        self.0.as_str()
    }

    pub fn get_hashes(&self) -> (r: Option<(u64, u64)>)
        ensures
            r == spec_extract_hashes(self@),
    {
        extract_hashes(self.0.as_str())
    }

    /// The web form of a property handle.
    pub fn from_handle(value: PropertyHandle) -> (r: Self)
        ensures
            r@ == web_text(value.plugin, value.property),
    {
        WebPropertyHandle::new(value.plugin, value.property)
    }
}

impl WebActionHandle {
    pub fn new(plugin: u64, action: u64) -> (r: Self)
        ensures
            r@ == web_text(plugin, action),
    {
        WebActionHandle(web_join(plugin, action))
    }

    /// Wraps a text received from the web (as deserialization does).
    pub fn from_text(text: String) -> (r: Self)
        ensures
            r@ == text@,
    {
        WebActionHandle(text)
    }

    pub fn as_text(&self) -> (r: &str)
        ensures
            r@ == self@,
    {
        self.0.as_str()
    }

    pub fn get_hashes(&self) -> (r: Option<(u64, u64)>)
        ensures
            r == spec_extract_hashes(self@),
    {
        extract_hashes(self.0.as_str())
    }

    /// The web form of an action handle.
    pub fn from_handle(value: ActionHandle) -> (r: Self)
        ensures
            r@ == web_text(value.plugin, value.action),
    {
        WebActionHandle::new(value.plugin, value.action)
    }

    /// Converts back to an action handle; a text that does not denote two
    /// hashes is refused as "Malformed ActionHandle".
    pub fn to_action_handle(&self) -> (r: Result<ActionHandle, &'static str>)
        ensures
            match spec_extract_hashes(self@) {
                Some((p, a)) => r == Ok::<ActionHandle, &'static str>(ActionHandle { plugin: p, action: a }),
                None => r is Err,
            },
    {
        match self.get_hashes() {
            Some((plugin, action)) => Ok(ActionHandle { plugin, action }),
            None => Err("Malformed ActionHandle"),
        }
    }
}

} // verus!
