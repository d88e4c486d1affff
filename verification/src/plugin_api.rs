use vstd::prelude::*;

verus! {

/// A value as plugins see it. Durations are signed microseconds; `Float`
/// holds the IEEE 754 bit pattern of an `f64`.
#[derive(Debug)]
pub enum Property {
    Empty,
    Int(i64),
    Float(u64),
    Bool(bool),
    Str(String),
    Duration(i64),
}

impl Property {
    /// A duration of `micros` microseconds, negated when `negative`. More
    /// than `i64::MAX` microseconds (about 292,471 years) cannot be held.
    pub fn from_duration(micros: u128, negative: bool) -> (r: Property)
        requires
            micros <= i64::MAX,
        ensures
            r matches Property::Duration(t) && t == (if negative {
                -(micros as int)
            } else {
                micros as int
            }),
    {
        let t: i64 = micros as i64;
        if negative {
            Property::Duration(-t)
        } else {
            Property::Duration(t)
        }
    }

    /// A duration of `dur` microseconds (negative ones too).
    pub fn from_micros(dur: i64) -> (r: Property)
        ensures
            r matches Property::Duration(t) && t == dur,
    {
        Property::Duration(dur)
    }

    /// A duration of `dur` milliseconds (negative ones too); the
    /// microseconds must fit in an `i64`.
    pub fn from_millis(dur: i64) -> (r: Property)
        requires
            i64::MIN <= dur * 1000 <= i64::MAX,
        ensures
            r matches Property::Duration(t) && t == dur * 1000,
    {
        Property::Duration(dur * 1000)
    }

    /// For a duration: its length in microseconds and whether it is
    /// negative; `None` for any other value.
    pub fn to_duration(&self) -> (r: Option<(u64, bool)>)
        ensures
            match self {
                Property::Duration(t) => r == Some(
                    (
                        (if t < 0 {
                            -t
                        } else {
                            t as int
                        }) as u64,
                        t < 0,
                    ),
                ),
                _ => r is None,
            },
    {
        match self {
            Property::Duration(t) => {
                if *t < 0 {
                    let m: u64 = if *t == i64::MIN {
                        9_223_372_036_854_775_808u64
                    } else {
                        (-*t) as u64
                    };
                    Some((m, true))
                } else {
                    Some((*t as u64, false))
                }
            },
            _ => None,
        }
    }

    /// A text value.
    pub fn from_string(value: String) -> (r: Property)
        ensures
            r matches Property::Str(s) && s == value,
    {
        Property::Str(value)
    }
}

/// The text a string value is handed to the host as: C strings end at
/// the first NUL character, so the text is cut there.
pub open spec fn spec_c_text(s: Seq<char>) -> Seq<char> {
    match crate::text::split_first(s, '\0') {
        Some((before, _)) => before,
        None => s,
    }
}

/// Cuts a text at its first NUL character (see `spec_c_text`).
pub fn c_text(s: &str) -> (r: &str)
    ensures
        r@ == spec_c_text(s@),
{
    match crate::text::split_once(s, '\0') {
        Some((before, _)) => before,
        None => s,
    }
}

impl From<i64> for Property {
    fn from(value: i64) -> (r: Self) {
        Property::Int(value)
    }
}

impl vstd::std_specs::convert::FromSpecImpl<i64> for Property {
    open spec fn obeys_from_spec() -> bool {
        true
    }

    open spec fn from_spec(v: i64) -> Self {
        Property::Int(v)
    }
}

impl From<i32> for Property {
    fn from(value: i32) -> (r: Self) {
        Property::Int(value as i64)
    }
}

impl vstd::std_specs::convert::FromSpecImpl<i32> for Property {
    open spec fn obeys_from_spec() -> bool {
        true
    }

    open spec fn from_spec(v: i32) -> Self {
        Property::Int(v as i64)
    }
}

impl From<u32> for Property {
    fn from(value: u32) -> (r: Self) {
        Property::Int(value as i64)
    }
}

impl vstd::std_specs::convert::FromSpecImpl<u32> for Property {
    open spec fn obeys_from_spec() -> bool {
        true
    }

    open spec fn from_spec(v: u32) -> Self {
        Property::Int(v as i64)
    }
}

impl From<i16> for Property {
    fn from(value: i16) -> (r: Self) {
        Property::Int(value as i64)
    }
}

impl vstd::std_specs::convert::FromSpecImpl<i16> for Property {
    open spec fn obeys_from_spec() -> bool {
        true
    }

    open spec fn from_spec(v: i16) -> Self {
        Property::Int(v as i64)
    }
}

impl From<u16> for Property {
    fn from(value: u16) -> (r: Self) {
        Property::Int(value as i64)
    }
}

impl vstd::std_specs::convert::FromSpecImpl<u16> for Property {
    open spec fn obeys_from_spec() -> bool {
        true
    }

    open spec fn from_spec(v: u16) -> Self {
        Property::Int(v as i64)
    }
}

impl From<i8> for Property {
    fn from(value: i8) -> (r: Self) {
        Property::Int(value as i64)
    }
}

impl vstd::std_specs::convert::FromSpecImpl<i8> for Property {
    open spec fn obeys_from_spec() -> bool {
        true
    }

    open spec fn from_spec(v: i8) -> Self {
        Property::Int(v as i64)
    }
}

impl From<u8> for Property {
    fn from(value: u8) -> (r: Self) {
        Property::Int(value as i64)
    }
}

impl vstd::std_specs::convert::FromSpecImpl<u8> for Property {
    open spec fn obeys_from_spec() -> bool {
        true
    }

    open spec fn from_spec(v: u8) -> Self {
        Property::Int(v as i64)
    }
}

impl From<bool> for Property {
    fn from(value: bool) -> (r: Self) {
        Property::Bool(value)
    }
}

impl vstd::std_specs::convert::FromSpecImpl<bool> for Property {
    open spec fn obeys_from_spec() -> bool {
        true
    }

    open spec fn from_spec(v: bool) -> Self {
        Property::Bool(v)
    }
}

impl From<String> for Property {
    fn from(value: String) -> (r: Self) {
        Property::Str(value)
    }
}

impl vstd::std_specs::convert::FromSpecImpl<String> for Property {
    open spec fn obeys_from_spec() -> bool {
        true
    }

    open spec fn from_spec(v: String) -> Self {
        Property::Str(v)
    }
}

/// A request from another plugin (or, with origin 0, from DataRace itself)
/// to perform an action.
#[derive(Debug)]
pub struct Action {
    pub action: u64,
    pub param: Vec<Property>,
    pub id: u64,
    pub origin: u64,
}

impl Action {
    /// The code of the requested action.
    pub fn get_action_code(&self) -> (r: u64)
        ensures
            r == self.action,
    {
        self.action
    }

    /// The parameters that came with the request.
    pub fn get_parameters(&self) -> (r: &Vec<Property>)
        ensures
            r == &self.param,
    {
        &self.param
    }

    /// The id of the plugin that asked (0 for DataRace itself).
    pub fn get_origin(&self) -> (r: u64)
        ensures
            r == self.origin,
    {
        self.origin
    }

    /// The id of this request.
    pub fn get_action_id(&self) -> (r: u64)
        ensures
            r == self.id,
    {
        self.id
    }
}

/// The answer of a plugin to an action that was asked of it.
#[derive(Debug)]
pub struct ActionCallback {
    pub return_code: u64,
    pub param: Vec<Property>,
    pub id: u64,
    pub origin: u64,
}

impl ActionCallback {
    /// The return code (0 is success).
    pub fn get_return_code(&self) -> (r: u64)
        ensures
            r == self.return_code,
    {
        self.return_code
    }

    /// Whether the return code is 0.
    pub fn is_success(&self) -> (r: bool)
        ensures
            r == (self.return_code == 0),
    {
        self.return_code == 0
    }

    /// The parameters that came with the answer.
    pub fn get_parameters(&self) -> (r: &Vec<Property>)
        ensures
            r == &self.param,
    {
        &self.param
    }

    /// The id of the plugin that answered.
    pub fn get_origin(&self) -> (r: u64)
        ensures
            r == self.origin,
    {
        self.origin
    }

    /// The id of the action this answers.
    pub fn get_action_id(&self) -> (r: u64)
        ensures
            r == self.id,
    {
        self.id
    }
}

} // verus!
