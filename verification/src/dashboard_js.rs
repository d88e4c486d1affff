use vstd::prelude::*;
use vstd::string::StringExecFns;
use crate::dashboard::{formater_function_name, formater_name, spec_property_handle, Property};
use crate::decimal::{decimal, push_decimal};
use crate::handles::{spec_name_hashes, ActionHandle, PropertyHandle};
use crate::web_handle::{web_text, WebActionHandle, WebPropertyHandle};

verus! {

/// The JSON text of a web handle: its text in double quotes (the text
/// holds only digits and `|`, which need no escaping).
pub open spec fn quoted(t: Seq<char>) -> Seq<char> {
    "\""@ + t + "\""@
}

/// The script expression that reads the data property a dashboard
/// property shows: `DATA.get("<plugin>|<property>")`, when it names a
/// valid handle.
pub open spec fn spec_handle_js<T>(p: Property<T>) -> Option<Seq<char>> {
    match spec_property_handle(p) {
        None => None,
        Some(t) => match spec_name_hashes(t) {
            None => None,
            Some((a, b)) => Some("DATA.get("@ + quoted(web_text(a, b)) + ")"@),
        },
    }
}

/// The JSON text of the web handle of the action named `name`, when the
/// name is valid.
pub open spec fn spec_web_action_handle(name: Seq<char>) -> Option<Seq<char>> {
    match spec_name_hashes(name) {
        None => None,
        Some((a, b)) => Some(quoted(web_text(a, b))),
    }
}

fn quote(t: &str) -> (r: String)
    ensures
        r@ == quoted(t@),
{
    proof {
        reveal_strlit("\"");
    }
    let mut s = String::from_str("\"");
    s.append(t);
    s.append("\"");
    s
}

impl<T> Property<T> {
    /// The script expression that reads this property's data property (see
    /// `spec_handle_js`).
    pub fn generate_handle_js(&self) -> (r: Option<String>)
        ensures
            match r {
                Some(s) => spec_handle_js(*self) == Some(s@),
                None => spec_handle_js(*self) is None,
            },
    {
        let name = match self.get_property_handle() {
            Some(n) => n,
            None => return None,
        };
        let handle = match PropertyHandle::new(name.as_str()) {
            Some(h) => h,
            None => return None,
        };
        let web = WebPropertyHandle::from_handle(handle);
        proof {
            reveal_strlit("DATA.get(");
            reveal_strlit(")");
        }
        let mut s = String::from_str("DATA.get(");
        let q = quote(web.as_text());
        s.append(q.as_str());
        s.append(")");
        Some(s)
    }
}

/// The JSON text of the web handle of an action (see
/// `spec_web_action_handle`).
pub fn generate_web_action_handle(name: &str) -> (r: Option<String>)
    ensures
        match r {
            Some(s) => spec_web_action_handle(name@) == Some(s@),
            None => spec_web_action_handle(name@) is None,
        },
{
    match ActionHandle::new(name) {
        Some(h) => {
            let web = WebActionHandle::from_handle(h);
            Some(quote(web.as_text()))
        },
        None => None,
    }
}

/// The decimal text of an `i64` (`i64::to_string`).
pub open spec fn int_text(v: i64) -> Seq<char> {
    if v < 0 {
        "-"@ + decimal((-v) as nat)
    } else {
        decimal(v as nat)
    }
}

/// `i64::to_string`.
pub fn i64_to_string(v: i64) -> (r: String)
    ensures
        r@ == int_text(v),
{
    proof {
        reveal_strlit("-");
    }
    let mut s = String::new();
    if v < 0 {
        s.append("-");
        let m: u64 = if v == i64::MIN {
            9_223_372_036_854_775_808u64
        } else {
            (-v) as u64
        };
        push_decimal(&mut s, m);
    } else {
        push_decimal(&mut s, v as u64);
    }
    assert(s@ =~= int_text(v));
    s
}

/// The script expression that reads an integer property: a fixed value is
/// written out; a shown data property is read (through its formatter, or
/// at an index of an array); a property whose handle is not valid reads as
/// 0.
pub open spec fn spec_read_js_int(p: Property<i64>, element: Seq<char>, field: Seq<char>) -> Seq<char>
    decreases p,
{
    match spec_handle_js(p) {
        None => match p {
            Property::Fixed(v) => int_text(v),
            _ => "0"@,
        },
        Some(h) => match p {
            Property::Fixed(v) => int_text(v),
            Property::Computed(_) => "read_int("@ + h + ")"@,
            Property::Formated { .. } => "parse_to_int("@ + formater_name(element, field) + "("@ + h
                + "))"@,
            Property::Deref { index, .. } => "read_int(read_arr("@ + h + ","@ + spec_read_js_int(
                *index,
                formater_name(element, field),
                "deref"@,
            ) + "))"@,
        },
    }
}

/// The script expression that reads a boolean property (see
/// `spec_read_js_int`; an invalid handle reads as false).
pub open spec fn spec_read_js_bool(p: Property<bool>, element: Seq<char>, field: Seq<char>) -> Seq<char> {
    match spec_handle_js(p) {
        None => match p {
            Property::Fixed(v) => if v {
                "true"@
            } else {
                "false"@
            },
            _ => "false"@,
        },
        Some(h) => match p {
            Property::Fixed(v) => if v {
                "true"@
            } else {
                "false"@
            },
            Property::Computed(_) => "read_bool("@ + h + ")"@,
            Property::Formated { .. } => "parse_to_bool("@ + formater_name(element, field) + "("@
                + h + "))"@,
            Property::Deref { index, .. } => "read_bool(read_arr("@ + h + ","@ + spec_read_js_int(
                *index,
                formater_name(element, field),
                "deref"@,
            ) + "))"@,
        },
    }
}

/// The script expression that reads a text property (see
/// `spec_read_js_int`; a fixed text is written as it is, an invalid handle
/// reads as the empty text).
pub open spec fn spec_read_js_string(p: Property<String>, element: Seq<char>, field: Seq<char>) -> Seq<char> {
    match spec_handle_js(p) {
        None => match p {
            Property::Fixed(v) => v@,
            _ => Seq::empty(),
        },
        Some(h) => match p {
            Property::Fixed(v) => v@,
            Property::Computed(_) => "read_string("@ + h + ")"@,
            Property::Formated { .. } => formater_name(element, field) + "("@ + h
                + ").toString()"@,
            Property::Deref { index, .. } => "read_string(read_arr("@ + h + ","@ + spec_read_js_int(
                *index,
                formater_name(element, field),
                "deref"@,
            ) + "))"@,
        },
    }
}

pub(crate) fn concat3(a: &str, b: &str, c: &str) -> (r: String)
    ensures
        r@ == a@ + b@ + c@,
{
    let mut s = String::from_str(a);
    s.append(b);
    s.append(c);
    s
}

impl Property<i64> {
    /// The script expression that reads this property (see
    /// `spec_read_js_int`).
    pub fn generate_read_js(&self, element_name: &str, field_name: &str) -> (r: String)
        ensures
            r@ == spec_read_js_int(*self, element_name@, field_name@),
        decreases self,
    {
        proof {
            reveal_strlit("0");
            reveal_strlit("read_int(");
            reveal_strlit(")");
            reveal_strlit("parse_to_int(");
            reveal_strlit("(");
            reveal_strlit("))");
            reveal_strlit("read_int(read_arr(");
            reveal_strlit(",");
        }
        let handle = match self.generate_handle_js() {
            Some(h) => h,
            None => {
                return match self {
                    Property::Fixed(v) => i64_to_string(*v),
                    _ => String::from_str("0"),
                };
            },
        };
        match self {
            Property::Fixed(v) => i64_to_string(*v),
            Property::Computed(_) => concat3("read_int(", handle.as_str(), ")"),
            Property::Formated { .. } => {
                let f = formater_function_name(element_name, field_name);
                let mut s = concat3("parse_to_int(", f.as_str(), "(");
                s.append(handle.as_str());
                s.append("))");
                assert(s@ =~= spec_read_js_int(*self, element_name@, field_name@));
                s
            },
            Property::Deref { index, .. } => {
                let f = formater_function_name(element_name, field_name);
                let inner = index.generate_read_js(f.as_str(), "deref");
                proof {
                    reveal_strlit("deref");
                }
                let mut s = concat3("read_int(read_arr(", handle.as_str(), ",");
                s.append(inner.as_str());
                s.append("))");
                assert(s@ =~= spec_read_js_int(*self, element_name@, field_name@));
                s
            },
        }
    }
}

impl Property<bool> {
    /// The script expression that reads this property (see
    /// `spec_read_js_bool`).
    pub fn generate_read_js(&self, element_name: &str, field_name: &str) -> (r: String)
        ensures
            r@ == spec_read_js_bool(*self, element_name@, field_name@),
    {
        proof {
            reveal_strlit("true");
            reveal_strlit("false");
            reveal_strlit("read_bool(");
            reveal_strlit(")");
            reveal_strlit("parse_to_bool(");
            reveal_strlit("(");
            reveal_strlit("))");
            reveal_strlit("read_bool(read_arr(");
            reveal_strlit(",");
            reveal_strlit("deref");
        }
        let handle = match self.generate_handle_js() {
            Some(h) => h,
            None => {
                return match self {
                    Property::Fixed(v) => if *v {
                        String::from_str("true")
                    } else {
                        String::from_str("false")
                    },
                    _ => String::from_str("false"),
                };
            },
        };
        match self {
            Property::Fixed(v) => if *v {
                String::from_str("true")
            } else {
                String::from_str("false")
            },
            Property::Computed(_) => concat3("read_bool(", handle.as_str(), ")"),
            Property::Formated { .. } => {
                let f = formater_function_name(element_name, field_name);
                let mut s = concat3("parse_to_bool(", f.as_str(), "(");
                s.append(handle.as_str());
                s.append("))");
                assert(s@ =~= spec_read_js_bool(*self, element_name@, field_name@));
                s
            },
            Property::Deref { index, .. } => {
                let f = formater_function_name(element_name, field_name);
                let inner = index.generate_read_js(f.as_str(), "deref");
                let mut s = concat3("read_bool(read_arr(", handle.as_str(), ",");
                s.append(inner.as_str());
                s.append("))");
                assert(s@ =~= spec_read_js_bool(*self, element_name@, field_name@));
                s
            },
        }
    }
}

impl Property<String> {
    /// The script expression that reads this property (see
    /// `spec_read_js_string`).
    pub fn generate_read_js(&self, element_name: &str, field_name: &str) -> (r: String)
        ensures
            r@ == spec_read_js_string(*self, element_name@, field_name@),
    {
        proof {
            reveal_strlit("read_string(");
            reveal_strlit(")");
            reveal_strlit("(");
            reveal_strlit(").toString()");
            reveal_strlit("))");
            reveal_strlit("read_string(read_arr(");
            reveal_strlit(",");
            reveal_strlit("deref");
        }
        let handle = match self.generate_handle_js() {
            Some(h) => h,
            None => {
                return match self {
                    Property::Fixed(v) => v.clone(),
                    _ => String::new(),
                };
            },
        };
        match self {
            Property::Fixed(v) => v.clone(),
            Property::Computed(_) => concat3("read_string(", handle.as_str(), ")"),
            Property::Formated { .. } => {
                let f = formater_function_name(element_name, field_name);
                let mut s = concat3(f.as_str(), "(", handle.as_str());
                s.append(").toString()");
                assert(s@ =~= spec_read_js_string(*self, element_name@, field_name@));
                s
            },
            Property::Deref { index, .. } => {
                let f = formater_function_name(element_name, field_name);
                let inner = index.generate_read_js(f.as_str(), "deref");
                let mut s = concat3("read_string(read_arr(", handle.as_str(), ",");
                s.append(inner.as_str());
                s.append("))");
                assert(s@ =~= spec_read_js_string(*self, element_name@, field_name@));
                s
            },
        }
    }
}

} // verus!
