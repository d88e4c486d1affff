use vstd::prelude::*;
use crate::hashing::{ascii_lower, is_ascii_text, str_lowercase, to_lowercase};
use crate::text::chars_of;

verus! {

/// A dashboard: a named canvas of elements.
#[derive(Debug)]
pub struct Dashboard {
    pub name: String,
    pub elements: Vec<DashElement>,
    pub size_x: i32,
    pub size_y: i32,
    pub font_size: i32,
}

/// One element of a dashboard; a folder holds further elements.
#[derive(Debug)]
pub struct DashElement {
    pub name: String,
    pub x: Property<i64>,
    pub y: Property<i64>,
    pub size_x: Property<i64>,
    pub size_y: Property<i64>,
    pub visible: Property<bool>,
    pub element: DashElementType,
}

#[derive(Debug)]
pub enum DashElementType {
    Square(String),
    Text(Text),
    Folder(Vec<DashElement>),
    Button { action: Action, text: Text },
    TextInput { action: Action, text: Text },
}

/// A text and its font size; the font size is held as the bit pattern of
/// an `f64`.
#[derive(Debug)]
pub struct Text {
    pub text: Property<String>,
    pub font_size: Option<Property<u64>>,
}

/// A value of a dashboard element: fixed, taken from a data property,
/// formatted by a script, or read out of an array property at an index.
#[derive(Debug)]
pub enum Property<T> {
    Fixed(T),
    Computed(String),
    Formated { source: String, formater: String },
    Deref { source: String, index: Box<Property<i64>> },
}

/// What a button or text input triggers.
#[derive(Debug, Clone)]
pub enum Action {
    Plugin(String),
    Empty,
}

/// The texts of a sequence of strings.
pub open spec fn texts(v: Seq<String>) -> Seq<Seq<char>> {
    v.map_values(|s: String| s@)
}

/// The texts of a sequence of pairs of strings.
pub open spec fn pair_texts(v: Seq<(String, String)>) -> Seq<(Seq<char>, Seq<char>)> {
    v.map_values(|p: (String, String)| (p.0@, p.1@))
}

/// The data property that a dashboard property reads, if any.
pub open spec fn spec_property_handle<T>(p: Property<T>) -> Option<Seq<char>> {
    match p {
        Property::Fixed(_) => None,
        Property::Computed(h) => Some(h@),
        Property::Formated { source, .. } => Some(source@),
        Property::Deref { source, .. } => Some(source@),
    }
}

/// Every data property that a dashboard property reads, the index of a
/// `Deref` included.
pub open spec fn spec_property_handles<T>(p: Property<T>) -> Set<Seq<char>>
    decreases p,
{
    match p {
        Property::Fixed(_) => Set::empty(),
        Property::Computed(h) => set![h@],
        Property::Formated { source, .. } => set![source@],
        Property::Deref { source, index } => set![source@].union(spec_property_handles(*index)),
    }
}

/// The name of the script function that formats `field` of `element`.
pub open spec fn formater_name(element: Seq<char>, field: Seq<char>) -> Seq<char> {
    element + "_F_"@ + field
}

/// The formatter scripts of a dashboard property, each with the name of its
/// function.
pub open spec fn spec_formaters<T>(p: Property<T>, element: Seq<char>, field: Seq<char>) -> Seq<
    (Seq<char>, Seq<char>),
>
    decreases p,
{
    match p {
        Property::Formated { formater, .. } => seq![(formater_name(element, field), formater@)],
        Property::Deref { index, .. } => spec_formaters(
            *index,
            formater_name(element, field),
            "deref"@,
        ),
        _ => Seq::empty(),
    }
}

pub proof fn lemma_push_to_set<A>(s: Seq<A>, a: A)
    ensures
        s.push(a).to_set() == s.to_set().insert(a),
        !s.contains(a) && s.no_duplicates() ==> s.push(a).no_duplicates(),
{
    assert forall|x: A| #[trigger] s.push(a).contains(x) <==> (s.contains(x) || x == a) by {
        if s.push(a).contains(x) {
            let k = choose|k: int| 0 <= k < s.push(a).len() && s.push(a)[k] == x;
            if k < s.len() {
                assert(s[k] == x);
            }
        }
        if s.contains(x) {
            let k = choose|k: int| 0 <= k < s.len() && s[k] == x;
            assert(s.push(a)[k] == x);
        }
        if x == a {
            assert(s.push(a)[s.len() as int] == a);
        }
    }
    assert(s.push(a).to_set() =~= s.to_set().insert(a));
    if !s.contains(a) && s.no_duplicates() {
        assert forall|i: int, j: int|
            0 <= i < s.push(a).len() && 0 <= j < s.push(a).len() && i != j implies s.push(a)[i]
            != s.push(a)[j] by {
            if i < s.len() && j < s.len() {
                assert(s[i] != s[j]);
            } else if i < s.len() {
                assert(s[i] == s.push(a)[i]);
            } else if j < s.len() {
                assert(s[j] == s.push(a)[j]);
            }
        }
    }
}

/// Appends `s` unless it is already present.
pub fn insert_unique(set: &mut Vec<String>, s: String)
    requires
        texts(old(set)@).no_duplicates(),
    ensures
        texts(final(set)@).no_duplicates(),
        texts(final(set)@).to_set() == texts(old(set)@).to_set().insert(s@),
        texts(old(set)@).contains(s@) ==> final(set)@ == old(set)@,
        !texts(old(set)@).contains(s@) ==> texts(final(set)@) == texts(old(set)@).push(s@),
{
    let mut i: usize = 0;
    while i < set.len()
        invariant
            i <= set@.len(),
            set@ == old(set)@,
            texts(set@).no_duplicates(),
            forall|j: int| 0 <= j < i ==> (#[trigger] set@[j])@ != s@,
        decreases set@.len() - i,
    {
        if set[i].eq(&s) {
            assert(texts(set@)[i as int] == s@);
            assert(texts(set@).to_set().insert(s@) =~= texts(set@).to_set());
            assert(texts(set@) == texts(old(set)@));
            return;
        }
        i = i + 1;
    }
    assert(!texts(set@).contains(s@)) by {
        if texts(set@).contains(s@) {
            let k = choose|k: int| 0 <= k < texts(set@).len() && texts(set@)[k] == s@;
            assert(set@[k]@ == s@);
        }
    }
    let ghost before = set@;
    set.push(s);
    assert(texts(set@) =~= texts(before).push(s@));
    proof {
        lemma_push_to_set(texts(before), s@);
    }
}

/// Appends every string of `other` that is not yet present.
pub fn extend_unique(set: &mut Vec<String>, other: &Vec<String>)
    requires
        texts(old(set)@).no_duplicates(),
    ensures
        texts(final(set)@).no_duplicates(),
        texts(final(set)@).to_set() == texts(old(set)@).to_set().union(texts(other@).to_set()),
{
    let n = other.len();
    let mut k: usize = 0;
    while k < n
        invariant
            n == other@.len(),
            k <= n,
            texts(set@).no_duplicates(),
            texts(set@).to_set() == texts(old(set)@).to_set().union(texts(other@.take(k as int)).to_set()),
        decreases n - k,
    {
        insert_unique(set, other[k].clone());
        proof {
            assert(texts(other@.take(k as int + 1)) =~= texts(other@.take(k as int)).push(other@[k as int]@));
            lemma_push_to_set(texts(other@.take(k as int)), other@[k as int]@);
            assert(texts(set@).to_set() =~= texts(old(set)@).to_set().union(texts(other@.take(k as int + 1)).to_set()));
        }
        k = k + 1;
    }
    assert(other@.take(n as int) =~= other@);
}

impl<T> Property<T> {
    /// The name of the script function that formats `field_name` of
    /// `element_name`: `{element_name}_F_{field_name}`.
    pub fn get_formater_function_name(&self, element_name: &str, field_name: &str) -> (r: String)
        ensures
            r@ == formater_name(element_name@, field_name@),
    {
        formater_function_name(element_name, field_name)
    }

    /// The data property this property reads, if any.
    pub fn get_property_handle(&self) -> (r: Option<String>)
        ensures
            r is None <==> spec_property_handle(*self) is None,
            r matches Some(h) ==> spec_property_handle(*self) == Some(h@),
    {
        match self {
            Property::Fixed(_) => None,
            Property::Computed(handle) => Some(handle.clone()),
            Property::Formated { source, formater: _ } => Some(source.clone()),
            Property::Deref { source, index: _ } => Some(source.clone()),
        }
    }

    pub fn is_computed(&self) -> (r: bool)
        ensures
            r == !(*self is Fixed),
    {
        match self {
            Property::Fixed(_) => false,
            _ => true,
        }
    }

    /// Adds every data property this property reads to `set`.
    pub fn add_property_handle_to_collection(&self, set: &mut Vec<String>)
        requires
            texts(old(set)@).no_duplicates(),
        ensures
            texts(final(set)@).no_duplicates(),
            texts(final(set)@).to_set() == texts(old(set)@).to_set().union(spec_property_handles(*self)),
        decreases self,
    {
        match self {
            Property::Fixed(_) => {
                assert(texts(set@).to_set().union(Set::empty()) =~= texts(set@).to_set());
            },
            Property::Computed(handle) => {
                insert_unique(set, handle.clone());
                assert(texts(old(set)@).to_set().insert(handle@) =~= texts(old(set)@).to_set().union(set![handle@]));
            },
            Property::Formated { source, formater: _ } => {
                insert_unique(set, source.clone());
                assert(texts(old(set)@).to_set().insert(source@) =~= texts(old(set)@).to_set().union(set![source@]));
            },
            Property::Deref { source, index } => {
                insert_unique(set, source.clone());
                let ghost mid = texts(set@).to_set();
                index.add_property_handle_to_collection(set);
                assert(texts(set@).to_set() =~= texts(old(set)@).to_set().union(
                    set![source@].union(spec_property_handles(**index)),
                ));
            },
        }
    }

    /// Appends the formatter scripts of this property for `field_name` of
    /// `element_name` to `list`.
    pub fn add_formater_functions(
        &self,
        element_name: &str,
        field_name: &str,
        list: &mut Vec<(String, String)>,
    )
        ensures
            pair_texts(final(list)@) == pair_texts(old(list)@) + spec_formaters(
                *self,
                element_name@,
                field_name@,
            ),
        decreases self,
    {
        match self {
            Property::Formated { source: _, formater } => {
                let name = formater_function_name(element_name, field_name);
                let ghost before = list@;
                list.push((name, formater.clone()));
                assert(pair_texts(list@) =~= pair_texts(before) + spec_formaters(
                    *self,
                    element_name@,
                    field_name@,
                ));
            },
            Property::Deref { source: _, index } => {
                let name = formater_function_name(element_name, field_name);
                proof {
                    reveal_strlit("deref");
                }
                index.add_formater_functions(name.as_str(), "deref", list);
            },
            _ => {
                assert(pair_texts(list@) =~= pair_texts(list@) + Seq::<(Seq<char>, Seq<char>)>::empty());
            },
        }
    }
}

/// `{element_name}_F_{field_name}`.
pub fn formater_function_name(element_name: &str, field_name: &str) -> (r: String)
    ensures
        r@ == formater_name(element_name@, field_name@),
{
    let mut s = String::new();
    s.append(element_name);
    s.append("_F_");
    s.append(field_name);
    assert(s@ =~= formater_name(element_name@, field_name@));
    s
}

impl Property<i64> {
    /// The fixed value, or 0 when the value is computed at runtime.
    pub fn get_static_value(&self) -> (r: i64)
        ensures
            r == match *self {
                Property::Fixed(v) => v,
                _ => 0,
            },
    {
        match self {
            Property::Fixed(v) => *v,
            _ => 0,
        }
    }
}

impl Property<bool> {
    /// The fixed value, or `false` when the value is computed at runtime.
    pub fn get_static_value(&self) -> (r: bool)
        ensures
            r == match *self {
                Property::Fixed(v) => v,
                _ => false,
            },
    {
        match self {
            Property::Fixed(v) => *v,
            _ => false,
        }
    }
}

impl Property<String> {
    /// The fixed value, or the empty string when the value is computed at
    /// runtime.
    pub fn get_static_value(&self) -> (r: String)
        ensures
            r@ == match *self {
                Property::Fixed(v) => v@,
                _ => Seq::<char>::empty(),
            },
    {
        match self {
            Property::Fixed(v) => v.clone(),
            _ => String::new(),
        }
    }
}

impl Property<u64> {
    /// The fixed value (the bits of an `f64`), or the bits of `0.0` when the
    /// value is computed at runtime.
    pub fn get_static_value(&self) -> (r: u64)
        ensures
            r == match *self {
                Property::Fixed(v) => v,
                _ => 0,
            },
    {
        match self {
            Property::Fixed(v) => *v,
            _ => 0,
        }
    }
}

pub open spec fn valid_name_char(c: char) -> bool {
    ('0' <= c <= '9') || ('a' <= c <= 'z') || c == '_'
}

pub open spec fn letter_or_underscore(c: char) -> bool {
    ('a' <= c <= 'z') || c == '_'
}

pub open spec fn illegal_name_message(name: Seq<char>) -> Seq<char> {
    "Unable to render dashboard: Name '"@ + name
        + "' containes illegal characters (only ascii alphabet, numbers and _ permitted)"@
}

pub open spec fn numeric_name_message(name: Seq<char>) -> Seq<char> {
    "Unable to render dashboard: Name '"@ + name
        + "' is only numbers, requires at least one ascii letter or _"@
}

pub open spec fn duplicate_name_message(name: Seq<char>) -> Seq<char> {
    "Unable to render dashboard: Unique Name violated with name '"@ + name + "'"@
}

/// The normalized name of an element: the name in lower case, made only of
/// ASCII digits, lower case letters and `_`, with at least one letter or `_`.
pub open spec fn spec_normalize_name(name: Seq<char>) -> Result<Seq<char>, Seq<char>> {
    normalized_from(str_lowercase(name))
}

/// `spec_normalize_name` for an ASCII name, lower-cased the ASCII way.
pub open spec fn spec_ascii_normalize(name: Seq<char>) -> Result<Seq<char>, Seq<char>> {
    normalized_from(ascii_lower(name))
}

/// The checks of a lower-cased name.
pub open spec fn normalized_from(lower: Seq<char>) -> Result<Seq<char>, Seq<char>> {
    if !(forall|i: int| 0 <= i < lower.len() ==> valid_name_char(#[trigger] lower[i])) {
        Err(illegal_name_message(lower))
    } else if exists|i: int| 0 <= i < lower.len() && letter_or_underscore(#[trigger] lower[i]) {
        Ok(lower)
    } else {
        Err(numeric_name_message(lower))
    }
}

/// The names of `e` and of every element below it, appended to `list` in
/// order, or the first violation (an invalid name, or a name that is
/// already taken).
pub open spec fn spec_gather(e: DashElement, list: Seq<Seq<char>>) -> Result<Seq<Seq<char>>, Seq<char>>
    decreases e,
{
    match spec_normalize_name(e.name@) {
        Err(m) => Err(m),
        Ok(n) => if list.contains(n) {
            Err(duplicate_name_message(n))
        } else {
            match e.element {
                DashElementType::Folder(v) => spec_gather_all(v@, list.push(n)),
                _ => Ok(list.push(n)),
            }
        },
    }
}

/// `spec_gather` over a sequence of elements, left to right.
pub open spec fn spec_gather_all(es: Seq<DashElement>, list: Seq<Seq<char>>) -> Result<
    Seq<Seq<char>>,
    Seq<char>,
>
    decreases es,
{
    if es.len() == 0 {
        Ok(list)
    } else {
        match spec_gather_all(es.drop_last(), list) {
            Err(m) => Err(m),
            Ok(l) => spec_gather(es.last(), l),
        }
    }
}

/// `spec_gather` for an element whose names are all ASCII, lower-cased the
/// ASCII way.
pub open spec fn spec_gather_ascii(e: DashElement, list: Seq<Seq<char>>) -> Result<Seq<Seq<char>>, Seq<char>>
    decreases e,
{
    match spec_ascii_normalize(e.name@) {
        Err(m) => Err(m),
        Ok(n) => if list.contains(n) {
            Err(duplicate_name_message(n))
        } else {
            match e.element {
                DashElementType::Folder(v) => spec_gather_all_ascii(v@, list.push(n)),
                _ => Ok(list.push(n)),
            }
        },
    }
}

/// `spec_gather_ascii` over a sequence of elements, left to right.
pub open spec fn spec_gather_all_ascii(es: Seq<DashElement>, list: Seq<Seq<char>>) -> Result<
    Seq<Seq<char>>,
    Seq<char>,
>
    decreases es,
{
    if es.len() == 0 {
        Ok(list)
    } else {
        match spec_gather_all_ascii(es.drop_last(), list) {
            Err(m) => Err(m),
            Ok(l) => spec_gather_ascii(es.last(), l),
        }
    }
}

/// Every name in the subtree of `e` is ASCII.
pub open spec fn subtree_ascii(e: DashElement) -> bool
    decreases e,
{
    &&& is_ascii_text(e.name@)
    &&& match e.element {
        DashElementType::Folder(v) => all_ascii(v@),
        _ => true,
    }
}

/// `subtree_ascii` of every element of `es`.
pub open spec fn all_ascii(es: Seq<DashElement>) -> bool
    decreases es,
{
    if es.len() == 0 {
        true
    } else {
        all_ascii(es.drop_last()) && subtree_ascii(es.last())
    }
}

proof fn lemma_all_ascii_each(es: Seq<DashElement>, i: int)
    requires
        all_ascii(es),
        0 <= i < es.len(),
    ensures
        subtree_ascii(es[i]),
    decreases es.len(),
{
    if i < es.len() - 1 {
        lemma_all_ascii_each(es.drop_last(), i);
        assert(es.drop_last()[i] == es[i]);
    }
}

proof fn lemma_gather_all_ascii_err_stays(es: Seq<DashElement>, list: Seq<Seq<char>>, k: int, k2: int)
    requires
        0 <= k <= k2 <= es.len(),
        spec_gather_all_ascii(es.take(k), list) is Err,
    ensures
        spec_gather_all_ascii(es.take(k2), list) == spec_gather_all_ascii(es.take(k), list),
    decreases k2 - k,
{
    if k2 > k {
        lemma_gather_all_ascii_err_stays(es, list, k, k2 - 1);
        assert(es.take(k2).drop_last() =~= es.take(k2 - 1));
    }
}

pub open spec fn spec_action_names(a: Action) -> Set<Seq<char>> {
    match a {
        Action::Plugin(name) => set![name@],
        Action::Empty => Set::empty(),
    }
}

/// The actions that `e` and the elements below it trigger.
pub open spec fn spec_element_actions(e: DashElement) -> Set<Seq<char>>
    decreases e,
{
    match e.element {
        DashElementType::Folder(v) => spec_actions_all(v@),
        DashElementType::Button { action, .. } => spec_action_names(action),
        DashElementType::TextInput { action, .. } => spec_action_names(action),
        _ => Set::empty(),
    }
}

pub open spec fn spec_actions_all(es: Seq<DashElement>) -> Set<Seq<char>>
    decreases es,
{
    if es.len() == 0 {
        Set::empty()
    } else {
        spec_actions_all(es.drop_last()).union(spec_element_actions(es.last()))
    }
}

pub open spec fn spec_text_properties(t: Text) -> Set<Seq<char>> {
    spec_property_handles(t.text).union(
        match t.font_size {
            Some(f) => spec_property_handles(f),
            None => Set::empty(),
        },
    )
}

/// The data properties that `e` and the elements below it read.
pub open spec fn spec_element_properties(e: DashElement) -> Set<Seq<char>>
    decreases e,
{
    let inner = match e.element {
        DashElementType::Folder(v) => spec_properties_all(v@),
        DashElementType::Square(_) => Set::empty(),
        DashElementType::Text(t) => spec_text_properties(t),
        DashElementType::Button { text, .. } => spec_text_properties(text),
        DashElementType::TextInput { text, .. } => spec_text_properties(text),
    };
    inner.union(spec_property_handles(e.x)).union(spec_property_handles(e.y)).union(
        spec_property_handles(e.size_x),
    ).union(spec_property_handles(e.size_y)).union(spec_property_handles(e.visible))
}

pub open spec fn spec_properties_all(es: Seq<DashElement>) -> Set<Seq<char>>
    decreases es,
{
    if es.len() == 0 {
        Set::empty()
    } else {
        spec_properties_all(es.drop_last()).union(spec_element_properties(es.last()))
    }
}

pub open spec fn spec_text_formaters(t: Text, name: Seq<char>) -> Seq<(Seq<char>, Seq<char>)> {
    spec_formaters(t.text, name, "text"@) + match t.font_size {
        Some(f) => spec_formaters(f, name, "font_size"@),
        None => Seq::empty(),
    }
}

/// The formatter scripts of `e` and of the elements below it, in order; an
/// element whose name is invalid contributes none.
pub open spec fn spec_element_formaters(e: DashElement) -> Seq<(Seq<char>, Seq<char>)>
    decreases e,
{
    match spec_normalize_name(e.name@) {
        Err(_) => Seq::empty(),
        Ok(n) => spec_formaters(e.x, n, "x"@) + spec_formaters(e.y, n, "y"@) + spec_formaters(
            e.size_x,
            n,
            "size_x"@,
        ) + spec_formaters(e.size_y, n, "size_y"@) + spec_formaters(e.visible, n, "visible"@)
            + match e.element {
            DashElementType::Square(_) => Seq::empty(),
            DashElementType::Folder(v) => spec_formaters_all(v@),
            DashElementType::Text(t) => spec_text_formaters(t, n),
            DashElementType::Button { text, .. } => spec_text_formaters(text, n),
            DashElementType::TextInput { text, .. } => spec_text_formaters(text, n),
        },
    }
}

pub open spec fn spec_formaters_all(es: Seq<DashElement>) -> Seq<(Seq<char>, Seq<char>)>
    decreases es,
{
    if es.len() == 0 {
        Seq::empty()
    } else {
        spec_formaters_all(es.drop_last()) + spec_element_formaters(es.last())
    }
}

fn name_message(prefix: &str, name: &str, suffix: &str) -> (r: String)
    ensures
        r@ == prefix@ + name@ + suffix@,
{
    let mut s = String::new();
    s.append(prefix);
    s.append(name);
    s.append(suffix);
    assert(s@ =~= prefix@ + name@ + suffix@);
    s
}

impl DashElement {
    /// The name in lower case; it may only hold ASCII letters, digits and
    /// `_`, and at least one letter or `_`.
    pub fn normalize_name(&self) -> (r: Result<String, String>)
        ensures
            match spec_normalize_name(self.name@) {
                Ok(n) => r matches Ok(x) && x@ == n,
                Err(m) => r matches Err(x) && x@ == m,
            },
            is_ascii_text(self.name@) ==> match spec_ascii_normalize(self.name@) {
                Ok(n) => r matches Ok(x) && x@ == n,
                Err(m) => r matches Err(x) && x@ == m,
            },
    {
        let name = to_lowercase(self.name.as_str());
        proof {
            if is_ascii_text(self.name@) {
                assert(spec_normalize_name(self.name@) == spec_ascii_normalize(self.name@));
            }
        }
        let chars = chars_of(name.as_str());
        let mut non_number: usize = 0;
        let mut i: usize = 0;
        while i < chars.len()
            invariant
                chars@ == name@,
                name@ == str_lowercase(self.name@),
                is_ascii_text(self.name@) ==> spec_normalize_name(self.name@) == spec_ascii_normalize(self.name@),
                i <= chars@.len(),
                non_number <= i,
                forall|j: int| 0 <= j < i ==> valid_name_char(#[trigger] chars@[j]),
                (non_number > 0) == exists|j: int| 0 <= j < i && letter_or_underscore(#[trigger] chars@[j]),
            decreases chars@.len() - i,
        {
            let x = chars[i];
            if '0' <= x && x <= '9' {
            } else if ('a' <= x && x <= 'z') || x == '_' {
                non_number = non_number + 1;
            } else {
                assert(!valid_name_char(chars@[i as int]));
                assert(!(forall|j: int| 0 <= j < name@.len() ==> valid_name_char(#[trigger] name@[j])));

                return Err(
                    name_message(
                        "Unable to render dashboard: Name '",
                        name.as_str(),
                        "' containes illegal characters (only ascii alphabet, numbers and _ permitted)",
                    ),
                );
            }
            i = i + 1;
        }
        if non_number > 0 {
            Ok(name)
        } else {
            Err(
                name_message(
                    "Unable to render dashboard: Name '",
                    name.as_str(),
                    "' is only numbers, requires at least one ascii letter or _",
                ),
            )
        }
    }
}

/// Whether `list` holds a string equal to `s`.
pub fn contains_string(list: &Vec<String>, s: &String) -> (r: bool)
    ensures
        r == texts(list@).contains(s@),
{
    let mut i: usize = 0;
    while i < list.len()
        invariant
            i <= list@.len(),
            forall|j: int| 0 <= j < i ==> (#[trigger] list@[j])@ != s@,
        decreases list@.len() - i,
    {
        if list[i].eq(s) {
            assert(texts(list@)[i as int] == s@);
            return true;
        }
        i = i + 1;
    }
    assert(!texts(list@).contains(s@)) by {
        if texts(list@).contains(s@) {
            let k = choose|k: int| 0 <= k < texts(list@).len() && texts(list@)[k] == s@;
            assert(list@[k]@ == s@);
        }
    }
    false
}

/// Once gathering over a prefix fails, gathering over any longer prefix fails
/// with the same message.
pub proof fn lemma_gather_all_err_stays(es: Seq<DashElement>, list: Seq<Seq<char>>, k: int, k2: int)
    requires
        0 <= k <= k2 <= es.len(),
        spec_gather_all(es.take(k), list) is Err,
    ensures
        spec_gather_all(es.take(k2), list) == spec_gather_all(es.take(k), list),
    decreases k2 - k,
{
    if k2 > k {
        lemma_gather_all_err_stays(es, list, k, k2 - 1);
        assert(es.take(k2).drop_last() =~= es.take(k2 - 1));
    }
}

impl DashElement {
    /// Appends the normalized names of this element and of every element
    /// below it to `list`, refusing invalid and repeated names.
    pub fn gather_names(&self, list: Vec<String>) -> (r: Result<Vec<String>, String>)
        ensures
            match spec_gather(*self, texts(list@)) {
                Ok(l) => r matches Ok(v) && texts(v@) == l,
                Err(m) => r matches Err(x) && x@ == m,
            },
            subtree_ascii(*self) ==> match spec_gather_ascii(*self, texts(list@)) {
                Ok(l) => r matches Ok(v) && texts(v@) == l,
                Err(m) => r matches Err(x) && x@ == m,
            },
        decreases self,
    {
        let name = match self.normalize_name() {
            Ok(n) => n,
            Err(e) => return Err(e),
        };
        if contains_string(&list, &name) {
            return Err(
                name_message(
                    "Unable to render dashboard: Unique Name violated with name '",
                    name.as_str(),
                    "'",
                ),
            );
        }
        let ghost l0 = texts(list@).push(name@);
        let ghost orig = texts(list@);
        let mut names = list;
        names.push(name);
        assert(texts(names@) =~= l0);
        if let DashElementType::Folder(elements) = &self.element {
            let mut i: usize = 0;
            assert(elements@.take(0) =~= Seq::<DashElement>::empty());
            assert(spec_gather(*self, orig) == spec_gather_all(elements@, l0));
            while i < elements.len()
                invariant
                    i <= elements@.len(),
                    self.element == DashElementType::Folder(*elements),
                    spec_gather(*self, orig) == spec_gather_all(elements@, l0),
                    orig == texts(list@),
                    spec_gather_all(elements@.take(i as int), l0) == Ok::<Seq<Seq<char>>, Seq<char>>(texts(names@)),
                    subtree_ascii(*self) ==> spec_gather_ascii(*self, orig) == spec_gather_all_ascii(elements@, l0),
                    subtree_ascii(*self) ==> all_ascii(elements@),
                    subtree_ascii(*self) ==> spec_gather_all_ascii(elements@.take(i as int), l0) == Ok::<Seq<Seq<char>>, Seq<char>>(texts(names@)),
                decreases elements@.len() - i,
            {
                assert(elements@.take(i as int + 1).drop_last() =~= elements@.take(i as int));
                assert(elements@.take(i as int + 1).last() == elements@[i as int]);
                assert(decreases_to!(self.element => *elements));
                assert(decreases_to!(*elements => elements@));
                assert(decreases_to!(elements@ => elements@[i as int]));
                let ghost cur = texts(names@);
                proof {
                    if subtree_ascii(*self) {
                        lemma_all_ascii_each(elements@, i as int);
                    }
                }
                let next = elements[i].gather_names(names);
                names = match next {
                    Ok(l) => l,
                    Err(err) => {
                        proof {
                            assert(spec_gather_all(elements@.take(i as int + 1), l0) == spec_gather(elements@[i as int], cur));
                            lemma_gather_all_err_stays(elements@, l0, i as int + 1, elements@.len() as int);
                            assert(elements@.take(elements@.len() as int) =~= elements@);
                            if subtree_ascii(*self) {
                                assert(spec_gather_all_ascii(elements@.take(i as int + 1), l0) == spec_gather_ascii(elements@[i as int], cur));
                                lemma_gather_all_ascii_err_stays(elements@, l0, i as int + 1, elements@.len() as int);
                            }
                        }
                        return Err(err);
                    },
                };
                i = i + 1;
            }
            assert(elements@.take(elements@.len() as int) =~= elements@);
        }
        Ok(names)
    }
}

proof fn lemma_prefix_trans(a: Seq<Seq<char>>, b: Seq<Seq<char>>, c: Seq<Seq<char>>)
    requires
        a.is_prefix_of(b),
        b.is_prefix_of(c),
    ensures
        a.is_prefix_of(c),
{
    assert forall|k: int| 0 <= k < a.len() implies a[k] == c[k] by {
        assert(a[k] == b[k]);
        assert(b[k] == c[k]);
    }
}

/// Gathering names never admits a name twice: when the names gathered so far
/// are distinct and gathering succeeds, the result is distinct too and
/// extends the earlier list.
pub proof fn lemma_gather_unique(e: DashElement, list: Seq<Seq<char>>)
    requires
        list.no_duplicates(),
    ensures
        spec_gather(e, list) matches Ok(r) ==> r.no_duplicates() && list.is_prefix_of(r),
    decreases e,
{
    match spec_normalize_name(e.name@) {
        Err(_) => {},
        Ok(n) => {
            if !list.contains(n) {
                lemma_push_to_set(list, n);
                assert(list.is_prefix_of(list.push(n)));
                match e.element {
                    DashElementType::Folder(v) => {
                        assert(decreases_to!(e.element => v));
                        assert(decreases_to!(v => v@));
                        lemma_gather_all_unique(v@, list.push(n));
                        if let Ok(r) = spec_gather_all(v@, list.push(n)) {
                            lemma_prefix_trans(list, list.push(n), r);
                        }
                    },
                    _ => {},
                }
            }
        },
    }
}

/// `lemma_gather_unique` over a sequence of elements.
pub proof fn lemma_gather_all_unique(es: Seq<DashElement>, list: Seq<Seq<char>>)
    requires
        list.no_duplicates(),
    ensures
        spec_gather_all(es, list) matches Ok(r) ==> r.no_duplicates() && list.is_prefix_of(r),
    decreases es,
{
    if es.len() == 0 {
        assert(list.is_prefix_of(list));
    } else {
        lemma_gather_all_unique(es.drop_last(), list);
        if let Ok(l) = spec_gather_all(es.drop_last(), list) {
            lemma_gather_unique(es.last(), l);
            if let Ok(r) = spec_gather(es.last(), l) {
                lemma_prefix_trans(list, l, r);
            }
        }
    }
}

impl Action {
    /// Adds the name of the plugin action, if any, to `all`.
    pub fn add_action_name(&self, all: &mut Vec<String>)
        requires
            texts(old(all)@).no_duplicates(),
        ensures
            texts(final(all)@).no_duplicates(),
            texts(final(all)@).to_set() == texts(old(all)@).to_set().union(spec_action_names(*self)),
    {
        match self {
            Action::Plugin(name) => {
                insert_unique(all, name.clone());
                assert(texts(old(all)@).to_set().insert(name@) =~= texts(old(all)@).to_set().union(
                    set![name@],
                ));
            },
            Action::Empty => {
                assert(texts(all@).to_set().union(Set::empty()) =~= texts(all@).to_set());
            },
        }
    }
}

impl Text {
    /// The data properties that the text and its font size read.
    pub fn list_properties(&self) -> (r: Vec<String>)
        ensures
            texts(r@).no_duplicates(),
            texts(r@).to_set() == spec_text_properties(*self),
    {
        let mut res: Vec<String> = Vec::new();
        assert(texts(res@).to_set() =~= Set::empty());
        self.text.add_property_handle_to_collection(&mut res);
        match &self.font_size {
            Some(f) => {
                f.add_property_handle_to_collection(&mut res);
            },
            None => {},
        }
        assert(texts(res@).to_set() =~= spec_text_properties(*self));
        res
    }

    /// Appends the formatter scripts of the text and of its font size.
    pub fn all_formatter_scripts(&self, element_name: &str, list: &mut Vec<(String, String)>)
        ensures
            pair_texts(final(list)@) == pair_texts(old(list)@) + spec_text_formaters(*self, element_name@),
    {
        proof {
            reveal_strlit("text");
            reveal_strlit("font_size");
        }
        self.text.add_formater_functions(element_name, "text", list);
        match &self.font_size {
            Some(f) => {
                f.add_formater_functions(element_name, "font_size", list);
            },
            None => {},
        }
        assert(pair_texts(list@) =~= pair_texts(old(list)@) + spec_text_formaters(*self, element_name@));
    }
}

impl DashElement {
    /// The data properties that this element and the elements below it read.
    pub fn list_properties(&self) -> (r: Vec<String>)
        ensures
            texts(r@).no_duplicates(),
            texts(r@).to_set() == spec_element_properties(*self),
        decreases self,
    {
        let mut res: Vec<String> = Vec::new();
        assert(texts(res@).to_set() =~= Set::empty());
        match &self.element {
            DashElementType::Folder(elements) => {
                let mut i: usize = 0;
                assert(elements@.take(0) =~= Seq::<DashElement>::empty());
                while i < elements.len()
                    invariant
                        i <= elements@.len(),
                        self.element == DashElementType::Folder(*elements),
                        texts(res@).no_duplicates(),
                        texts(res@).to_set() == spec_properties_all(elements@.take(i as int)),
                    decreases elements@.len() - i,
                {
                    assert(self.element->Folder_0 == *elements);
                    assert(decreases_to!(self.element => self.element->Folder_0));
                    assert(decreases_to!(*elements => elements@));
                    assert(decreases_to!(elements@ => elements@[i as int]));
                    let sub = elements[i].list_properties();
                    extend_unique(&mut res, &sub);
                    assert(elements@.take(i as int + 1).drop_last() =~= elements@.take(i as int));
                    i = i + 1;
                }
                assert(elements@.take(elements@.len() as int) =~= elements@);
            },
            DashElementType::Square(_) => {},
            DashElementType::Text(text) => {
                let sub = text.list_properties();
                extend_unique(&mut res, &sub);
            },
            DashElementType::Button { action: _, text } => {
                let sub = text.list_properties();
                extend_unique(&mut res, &sub);
            },
            DashElementType::TextInput { action: _, text } => {
                let sub = text.list_properties();
                extend_unique(&mut res, &sub);
            },
        }
        let ghost inner = texts(res@).to_set();
        self.x.add_property_handle_to_collection(&mut res);
        self.y.add_property_handle_to_collection(&mut res);
        self.size_x.add_property_handle_to_collection(&mut res);
        self.size_y.add_property_handle_to_collection(&mut res);
        self.visible.add_property_handle_to_collection(&mut res);
        assert(texts(res@).to_set() =~= spec_element_properties(*self));
        res
    }

    /// Adds the actions that this element and the elements below it trigger
    /// to `all`.
    pub fn list_actions(&self, all: &mut Vec<String>)
        requires
            texts(old(all)@).no_duplicates(),
        ensures
            texts(final(all)@).no_duplicates(),
            texts(final(all)@).to_set() == texts(old(all)@).to_set().union(spec_element_actions(*self)),
        decreases self,
    {
        match &self.element {
            DashElementType::Folder(elements) => {
                let mut i: usize = 0;
                assert(elements@.take(0) =~= Seq::<DashElement>::empty());
                assert(texts(all@).to_set().union(Set::empty()) =~= texts(all@).to_set());
                while i < elements.len()
                    invariant
                        i <= elements@.len(),
                        self.element == DashElementType::Folder(*elements),
                        texts(all@).no_duplicates(),
                        texts(all@).to_set() == texts(old(all)@).to_set().union(
                            spec_actions_all(elements@.take(i as int)),
                        ),
                    decreases elements@.len() - i,
                {
                    assert(self.element->Folder_0 == *elements);
                    assert(decreases_to!(self.element => self.element->Folder_0));
                    assert(decreases_to!(*elements => elements@));
                    assert(decreases_to!(elements@ => elements@[i as int]));
                    elements[i].list_actions(all);
                    assert(elements@.take(i as int + 1).drop_last() =~= elements@.take(i as int));
                    assert(texts(all@).to_set() =~= texts(old(all)@).to_set().union(
                        spec_actions_all(elements@.take(i as int + 1)),
                    ));
                    i = i + 1;
                }
                assert(elements@.take(elements@.len() as int) =~= elements@);
            },
            DashElementType::Button { action, text: _ } => {
                action.add_action_name(all);
            },
            DashElementType::TextInput { action, text: _ } => {
                action.add_action_name(all);
            },
            _ => {
                assert(texts(all@).to_set().union(Set::empty()) =~= texts(all@).to_set());
            },
        }
    }

    /// The formatter scripts of this element and of the elements below it, in
    /// order; none when the name of this element is invalid.
    pub fn all_formatter_scripts(&self) -> (r: Vec<(String, String)>)
        ensures
            pair_texts(r@) == spec_element_formaters(*self),
        decreases self,
    {
        let mut list: Vec<(String, String)> = Vec::new();
        let name = match self.normalize_name() {
            Ok(n) => n,
            Err(_) => {
                assert(pair_texts(list@) =~= Seq::<(Seq<char>, Seq<char>)>::empty());
                return list;
            },
        };
        proof {
            reveal_strlit("x");
            reveal_strlit("y");
            reveal_strlit("size_x");
            reveal_strlit("size_y");
            reveal_strlit("visible");
        }
        self.x.add_formater_functions(name.as_str(), "x", &mut list);
        self.y.add_formater_functions(name.as_str(), "y", &mut list);
        self.size_x.add_formater_functions(name.as_str(), "size_x", &mut list);
        self.size_y.add_formater_functions(name.as_str(), "size_y", &mut list);
        self.visible.add_formater_functions(name.as_str(), "visible", &mut list);
        let ghost head = pair_texts(list@);
        assert(head =~= spec_formaters(self.x, name@, "x"@) + spec_formaters(self.y, name@, "y"@)
            + spec_formaters(self.size_x, name@, "size_x"@) + spec_formaters(
            self.size_y,
            name@,
            "size_y"@,
        ) + spec_formaters(self.visible, name@, "visible"@));
        match &self.element {
            DashElementType::Square(_) => {
                assert(pair_texts(list@) =~= head + Seq::<(Seq<char>, Seq<char>)>::empty());
            },
            DashElementType::Folder(elements) => {
                let mut i: usize = 0;
                assert(elements@.take(0) =~= Seq::<DashElement>::empty());
                assert(pair_texts(list@) =~= head + spec_formaters_all(elements@.take(0)));
                while i < elements.len()
                    invariant
                        i <= elements@.len(),
                        self.element == DashElementType::Folder(*elements),
                        pair_texts(list@) == head + spec_formaters_all(elements@.take(i as int)),
                    decreases elements@.len() - i,
                {
                    assert(self.element->Folder_0 == *elements);
                    assert(decreases_to!(self.element => self.element->Folder_0));
                    assert(decreases_to!(*elements => elements@));
                    assert(decreases_to!(elements@ => elements@[i as int]));
                    let sub = elements[i].all_formatter_scripts();
                    let ghost before = list@;
                    let mut sub = sub;
                    list.append(&mut sub);
                    assert(elements@.take(i as int + 1).drop_last() =~= elements@.take(i as int));
                    assert(pair_texts(list@) =~= pair_texts(before) + spec_element_formaters(elements@[i as int]));
                    assert(pair_texts(list@) =~= head + spec_formaters_all(elements@.take(i as int + 1)));
                    i = i + 1;
                }
                assert(elements@.take(elements@.len() as int) =~= elements@);
            },
            DashElementType::Text(text) => {
                text.all_formatter_scripts(name.as_str(), &mut list);
            },
            DashElementType::Button { action: _, text } => {
                text.all_formatter_scripts(name.as_str(), &mut list);
            },
            DashElementType::TextInput { action: _, text } => {
                text.all_formatter_scripts(name.as_str(), &mut list);
            },
        }
        assert(pair_texts(list@) =~= spec_element_formaters(*self));
        list
    }
}

/// The data properties that a sequence of elements read.
pub open spec fn spec_dashboard_properties(d: Dashboard) -> Set<Seq<char>> {
    spec_properties_all(d.elements@)
}

impl Dashboard {
    /// The data properties that the dashboard reads.
    pub fn list_properties(&self) -> (r: Vec<String>)
        ensures
            texts(r@).no_duplicates(),
            texts(r@).to_set() == spec_properties_all(self.elements@),
    {
        let mut res: Vec<String> = Vec::new();
        assert(texts(res@).to_set() =~= Set::empty());
        let mut i: usize = 0;
        assert(self.elements@.take(0) =~= Seq::<DashElement>::empty());
        while i < self.elements.len()
            invariant
                i <= self.elements@.len(),
                texts(res@).no_duplicates(),
                texts(res@).to_set() == spec_properties_all(self.elements@.take(i as int)),
            decreases self.elements@.len() - i,
        {
            let sub = self.elements[i].list_properties();
            extend_unique(&mut res, &sub);
            assert(self.elements@.take(i as int + 1).drop_last() =~= self.elements@.take(i as int));
            i = i + 1;
        }
        assert(self.elements@.take(self.elements@.len() as int) =~= self.elements@);
        res
    }

    /// The plugin actions that the dashboard triggers.
    pub fn list_actions(&self) -> (r: Vec<String>)
        ensures
            texts(r@).no_duplicates(),
            texts(r@).to_set() == spec_actions_all(self.elements@),
    {
        let mut res: Vec<String> = Vec::new();
        assert(texts(res@).to_set() =~= Set::empty());
        let mut i: usize = 0;
        assert(self.elements@.take(0) =~= Seq::<DashElement>::empty());
        while i < self.elements.len()
            invariant
                i <= self.elements@.len(),
                texts(res@).no_duplicates(),
                texts(res@).to_set() == spec_actions_all(self.elements@.take(i as int)),
            decreases self.elements@.len() - i,
        {
            self.elements[i].list_actions(&mut res);
            assert(self.elements@.take(i as int + 1).drop_last() =~= self.elements@.take(i as int));
            assert(texts(res@).to_set() =~= spec_actions_all(self.elements@.take(i as int + 1)));
            i = i + 1;
        }
        assert(self.elements@.take(self.elements@.len() as int) =~= self.elements@);
        res
    }

    /// The formatter scripts of every element, in order.
    pub fn all_formatter_scripts(&self) -> (r: Vec<(String, String)>)
        ensures
            pair_texts(r@) == spec_formaters_all(self.elements@),
    {
        let mut list: Vec<(String, String)> = Vec::new();
        let mut i: usize = 0;
        assert(self.elements@.take(0) =~= Seq::<DashElement>::empty());
        assert(pair_texts(list@) =~= spec_formaters_all(self.elements@.take(0)));
        while i < self.elements.len()
            invariant
                i <= self.elements@.len(),
                pair_texts(list@) == spec_formaters_all(self.elements@.take(i as int)),
            decreases self.elements@.len() - i,
        {
            let mut sub = self.elements[i].all_formatter_scripts();
            let ghost before = list@;
            list.append(&mut sub);
            assert(self.elements@.take(i as int + 1).drop_last() =~= self.elements@.take(i as int));
            assert(pair_texts(list@) =~= pair_texts(before) + spec_element_formaters(self.elements@[i as int]));
            i = i + 1;
        }
        assert(self.elements@.take(self.elements@.len() as int) =~= self.elements@);
        list
    }
}

/// The normalized names of `e` and, in pre-order, of every element below
/// it.
pub open spec fn subtree_names(e: DashElement) -> Seq<Seq<char>>
    decreases e,
{
    let n = str_lowercase(e.name@);
    match e.element {
        DashElementType::Folder(v) => seq![n] + names_of_all(v@),
        _ => seq![n],
    }
}

/// `subtree_names` of a sequence of elements, left to right.
pub open spec fn names_of_all(es: Seq<DashElement>) -> Seq<Seq<char>>
    decreases es,
{
    if es.len() == 0 {
        Seq::empty()
    } else {
        names_of_all(es.drop_last()) + subtree_names(es.last())
    }
}

/// Every element of the subtree of `e` has a valid name.
pub open spec fn subtree_valid(e: DashElement) -> bool
    decreases e,
{
    &&& spec_normalize_name(e.name@) is Ok
    &&& match e.element {
        DashElementType::Folder(v) => all_valid(v@),
        _ => true,
    }
}

/// `subtree_valid` of every element of `es`.
pub open spec fn all_valid(es: Seq<DashElement>) -> bool
    decreases es,
{
    if es.len() == 0 {
        true
    } else {
        all_valid(es.drop_last()) && subtree_valid(es.last())
    }
}

proof fn lemma_no_dup_prefix(a: Seq<Seq<char>>, b: Seq<Seq<char>>)
    requires
        (a + b).no_duplicates(),
    ensures
        a.no_duplicates(),
{
    assert forall|i: int, j: int| 0 <= i < a.len() && 0 <= j < a.len() && i != j implies a[i] != a[j] by {
        assert((a + b)[i] == a[i]);
        assert((a + b)[j] == a[j]);
    }
}

/// Gathering the names of an element succeeds exactly when every name in
/// its subtree is valid and no name occurs twice in `list` followed by
/// them; it then gives `list` followed by the names of the subtree in
/// pre-order.
pub proof fn lemma_gather_characterized(e: DashElement, list: Seq<Seq<char>>)
    requires
        list.no_duplicates(),
    ensures
        spec_gather(e, list) is Ok <==> (subtree_valid(e) && (list + subtree_names(e)).no_duplicates()),
        spec_gather(e, list) is Ok ==> spec_gather(e, list)->Ok_0 == list + subtree_names(e),
    decreases e,
{
    let n = str_lowercase(e.name@);
    match spec_normalize_name(e.name@) {
        Err(_) => {},
        Ok(m) => {
            assert(m == n);
            if list.contains(n) {
                let k = choose|k: int| 0 <= k < list.len() && list[k] == n;
                let all = list + subtree_names(e);
                assert(all[k] == n);
                assert(all[list.len() as int] == n);
            } else {
                assert(list.push(n).no_duplicates()) by {
                    assert forall|i: int, j: int| 0 <= i < list.len() + 1 && 0 <= j < list.len() + 1 && i != j
                        implies list.push(n)[i] != list.push(n)[j] by {
                        if i < list.len() && j < list.len() {
                        } else if i == list.len() {
                            assert(list.push(n)[j] == list[j]);
                        } else {
                            assert(list.push(n)[i] == list[i]);
                        }
                    }
                }
                match e.element {
                    DashElementType::Folder(v) => {
                        lemma_gather_all_characterized(v@, list.push(n));
                        assert(list.push(n) + names_of_all(v@) =~= list + subtree_names(e));
                    },
                    _ => {
                        assert(list + subtree_names(e) =~= list.push(n));
                    },
                }
            }
        },
    }
}

/// `lemma_gather_characterized` for a sequence of elements.
pub proof fn lemma_gather_all_characterized(es: Seq<DashElement>, list: Seq<Seq<char>>)
    requires
        list.no_duplicates(),
    ensures
        spec_gather_all(es, list) is Ok <==> (all_valid(es) && (list + names_of_all(es)).no_duplicates()),
        spec_gather_all(es, list) is Ok ==> spec_gather_all(es, list)->Ok_0 == list + names_of_all(es),
    decreases es,
{
    if es.len() == 0 {
        assert(list + names_of_all(es) =~= list);
    } else {
        let init = es.drop_last();
        lemma_gather_all_characterized(init, list);
        let whole = list + names_of_all(es);
        let front = list + names_of_all(init);
        assert(whole =~= front + subtree_names(es.last()));
        match spec_gather_all(init, list) {
            Err(_) => {
                if all_valid(es) && whole.no_duplicates() {
                    lemma_no_dup_prefix(front, subtree_names(es.last()));
                }
            },
            Ok(l) => {
                lemma_gather_characterized(es.last(), l);
            },
        }
    }
}

/// `p` reads the data property `h`: as its computed value, as the source
/// of a formatted or dereferenced value, or in the index of a dereference.
pub open spec fn property_reads<T>(p: Property<T>, h: Seq<char>) -> bool
    decreases p,
{
    match p {
        Property::Fixed(_) => false,
        Property::Computed(x) => x@ == h,
        Property::Formated { source, .. } => source@ == h,
        Property::Deref { source, index } => source@ == h || property_reads(*index, h),
    }
}

/// `t` reads `h` through its text or its font size.
pub open spec fn text_reads(t: Text, h: Seq<char>) -> bool {
    property_reads(t.text, h) || (t.font_size matches Some(f) && property_reads(f, h))
}

proof fn lemma_property_reads_listed<T>(p: Property<T>, h: Seq<char>)
    requires
        property_reads(p, h),
    ensures
        spec_property_handles(p).contains(h),
    decreases p,
{
    if let Property::Deref { source, index } = p {
        if source@ != h {
            lemma_property_reads_listed(*index, h);
        }
    }
}

/// An element's properties include those of every element of a folder's
/// sequence.
pub proof fn lemma_properties_all_include(es: Seq<DashElement>, i: int)
    requires
        0 <= i < es.len(),
    ensures
        spec_element_properties(es[i]).subset_of(spec_properties_all(es)),
    decreases es.len(),
{
    if i < es.len() - 1 {
        lemma_properties_all_include(es.drop_last(), i);
        assert(es.drop_last()[i] == es[i]);
    }
}

/// Every data property that an element reads is listed for it, so the
/// update task sends its values: whatever its position, size or visibility
/// reads, whatever the text (and font size) of a text, button or text
/// input reads, and everything that the elements of a folder read.
pub proof fn lemma_element_properties_complete(e: DashElement, h: Seq<char>)
    ensures
        (property_reads(e.x, h) || property_reads(e.y, h) || property_reads(e.size_x, h)
            || property_reads(e.size_y, h) || property_reads(e.visible, h))
            ==> spec_element_properties(e).contains(h),
        e.element matches DashElementType::Text(t) && text_reads(t, h) ==> spec_element_properties(e).contains(h),
        e.element matches DashElementType::Button { text, .. } && text_reads(text, h)
            ==> spec_element_properties(e).contains(h),
        e.element matches DashElementType::TextInput { text, .. } && text_reads(text, h)
            ==> spec_element_properties(e).contains(h),
        e.element matches DashElementType::Folder(v) ==> forall|i: int| 0 <= i < v@.len()
            ==> #[trigger] spec_element_properties(v@[i]).subset_of(spec_element_properties(e)),
{
    if property_reads(e.x, h) {
        lemma_property_reads_listed(e.x, h);
    }
    if property_reads(e.y, h) {
        lemma_property_reads_listed(e.y, h);
    }
    if property_reads(e.size_x, h) {
        lemma_property_reads_listed(e.size_x, h);
    }
    if property_reads(e.size_y, h) {
        lemma_property_reads_listed(e.size_y, h);
    }
    if property_reads(e.visible, h) {
        lemma_property_reads_listed(e.visible, h);
    }
    let t = match e.element {
        DashElementType::Text(t) => Some(t),
        DashElementType::Button { text, .. } => Some(text),
        DashElementType::TextInput { text, .. } => Some(text),
        _ => None,
    };
    if let Some(t) = t {
        if property_reads(t.text, h) {
            lemma_property_reads_listed(t.text, h);
        }
        if let Some(f) = t.font_size {
            if property_reads(f, h) {
                lemma_property_reads_listed(f, h);
            }
        }
    }
    if let DashElementType::Folder(v) = e.element {
        assert forall|i: int| 0 <= i < v@.len() implies #[trigger] spec_element_properties(v@[i]).subset_of(
            spec_element_properties(e),
        ) by {
            lemma_properties_all_include(v@, i);
        }
    }
}

/// A dashboard lists every data property that any of its elements reads.
pub proof fn lemma_dashboard_properties_complete(d: Dashboard, i: int)
    requires
        0 <= i < d.elements@.len(),
    ensures
        spec_element_properties(d.elements@[i]).subset_of(spec_dashboard_properties(d)),
{
    lemma_properties_all_include(d.elements@, i);
}

/// An element's actions include those of every element of a folder's
/// sequence.
pub proof fn lemma_actions_all_include(es: Seq<DashElement>, i: int)
    requires
        0 <= i < es.len(),
    ensures
        spec_element_actions(es[i]).subset_of(spec_actions_all(es)),
    decreases es.len(),
{
    if i < es.len() - 1 {
        lemma_actions_all_include(es.drop_last(), i);
        assert(es.drop_last()[i] == es[i]);
    }
}

/// Every action that a button or a text input names is listed for the
/// element, and a folder lists the actions of all its elements; nothing
/// else names actions.
pub proof fn lemma_element_actions_complete(e: DashElement)
    ensures
        e.element matches DashElementType::Button { action: Action::Plugin(n), .. }
            ==> spec_element_actions(e).contains(n@),
        e.element matches DashElementType::TextInput { action: Action::Plugin(n), .. }
            ==> spec_element_actions(e).contains(n@),
        e.element matches DashElementType::Folder(v) ==> forall|i: int| 0 <= i < v@.len()
            ==> #[trigger] spec_element_actions(v@[i]).subset_of(spec_element_actions(e)),
        (e.element is Square || e.element is Text) ==> spec_element_actions(e).is_empty(),
{
    if let DashElementType::Folder(v) = e.element {
        assert forall|i: int| 0 <= i < v@.len() implies #[trigger] spec_element_actions(v@[i]).subset_of(
            spec_element_actions(e),
        ) by {
            lemma_actions_all_include(v@, i);
        }
    }
}

/// A dashboard lists every action that any of its elements names.
pub proof fn lemma_dashboard_actions_complete(d: Dashboard, i: int)
    requires
        0 <= i < d.elements@.len(),
    ensures
        spec_element_actions(d.elements@[i]).subset_of(spec_actions_all(d.elements@)),
{
    lemma_actions_all_include(d.elements@, i);
}

} // verus!
