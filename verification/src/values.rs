use vstd::prelude::*;
use std::collections::HashMap;
use crate::codes::DataStoreReturnCode;

verus! {

/// The type of a property.
#[derive(Debug, Clone, Copy, PartialEq, Eq, Structural)]
pub enum PropertyType {
    Empty,
    Int,
    Float,
    Boolean,
    Str,
    Duration,
    Array,
}

/// The typed contents of an array; every element has the same type.
/// Floats are held as their IEEE 754 bit pattern; each string carries a
/// version number that every write increases.
#[derive(Debug)]
pub enum ArrayValueContainer {
    Int(Vec<i64>),
    Float(Vec<u64>),
    Bool(Vec<bool>),
    Str(Vec<(String, usize)>),
    Dur(Vec<i64>),
}

/// A handle on an array kept in an `ArrayStore`, together with the right
/// to write to it. Every handle with the same id refers to the same array.
#[derive(Debug, Clone, Copy, PartialEq, Eq, Structural)]
pub struct ArrayValueHandle {
    pub id: u64,
    pub allow_modify: bool,
}

/// A typed value as plugins hand it over. `Float` holds the bit pattern of
/// an `f64`; `Array(None)` is an array reference that points nowhere.
#[derive(Debug)]
pub enum Property {
    Empty,
    Int(i64),
    Float(u64),
    Boolean(bool),
    Str(String),
    Duration(i64),
    Array(Option<ArrayValueHandle>),
}

/// The texts of an array of versioned strings, each with its version.
pub open spec fn str_items(v: Seq<(String, usize)>) -> Seq<(Seq<char>, usize)> {
    v.map_values(|e: (String, usize)| (e.0@, e.1))
}

/// The mathematical contents of an array.
pub enum ArrayView {
    Int(Seq<i64>),
    Float(Seq<u64>),
    Bool(Seq<bool>),
    Str(Seq<(Seq<char>, usize)>),
    Dur(Seq<i64>),
}

/// The mathematical value of a `Property`.
pub enum PropertyView {
    Empty,
    Int(i64),
    Float(u64),
    Boolean(bool),
    Str(Seq<char>),
    Duration(i64),
    Array(Option<(u64, bool)>),
}

impl View for ArrayValueContainer {
    type V = ArrayView;

    open spec fn view(&self) -> ArrayView {
        match self {
            ArrayValueContainer::Int(v) => ArrayView::Int(v@),
            ArrayValueContainer::Float(v) => ArrayView::Float(v@),
            ArrayValueContainer::Bool(v) => ArrayView::Bool(v@),
            ArrayValueContainer::Str(v) => ArrayView::Str(str_items(v@)),
            ArrayValueContainer::Dur(v) => ArrayView::Dur(v@),
        }
    }
}

impl View for Property {
    type V = PropertyView;

    open spec fn view(&self) -> PropertyView {
        match self {
            Property::Empty => PropertyView::Empty,
            Property::Int(i) => PropertyView::Int(*i),
            Property::Float(f) => PropertyView::Float(*f),
            Property::Boolean(b) => PropertyView::Boolean(*b),
            Property::Str(s) => PropertyView::Str(s@),
            Property::Duration(d) => PropertyView::Duration(*d),
            Property::Array(None) => PropertyView::Array(None),
            Property::Array(Some(h)) => PropertyView::Array(Some((h.id, h.allow_modify))),
        }
    }
}

impl ArrayView {
    pub open spec fn len(self) -> nat {
        match self {
            ArrayView::Int(s) => s.len(),
            ArrayView::Float(s) => s.len(),
            ArrayView::Bool(s) => s.len(),
            ArrayView::Str(s) => s.len(),
            ArrayView::Dur(s) => s.len(),
        }
    }

    pub open spec fn kind(self) -> PropertyType {
        match self {
            ArrayView::Int(_) => PropertyType::Int,
            ArrayView::Float(_) => PropertyType::Float,
            ArrayView::Bool(_) => PropertyType::Boolean,
            ArrayView::Str(_) => PropertyType::Str,
            ArrayView::Dur(_) => PropertyType::Duration,
        }
    }

    /// The element at `i` as a property value, `Empty` when `i` is out of
    /// bounds.
    pub open spec fn item(self, i: int) -> PropertyView {
        if 0 <= i < self.len() {
            match self {
                ArrayView::Int(s) => PropertyView::Int(s[i]),
                ArrayView::Float(s) => PropertyView::Float(s[i]),
                ArrayView::Bool(s) => PropertyView::Boolean(s[i]),
                ArrayView::Str(s) => PropertyView::Str(s[i].0),
                ArrayView::Dur(s) => PropertyView::Duration(s[i]),
            }
        } else {
            PropertyView::Empty
        }
    }

    /// The array with the element at `i` replaced by the value `v` of the
    /// element type.
    pub open spec fn with_item(self, i: int, v: PropertyView) -> ArrayView {
        match (self, v) {
            (ArrayView::Int(s), PropertyView::Int(x)) => ArrayView::Int(s.update(i, x)),
            (ArrayView::Float(s), PropertyView::Float(x)) => ArrayView::Float(s.update(i, x)),
            (ArrayView::Bool(s), PropertyView::Boolean(x)) => ArrayView::Bool(s.update(i, x)),
            (ArrayView::Str(s), PropertyView::Str(x)) => ArrayView::Str(s.update(i, (x, next_version(s[i].1)))),
            (ArrayView::Dur(s), PropertyView::Duration(x)) => ArrayView::Dur(s.update(i, x)),
            _ => self,
        }
    }
}

impl PropertyView {
    /// The type of a value.
    pub open spec fn sort(self) -> PropertyType {
        match self {
            PropertyView::Empty => PropertyType::Empty,
            PropertyView::Int(_) => PropertyType::Int,
            PropertyView::Float(_) => PropertyType::Float,
            PropertyView::Boolean(_) => PropertyType::Boolean,
            PropertyView::Str(_) => PropertyType::Str,
            PropertyView::Duration(_) => PropertyType::Duration,
            PropertyView::Array(_) => PropertyType::Array,
        }
    }
}

/// An array of `size` copies of `init`; `None` for the types that arrays do
/// not hold (`None` and arrays).
pub open spec fn spec_new_array(size: nat, init: PropertyView) -> Option<ArrayView> {
    match init {
        PropertyView::Int(x) => Some(ArrayView::Int(Seq::new(size, |i: int| x))),
        PropertyView::Float(x) => Some(ArrayView::Float(Seq::new(size, |i: int| x))),
        PropertyView::Boolean(x) => Some(ArrayView::Bool(Seq::new(size, |i: int| x))),
        PropertyView::Str(x) => Some(ArrayView::Str(Seq::new(size, |i: int| (x, 1usize)))),
        PropertyView::Duration(x) => Some(ArrayView::Dur(Seq::new(size, |i: int| x))),
        _ => None,
    }
}

/// The code that writing `v` at `i` into `a` answers with.
pub open spec fn spec_array_write_code(a: ArrayView, i: int, v: PropertyView) -> DataStoreReturnCode {
    if v.sort() != a.kind() {
        DataStoreReturnCode::TypeMissmatch
    } else if 0 <= i < a.len() {
        DataStoreReturnCode::Success
    } else {
        DataStoreReturnCode::DoesNotExist
    }
}

fn repeat_i64(x: i64, size: usize) -> (v: Vec<i64>)
    ensures
        v@ == Seq::new(size as nat, |i: int| x),
{
    let mut v: Vec<i64> = Vec::new();
    let mut k: usize = 0;
    while k < size
        invariant
            k <= size,
            v@ == Seq::new(k as nat, |i: int| x),
        decreases size - k,
    {
        v.push(x);
        k = k + 1;
        assert(v@ =~= Seq::new(k as nat, |i: int| x));
    }
    v
}

fn repeat_u64(x: u64, size: usize) -> (v: Vec<u64>)
    ensures
        v@ == Seq::new(size as nat, |i: int| x),
{
    let mut v: Vec<u64> = Vec::new();
    let mut k: usize = 0;
    while k < size
        invariant
            k <= size,
            v@ == Seq::new(k as nat, |i: int| x),
        decreases size - k,
    {
        v.push(x);
        k = k + 1;
        assert(v@ =~= Seq::new(k as nat, |i: int| x));
    }
    v
}

fn repeat_bool(x: bool, size: usize) -> (v: Vec<bool>)
    ensures
        v@ == Seq::new(size as nat, |i: int| x),
{
    let mut v: Vec<bool> = Vec::new();
    let mut k: usize = 0;
    while k < size
        invariant
            k <= size,
            v@ == Seq::new(k as nat, |i: int| x),
        decreases size - k,
    {
        v.push(x);
        k = k + 1;
        assert(v@ =~= Seq::new(k as nat, |i: int| x));
    }
    v
}

fn repeat_str(x: &String, size: usize) -> (v: Vec<(String, usize)>)
    ensures
        str_items(v@) == Seq::new(size as nat, |i: int| (x@, 1usize)),
{
    let mut v: Vec<(String, usize)> = Vec::new();
    let mut k: usize = 0;
    while k < size
        invariant
            k <= size,
            v@.len() == k,
            str_items(v@) == Seq::new(k as nat, |i: int| (x@, 1usize)),
        decreases size - k,
    {
        let ghost old_v = v@;
        let c = x.clone();
        v.push((c, 1));
        assert(v@ == old_v.push((c, 1usize)));
        k = k + 1;
        assert(str_items(v@) =~= Seq::new(k as nat, |i: int| (x@, 1usize))) by {
            assert forall|i: int| 0 <= i < k implies #[trigger] str_items(v@)[i] == (x@, 1usize) by {
                if i < k - 1 {
                    assert(v@[i] == old_v[i]);
                    assert(str_items(old_v)[i] == (x@, 1usize));
                }
            }
        }
    }
    v
}

impl ArrayValueContainer {
    /// Creates an array of `size` copies of `init`. `None` (no array) when
    /// `init` is `None` or an array.
    pub fn new(size: usize, init: Property) -> (r: Option<Self>)
        ensures
            match spec_new_array(size as nat, init@) {
                None => r is None,
                Some(a) => r matches Some(c) && c@ == a,
            },
    {
        match init {
            Property::Int(x) => Some(ArrayValueContainer::Int(repeat_i64(x, size))),
            Property::Float(x) => Some(ArrayValueContainer::Float(repeat_u64(x, size))),
            Property::Boolean(x) => Some(ArrayValueContainer::Bool(repeat_bool(x, size))),
            Property::Str(s) => Some(ArrayValueContainer::Str(repeat_str(&s, size))),
            Property::Duration(x) => Some(ArrayValueContainer::Dur(repeat_i64(x, size))),
            _ => None,
        }
    }

    /// The element at `index`, `Property::Empty` when out of bounds.
    pub fn read(&self, index: usize) -> (r: Property)
        ensures
            r@ == self@.item(index as int),
    {
        match self {
            ArrayValueContainer::Int(v) => {
                if index < v.len() {
                    Property::Int(v[index])
                } else {
                    Property::Empty
                }
            },
            ArrayValueContainer::Float(v) => {
                if index < v.len() {
                    Property::Float(v[index])
                } else {
                    Property::Empty
                }
            },
            ArrayValueContainer::Bool(v) => {
                if index < v.len() {
                    Property::Boolean(v[index])
                } else {
                    Property::Empty
                }
            },
            ArrayValueContainer::Str(v) => {
                if index < v.len() {
                    let s = v[index].0.clone();
                    assert(self@.item(index as int) == PropertyView::Str(v@[index as int].0@));
                    Property::Str(s)
                } else {
                    Property::Empty
                }
            },
            ArrayValueContainer::Dur(v) => {
                if index < v.len() {
                    Property::Duration(v[index])
                } else {
                    Property::Empty
                }
            },
        }
    }

    /// Writes `value` at `index`. A value of another type is refused with
    /// `TypeMissmatch`, an index out of bounds with `DoesNotExist`; the array
    /// is then unchanged.
    pub fn write(&mut self, index: usize, value: Property) -> (r: DataStoreReturnCode)
        ensures
            r == spec_array_write_code(old(self)@, index as int, value@),
            r is Success ==> final(self)@ == old(self)@.with_item(index as int, value@),
            !(r is Success) ==> final(self)@ == old(self)@,
    {
        match self {
            ArrayValueContainer::Int(v) => match value {
                Property::Int(x) => {
                    if index < v.len() {
                        v.set(index, x);
                        DataStoreReturnCode::Success
                    } else {
                        DataStoreReturnCode::DoesNotExist
                    }
                },
                _ => DataStoreReturnCode::TypeMissmatch,
            },
            ArrayValueContainer::Float(v) => match value {
                Property::Float(x) => {
                    if index < v.len() {
                        v.set(index, x);
                        DataStoreReturnCode::Success
                    } else {
                        DataStoreReturnCode::DoesNotExist
                    }
                },
                _ => DataStoreReturnCode::TypeMissmatch,
            },
            ArrayValueContainer::Bool(v) => match value {
                Property::Boolean(x) => {
                    if index < v.len() {
                        v.set(index, x);
                        DataStoreReturnCode::Success
                    } else {
                        DataStoreReturnCode::DoesNotExist
                    }
                },
                _ => DataStoreReturnCode::TypeMissmatch,
            },
            ArrayValueContainer::Str(v) => match value {
                Property::Str(x) => {
                    if index < v.len() {
                        let ghost old_v = v@;
                        let version = v[index].1;
                        let next = if version == usize::MAX {
                            0
                        } else {
                            version + 1
                        };
                        v.set(index, (x, next));
                        assert(str_items(v@) =~= str_items(old_v).update(index as int, (value@->Str_0, next_version(version))));
                        DataStoreReturnCode::Success
                    } else {
                        DataStoreReturnCode::DoesNotExist
                    }
                },
                _ => DataStoreReturnCode::TypeMissmatch,
            },
            ArrayValueContainer::Dur(v) => match value {
                Property::Duration(x) => {
                    if index < v.len() {
                        v.set(index, x);
                        DataStoreReturnCode::Success
                    } else {
                        DataStoreReturnCode::DoesNotExist
                    }
                },
                _ => DataStoreReturnCode::TypeMissmatch,
            },
        }
    }

    pub fn length(&self) -> (r: usize)
        ensures
            r == self@.len(),
    {
        match self {
            ArrayValueContainer::Int(v) => v.len(),
            ArrayValueContainer::Float(v) => v.len(),
            ArrayValueContainer::Bool(v) => v.len(),
            ArrayValueContainer::Str(v) => v.len(),
            ArrayValueContainer::Dur(v) => v.len(),
        }
    }

    pub fn get_type(&self) -> (r: PropertyType)
        ensures
            r == self@.kind(),
    {
        match self {
            ArrayValueContainer::Int(_) => PropertyType::Int,
            ArrayValueContainer::Float(_) => PropertyType::Float,
            ArrayValueContainer::Bool(_) => PropertyType::Boolean,
            ArrayValueContainer::Str(_) => PropertyType::Str,
            ArrayValueContainer::Dur(_) => PropertyType::Duration,
        }
    }
}


/// The arrays that plugins created. An array lives here once; every handle
/// and every property storage refers to it by its id, so a write through
/// one of them is seen through all others.
pub struct ArrayStore {
    pub arrays: HashMap<u64, ArrayValueContainer>,
    pub next_id: u64,
}

/// The array with id `id`, if there is one.
pub open spec fn array_of(s: ArrayStore, id: u64) -> Option<ArrayView> {
    if s.arrays@.contains_key(id) {
        Some(s.arrays@[id]@)
    } else {
        None
    }
}

/// Every array has an id below the next one to hand out.
pub open spec fn array_store_wf(s: ArrayStore) -> bool {
    forall|id: u64| #[trigger] s.arrays@.contains_key(id) ==> id < s.next_id
}

impl ArrayStore {
    /// A store with no arrays.
    pub fn new() -> (r: ArrayStore)
        ensures
            array_store_wf(r),
            r.next_id == 0,
            forall|id: u64| #[trigger] array_of(r, id) is None,
    {
        ArrayStore { arrays: HashMap::new(), next_id: 0 }
    }

    /// Creates an array of `size` copies of `init` under a fresh id and
    /// hands out a writable handle on it; `None` (and no array) when `init`
    /// is empty or an array.
    pub fn create(&mut self, size: usize, init: Property) -> (r: Option<ArrayValueHandle>)
        requires
            array_store_wf(*old(self)),
            old(self).next_id < u64::MAX,
        ensures
            array_store_wf(*final(self)),
            match spec_new_array(size as nat, init@) {
                None => r is None && *final(self) == *old(self),
                Some(a) => r matches Some(h) && h.allow_modify && h.id == old(self).next_id
                    && final(self).next_id == old(self).next_id + 1
                    && array_of(*old(self), h.id) is None
                    && array_of(*final(self), h.id) == Some(a)
                    && forall|id: u64| id != h.id ==> #[trigger] array_of(*final(self), id) == array_of(*old(self), id),
            },
    {
        match ArrayValueContainer::new(size, init) {
            None => None,
            Some(arr) => {
                let id = self.next_id;
                self.arrays.insert(id, arr);
                self.next_id = id + 1;
                Some(ArrayValueHandle { id, allow_modify: true })
            },
        }
    }

    /// The element at `index` of the array of `h`; `Property::Empty` out of
    /// bounds or when there is no such array.
    pub fn get(&self, h: &ArrayValueHandle, index: usize) -> (r: Property)
        ensures
            r@ == match array_of(*self, h.id) {
                Some(a) => a.item(index as int),
                None => PropertyView::Empty,
            },
    {
        match self.arrays.get(&h.id) {
            Some(a) => a.read(index),
            None => Property::Empty,
        }
    }

    /// The length of the array of `h` (0 when there is no such array).
    pub fn length(&self, h: &ArrayValueHandle) -> (r: usize)
        ensures
            r == match array_of(*self, h.id) {
                Some(a) => a.len(),
                None => 0,
            },
    {
        match self.arrays.get(&h.id) {
            Some(a) => a.length(),
            None => 0,
        }
    }

    /// The element type of the array of `h` (`Empty` when there is no such
    /// array).
    pub fn kind(&self, h: &ArrayValueHandle) -> (r: PropertyType)
        ensures
            r == match array_of(*self, h.id) {
                Some(a) => a.kind(),
                None => PropertyType::Empty,
            },
    {
        match self.arrays.get(&h.id) {
            Some(a) => a.get_type(),
            None => PropertyType::Empty,
        }
    }

    /// Writes `value` at `index` into the array of `h`: refused with
    /// `NotAuthenticated` through a read-only handle, `DoesNotExist` when
    /// there is no such array, otherwise as the array answers (see
    /// `spec_array_write_code`). Only that array changes, and only on
    /// success.
    pub fn set(&mut self, h: &ArrayValueHandle, index: usize, value: Property) -> (r: DataStoreReturnCode)
        requires
            array_store_wf(*old(self)),
        ensures
            array_store_wf(*final(self)),
            final(self).next_id == old(self).next_id,
            r == spec_store_write_code(*old(self), *h, index as int, value@),
            array_of(*final(self), h.id) == if r is Success {
                Some(array_of(*old(self), h.id)->Some_0.with_item(index as int, value@))
            } else {
                array_of(*old(self), h.id)
            },
            forall|id: u64| id != h.id ==> #[trigger] array_of(*final(self), id) == array_of(*old(self), id),
    {
        if !h.allow_modify {
            return DataStoreReturnCode::NotAuthenticated;
        }
        match self.arrays.remove(&h.id) {
            None => DataStoreReturnCode::DoesNotExist,
            Some(mut a) => {
                let r = a.write(index, value);
                self.arrays.insert(h.id, a);
                r
            },
        }
    }
}

/// The code that writing `v` at `i` through handle `h` answers with.
pub open spec fn spec_store_write_code(s: ArrayStore, h: ArrayValueHandle, i: int, v: PropertyView) -> DataStoreReturnCode {
    if !h.allow_modify {
        DataStoreReturnCode::NotAuthenticated
    } else {
        match array_of(s, h.id) {
            None => DataStoreReturnCode::DoesNotExist,
            Some(a) => spec_array_write_code(a, i, v),
        }
    }
}

/// The storage of one property value. Floats are held as their IEEE 754 bit
/// pattern; a string carries a version number that every write increases
/// (wrapping around).
#[derive(Debug)]
pub enum ValueContainer {
    Empty,
    Int(i64),
    Float(u64),
    Bool(bool),
    Str(String, usize),
    Dur(i64),
    Arr(u64),
}

pub enum ContainerView {
    Empty,
    Int(i64),
    Float(u64),
    Bool(bool),
    Str(Seq<char>, usize),
    Dur(i64),
    Arr(u64),
}

impl View for ValueContainer {
    type V = ContainerView;

    open spec fn view(&self) -> ContainerView {
        match self {
            ValueContainer::Empty => ContainerView::Empty,
            ValueContainer::Int(i) => ContainerView::Int(*i),
            ValueContainer::Float(f) => ContainerView::Float(*f),
            ValueContainer::Bool(b) => ContainerView::Bool(*b),
            ValueContainer::Str(s, v) => ContainerView::Str(s@, *v),
            ValueContainer::Dur(d) => ContainerView::Dur(*d),
            ValueContainer::Arr(id) => ContainerView::Arr(*id),
        }
    }
}

/// The next version number of a string (wrapping at the end of `usize`).
pub open spec fn next_version(v: usize) -> usize {
    if v == usize::MAX {
        0
    } else {
        (v + 1) as usize
    }
}

/// The storage created for an initial value: the value of a scalar (a string
/// at version 1); an array only when the handle may modify it, otherwise
/// empty storage.
pub open spec fn spec_new_container(p: PropertyView) -> ContainerView {
    match p {
        PropertyView::Empty => ContainerView::Empty,
        PropertyView::Int(x) => ContainerView::Int(x),
        PropertyView::Float(x) => ContainerView::Float(x),
        PropertyView::Boolean(x) => ContainerView::Bool(x),
        PropertyView::Str(x) => ContainerView::Str(x, 1),
        PropertyView::Duration(x) => ContainerView::Dur(x),
        PropertyView::Array(Some((id, allow_modify))) => if allow_modify {
            ContainerView::Arr(id)
        } else {
            ContainerView::Empty
        },
        PropertyView::Array(None) => ContainerView::Empty,
    }
}

/// Whether an update with `p` is accepted: the value has the type of the
/// storage, and arrays are never replaced by an update.
pub open spec fn update_accepted(c: ContainerView, p: PropertyView) -> bool {
    match (c, p) {
        (ContainerView::Empty, PropertyView::Empty) => true,
        (ContainerView::Int(_), PropertyView::Int(_)) => true,
        (ContainerView::Float(_), PropertyView::Float(_)) => true,
        (ContainerView::Bool(_), PropertyView::Boolean(_)) => true,
        (ContainerView::Str(_, _), PropertyView::Str(_)) => true,
        (ContainerView::Dur(_), PropertyView::Duration(_)) => true,
        _ => false,
    }
}

/// The storage after an accepted update.
pub open spec fn spec_updated(c: ContainerView, p: PropertyView) -> ContainerView {
    match (c, p) {
        (ContainerView::Int(_), PropertyView::Int(x)) => ContainerView::Int(x),
        (ContainerView::Float(_), PropertyView::Float(x)) => ContainerView::Float(x),
        (ContainerView::Bool(_), PropertyView::Boolean(x)) => ContainerView::Bool(x),
        (ContainerView::Str(_, v), PropertyView::Str(x)) => ContainerView::Str(x, next_version(v)),
        (ContainerView::Dur(_), PropertyView::Duration(x)) => ContainerView::Dur(x),
        _ => c,
    }
}

/// What reading the storage yields; an array is handed out together with
/// the given write permission.
pub open spec fn spec_read(c: ContainerView, allow_modify: bool) -> PropertyView {
    match c {
        ContainerView::Empty => PropertyView::Empty,
        ContainerView::Int(x) => PropertyView::Int(x),
        ContainerView::Float(x) => PropertyView::Float(x),
        ContainerView::Bool(x) => PropertyView::Boolean(x),
        ContainerView::Str(x, _) => PropertyView::Str(x),
        ContainerView::Dur(x) => PropertyView::Duration(x),
        ContainerView::Arr(id) => PropertyView::Array(Some((id, allow_modify))),
    }
}

impl ValueContainer {
    /// Creates the storage for a property from its initial value.
    pub fn new(val: Property) -> (r: Self)
        ensures
            r@ == spec_new_container(val@),
    {
        match val {
            Property::Empty => ValueContainer::Empty,
            Property::Int(x) => ValueContainer::Int(x),
            Property::Float(x) => ValueContainer::Float(x),
            Property::Boolean(x) => ValueContainer::Bool(x),
            Property::Str(s) => ValueContainer::Str(s, 1),
            Property::Duration(x) => ValueContainer::Dur(x),
            Property::Array(Some(h)) => {
                if h.allow_modify {
                    ValueContainer::Arr(h.id)
                } else {
                    ValueContainer::Empty
                }
            },
            Property::Array(None) => ValueContainer::Empty,
        }
    }

    /// Stores `val` when it has the type of the storage; returns whether it
    /// was stored.
    pub fn update(&mut self, val: Property) -> (r: bool)
        ensures
            r == update_accepted(old(self)@, val@),
            final(self)@ == if r {
                spec_updated(old(self)@, val@)
            } else {
                old(self)@
            },
    {
        match (self, val) {
            (ValueContainer::Empty, Property::Empty) => true,
            (ValueContainer::Int(at), Property::Int(x)) => {
                *at = x;
                true
            },
            (ValueContainer::Float(at), Property::Float(x)) => {
                *at = x;
                true
            },
            (ValueContainer::Bool(at), Property::Boolean(x)) => {
                *at = x;
                true
            },
            (ValueContainer::Str(s, version), Property::Str(x)) => {
                *s = x;
                *version = if *version == usize::MAX {
                    0
                } else {
                    *version + 1
                };
                true
            },
            (ValueContainer::Dur(at), Property::Duration(x)) => {
                *at = x;
                true
            },
            _ => false,
        }
    }

    /// Reads the stored value; an array is handed out with the write
    /// permission `allow_modify`.
    pub fn read(&self, allow_modify: bool) -> (r: Property)
        ensures
            r@ == spec_read(self@, allow_modify),
    {
        match self {
            ValueContainer::Empty => Property::Empty,
            ValueContainer::Int(x) => Property::Int(*x),
            ValueContainer::Float(x) => Property::Float(*x),
            ValueContainer::Bool(x) => Property::Boolean(*x),
            ValueContainer::Str(s, _) => Property::Str(s.clone()),
            ValueContainer::Dur(x) => Property::Duration(*x),
            ValueContainer::Arr(id) => Property::Array(Some(ArrayValueHandle { id: *id, allow_modify })),
        }
    }
}

/// A new property as a plugin asks for it: its short name, its initial
/// storage and its write permission. The storage goes to the data store,
/// which keeps the only copy.
#[derive(Debug)]
pub struct PropertyContainer {
    value: ValueContainer,
    allow_modify: bool,
    pub short_name: String,
}

impl PropertyContainer {
    pub closed spec fn value_view(&self) -> ContainerView {
        self.value@
    }

    pub closed spec fn may_modify(&self) -> bool {
        self.allow_modify
    }

    pub closed spec fn name_view(&self) -> Seq<char> {
        self.short_name@
    }

    /// A writable property storage created from its initial value.
    pub fn new(short_name: String, value: Property) -> (r: Self)
        ensures
            r.value_view() == spec_new_container(value@),
            r.may_modify(),
            r.name_view() == short_name@,
    {
        PropertyContainer { short_name, allow_modify: true, value: ValueContainer::new(value) }
    }

    /// Takes the container apart: short name, storage, write permission.
    pub fn into_parts(self) -> (r: (String, ValueContainer, bool))
        ensures
            r.0@ == self.name_view(),
            r.1@ == self.value_view(),
            r.2 == self.may_modify(),
    {
        (self.short_name, self.value, self.allow_modify)
    }

    /// The short name of the property.
    pub fn short_name(&self) -> (r: &str)
        ensures
            r@ == self.name_view(),
    {
        self.short_name.as_str()
    }

    pub fn allow_modify(&self) -> (r: bool)
        ensures
            r == self.may_modify(),
    {
        self.allow_modify
    }
}

/// A single value as the web interface and the settings files carry it.
/// `Float` holds the IEEE 754 bit pattern of an `f64`.
#[derive(Debug)]
pub enum Value {
    Empty,
    Int(i64),
    Float(u64),
    Bool(bool),
    Str(String),
    Dur(i64),
}

pub enum WebValueView {
    Empty,
    Int(i64),
    Float(u64),
    Bool(bool),
    Str(Seq<char>),
    Dur(i64),
}

impl View for Value {
    type V = WebValueView;

    open spec fn view(&self) -> WebValueView {
        match self {
            Value::Empty => WebValueView::Empty,
            Value::Int(x) => WebValueView::Int(*x),
            Value::Float(x) => WebValueView::Float(*x),
            Value::Bool(x) => WebValueView::Bool(*x),
            Value::Str(x) => WebValueView::Str(x@),
            Value::Dur(x) => WebValueView::Dur(*x),
        }
    }
}

/// The bit pattern of a NaN.
pub open spec fn is_nan_bits(x: u64) -> bool {
    (x & 0x7FF0_0000_0000_0000u64) == 0x7FF0_0000_0000_0000u64 && (x & 0x000F_FFFF_FFFF_FFFFu64)
        != 0
}

/// The bit pattern of `+0.0` or `-0.0`.
pub open spec fn is_zero_bits(x: u64) -> bool {
    (x & 0x7FFF_FFFF_FFFF_FFFFu64) == 0
}

/// `==` on the `f64` values of two bit patterns: no NaN equals anything, the
/// two zeros are equal, otherwise the bits decide.
pub open spec fn float_bits_eq(x: u64, y: u64) -> bool {
    !is_nan_bits(x) && !is_nan_bits(y) && (x == y || (is_zero_bits(x) && is_zero_bits(y)))
}

/// `==` on values (floats compare as `f64` does).
pub open spec fn spec_value_eq(a: WebValueView, b: WebValueView) -> bool {
    match (a, b) {
        (WebValueView::Empty, WebValueView::Empty) => true,
        (WebValueView::Int(x), WebValueView::Int(y)) => x == y,
        (WebValueView::Float(x), WebValueView::Float(y)) => float_bits_eq(x, y),
        (WebValueView::Bool(x), WebValueView::Bool(y)) => x == y,
        (WebValueView::Str(x), WebValueView::Str(y)) => x == y,
        (WebValueView::Dur(x), WebValueView::Dur(y)) => x == y,
        _ => false,
    }
}

pub fn float_bits_equal(x: u64, y: u64) -> (r: bool)
    ensures
        r == float_bits_eq(x, y),
{
    let x_nan = (x & 0x7FF0_0000_0000_0000u64) == 0x7FF0_0000_0000_0000u64 && (x
        & 0x000F_FFFF_FFFF_FFFFu64) != 0;
    let y_nan = (y & 0x7FF0_0000_0000_0000u64) == 0x7FF0_0000_0000_0000u64 && (y
        & 0x000F_FFFF_FFFF_FFFFu64) != 0;
    let both_zero = (x & 0x7FFF_FFFF_FFFF_FFFFu64) == 0 && (y & 0x7FFF_FFFF_FFFF_FFFFu64) == 0;
    !x_nan && !y_nan && (x == y || both_zero)
}

impl Value {
    /// `==` on values.
    pub fn equals(&self, other: &Value) -> (r: bool)
        ensures
            r == spec_value_eq(self@, other@),
    {
        match (self, other) {
            (Value::Empty, Value::Empty) => true,
            (Value::Int(x), Value::Int(y)) => *x == *y,
            (Value::Float(x), Value::Float(y)) => float_bits_equal(*x, *y),
            (Value::Bool(x), Value::Bool(y)) => *x == *y,
            (Value::Str(x), Value::Str(y)) => x.eq(y),
            (Value::Dur(x), Value::Dur(y)) => *x == *y,
            _ => false,
        }
    }
}

/// The last value that a poll of a storage saw, with the version of the
/// string it saw (if it saw one).
#[derive(Debug)]
pub struct ValueCache {
    pub value: Value,
    pub version: Option<usize>,
}

impl Default for ValueCache {
    fn default() -> (r: Self)
        ensures
            r.value@ == WebValueView::Empty,
            r.version == None::<usize>,
    {
        ValueCache { value: Value::Empty, version: None }
    }
}

/// The value that a poll of scalar storage sees.
pub open spec fn spec_web_value(c: ContainerView) -> WebValueView {
    match c {
        ContainerView::Int(x) => WebValueView::Int(x),
        ContainerView::Float(x) => WebValueView::Float(x),
        ContainerView::Bool(x) => WebValueView::Bool(x),
        ContainerView::Str(x, _) => WebValueView::Str(x),
        ContainerView::Dur(x) => WebValueView::Dur(x),
        _ => WebValueView::Empty,
    }
}

impl ValueContainer {
    /// Polls the storage into `cache` and returns whether the cache changed.
    /// A string counts as changed when its version differs from the cached
    /// version; any other value when it differs (by `==`) from the cached one.
    pub fn read_web(&self, cache: &mut ValueCache) -> (r: bool)
        requires
            !(self is Arr),
        ensures
            match self@ {
                ContainerView::Str(x, ver) => if old(cache).version == Some(ver) {
                    !r && final(cache).value@ == old(cache).value@ && final(cache).version == old(cache).version
                } else {
                    r && final(cache).value@ == WebValueView::Str(x) && final(cache).version == Some(ver)
                },
                _ => if spec_value_eq(old(cache).value@, spec_web_value(self@)) {
                    !r && final(cache).value@ == old(cache).value@ && final(cache).version == old(cache).version
                } else {
                    r && final(cache).value@ == spec_web_value(self@) && final(cache).version == old(cache).version
                },
            },
    {
        let val = match self {
            ValueContainer::Empty => Value::Empty,
            ValueContainer::Int(x) => Value::Int(*x),
            ValueContainer::Float(x) => Value::Float(*x),
            ValueContainer::Bool(x) => Value::Bool(*x),
            ValueContainer::Str(s, index) => {
                if let Some(old_index) = cache.version {
                    if old_index == *index {
                        return false;
                    }
                }
                cache.version = Some(*index);
                cache.value = Value::Str(s.clone());
                return true;
            },
            ValueContainer::Dur(x) => Value::Dur(*x),
            ValueContainer::Arr(_) => Value::Empty,
        };
        if cache.value.equals(&val) {
            false
        } else {
            cache.value = val;
            true
        }
    }
}

/// An accepted write into an array is what a read at that index gives
/// back; every other index, the length and the element type are unchanged.
pub proof fn lemma_array_write_then_read(a: ArrayView, i: int, j: int, v: PropertyView)
    requires
        spec_array_write_code(a, i, v) is Success,
    ensures
        a.with_item(i, v).item(i) == v,
        j != i ==> a.with_item(i, v).item(j) == a.item(j),
        a.with_item(i, v).len() == a.len(),
        a.with_item(i, v).kind() == a.kind(),
{
}

/// A new array holds its initial value at every index below its size and
/// nothing beyond.
pub proof fn lemma_new_array_reads_init(size: nat, init: PropertyView, i: int)
    requires
        spec_new_array(size, init) is Some,
    ensures
        spec_new_array(size, init)->0.len() == size,
        spec_new_array(size, init)->0.kind() == init.sort(),
        0 <= i < size ==> spec_new_array(size, init)->0.item(i) == init,
        !(0 <= i < size) ==> spec_new_array(size, init)->0.item(i) == PropertyView::Empty,
{
}

/// An update that the storage accepts is what the next read gives back.
pub proof fn lemma_update_then_read(c: ContainerView, p: PropertyView, allow_modify: bool)
    requires
        update_accepted(c, p),
    ensures
        spec_read(spec_updated(c, p), allow_modify) == p,
{
}

/// Storage created from a scalar value reads back that value; storage
/// created from a writable array reads back that array.
pub proof fn lemma_new_then_read(p: PropertyView)
    requires
        !(p is Array) || (p matches PropertyView::Array(Some((_, m))) && m),
    ensures
        spec_read(spec_new_container(p), true) == p,
{
}

/// The array after the writes `w`, in order: each `(index, value)` that
/// the array accepts replaces that element; a refused write changes
/// nothing.
pub open spec fn apply_writes(a: ArrayView, w: Seq<(int, PropertyView)>) -> ArrayView
    decreases w.len(),
{
    if w.len() == 0 {
        a
    } else {
        let b = apply_writes(a, w.drop_last());
        let (i, v) = w.last();
        if spec_array_write_code(b, i, v) is Success {
            b.with_item(i, v)
        } else {
            b
        }
    }
}

/// An array keeps its length and its element type through any sequence of
/// writes, and reads beyond its length stay empty.
pub proof fn lemma_writes_keep_shape(a: ArrayView, w: Seq<(int, PropertyView)>, j: int)
    ensures
        apply_writes(a, w).len() == a.len(),
        apply_writes(a, w).kind() == a.kind(),
        !(0 <= j < a.len()) ==> apply_writes(a, w).item(j) == PropertyView::Empty,
    decreases w.len(),
{
    if w.len() > 0 {
        lemma_writes_keep_shape(a, w.drop_last(), j);
    }
}

/// A write through one handle on an array is what a read through any
/// other handle on the same array gives back.
pub proof fn lemma_shared_write_then_read(
    o: ArrayStore,
    n: ArrayStore,
    h: ArrayValueHandle,
    other: ArrayValueHandle,
    i: int,
    v: PropertyView,
)
    requires
        spec_store_write_code(o, h, i, v) is Success,
        array_of(n, h.id) == Some(array_of(o, h.id)->Some_0.with_item(i, v)),
        other.id == h.id,
    ensures
        array_of(n, other.id) matches Some(a) && a.item(i) == v,
{
}

} // verus!
