use vstd::prelude::*;
use std::collections::HashMap;
use crate::dashboard::{contains_string, texts};
use crate::handles::{spec_name_hashes, PropertyHandle};
use crate::loader::{lemma_sub_key_injective, sub_key, subscription_key};
use crate::registry::{property_of, DataStore};
use crate::values::{
    spec_value_eq, spec_web_value, ContainerView, Value, ValueCache, ValueContainer, WebValueView,
};
use crate::config::clone_strings;
use crate::api::update_post;
use crate::codes::DataStoreReturnCode;
use crate::loader::PluginRunner;
use crate::values::PropertyView;
use vstd::std_specs::iter::IteratorSpec;

verus! {

broadcast use vstd::std_specs::hash::group_hash_axioms;

/// A property that connected dashboards show: its handle, the last value
/// sent, and the dashboards that show it. Its value is read from the data
/// store at each poll.
pub struct WebProp {
    pub handle: PropertyHandle,
    pub cache: ValueCache,
    pub dashes: Vec<String>,
}

/// The state of the task that sends property updates to dashboards: the
/// shown properties, and for each dashboard name the number of its open
/// instances.
pub struct WebUpdater {
    pub props: HashMap<u128, WebProp>,
    pub dashboards: Vec<(String, usize)>,
}

/// A message to that task.
pub enum SocketChMsg {
    /// An instance of a dashboard connected.
    AddDashboard(String),
    /// An instance of a dashboard disconnected.
    RmDashboard(String),
    /// The storage of a property was replaced or deleted.
    ChangedProperty(PropertyHandle),
}

/// What the task knows of a property: the last value sent and the
/// dashboards that show it.
pub open spec fn prop_of(u: WebUpdater, h: PropertyHandle) -> Option<
    ((WebValueView, Option<usize>), Seq<Seq<char>>),
> {
    if u.props@.contains_key(sub_key(h)) {
        let p = u.props@[sub_key(h)];
        Some(((p.cache.value@, p.cache.version), texts(p.dashes@)))
    } else {
        None
    }
}

/// Each property is kept under the key of its own handle.
pub open spec fn props_wf(m: Map<u128, WebProp>) -> bool {
    forall|k: u128| #[trigger] m.contains_key(k) ==> sub_key(m[k].handle) == k
}

/// The dashboard names of `d`.
pub open spec fn dash_names(d: Seq<(String, usize)>) -> Seq<Seq<char>> {
    d.map_values(|e: (String, usize)| e.0@)
}

/// The number of open instances of dashboard `name` (`None` when it was
/// never connected).
pub open spec fn dash_count(d: Seq<(String, usize)>, name: Seq<char>) -> Option<usize> {
    if dash_names(d).contains(name) {
        let i = choose|i: int| 0 <= i < d.len() && d[i].0@ == name;
        Some(d[i].1)
    } else {
        None
    }
}

/// The updater is well formed: properties under their keys, each
/// dashboard name once.
pub open spec fn updater_wf(u: WebUpdater) -> bool {
    &&& props_wf(u.props@)
    &&& dash_names(u.dashboards@).no_duplicates()
}

/// `list` names the property `h`.
pub open spec fn names_handle(list: Seq<String>, h: PropertyHandle) -> bool {
    exists|i: int| 0 <= i < list.len() && #[trigger] spec_name_hashes(list[i]@) == Some((h.plugin, h.property))
}

/// The stored value of property `h`: the published one, or none.
pub open spec fn stored_view(ds: DataStore, h: PropertyHandle) -> ContainerView {
    match property_of(ds, h) {
        Some(c) => c,
        None => ContainerView::Empty,
    }
}

/// `d` with `name` added at the end unless it is there.
pub open spec fn with_dash(d: Seq<Seq<char>>, name: Seq<char>) -> Seq<Seq<char>> {
    if d.contains(name) {
        d
    } else {
        d.push(name)
    }
}

/// A property named by a connecting dashboard: kept (with a cleared cache
/// and the dashboard added) when shown already, otherwise shown for this
/// dashboard alone, with nothing sent yet.
pub open spec fn added_prop(
    old_prop: Option<((WebValueView, Option<usize>), Seq<Seq<char>>)>,
    name: Seq<char>,
) -> Option<((WebValueView, Option<usize>), Seq<Seq<char>>)> {
    match old_prop {
        Some((_, d)) => Some(((WebValueView::Empty, None), with_dash(d, name))),
        None => Some(((WebValueView::Empty, None), seq![name])),
    }
}

/// A property after a dashboard's last instance left: the dashboard is
/// taken off it, and it is dropped when no dashboard shows it any more.
pub open spec fn removed_prop(
    old_prop: Option<((WebValueView, Option<usize>), Seq<Seq<char>>)>,
    name: Seq<char>,
) -> Option<((WebValueView, Option<usize>), Seq<Seq<char>>)> {
    match old_prop {
        None => None,
        Some((ca, d)) => {
            let d2 = d.filter(other_dash(name));
            if d2.len() == 0 {
                None
            } else {
                Some((ca, d2))
            }
        },
    }
}

/// Every dashboard but `name`.
pub open spec fn other_dash(name: Seq<char>) -> spec_fn(Seq<char>) -> bool {
    |x: Seq<char>| x != name
}

fn find_dashboard(d: &Vec<(String, usize)>, name: &String) -> (r: Option<usize>)
    requires
        dash_names(d@).no_duplicates(),
    ensures
        match r {
            Some(i) => i < d@.len() && d@[i as int].0@ == name@ && dash_count(d@, name@) == Some(d@[i as int].1),
            None => dash_count(d@, name@) is None,
        },
{
    let mut i: usize = 0;
    while i < d.len()
        invariant
            i <= d@.len(),
            dash_names(d@).no_duplicates(),
            forall|j: int| 0 <= j < i ==> (#[trigger] d@[j]).0@ != name@,
        decreases d@.len() - i,
    {
        if d[i].0.eq(name) {
            proof {
                assert(dash_names(d@)[i as int] == name@);
                let k = choose|k: int| 0 <= k < d@.len() && d@[k].0@ == name@;
                assert(dash_names(d@)[k] == name@);
                assert(k == i);
            }
            return Some(i);
        }
        i = i + 1;
    }
    assert(!dash_names(d@).contains(name@)) by {
        if dash_names(d@).contains(name@) {
            let k = choose|k: int| 0 <= k < dash_names(d@).len() && dash_names(d@)[k] == name@;
            assert(d@[k].0@ == name@);
        }
    }
    None
}

fn shown_keys(m: &HashMap<u128, WebProp>) -> (r: Vec<u128>)
    ensures
        r@.no_duplicates(),
        r@.to_set() == m@.dom(),
{
    let mut ids: Vec<u128> = Vec::new();
    let keys = m.keys();
    let ghost all = keys.remaining().unref();
    for k in it: keys
        invariant
            ids@ == it.seq().take(it.index()).unref(),
            it.seq().unref() == all,
    {
        ids.push(*k);
        assert(ids@ =~= it.seq().take(it.index() + 1).unref());
    }
    assert(ids@ =~= all);
    ids
}

fn without_dash(d: &Vec<String>, name: &String) -> (r: Vec<String>)
    ensures
        texts(r@) == texts(d@).filter(other_dash(name@)),
{
    let mut kept: Vec<String> = Vec::new();
    let mut i: usize = 0;
    while i < d.len()
        invariant
            i <= d@.len(),
            texts(kept@) == texts(d@).take(i as int).filter(other_dash(name@)),
        decreases d@.len() - i,
    {
        proof {
            reveal(Seq::filter);
            assert(texts(d@).take(i + 1).drop_last() =~= texts(d@).take(i as int));
        }
        if !d[i].eq(name) {
            kept.push(d[i].clone());
            assert(texts(kept@) =~= texts(d@).take(i + 1).filter(other_dash(name@)));
        }
        i = i + 1;
    }
    assert(texts(d@).take(d@.len() as int) =~= texts(d@));
    kept
}


/// What polling a storage does to its cache: whether there is something
/// new to send, and the cache afterwards (see `ValueContainer::read_web`).
pub open spec fn spec_poll(c: ContainerView, cache: (WebValueView, Option<usize>)) -> (
    bool,
    (WebValueView, Option<usize>),
) {
    match c {
        ContainerView::Str(x, ver) => if cache.1 == Some(ver) {
            (false, cache)
        } else {
            (true, (WebValueView::Str(x), Some(ver)))
        },
        _ => if spec_value_eq(cache.0, spec_web_value(c)) {
            (false, cache)
        } else {
            (true, (spec_web_value(c), cache.1))
        },
    }
}

/// A shown property after a poll of the stored value `c`: same
/// dashboards, polled cache.
pub open spec fn polled_prop(o: Option<((WebValueView, Option<usize>), Seq<Seq<char>>)>, c: ContainerView) -> Option<
    ((WebValueView, Option<usize>), Seq<Seq<char>>),
> {
    match o {
        Some((cache, d)) => Some((spec_poll(c, cache).1, d)),
        None => None,
    }
}

/// Whether a poll of property `h` against the data store finds something
/// new to send.
pub open spec fn poll_changes(u: WebUpdater, ds: DataStore, h: PropertyHandle) -> bool {
    match prop_of(u, h) {
        Some((cache, _)) => spec_poll(stored_view(ds, h), cache).0,
        None => false,
    }
}

/// An update found by a poll of `u` against the data store: the property,
/// its new value, and the dashboards to send it to.
pub open spec fn is_update_of(u: WebUpdater, ds: DataStore, e: (PropertyHandle, Value, Vec<String>)) -> bool {
    match prop_of(u, e.0) {
        Some((cache, d)) => {
            let c = stored_view(ds, e.0);
            spec_poll(c, cache).0 && e.1@ == spec_poll(c, cache).1.0 && texts(e.2@) == d
        },
        None => false,
    }
}

/// No shown property is stored as an array (polling an array is not
/// implemented: it panics).
pub open spec fn no_array_props(u: WebUpdater, ds: DataStore) -> bool {
    forall|k: u128| #[trigger] u.props@.contains_key(k) ==> !(stored_view(ds, u.props@[k].handle) is Arr)
}

fn copy_value(v: &Value) -> (r: Value)
    ensures
        r@ == v@,
{
    match v {
        Value::Empty => Value::Empty,
        Value::Int(x) => Value::Int(*x),
        Value::Float(x) => Value::Float(*x),
        Value::Bool(x) => Value::Bool(*x),
        Value::Str(t) => Value::Str(t.clone()),
        Value::Dur(x) => Value::Dur(*x),
    }
}

impl WebUpdater {
    /// Whether some shown property is stored as an array.
    pub fn shows_array(&self, ds: &DataStore) -> (r: bool)
        requires
            props_wf(self.props@),
        ensures
            r == !no_array_props(*self, *ds),
    {
        let keys = shown_keys(&self.props);
        let mut i: usize = 0;
        while i < keys.len()
            invariant
                i <= keys@.len(),
                keys@.to_set() == self.props@.dom(),
                forall|j: int| 0 <= j < i ==> !(stored_view(*ds, self.props@[#[trigger] keys@[j]].handle) is Arr),
            decreases keys@.len() - i,
        {
            assert(keys@.to_set().contains(keys@[i as int]));
            match self.props.get(&keys[i]) {
                Some(p) => {
                    match ds.get_property_container(&p.handle) {
                        Some(c) => {
                            if let ValueContainer::Arr(_) = c {
                                return true;
                            }
                        },
                        None => {},
                    }
                },
                None => {},
            }
            i = i + 1;
        }
        assert forall|k: u128| #[trigger] self.props@.contains_key(k) implies !(stored_view(*ds, self.props@[k].handle) is Arr) by {
            assert(keys@.to_set().contains(k));
            let j = choose|j: int| 0 <= j < keys@.len() && keys@[j] == k;
            assert(!(stored_view(*ds, self.props@[keys@[j]].handle) is Arr));
        }
        false
    }

    /// Polls every shown property once against the values stored in `ds`.
    /// The cache of each is polled (see `spec_poll`); the properties with
    /// something new are answered, each once, with their new value and the
    /// dashboards that show them.
    pub fn poll(&mut self, ds: &DataStore) -> (r: Vec<(PropertyHandle, Value, Vec<String>)>)
        requires
            updater_wf(*old(self)),
            no_array_props(*old(self), *ds),
        ensures
            updater_wf(*final(self)),
            no_array_props(*final(self), *ds),
            final(self).dashboards@ == old(self).dashboards@,
            forall|h: PropertyHandle| #[trigger] prop_of(*final(self), h) == polled_prop(prop_of(*old(self), h), stored_view(*ds, h)),
            forall|j: int| 0 <= j < r@.len() ==> is_update_of(*old(self), *ds, #[trigger] r@[j]),
            forall|h: PropertyHandle| #[trigger] poll_changes(*old(self), *ds, h) ==> exists|j: int| 0 <= j < r@.len() && (#[trigger] r@[j]).0 == h,
            forall|j1: int, j2: int| 0 <= j1 < j2 < r@.len() ==> (#[trigger] r@[j1]).0 != (#[trigger] r@[j2]).0,
    {
        let keys = shown_keys(&self.props);
        let ghost start = *self;
        let mut out: Vec<(PropertyHandle, Value, Vec<String>)> = Vec::new();
        let mut i: usize = 0;
        while i < keys.len()
            invariant
                i <= keys@.len(),
                keys@.no_duplicates(),
                keys@.to_set() == start.props@.dom(),
                props_wf(start.props@),
                no_array_props(start, *ds),
                updater_wf(*self),
                no_array_props(*self, *ds),
                self.dashboards@ == start.dashboards@,
                forall|h: PropertyHandle| #[trigger] prop_of(*self, h) == if keys@.take(i as int).contains(sub_key(h)) {
                    polled_prop(prop_of(start, h), stored_view(*ds, h))
                } else {
                    prop_of(start, h)
                },
                forall|j: int| 0 <= j < out@.len() ==> is_update_of(start, *ds, #[trigger] out@[j])
                    && keys@.take(i as int).contains(sub_key(out@[j].0)),
                forall|h: PropertyHandle| #[trigger] poll_changes(start, *ds, h) && keys@.take(i as int).contains(sub_key(h))
                    ==> exists|j: int| 0 <= j < out@.len() && (#[trigger] out@[j]).0 == h,
                forall|j1: int, j2: int| 0 <= j1 < j2 < out@.len() ==> (#[trigger] out@[j1]).0 != (#[trigger] out@[j2]).0,
            decreases keys@.len() - i,
        {
            let k = keys[i];
            proof {
                assert(keys@.to_set().contains(k));
                assert(!keys@.take(i as int).contains(k)) by {
                    if keys@.take(i as int).contains(k) {
                        let j = choose|j: int| 0 <= j < keys@.take(i as int).len() && #[trigger] keys@.take(i as int)[j] == k;
                        assert(keys@[j] == keys@[i as int]);
                    }
                }
            }
            let ghost before = *self;
            let ghost out0 = out@;
            let ghost h0 = start.props@[k].handle;
            proof {
                assert(sub_key(h0) == k);
                assert(prop_of(before, h0) == prop_of(start, h0));
            }
            match self.props.remove(&k) {
                Some(p) => {
                    let WebProp { handle, mut cache, dashes } = p;
                    proof {
                        assert(handle == h0);
                        assert(!(stored_view(*ds, handle) is Arr));
                    }
                    let changed = match ds.get_property_container(&handle) {
                        Some(c) => c.read_web(&mut cache),
                        None => {
                            let none = ValueContainer::Empty;
                            none.read_web(&mut cache)
                        },
                    };
                    if changed {
                        let v = copy_value(&cache.value);
                        let d = clone_strings(&dashes);
                        out.push((handle, v, d));
                    }
                    self.props.insert(k, WebProp { handle, cache, dashes });
                    proof {
                        assert forall|h: PropertyHandle| #[trigger] prop_of(*self, h) == if keys@.take(i + 1).contains(sub_key(h)) {
                            polled_prop(prop_of(start, h), stored_view(*ds, h))
                        } else {
                            prop_of(start, h)
                        } by {
                            lemma_take_contains_step(keys@, i as int, sub_key(h));
                            if sub_key(h) == k {
                                lemma_sub_key_injective(h, h0);
                            } else {
                                assert(prop_of(*self, h) == prop_of(before, h));
                            }
                        }
                        assert forall|j: int| 0 <= j < out@.len() implies is_update_of(start, *ds, #[trigger] out@[j])
                            && keys@.take(i + 1).contains(sub_key(out@[j].0)) by {
                            lemma_take_contains_step(keys@, i as int, sub_key(out@[j].0));
                            if j == out0.len() {
                                assert(out@[j].0 == h0);
                                assert(texts(out@[j].2@) == texts(dashes@));
                            } else {
                                assert(out@[j] == out0[j]);
                            }
                        }
                        assert forall|h: PropertyHandle| #[trigger] poll_changes(start, *ds, h) && keys@.take(i + 1).contains(sub_key(h))
                            implies exists|j: int| 0 <= j < out@.len() && (#[trigger] out@[j]).0 == h by {
                            lemma_take_contains_step(keys@, i as int, sub_key(h));
                            if sub_key(h) == k {
                                lemma_sub_key_injective(h, h0);
                                assert(out@[out0.len() as int].0 == h);
                            } else {
                                let j = choose|j: int| 0 <= j < out0.len() && (#[trigger] out0[j]).0 == h;
                                assert(out@[j] == out0[j]);
                            }
                        }
                        assert forall|j1: int, j2: int| 0 <= j1 < j2 < out@.len() implies (#[trigger] out@[j1]).0 != (#[trigger] out@[j2]).0 by {
                            if j2 == out0.len() {
                                assert(out@[j1] == out0[j1]);
                                assert(keys@.take(i as int).contains(sub_key(out0[j1].0)));
                                assert(out@[j2].0 == h0);
                            } else {
                                assert(out@[j1] == out0[j1]);
                                assert(out@[j2] == out0[j2]);
                            }
                        }
                    }
                },
                None => {
                    proof {
                        assert(false);
                    }
                },
            }
            i = i + 1;
        }
        proof {
            assert(keys@.take(keys@.len() as int) =~= keys@);
            assert forall|h: PropertyHandle| #[trigger] prop_of(*self, h) == polled_prop(prop_of(start, h), stored_view(*ds, h)) by {
                if !keys@.contains(sub_key(h)) {
                    assert(!keys@.to_set().contains(sub_key(h)));
                }
            }
            assert forall|h: PropertyHandle| #[trigger] poll_changes(start, *ds, h) implies exists|j: int| 0 <= j < out@.len() && (#[trigger] out@[j]).0 == h by {
                assert(keys@.to_set().contains(sub_key(h)));
                assert(keys@.take(keys@.len() as int).contains(sub_key(h)));
            }
        }
        out
    }
}

/// The updates of `ups` that go to dashboard `name`, in order: those whose
/// dashboards include it.
pub open spec fn updates_for(ups: Seq<(PropertyHandle, Value, Vec<String>)>, name: Seq<char>) -> Seq<
    (PropertyHandle, WebValueView),
>
    decreases ups.len(),
{
    if ups.len() == 0 {
        Seq::empty()
    } else {
        updates_for(ups.drop_last(), name) + if texts(ups.last().2@).contains(name) {
            seq![(ups.last().0, ups.last().1@)]
        } else {
            Seq::empty()
        }
    }
}

/// The view of an update package.
pub open spec fn package_view(p: Seq<(PropertyHandle, Value)>) -> Seq<(PropertyHandle, WebValueView)> {
    p.map_values(|e: (PropertyHandle, Value)| (e.0, e.1@))
}

fn package_for(ups: &Vec<(PropertyHandle, Value, Vec<String>)>, name: &String) -> (r: Vec<(PropertyHandle, Value)>)
    ensures
        package_view(r@) == updates_for(ups@, name@),
{
    let mut out: Vec<(PropertyHandle, Value)> = Vec::new();
    let mut i: usize = 0;
    while i < ups.len()
        invariant
            i <= ups@.len(),
            package_view(out@) == updates_for(ups@.take(i as int), name@),
        decreases ups@.len() - i,
    {
        let ghost before = out@;
        if contains_string(&ups[i].2, name) {
            out.push((ups[i].0, copy_value(&ups[i].1)));
            assert(package_view(out@) =~= package_view(before) + seq![(ups@[i as int].0, ups@[i as int].1@)]);
        } else {
            assert(package_view(out@) =~= package_view(before) + Seq::<(PropertyHandle, WebValueView)>::empty());
        }
        assert(ups@.take(i as int + 1).drop_last() =~= ups@.take(i as int));
        assert(ups@.take(i as int + 1).last() == ups@[i as int]);
        i = i + 1;
    }
    assert(ups@.take(ups@.len() as int) =~= ups@);
    out
}

/// The packages to send: for each dashboard in order, its updates (see
/// `updates_for`), left out when there are none.
pub open spec fn spec_packages(d: Seq<(String, usize)>, ups: Seq<(PropertyHandle, Value, Vec<String>)>) -> Seq<
    (Seq<char>, Seq<(PropertyHandle, WebValueView)>),
>
    decreases d.len(),
{
    if d.len() == 0 {
        Seq::empty()
    } else {
        let u = updates_for(ups, d.last().0@);
        spec_packages(d.drop_last(), ups) + if u.len() > 0 {
            seq![(d.last().0@, u)]
        } else {
            Seq::empty()
        }
    }
}

/// The views of packages.
pub open spec fn packages_view(r: Seq<(String, Vec<(PropertyHandle, Value)>)>) -> Seq<
    (Seq<char>, Seq<(PropertyHandle, WebValueView)>),
> {
    r.map_values(|e: (String, Vec<(PropertyHandle, Value)>)| (e.0@, package_view(e.1@)))
}

impl WebUpdater {
    /// The update packages to send to the connected dashboards, in the
    /// order of `dashboards`: each dashboard's updates from `ups` (see
    /// `spec_packages`); dashboards with nothing new get none.
    pub fn packages(&self, ups: &Vec<(PropertyHandle, Value, Vec<String>)>) -> (r: Vec<
        (String, Vec<(PropertyHandle, Value)>),
    >)
        ensures
            packages_view(r@) == spec_packages(self.dashboards@, ups@),
    {
        let mut out: Vec<(String, Vec<(PropertyHandle, Value)>)> = Vec::new();
        let mut i: usize = 0;
        while i < self.dashboards.len()
            invariant
                i <= self.dashboards@.len(),
                packages_view(out@) == spec_packages(self.dashboards@.take(i as int), ups@),
            decreases self.dashboards@.len() - i,
        {
            let ghost before = out@;
            let name = &self.dashboards[i].0;
            let pack = package_for(ups, name);
            proof {
                assert(self.dashboards@.take(i as int + 1).drop_last() =~= self.dashboards@.take(i as int));
                assert(self.dashboards@.take(i as int + 1).last() == self.dashboards@[i as int]);
                assert(package_view(pack@).len() == pack@.len());
            }
            if pack.len() > 0 {
                out.push((name.clone(), pack));
                assert(packages_view(out@) =~= packages_view(before) + seq![
                    (self.dashboards@[i as int].0@, updates_for(ups@, self.dashboards@[i as int].0@)),
                ]);
            } else {
                assert(packages_view(out@) =~= packages_view(before) + Seq::<
                    (Seq<char>, Seq<(PropertyHandle, WebValueView)>),
                >::empty());
            }
            i = i + 1;
        }
        assert(self.dashboards@.take(self.dashboards@.len() as int) =~= self.dashboards@);
        out
    }
}

impl WebUpdater {
    /// No property shown, no dashboard connected.
    pub fn new() -> (r: WebUpdater)
        ensures
            updater_wf(r),
            forall|h: PropertyHandle| prop_of(r, h) is None,
            r.dashboards@.len() == 0,
    {
        WebUpdater { props: HashMap::new(), dashboards: Vec::new() }
    }

    /// Shows property `h` on dashboard `name` (see `added_prop`).
    fn add_property(&mut self, h: PropertyHandle, name: &String)
        requires
            updater_wf(*old(self)),
        ensures
            updater_wf(*final(self)),
            final(self).dashboards@ == old(self).dashboards@,
            prop_of(*final(self), h) == added_prop(prop_of(*old(self), h), name@),
            forall|g: PropertyHandle| g != h ==> prop_of(*final(self), g) == prop_of(*old(self), g),
    {
        let k = subscription_key(h);
        let entry = self.props.remove(&k);
        let new_entry = match entry {
            Some(p) => {
                let WebProp { handle, cache: _, mut dashes } = p;
                if !contains_string(&dashes, name) {
                    dashes.push(name.clone());
                    assert(texts(dashes@) =~= texts(old(self).props@[k].dashes@).push(name@));
                }
                WebProp { handle, cache: ValueCache::default(), dashes }
            },
            None => {
                let mut dashes: Vec<String> = Vec::new();
                dashes.push(name.clone());
                assert(texts(dashes@) =~= seq![name@]);
                WebProp { handle: h, cache: ValueCache::default(), dashes }
            },
        };
        self.props.insert(k, new_entry);
        assert forall|g: PropertyHandle| g != h implies prop_of(*self, g) == prop_of(*old(self), g) by {
            lemma_sub_key_injective(g, h);
        }
    }

    /// Handles one message (see `process_msg_post`); `true` when more
    /// messages may be handled before the next round of updates.
    /// `dashboard_properties` are the properties that the connecting
    /// dashboard shows (`None` when it could not be loaded).
    pub fn process_msg(&mut self, msg: SocketChMsg, dashboard_properties: Option<Vec<String>>) -> (r: bool)
        requires
            updater_wf(*old(self)),
            msg matches SocketChMsg::AddDashboard(n) ==> dash_count(old(self).dashboards@, n@) matches Some(c) ==> c < usize::MAX,
            msg matches SocketChMsg::RmDashboard(n) ==> dash_count(old(self).dashboards@, n@) matches Some(c) ==> c > 0,
        ensures
            updater_wf(*final(self)),
            process_msg_post(*old(self), *final(self), msg, dashboard_properties, r),
    {
        match msg {
            SocketChMsg::AddDashboard(name) => {
                let list = match dashboard_properties {
                    Some(l) => l,
                    None => return false,
                };
                let ghost start = *self;
                let mut i: usize = 0;
                while i < list.len()
                    invariant
                        i <= list@.len(),
                        updater_wf(*self),
                        self.dashboards@ == start.dashboards@,
                        forall|h: PropertyHandle| #[trigger] prop_of(*self, h) == if names_handle(list@.take(i as int), h) {
                            added_prop(prop_of(start, h), name@)
                        } else {
                            prop_of(start, h)
                        },
                    decreases list@.len() - i,
                {
                    let ghost before = *self;
                    match PropertyHandle::new(list[i].as_str()) {
                        Some(h) => {
                            self.add_property(h, &name);
                            proof {
                                assert forall|g: PropertyHandle| #[trigger] prop_of(*self, g) == if names_handle(list@.take(i + 1), g) {
                                    added_prop(prop_of(start, g), name@)
                                } else {
                                    prop_of(start, g)
                                } by {
                                    lemma_names_handle_step(list@, i as int, g);
                                    if g == h {
                                        assert(spec_name_hashes(list@.take(i + 1)[i as int]@) == Some((g.plugin, g.property)));
                                        lemma_added_prop_twice(prop_of(start, g), name@);
                                    }
                                }
                            }
                        },
                        None => {
                            proof {
                                assert forall|g: PropertyHandle| #[trigger] prop_of(*self, g) == if names_handle(list@.take(i + 1), g) {
                                    added_prop(prop_of(start, g), name@)
                                } else {
                                    prop_of(start, g)
                                } by {
                                    lemma_names_handle_step(list@, i as int, g);
                                }
                            }
                        },
                    }
                    i = i + 1;
                }
                assert(list@.take(list@.len() as int) =~= list@);
                let ghost after_loop = *self;
                match find_dashboard(&self.dashboards, &name) {
                    Some(j) => {
                        let ghost d0 = self.dashboards@;
                        let (n, c) = self.dashboards.remove(j);
                        self.dashboards.insert(j, (n, c + 1));
                        proof {
                            assert(self.dashboards@ =~= d0.update(j as int, (d0[j as int].0, (c + 1) as usize)));
                            lemma_dash_update(d0, j as int, (c + 1) as usize);
                        }
                    },
                    None => {
                        let ghost d0 = self.dashboards@;
                        self.dashboards.push((name, 1));
                        proof {
                            assert(self.dashboards@ == d0.push(self.dashboards@.last()));
                            lemma_dash_push(d0, self.dashboards@.last());
                        }
                    },
                }
                assert forall|h: PropertyHandle| #[trigger] prop_of(*self, h) == if names_handle(list@, h) {
                        added_prop(prop_of(*old(self), h), name@)
                    } else {
                        prop_of(*old(self), h)
                    } by {
                    assert(prop_of(*self, h) == prop_of(after_loop, h));
                }
                assert(dash_count(self.dashboards@, name@) == Some(match dash_count(old(self).dashboards@, name@) {
                        Some(c) => (c + 1) as usize,
                        None => 1usize,
                    }));
                assert(forall|m: Seq<char>| m != name@ ==> dash_count(self.dashboards@, m) == dash_count(old(self).dashboards@, m));
                false
            },
            SocketChMsg::RmDashboard(name) => {
                match find_dashboard(&self.dashboards, &name) {
                    None => {},
                    Some(j) => {
                        let ghost d0 = self.dashboards@;
                        let (n, c) = self.dashboards.remove(j);
                        self.dashboards.insert(j, (n, c - 1));
                        proof {
                            assert(self.dashboards@ =~= d0.update(j as int, (d0[j as int].0, (c - 1) as usize)));
                            lemma_dash_update(d0, j as int, (c - 1) as usize);
                        }
                        if c - 1 == 0 {
                            self.remove_dashboard_props(&name);
                        }
                    },
                }
                false
            },
            SocketChMsg::ChangedProperty(_) => true,
        }
    }

    /// Takes dashboard `name` off every property and drops the properties
    /// that no dashboard shows any more.
    fn remove_dashboard_props(&mut self, name: &String)
        requires
            updater_wf(*old(self)),
        ensures
            updater_wf(*final(self)),
            final(self).dashboards@ == old(self).dashboards@,
            forall|h: PropertyHandle| #[trigger] prop_of(*final(self), h) == removed_prop(prop_of(*old(self), h), name@),
    {
        let keys = shown_keys(&self.props);
        let ghost start = *self;
        let mut i: usize = 0;
        while i < keys.len()
            invariant
                i <= keys@.len(),
                keys@.no_duplicates(),
                keys@.to_set() == start.props@.dom(),
                props_wf(start.props@),
                updater_wf(*self),
                self.dashboards@ == start.dashboards@,
                forall|h: PropertyHandle| #[trigger] prop_of(*self, h) == if keys@.take(i as int).contains(sub_key(h)) {
                    removed_prop(prop_of(start, h), name@)
                } else {
                    prop_of(start, h)
                },
            decreases keys@.len() - i,
        {
            let k = keys[i];
            proof {
                assert(keys@.to_set().contains(k));
            }
            let ghost before = *self;
            proof {
                assert(!keys@.take(i as int).contains(k)) by {
                    if keys@.take(i as int).contains(k) {
                        let j = choose|j: int| 0 <= j < keys@.take(i as int).len() && #[trigger] keys@.take(i as int)[j] == k;
                        assert(keys@[j] == keys@[i as int]);
                    }
                }
                let h0 = start.props@[k].handle;
                assert(sub_key(h0) == k);
                assert(prop_of(before, h0) == prop_of(start, h0));
            }
            match self.props.remove(&k) {
                Some(p) => {
                    let WebProp { handle, cache, dashes } = p;
                    let kept = without_dash(&dashes, name);
                    if kept.len() > 0 {
                        self.props.insert(k, WebProp { handle, cache, dashes: kept });
                    }
                    proof {
                        assert forall|h: PropertyHandle| #[trigger] prop_of(*self, h) == if keys@.take(i + 1).contains(sub_key(h)) {
                            removed_prop(prop_of(start, h), name@)
                        } else {
                            prop_of(start, h)
                        } by {
                            lemma_take_contains_step(keys@, i as int, sub_key(h));
                            if sub_key(h) == k {
                                let h0 = start.props@[k].handle;
                                lemma_sub_key_injective(h, h0);
                            } else {
                                assert(prop_of(*self, h) == prop_of(before, h));
                            }
                        }
                    }
                },
                None => {
                    proof {
                        assert(self.props@ =~= before.props@);
                        assert forall|h: PropertyHandle| #[trigger] prop_of(*self, h) == if keys@.take(i + 1).contains(sub_key(h)) {
                            removed_prop(prop_of(start, h), name@)
                        } else {
                            prop_of(start, h)
                        } by {
                            lemma_take_contains_step(keys@, i as int, sub_key(h));
                            if sub_key(h) == k {
                                let h0 = start.props@[k].handle;
                                lemma_sub_key_injective(h, h0);
                            }
                        }
                    }
                },
            }
            i = i + 1;
        }
        proof {
            assert(keys@.take(keys@.len() as int) =~= keys@);
            assert forall|h: PropertyHandle| #[trigger] prop_of(*self, h) == removed_prop(prop_of(start, h), name@) by {
                if !keys@.contains(sub_key(h)) {
                    assert(!keys@.to_set().contains(sub_key(h)));
                }
            }
        }
    }
}

/// What handling one message does: a connecting dashboard (that could be
/// loaded) shows each property it names (see `added_prop`) and counts one
/// more instance; a disconnecting one counts one less, and when none is
/// left its properties drop it (see `removed_prop`); a replaced storage
/// changes nothing here, since each poll reads the data store, but lets
/// more messages be handled before the next round of updates.
pub open spec fn process_msg_post(
    o: WebUpdater,
    n: WebUpdater,
    msg: SocketChMsg,
    dashboard_properties: Option<Vec<String>>,
    r: bool,
) -> bool {
    match msg {
        SocketChMsg::AddDashboard(name) => {
            &&& !r
            &&& match dashboard_properties {
                None => n == o,
                Some(list) => {
                    &&& forall|h: PropertyHandle| #[trigger] prop_of(n, h) == if names_handle(list@, h) {
                        added_prop(prop_of(o, h), name@)
                    } else {
                        prop_of(o, h)
                    }
                    &&& dash_count(n.dashboards@, name@) == Some(match dash_count(o.dashboards@, name@) {
                        Some(c) => (c + 1) as usize,
                        None => 1usize,
                    })
                    &&& forall|m: Seq<char>| m != name@ ==> dash_count(n.dashboards@, m) == dash_count(o.dashboards@, m)
                },
            }
        },
        SocketChMsg::RmDashboard(name) => {
            &&& !r
            &&& match dash_count(o.dashboards@, name@) {
                None => n == o,
                Some(c) => {
                    &&& dash_count(n.dashboards@, name@) == Some((c - 1) as usize)
                    &&& forall|m: Seq<char>| m != name@ ==> dash_count(n.dashboards@, m) == dash_count(o.dashboards@, m)
                    &&& forall|h: PropertyHandle| #[trigger] prop_of(n, h) == if c == 1 {
                        removed_prop(prop_of(o, h), name@)
                    } else {
                        prop_of(o, h)
                    }
                },
            }
        },
        SocketChMsg::ChangedProperty(_) => r && n == o,
    }
}

proof fn lemma_names_handle_step(list: Seq<String>, i: int, g: PropertyHandle)
    requires
        0 <= i < list.len(),
    ensures
        names_handle(list.take(i + 1), g) == (names_handle(list.take(i), g) || spec_name_hashes(list[i]@) == Some((g.plugin, g.property))),
{
    if names_handle(list.take(i + 1), g) {
        let j = choose|j: int| 0 <= j < list.take(i + 1).len() && #[trigger] spec_name_hashes(list.take(i + 1)[j]@) == Some((g.plugin, g.property));
        if j < i {
            assert(list.take(i)[j] == list.take(i + 1)[j]);
        }
    }
    if names_handle(list.take(i), g) {
        let j = choose|j: int| 0 <= j < list.take(i).len() && #[trigger] spec_name_hashes(list.take(i)[j]@) == Some((g.plugin, g.property));
        assert(list.take(i + 1)[j] == list.take(i)[j]);
    }
    if spec_name_hashes(list[i]@) == Some((g.plugin, g.property)) {
        assert(list.take(i + 1)[i] == list[i]);
    }
}

/// Showing a property on a dashboard twice is showing it once.
proof fn lemma_added_prop_twice(
    p: Option<((WebValueView, Option<usize>), Seq<Seq<char>>)>,
    name: Seq<char>,
)
    ensures
        added_prop(added_prop(p, name), name) == added_prop(p, name),
{
    match p {
        Some((_, d)) => {
            if !d.contains(name) {
                assert(d.push(name)[d.len() as int] == name);
            }
        },
        None => {
            assert(seq![name][0] == name);
        },
    }
}

proof fn lemma_take_contains_step(s: Seq<u128>, i: int, k: u128)
    requires
        0 <= i < s.len(),
    ensures
        s.take(i + 1).contains(k) == (s.take(i).contains(k) || s[i] == k),
{
    if s.take(i + 1).contains(k) {
        let j = choose|j: int| 0 <= j < s.take(i + 1).len() && #[trigger] s.take(i + 1)[j] == k;
        if j < i {
            assert(s.take(i)[j] == k);
        }
    }
    if s.take(i).contains(k) {
        let j = choose|j: int| 0 <= j < s.take(i).len() && #[trigger] s.take(i)[j] == k;
        assert(s.take(i + 1)[j] == k);
    }
    if s[i] == k {
        assert(s.take(i + 1)[i] == k);
    }
}

proof fn lemma_dash_update(d: Seq<(String, usize)>, j: int, c: usize)
    requires
        0 <= j < d.len(),
        dash_names(d).no_duplicates(),
    ensures
        dash_names(d.update(j, (d[j].0, c))).no_duplicates(),
        dash_count(d.update(j, (d[j].0, c)), d[j].0@) == Some(c),
        forall|m: Seq<char>| m != d[j].0@ ==> dash_count(d.update(j, (d[j].0, c)), m) == dash_count(d, m),
{
    let e = d.update(j, (d[j].0, c));
    assert(dash_names(e) =~= dash_names(d));
    assert(dash_names(e)[j] == d[j].0@);
    let i = choose|i: int| 0 <= i < e.len() && e[i].0@ == d[j].0@;
    assert(dash_names(e)[i] == dash_names(e)[j]);
    assert forall|m: Seq<char>| m != d[j].0@ implies dash_count(e, m) == dash_count(d, m) by {
        if dash_names(d).contains(m) {
            let a = choose|a: int| 0 <= a < d.len() && d[a].0@ == m;
            let b = choose|b: int| 0 <= b < e.len() && e[b].0@ == m;
            assert(dash_names(d)[a] == m);
            assert(dash_names(d)[b] == m);
        }
    }
}

proof fn lemma_dash_push(d: Seq<(String, usize)>, x: (String, usize))
    requires
        dash_names(d).no_duplicates(),
        !dash_names(d).contains(x.0@),
    ensures
        dash_names(d.push(x)).no_duplicates(),
        dash_count(d.push(x), x.0@) == Some(x.1),
        forall|m: Seq<char>| m != x.0@ ==> dash_count(d.push(x), m) == dash_count(d, m),
{
    let e = d.push(x);
    assert(dash_names(e) =~= dash_names(d).push(x.0@));
    crate::dashboard::lemma_push_to_set(dash_names(d), x.0@);
    assert(dash_names(e)[d.len() as int] == x.0@);
    let i = choose|i: int| 0 <= i < e.len() && e[i].0@ == x.0@;
    if i < d.len() {
        assert(dash_names(d)[i] == x.0@);
    }
    assert forall|m: Seq<char>| m != x.0@ implies dash_count(e, m) == dash_count(d, m) by {
        if dash_names(d).contains(m) {
            let a = choose|a: int| 0 <= a < d.len() && d[a].0@ == m;
            assert(e[a] == d[a]);
            let b = choose|b: int| 0 <= b < e.len() && e[b].0@ == m;
            assert(dash_names(e)[b] == m);
            assert(dash_names(e)[a] == m);
        } else {
            if dash_names(e).contains(m) {
                let b = choose|b: int| 0 <= b < dash_names(e).len() && dash_names(e)[b] == m;
                assert(dash_names(d)[b] == m);
            }
        }
    }
}

/// Filtering keeps a sequence whose elements all pass.
proof fn lemma_filter_keeps_all(d: Seq<Seq<char>>, name: Seq<char>)
    requires
        !d.contains(name),
    ensures
        d.filter(other_dash(name)) == d,
    decreases d.len(),
{
    reveal(Seq::filter);
    if d.len() > 0 {
        assert(!d.drop_last().contains(name)) by {
            if d.drop_last().contains(name) {
                let k = choose|k: int| 0 <= k < d.drop_last().len() && d.drop_last()[k] == name;
                assert(d[k] == name);
            }
        }
        lemma_filter_keeps_all(d.drop_last(), name);
        assert(d[d.len() - 1] != name);
        assert(d.drop_last().push(d.last()) =~= d);
    }
}

/// An instance of a dashboard that connects and, as the last one,
/// disconnects again leaves each property as it was, but for a cleared
/// cache: a property it alone showed is dropped again.
pub proof fn lemma_connect_then_disconnect(
    p: Option<((WebValueView, Option<usize>), Seq<Seq<char>>)>,
    name: Seq<char>,
)
    requires
        p matches Some((_, d)) ==> !d.contains(name) && d.len() > 0,
    ensures
        removed_prop(added_prop(p, name), name) == match p {
            None => None,
            Some((_, d)) => Some(((WebValueView::Empty, None::<usize>), d)),
        },
{
    reveal(Seq::filter);
    match p {
        None => {
            let one = seq![name];
            assert(one.drop_last() =~= Seq::<Seq<char>>::empty());
            assert(one.drop_last().filter(other_dash(name)) =~= Seq::<Seq<char>>::empty());
            assert(one.last() == name);
            assert(!(other_dash(name))(name));
            assert(one.filter(other_dash(name)) =~= Seq::<Seq<char>>::empty());
        },
        Some((_, d)) => {
            lemma_filter_keeps_all(d, name);
            assert(d.push(name).drop_last() =~= d);
            assert(d.push(name).filter(other_dash(name)) == d.filter(other_dash(name)));
        },
    }
}

/// The form in which dashboards show a written value.
pub open spec fn web_form(v: PropertyView) -> WebValueView {
    match v {
        PropertyView::Int(x) => WebValueView::Int(x),
        PropertyView::Float(x) => WebValueView::Float(x),
        PropertyView::Boolean(x) => WebValueView::Bool(x),
        PropertyView::Str(x) => WebValueView::Str(x),
        PropertyView::Duration(x) => WebValueView::Dur(x),
        _ => WebValueView::Empty,
    }
}

/// What a plugin writes into a property is what the dashboards that show
/// it are sent: after a successful write of `v`, the next poll against the
/// data store either sends `v` (and caches it) or finds that the
/// dashboards already show a value equal to it. A string counts as shown
/// when the cache holds the version the write gave it, so that case is
/// left out.
pub proof fn lemma_write_then_dashboards_show(
    owner: PluginRunner,
    o: DataStore,
    n: DataStore,
    h: PropertyHandle,
    v: PropertyView,
    u: WebUpdater,
)
    requires
        update_post(owner, o, n, h, v, DataStoreReturnCode::Success),
        prop_of(u, h) is Some,
        stored_view(n, h) matches ContainerView::Str(_, ver) ==> prop_of(u, h)->Some_0.0.1 != Some(ver),
    ensures
        poll_changes(u, n, h) ==> polled_prop(prop_of(u, h), stored_view(n, h))->Some_0.0.0 == web_form(v),
        !poll_changes(u, n, h) ==> spec_value_eq(prop_of(u, h)->Some_0.0.0, web_form(v)),
        polled_prop(prop_of(u, h), stored_view(n, h))->Some_0.1 == prop_of(u, h)->Some_0.1,
{
}

} // verus!
