use vstd::prelude::*;
use crate::handles::EventHandle;

verus! {

/// The table of events, keyed by (plugin hash, event hash): whether the event
/// was created, and the plugins subscribed to it in the order they
/// subscribed. It is a `hashbrown::HashMap`, reached only through the
/// functions below.
#[verifier::external_body]
#[derive(Debug)]
pub struct EventTable {
    map: hashbrown::HashMap<(u64, u64), (bool, Vec<u64>)>,
}

/// What the table holds.
pub uninterp spec fn table_contents(t: EventTable) -> Map<(u64, u64), (bool, Seq<u64>)>;

/// The table that holds nothing.
pub open spec fn empty_table() -> Map<(u64, u64), (bool, Seq<u64>)> {
    Map::empty()
}

/// `hashbrown::HashMap::new`: an empty table.
#[verifier::external_body]
fn table_new() -> (r: EventTable)
    ensures
        table_contents(r) == empty_table(),
{
    EventTable { map: hashbrown::HashMap::new() }
}

/// `hashbrown::HashMap::get`: the entry under `k`, if any.
#[verifier::external_body]
fn table_get(t: &EventTable, k: (u64, u64)) -> (r: Option<&(bool, Vec<u64>)>)
    ensures
        r is Some <==> table_contents(*t).dom().contains(k),
        r matches Some(e) ==> table_contents(*t)[k] == (e.0, e.1@),
{
    t.map.get(&k)
}

/// `hashbrown::HashMap::insert`: puts `v` under `k`, replacing any entry.
#[verifier::external_body]
fn table_insert(t: &mut EventTable, k: (u64, u64), v: (bool, Vec<u64>))
    ensures
        table_contents(*final(t)) == table_contents(*old(t)).insert(k, (v.0, v.1@)),
{
    t.map.insert(k, v);
}

/// `hashbrown::HashMap::remove`: takes the entry under `k` out, if any.
#[verifier::external_body]
fn table_remove(t: &mut EventTable, k: (u64, u64)) -> (r: Option<(bool, Vec<u64>)>)
    ensures
        table_contents(*final(t)) == table_contents(*old(t)).remove(k),
        r is Some <==> table_contents(*old(t)).dom().contains(k),
        r matches Some(e) ==> table_contents(*old(t))[k] == (e.0, e.1@),
{
    t.map.remove(&k)
}

/// `hashbrown::HashMap::keys`, collected: every key once, in the table's
/// own order (which the contract leaves open).
#[verifier::external_body]
fn table_keys(t: &EventTable) -> (r: Vec<(u64, u64)>)
    ensures
        r@.no_duplicates(),
        r@.to_set() == table_contents(*t).dom(),
{
    t.map.keys().copied().collect()
}


/// A request to the event registry.
#[derive(Debug, Clone, Copy, PartialEq, Eq, Structural)]
pub enum EventMessage {
    Create(EventHandle),
    Remove(EventHandle),
    Subscribe(EventHandle, u64),
    Unsubscribe(EventHandle, u64),
    Trigger(EventHandle),
    Shutdown,
    RemovePlugin(u64),
}

/// What a plugin is told about an event.
#[derive(Debug, Clone, Copy, PartialEq, Eq, Structural)]
pub enum EventNotice {
    Triggered(EventHandle),
    Unsubscribed(EventHandle),
}

/// The outcome of one request: the notices to deliver (plugin, notice) in
/// order, the events whose removal is to be requested next, and whether the
/// registry stops.
#[derive(Debug)]
pub struct EventStep {
    pub notices: Vec<(u64, EventNotice)>,
    pub follow_up: Vec<EventHandle>,
    pub stop: bool,
}

pub open spec fn event_key(ev: EventHandle) -> (u64, u64) {
    (ev.plugin, ev.event)
}

/// `ls` without the plugin `p`, in order.
pub open spec fn without(ls: Seq<u64>, p: u64) -> Seq<u64>
    decreases ls.len(),
{
    if ls.len() == 0 {
        ls
    } else {
        let w = without(ls.drop_last(), p);
        if ls.last() == p {
            w
        } else {
            w.push(ls.last())
        }
    }
}

/// `ls` with the plugin `p` added at the end, unless it is already there.
pub open spec fn with_subscriber(ls: Seq<u64>, p: u64) -> Seq<u64> {
    if ls.contains(p) {
        ls
    } else {
        ls.push(p)
    }
}

/// The notice `n` for every plugin of `ls`, in order.
pub open spec fn notify(ls: Seq<u64>, n: EventNotice) -> Seq<(u64, EventNotice)> {
    ls.map_values(|p: u64| (p, n))
}

/// Every subscriber list holds each plugin at most once.
pub open spec fn table_wf(m: Map<(u64, u64), (bool, Seq<u64>)>) -> bool {
    forall|k: (u64, u64)| #[trigger] m.dom().contains(k) ==> m[k].1.no_duplicates()
}

/// The table after a request.
pub open spec fn spec_next_table(m: Map<(u64, u64), (bool, Seq<u64>)>, msg: EventMessage) -> Map<
    (u64, u64),
    (bool, Seq<u64>),
> {
    match msg {
        EventMessage::Create(ev) => {
            let k = event_key(ev);
            if m.dom().contains(k) {
                m.insert(k, (true, m[k].1))
            } else {
                m.insert(k, (true, Seq::empty()))
            }
        },
        EventMessage::Remove(ev) => m.remove(event_key(ev)),
        EventMessage::Subscribe(ev, p) => {
            let k = event_key(ev);
            if m.dom().contains(k) {
                m.insert(k, (m[k].0, with_subscriber(m[k].1, p)))
            } else {
                m.insert(k, (false, seq![p]))
            }
        },
        EventMessage::Unsubscribe(ev, p) => {
            let k = event_key(ev);
            if m.dom().contains(k) && m[k].1.contains(p) {
                m.insert(k, (m[k].0, without(m[k].1, p)))
            } else {
                m
            }
        },
        EventMessage::Trigger(_) => m,
        EventMessage::Shutdown => m,
        EventMessage::RemovePlugin(p) => Map::new(
            |k: (u64, u64)| m.dom().contains(k),
            |k: (u64, u64)|
                if k.0 == p {
                    m[k]
                } else {
                    (m[k].0, without(m[k].1, p))
                },
        ),
    }
}

/// The notices that a request causes.
pub open spec fn spec_notices(m: Map<(u64, u64), (bool, Seq<u64>)>, msg: EventMessage) -> Seq<
    (u64, EventNotice),
> {
    match msg {
        EventMessage::Trigger(ev) => if m.dom().contains(event_key(ev)) {
            notify(m[event_key(ev)].1, EventNotice::Triggered(ev))
        } else {
            Seq::empty()
        },
        EventMessage::Remove(ev) => if m.dom().contains(event_key(ev)) {
            notify(m[event_key(ev)].1, EventNotice::Unsubscribed(ev))
        } else {
            Seq::empty()
        },
        EventMessage::Unsubscribe(ev, p) => if m.dom().contains(event_key(ev))
            && m[event_key(ev)].1.contains(p) {
            seq![(p, EventNotice::Unsubscribed(ev))]
        } else {
            Seq::empty()
        },
        _ => Seq::empty(),
    }
}

/// The events owned by plugin `p`.
pub open spec fn owned_events(m: Map<(u64, u64), (bool, Seq<u64>)>, p: u64) -> Set<EventHandle> {
    Set::new(|ev: EventHandle| m.dom().contains(event_key(ev)) && ev.plugin == p)
}

pub proof fn lemma_without_contains(ls: Seq<u64>, p: u64, x: u64)
    ensures
        without(ls, p).contains(x) <==> (ls.contains(x) && x != p),
    decreases ls.len(),
{
    if ls.len() > 0 {
        let d = ls.drop_last();
        lemma_without_contains(d, p, x);
        let w = without(d, p);
        if ls.contains(x) {
            let k = choose|k: int| 0 <= k < ls.len() && ls[k] == x;
            if k < ls.len() - 1 {
                assert(d[k] == x);
            }
        }
        if d.contains(x) {
            let k = choose|k: int| 0 <= k < d.len() && d[k] == x;
            assert(ls[k] == x);
        }
        if ls.last() != p {
            if w.push(ls.last()).contains(x) {
                let k = choose|k: int| 0 <= k < w.push(ls.last()).len() && w.push(ls.last())[k] == x;
                if k < w.len() {
                    assert(w[k] == x);
                }
            }
            if w.contains(x) {
                let k = choose|k: int| 0 <= k < w.len() && w[k] == x;
                assert(w.push(ls.last())[k] == x);
            }
            assert(w.push(ls.last())[w.len() as int] == ls.last());
        }
    }
}

pub proof fn lemma_without_no_duplicates(ls: Seq<u64>, p: u64)
    requires
        ls.no_duplicates(),
    ensures
        without(ls, p).no_duplicates(),
    decreases ls.len(),
{
    if ls.len() > 0 {
        let d = ls.drop_last();
        assert(d.no_duplicates());
        lemma_without_no_duplicates(d, p);
        if ls.last() != p {
            let w = without(d, p);
            lemma_without_contains(d, p, ls.last());
            assert(!d.contains(ls.last())) by {
                if d.contains(ls.last()) {
                    let k = choose|k: int| 0 <= k < d.len() && d[k] == ls.last();
                    assert(ls[k] == ls[ls.len() - 1]);
                }
            }
            crate::dashboard::lemma_push_to_set(w, ls.last());
        }
    }
}

pub proof fn lemma_with_subscriber(ls: Seq<u64>, p: u64)
    requires
        ls.no_duplicates(),
    ensures
        with_subscriber(ls, p).no_duplicates(),
        with_subscriber(ls, p).contains(p),
        forall|x: u64| ls.contains(x) ==> with_subscriber(ls, p).contains(x),
{
    if !ls.contains(p) {
        crate::dashboard::lemma_push_to_set(ls, p);
        assert(ls.push(p)[ls.len() as int] == p);
        assert forall|x: u64| ls.contains(x) implies ls.push(p).contains(x) by {
            let k = choose|k: int| 0 <= k < ls.len() && ls[k] == x;
            assert(ls.push(p)[k] == x);
        }
    }
}

fn copy_ids(v: &Vec<u64>) -> (r: Vec<u64>)
    ensures
        r@ == v@,
{
    let mut r: Vec<u64> = Vec::new();
    let mut i: usize = 0;
    while i < v.len()
        invariant
            i <= v@.len(),
            r@ == v@.take(i as int),
        decreases v@.len() - i,
    {
        r.push(v[i]);
        i = i + 1;
        assert(r@ =~= v@.take(i as int));
    }
    assert(v@.take(v@.len() as int) =~= v@);
    r
}

fn contains_id(v: &Vec<u64>, p: u64) -> (r: bool)
    ensures
        r == v@.contains(p),
{
    let mut i: usize = 0;
    while i < v.len()
        invariant
            i <= v@.len(),
            forall|j: int| 0 <= j < i ==> v@[j] != p,
        decreases v@.len() - i,
    {
        if v[i] == p {
            return true;
        }
        i = i + 1;
    }
    false
}

fn remove_id(v: &Vec<u64>, p: u64) -> (r: Vec<u64>)
    ensures
        r@ == without(v@, p),
{
    let mut r: Vec<u64> = Vec::new();
    let mut i: usize = 0;
    while i < v.len()
        invariant
            i <= v@.len(),
            r@ == without(v@.take(i as int), p),
        decreases v@.len() - i,
    {
        assert(v@.take(i as int + 1).drop_last() =~= v@.take(i as int));
        if v[i] != p {
            r.push(v[i]);
        }
        i = i + 1;
    }
    assert(v@.take(v@.len() as int) =~= v@);
    r
}

fn notices_for(v: &Vec<u64>, n: EventNotice, out: &mut Vec<(u64, EventNotice)>)
    ensures
        final(out)@ == old(out)@ + notify(v@, n),
{
    let mut i: usize = 0;
    while i < v.len()
        invariant
            i <= v@.len(),
            out@ == old(out)@ + notify(v@.take(i as int), n),
        decreases v@.len() - i,
    {
        out.push((v[i], n));
        i = i + 1;
        assert(out@ =~= old(out)@ + notify(v@.take(i as int), n));
    }
    assert(v@.take(v@.len() as int) =~= v@);
}

/// The registry of events and of the plugins subscribed to them. An event
/// may be subscribed to before it is created.
#[derive(Debug)]
pub struct EventRegistry {
    mappings: EventTable,
}

impl EventRegistry {
    pub closed spec fn table(&self) -> Map<(u64, u64), (bool, Seq<u64>)> {
        table_contents(self.mappings)
    }

    pub open spec fn wf(&self) -> bool {
        table_wf(self.table())
    }

    pub fn new() -> (r: Self)
        ensures
            r.table() == empty_table(),
            r.wf(),
    {
        EventRegistry { mappings: table_new() }
    }

    /// Processes one request: updates the table and says whom to notify.
    pub fn handle(&mut self, msg: EventMessage) -> (r: EventStep)
        requires
            old(self).wf(),
        ensures
            final(self).wf(),
            final(self).table() == spec_next_table(old(self).table(), msg),
            r.notices@ == spec_notices(old(self).table(), msg),
            r.stop == (msg is Shutdown),
            r.follow_up@.no_duplicates(),
            r.follow_up@.to_set() == match msg {
                EventMessage::RemovePlugin(p) => owned_events(old(self).table(), p),
                _ => Set::empty(),
            },
    {
        let mut notices: Vec<(u64, EventNotice)> = Vec::new();
        let mut follow_up: Vec<EventHandle> = Vec::new();
        let ghost m = self.table();
        match msg {
            EventMessage::Shutdown => {
                assert(follow_up@.to_set() =~= Set::empty());
                return EventStep { notices, follow_up, stop: true };
            },
            EventMessage::Trigger(ev) => {
                if let Some(entry) = table_get(&self.mappings, (ev.plugin, ev.event)) {
                    notices_for(&entry.1, EventNotice::Triggered(ev), &mut notices);
                    assert(notices@ =~= spec_notices(m, msg));
                } else {
                    assert(notices@ =~= spec_notices(m, msg));
                }
            },
            EventMessage::Create(ev) => {
                let k = (ev.plugin, ev.event);
                let listeners = match table_get(&self.mappings, k) {
                    Some(entry) => copy_ids(&entry.1),
                    None => Vec::new(),
                };
                table_insert(&mut self.mappings, k, (true, listeners));
                assert(self.table() =~= spec_next_table(m, msg));
                assert(notices@ =~= spec_notices(m, msg));
            },
            EventMessage::Remove(ev) => {
                let k = (ev.plugin, ev.event);
                if let Some(entry) = table_remove(&mut self.mappings, k) {
                    notices_for(&entry.1, EventNotice::Unsubscribed(ev), &mut notices);
                }
                assert(notices@ =~= spec_notices(m, msg));
            },
            EventMessage::Subscribe(ev, plugin) => {
                let k = (ev.plugin, ev.event);
                let entry = match table_get(&self.mappings, k) {
                    Some(entry) => {
                        let mut listeners = copy_ids(&entry.1);
                        if !contains_id(&listeners, plugin) {
                            listeners.push(plugin);
                        }
                        proof {
                            lemma_with_subscriber(m[k].1, plugin);
                        }
                        (entry.0, listeners)
                    },
                    None => {
                        let mut listeners: Vec<u64> = Vec::new();
                        listeners.push(plugin);
                        assert(listeners@ =~= seq![plugin]);
                        (false, listeners)
                    },
                };
                table_insert(&mut self.mappings, k, entry);
                assert(self.table() =~= spec_next_table(m, msg));
                assert(notices@ =~= spec_notices(m, msg));
            },
            EventMessage::Unsubscribe(ev, plugin) => {
                let k = (ev.plugin, ev.event);
                let change = match table_get(&self.mappings, k) {
                    Some(entry) => {
                        if contains_id(&entry.1, plugin) {
                            proof {
                                lemma_without_no_duplicates(m[k].1, plugin);
                            }
                            Some((entry.0, remove_id(&entry.1, plugin)))
                        } else {
                            None
                        }
                    },
                    None => None,
                };
                if let Some(entry) = change {
                    table_insert(&mut self.mappings, k, entry);
                    notices.push((plugin, EventNotice::Unsubscribed(ev)));
                }
                assert(self.table() =~= spec_next_table(m, msg));
                assert(notices@ =~= spec_notices(m, msg));
            },
            EventMessage::RemovePlugin(plugin) => {
                let keys = table_keys(&self.mappings);
                let mut i: usize = 0;
                let ghost target = spec_next_table(m, msg);
                assert(keys@.take(0) =~= Seq::<(u64, u64)>::empty());
                while i < keys.len()
                    invariant
                        i <= keys@.len(),
                        keys@.no_duplicates(),
                        keys@.to_set() == m.dom(),
                        table_wf(m),
                        target == spec_next_table(m, msg),
                        msg == EventMessage::RemovePlugin(plugin),
                        self.table().dom() == m.dom(),
                        forall|k: (u64, u64)| #[trigger]
                            self.table().dom().contains(k) ==> self.table()[k] == if keys@.take(
                                i as int,
                            ).contains(k) {
                                target[k]
                            } else {
                                m[k]
                            },
                        follow_up@.no_duplicates(),
                        forall|ev: EventHandle| #[trigger]
                            follow_up@.contains(ev) <==> (keys@.take(i as int).contains(event_key(ev))
                                && ev.plugin == plugin),
                    decreases keys@.len() - i,
                {
                    let k = keys[i];
                    assert(keys@.to_set().contains(k));
                    proof {
                        let p1 = keys@.take(i as int + 1);
                        let p0 = keys@.take(i as int);
                        assert forall|x: (u64, u64)| #[trigger] p1.contains(x) <==> (p0.contains(x) || x == k) by {
                            if p1.contains(x) {
                                let j = choose|j: int| 0 <= j < p1.len() && p1[j] == x;
                                if j < i {
                                    assert(p0[j] == x);
                                }
                            }
                            if p0.contains(x) {
                                let j = choose|j: int| 0 <= j < p0.len() && p0[j] == x;
                                assert(p1[j] == x);
                            }
                            if x == k {
                                assert(p1[i as int] == x);
                            }
                        }
                        assert(!p0.contains(k)) by {
                            if p0.contains(k) {
                                let j = choose|j: int| 0 <= j < p0.len() && p0[j] == k;
                                assert(keys@[j] == keys@[i as int]);
                            }
                        }
                    }
                    if k.0 == plugin {
                        let ev = EventHandle { plugin: k.0, event: k.1 };
                        proof {
                            assert(!follow_up@.contains(ev));
                            crate::dashboard::lemma_push_to_set(follow_up@, ev);
                            assert forall|e: EventHandle| #[trigger]
                                follow_up@.push(ev).contains(e) <==> (follow_up@.contains(e) || e == ev) by {
                                let fp = follow_up@.push(ev);
                                if fp.contains(e) {
                                    let j = choose|j: int| 0 <= j < fp.len() && fp[j] == e;
                                    if j < follow_up@.len() {
                                        assert(follow_up@[j] == e);
                                    }
                                }
                                if follow_up@.contains(e) {
                                    let j = choose|j: int| 0 <= j < follow_up@.len() && follow_up@[j] == e;
                                    assert(follow_up@.push(ev)[j] == e);
                                }
                                if e == ev {
                                    assert(follow_up@.push(ev)[follow_up@.len() as int] == e);
                                }
                            }
                        }
                        follow_up.push(ev);
                    } else {
                        let entry = match table_get(&self.mappings, k) {
                            Some(entry) => {
                                proof {
                                    lemma_without_no_duplicates(m[k].1, plugin);
                                }
                                Some((entry.0, remove_id(&entry.1, plugin)))
                            },
                            None => None,
                        };
                        if let Some(entry) = entry {
                            table_insert(&mut self.mappings, k, entry);
                        }
                    }
                    i = i + 1;
                }
                assert(keys@.take(keys@.len() as int) =~= keys@);
                assert forall|k: (u64, u64)| m.dom().contains(k) implies keys@.contains(k) by {
                    assert(keys@.to_set().contains(k));
                }
                assert(self.table() =~= target);
                assert(follow_up@.to_set() =~= owned_events(m, plugin)) by {
                    assert forall|ev: EventHandle| follow_up@.to_set().contains(ev)
                        <==> owned_events(m, plugin).contains(ev) by {
                        if m.dom().contains(event_key(ev)) {
                            assert(keys@.to_set().contains(event_key(ev)));
                        }
                    }
                }
                assert(notices@ =~= spec_notices(m, msg));
            },
        }
        proof {
            assert forall|k: (u64, u64)| #[trigger] self.table().dom().contains(k) implies self.table()[k].1.no_duplicates() by {
                match msg {
                    EventMessage::RemovePlugin(p) => {
                        if k.0 != p {
                            lemma_without_no_duplicates(m[k].1, p);
                        }
                    },
                    EventMessage::Unsubscribe(ev, p) => {
                        if k == event_key(ev) && m.dom().contains(k) && m[k].1.contains(p) {
                            lemma_without_no_duplicates(m[k].1, p);
                        }
                    },
                    EventMessage::Subscribe(ev, p) => {
                        if k == event_key(ev) && m.dom().contains(k) {
                            lemma_with_subscriber(m[k].1, p);
                        }
                    },
                    _ => {},
                }
            }
            assert(follow_up@.to_set() =~= match msg {
                EventMessage::RemovePlugin(p) => owned_events(m, p),
                _ => Set::empty(),
            });
        }
        EventStep { notices, follow_up, stop: false }
    }
}
/// A notice reaches a plugin exactly when the plugin is on the list.
pub proof fn lemma_notify_contains(ls: Seq<u64>, n: EventNotice, p: u64)
    ensures
        notify(ls, n).contains((p, n)) <==> ls.contains(p),
{
    if ls.contains(p) {
        let k = choose|k: int| 0 <= k < ls.len() && ls[k] == p;
        assert(notify(ls, n)[k] == (p, n));
    }
    if notify(ls, n).contains((p, n)) {
        let k = choose|k: int| 0 <= k < notify(ls, n).len() && notify(ls, n)[k] == (p, n);
        assert(ls[k] == p);
    }
}

/// A plugin that subscribes to an event is told when it is triggered next,
/// whether or not the event has been created yet.
pub proof fn lemma_subscribe_then_trigger(m: Map<(u64, u64), (bool, Seq<u64>)>, ev: EventHandle, p: u64)
    requires
        table_wf(m),
    ensures
        spec_notices(spec_next_table(m, EventMessage::Subscribe(ev, p)), EventMessage::Trigger(ev)).contains(
            (p, EventNotice::Triggered(ev)),
        ),
{
    let k = event_key(ev);
    let m2 = spec_next_table(m, EventMessage::Subscribe(ev, p));
    if m.dom().contains(k) {
        lemma_with_subscriber(m[k].1, p);
    } else {
        assert(seq![p].contains(p)) by {
            assert(seq![p][0] == p);
        }
    }
    lemma_notify_contains(m2[k].1, EventNotice::Triggered(ev), p);
}

/// A subscription made before the event exists survives the event's
/// creation.
pub proof fn lemma_presubscription_survives_create(
    m: Map<(u64, u64), (bool, Seq<u64>)>,
    ev: EventHandle,
    p: u64,
)
    requires
        table_wf(m),
    ensures
        ({
            let m2 = spec_next_table(
                spec_next_table(m, EventMessage::Subscribe(ev, p)),
                EventMessage::Create(ev),
            );
            &&& m2[event_key(ev)].0
            &&& spec_notices(m2, EventMessage::Trigger(ev)).contains((p, EventNotice::Triggered(ev)))
        }),
{
    let k = event_key(ev);
    let m1 = spec_next_table(m, EventMessage::Subscribe(ev, p));
    if m.dom().contains(k) {
        lemma_with_subscriber(m[k].1, p);
    } else {
        assert(seq![p].contains(p)) by {
            assert(seq![p][0] == p);
        }
    }
    let m2 = spec_next_table(m1, EventMessage::Create(ev));
    assert(m2[k].1 == m1[k].1);
    lemma_notify_contains(m2[k].1, EventNotice::Triggered(ev), p);
}

/// After unsubscribing, a plugin is not told of triggers of the event.
pub proof fn lemma_unsubscribe_then_no_trigger(
    m: Map<(u64, u64), (bool, Seq<u64>)>,
    ev: EventHandle,
    p: u64,
)
    requires
        table_wf(m),
    ensures
        !spec_notices(spec_next_table(m, EventMessage::Unsubscribe(ev, p)), EventMessage::Trigger(ev)).contains(
            (p, EventNotice::Triggered(ev)),
        ),
{
    let k = event_key(ev);
    let m2 = spec_next_table(m, EventMessage::Unsubscribe(ev, p));
    if m2.dom().contains(k) {
        if m.dom().contains(k) && m[k].1.contains(p) {
            lemma_without_contains(m[k].1, p, p);
        }
        lemma_notify_contains(m2[k].1, EventNotice::Triggered(ev), p);
    }
}

/// Removing an event tells each of its subscribers, and afterwards its
/// triggers reach nobody.
pub proof fn lemma_remove_notifies_subscribers(
    m: Map<(u64, u64), (bool, Seq<u64>)>,
    ev: EventHandle,
    p: u64,
)
    requires
        m.dom().contains(event_key(ev)),
        m[event_key(ev)].1.contains(p),
    ensures
        spec_notices(m, EventMessage::Remove(ev)).contains((p, EventNotice::Unsubscribed(ev))),
        spec_notices(spec_next_table(m, EventMessage::Remove(ev)), EventMessage::Trigger(ev)).len() == 0,
{
    lemma_notify_contains(m[event_key(ev)].1, EventNotice::Unsubscribed(ev), p);
}

/// Once a plugin is removed it is told of no trigger of another plugin's
/// event.
pub proof fn lemma_removed_plugin_not_triggered(
    m: Map<(u64, u64), (bool, Seq<u64>)>,
    ev: EventHandle,
    p: u64,
)
    requires
        ev.plugin != p,
    ensures
        !spec_notices(spec_next_table(m, EventMessage::RemovePlugin(p)), EventMessage::Trigger(ev)).contains(
            (p, EventNotice::Triggered(ev)),
        ),
{
    let k = event_key(ev);
    let m2 = spec_next_table(m, EventMessage::RemovePlugin(p));
    if m2.dom().contains(k) {
        lemma_without_contains(m[k].1, p, p);
        lemma_notify_contains(m2[k].1, EventNotice::Triggered(ev), p);
    }
}

/// Unsubscribing one plugin leaves every other subscriber in place: each
/// plugin other than `p` that was subscribed to the event is still told of
/// its next trigger, and nobody new is.
pub proof fn lemma_unsubscribe_keeps_others(
    m: Map<(u64, u64), (bool, Seq<u64>)>,
    ev: EventHandle,
    p: u64,
    q: u64,
)
    requires
        table_wf(m),
        q != p,
    ensures
        spec_notices(spec_next_table(m, EventMessage::Unsubscribe(ev, p)), EventMessage::Trigger(ev)).contains(
            (q, EventNotice::Triggered(ev)),
        ) <==> spec_notices(m, EventMessage::Trigger(ev)).contains((q, EventNotice::Triggered(ev))),
{
    let k = event_key(ev);
    let m2 = spec_next_table(m, EventMessage::Unsubscribe(ev, p));
    if m.dom().contains(k) {
        lemma_without_contains(m[k].1, p, q);
        lemma_notify_contains(m[k].1, EventNotice::Triggered(ev), q);
        lemma_notify_contains(m2[k].1, EventNotice::Triggered(ev), q);
    }
}

/// Removing a plugin leaves the other subscribers of other plugins' events
/// in place: they are still told of the next trigger.
pub proof fn lemma_remove_plugin_keeps_others(
    m: Map<(u64, u64), (bool, Seq<u64>)>,
    ev: EventHandle,
    p: u64,
    q: u64,
)
    requires
        q != p,
        ev.plugin != p,
    ensures
        spec_notices(spec_next_table(m, EventMessage::RemovePlugin(p)), EventMessage::Trigger(ev)).contains(
            (q, EventNotice::Triggered(ev)),
        ) <==> spec_notices(m, EventMessage::Trigger(ev)).contains((q, EventNotice::Triggered(ev))),
{
    let k = event_key(ev);
    let m2 = spec_next_table(m, EventMessage::RemovePlugin(p));
    if m.dom().contains(k) {
        lemma_without_contains(m[k].1, p, q);
        lemma_notify_contains(m[k].1, EventNotice::Triggered(ev), q);
        lemma_notify_contains(m2[k].1, EventNotice::Triggered(ev), q);
    }
}

} // verus!
