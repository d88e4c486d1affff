use vstd::prelude::*;
use std::collections::HashMap;
use vstd::string::StringExecFns;
use crate::codes::MessageType;
use crate::handles::PropertyHandle;
use crate::hashing::{
    ascii_plugin_hash, generate_plugin_name_hash, is_ascii_text, lemma_ascii_hashes, lemma_ascii_lower_facts,
    spec_plugin_name_hash, str_lowercase, to_lowercase,
};
use crate::values::{ContainerView, PropertyContainer, ValueContainer};

verus! {

broadcast use vstd::std_specs::hash::group_hash_axioms;

/// The version of the plugin interface that this host implements.
pub const API_VERSION: u64 = 0;

/// The interface version a plugin is built against. Asked while the host
/// runs (rather than when the plugin is compiled) it answers `u64::MAX`, so
/// that a plugin cannot adopt the running host's version.
pub fn compiletime_get_api_version(is_runtime: bool) -> (r: u64)
    ensures
        r == (if is_runtime {
            u64::MAX
        } else {
            API_VERSION
        }),
{
    if !is_runtime {
        API_VERSION
    } else {
        u64::MAX
    }
}

/// The id derived from a plugin's name, and whether the name was usable.
#[derive(Debug, Clone, Copy, PartialEq, Eq, Structural)]
pub struct PluginNameHash {
    pub id: u64,
    pub valid: bool,
}

impl PluginNameHash {
    /// The id when the name was usable (how plugins read the answer).
    pub fn to_option(&self) -> (r: Option<u64>)
        ensures
            r == (if self.valid {
                Some(self.id)
            } else {
                None
            }),
    {
        if self.valid {
            Some(self.id)
        } else {
            None
        }
    }
}

/// The view of an optional text.
pub open spec fn opt_str_view(o: Option<&str>) -> Option<Seq<char>> {
    match o {
        Some(s) => Some(s@),
        None => None,
    }
}

/// The id of a plugin name as plugins compute it when they are compiled:
/// the lower-cased name hashed as a plugin name. While the host runs, or
/// when the name could not be read or holds a dot, the answer is `(0,
/// false)`.
pub open spec fn spec_compiletime_hash(is_runtime: bool, name: Option<Seq<char>>) -> PluginNameHash {
    if is_runtime {
        PluginNameHash { id: 0, valid: false }
    } else {
        match name {
            None => PluginNameHash { id: 0, valid: false },
            Some(n) => match spec_plugin_name_hash(str_lowercase(n)) {
                Some(h) => PluginNameHash { id: h, valid: true },
                None => PluginNameHash { id: 0, valid: false },
            },
        }
    }
}

/// Computes a plugin's id from its name for compile time use (see
/// `spec_compiletime_hash`). An ASCII name is accepted exactly when it
/// holds no dot, and then gets the id the host computes from it.
pub fn compiletime_get_plugin_name_hash(is_runtime: bool, name: Option<&str>) -> (r: PluginNameHash)
    ensures
        r == spec_compiletime_hash(is_runtime, opt_str_view(name)),
        !is_runtime && (opt_str_view(name) matches Some(n) && is_ascii_text(n)) ==> r == match ascii_plugin_hash(
            opt_str_view(name)->Some_0,
        ) {
            Some(h) => PluginNameHash { id: h, valid: true },
            None => PluginNameHash { id: 0, valid: false },
        },
{
    if is_runtime {
        return PluginNameHash { id: 0, valid: false };
    }
    match name {
        Some(n) => {
            let lower = to_lowercase(n);
            proof {
                if is_ascii_text(n@) {
                    lemma_ascii_hashes(n@);
                    lemma_ascii_lower_facts(n@);
                }
            }
            match generate_plugin_name_hash(lower.as_str()) {
                Some(val) => PluginNameHash { id: val, valid: true },
                None => PluginNameHash { id: 0, valid: false },
            }
        },
        None => PluginNameHash { id: 0, valid: false },
    }
}

/// Why a plugin's description was refused.
#[derive(Debug, Clone, Copy, PartialEq, Eq, Structural)]
pub enum DescriptionError {
    /// The name is not valid UTF-8.
    UnreadableName,
    /// The plugin asked for the interface version at run time.
    RuntimeApiVersion,
    /// The plugin was built against another interface version.
    ApiVersionMismatch,
    /// The name does not follow the naming rules (it holds a dot).
    InvalidName,
    /// The id does not match the name; the id the name gives is attached.
    IdMismatch(u64),
}

/// The outcome of checking a plugin's description.
pub open spec fn spec_check_description(name: Option<Seq<char>>, id: u64, api_version: u64) -> Result<
    u64,
    DescriptionError,
> {
    match name {
        None => Err(DescriptionError::UnreadableName),
        Some(n) => {
            if api_version == u64::MAX {
                Err(DescriptionError::RuntimeApiVersion)
            } else if api_version != API_VERSION {
                Err(DescriptionError::ApiVersionMismatch)
            } else {
                match spec_plugin_name_hash(n) {
                    None => Err(DescriptionError::InvalidName),
                    Some(h) => if h != id {
                        Err(DescriptionError::IdMismatch(h))
                    } else {
                        Ok(h)
                    },
                }
            }
        },
    }
}

/// Checks what a loaded plugin says of itself before it is registered: a
/// readable name, the interface version of this host, and an id that is the
/// hash of the name. Gives the id.
pub fn check_plugin_description(name: Option<&str>, id: u64, api_version: u64) -> (r: Result<
    u64,
    DescriptionError,
>)
    ensures
        r == spec_check_description(opt_str_view(name), id, api_version),
{
    let n = match name {
        Some(n) => n,
        None => return Err(DescriptionError::UnreadableName),
    };
    if api_version == u64::MAX {
        return Err(DescriptionError::RuntimeApiVersion);
    }
    if api_version != API_VERSION {
        return Err(DescriptionError::ApiVersionMismatch);
    }
    match generate_plugin_name_hash(n) {
        None => Err(DescriptionError::InvalidName),
        Some(h) => if h != id {
            Err(DescriptionError::IdMismatch(h))
        } else {
            Ok(h)
        },
    }
}

/// A message that one plugin's loader sends to another's.
pub enum Notice {
    /// Asks the owner of the property for a subscription (the asking plugin
    /// is attached).
    GenerateSubscription(u64, PropertyHandle),
    /// Tells a subscriber that it may read the property (from the data
    /// store); also sent when the property's storage was replaced.
    UpdateSubscription(PropertyHandle),
    /// Tells a subscriber that the property is gone.
    Unsubscribe(PropertyHandle),
    /// Tells the owner that a plugin (attached) no longer subscribes.
    HasUnsubscribed(u64, PropertyHandle),
    /// Passes on a plugin's pointer message; the sender is attached.
    PluginMessagePtr(u64),
}

pub enum NoticeView {
    GenerateSubscription(u64, PropertyHandle),
    UpdateSubscription(PropertyHandle),
    Unsubscribe(PropertyHandle),
    HasUnsubscribed(u64, PropertyHandle),
    PluginMessagePtr(u64),
}

impl View for Notice {
    type V = NoticeView;

    open spec fn view(&self) -> NoticeView {
        match self {
            Notice::GenerateSubscription(p, h) => NoticeView::GenerateSubscription(*p, *h),
            Notice::UpdateSubscription(h) => NoticeView::UpdateSubscription(*h),
            Notice::Unsubscribe(h) => NoticeView::Unsubscribe(*h),
            Notice::HasUnsubscribed(p, h) => NoticeView::HasUnsubscribed(*p, *h),
            Notice::PluginMessagePtr(o) => NoticeView::PluginMessagePtr(*o),
        }
    }
}

/// What the loader of a plugin has to carry out, in order; it stops at the
/// first message the plugin refuses.
pub enum LoaderAction {
    /// Send the plugin the lock message, then mark its handle locked.
    Lock,
    /// Mark the plugin's handle unlocked, then send it the unlock message.
    Unlock,
    /// Pass a message of this kind on to the plugin.
    Deliver(MessageType),
    /// Publish the storage of a property in the data store.
    StoreProperty(PropertyHandle, ValueContainer),
    /// Record the full name of a property in the data store.
    RegisterName(PropertyHandle, String),
    /// Withdraw a property from the data store.
    RemoveStoredProperty(PropertyHandle),
    /// Send the notice to each of these plugins.
    Notify(Vec<u64>, Notice),
    /// Mark the plugin as running in the data store.
    SetReady,
}

pub enum ActionView {
    Lock,
    Unlock,
    Deliver(MessageType),
    StoreProperty(PropertyHandle, ContainerView),
    RegisterName(PropertyHandle, Seq<char>),
    RemoveStoredProperty(PropertyHandle),
    Notify(Seq<u64>, NoticeView),
    SetReady,
}

impl View for LoaderAction {
    type V = ActionView;

    open spec fn view(&self) -> ActionView {
        match self {
            LoaderAction::Lock => ActionView::Lock,
            LoaderAction::Unlock => ActionView::Unlock,
            LoaderAction::Deliver(t) => ActionView::Deliver(*t),
            LoaderAction::StoreProperty(h, c) => ActionView::StoreProperty(*h, c@),
            LoaderAction::RegisterName(h, n) => ActionView::RegisterName(*h, n@),
            LoaderAction::RemoveStoredProperty(h) => ActionView::RemoveStoredProperty(*h),
            LoaderAction::Notify(t, n) => ActionView::Notify(t@, n@),
            LoaderAction::SetReady => ActionView::SetReady,
        }
    }
}

/// The views of a list of actions.
pub open spec fn actions_view(v: Seq<LoaderAction>) -> Seq<ActionView> {
    v.map_values(|a: LoaderAction| a@)
}

/// A message to the loader of a plugin. Messages that are only passed on
/// to the plugin are `Deliver`; their contents stay with the caller.
pub enum LoaderMessage {
    PropertyCreate(u64, PropertyContainer),
    PropertyTypeChange(u64, ValueContainer, bool),
    PropertyDelete(u64),
    Subscribe(PropertyHandle),
    GenerateSubscribtion(u64, PropertyHandle),
    UpdateSubscription(PropertyHandle),
    Unsubscribe(PropertyHandle),
    HasUnsubscribed(u64, PropertyHandle),
    StartupFinished,
    SendPluginMessagePtr(u64),
    Deliver(MessageType),
    Shutdown,
}

/// What the loader of a plugin knows of one of the plugin's properties:
/// its short name and whether the plugin may write it. The storage itself
/// is kept by the data store alone.
#[derive(Debug)]
pub struct OwnedProperty {
    pub short_name: String,
    pub allow_modify: bool,
}

/// The bookkeeping of the loader of one plugin: whether the plugin is
/// locked, its properties, the properties it subscribes to (by key), and
/// who subscribes to each of its properties.
pub struct PluginRunner {
    pub id: u64,
    pub name: String,
    pub is_locked: bool,
    pub properties: HashMap<u64, OwnedProperty>,
    pub subscriptions: HashMap<u128, PropertyHandle>,
    pub subscribers: HashMap<u64, Vec<u64>>,
}

/// The key under which a subscription is kept.
pub open spec fn sub_key(h: PropertyHandle) -> u128 {
    (h.plugin as int * 0x1_0000_0000_0000_0000 + h.property as int) as u128
}

/// Two handles share a key only when they are equal.
pub proof fn lemma_sub_key_injective(a: PropertyHandle, b: PropertyHandle)
    ensures
        sub_key(a) == sub_key(b) ==> a == b,
{
    let ka = a.plugin as int * 0x1_0000_0000_0000_0000 + a.property as int;
    let kb = b.plugin as int * 0x1_0000_0000_0000_0000 + b.property as int;
    assert(0 <= ka < 0x1_0000_0000_0000_0000_0000_0000_0000_0000) by (nonlinear_arith)
        requires
            ka == a.plugin as int * 0x1_0000_0000_0000_0000 + a.property as int,
            0 <= a.plugin < 0x1_0000_0000_0000_0000,
            0 <= a.property < 0x1_0000_0000_0000_0000,
    ;
    assert(0 <= kb < 0x1_0000_0000_0000_0000_0000_0000_0000_0000) by (nonlinear_arith)
        requires
            kb == b.plugin as int * 0x1_0000_0000_0000_0000 + b.property as int,
            0 <= b.plugin < 0x1_0000_0000_0000_0000,
            0 <= b.property < 0x1_0000_0000_0000_0000,
    ;
    if ka == kb {
        assert(a.plugin == b.plugin && a.property == b.property) by (nonlinear_arith)
            requires
                a.plugin as int * 0x1_0000_0000_0000_0000 + a.property as int == b.plugin as int
                    * 0x1_0000_0000_0000_0000 + b.property as int,
                0 <= a.property < 0x1_0000_0000_0000_0000,
                0 <= b.property < 0x1_0000_0000_0000_0000,
                0 <= a.plugin,
                0 <= b.plugin,
        ;
    }
}

pub(crate) fn subscription_key(h: PropertyHandle) -> (k: u128)
    ensures
        k == sub_key(h),
{
    let p = h.plugin as u128;
    let q = h.property as u128;
    assert(p * 0x1_0000_0000_0000_0000 + q < 0x1_0000_0000_0000_0000_0000_0000_0000_0000)
        by (nonlinear_arith)
        requires
            p < 0x1_0000_0000_0000_0000,
            q < 0x1_0000_0000_0000_0000,
    ;
    p * 0x1_0000_0000_0000_0000 + q
}

/// The lock message that precedes an operation that needs the plugin
/// locked.
pub open spec fn lock_prefix(locked: bool) -> Seq<ActionView> {
    if locked {
        seq![]
    } else {
        seq![ActionView::Lock]
    }
}

/// What locking does: the plugin ends up locked, its tables unchanged, and
/// the lock message is sent only when it was not locked.
pub open spec fn lock_post(o: PluginRunner, n: PluginRunner, before: Seq<ActionView>, after: Seq<ActionView>) -> bool {
    &&& n.is_locked
    &&& same_tables(o, n)
    &&& after == before + lock_prefix(o.is_locked)
}

/// The unlock message that precedes an operation that needs the plugin
/// unlocked.
pub open spec fn unlock_prefix(locked: bool) -> Seq<ActionView> {
    if locked {
        seq![ActionView::Unlock]
    } else {
        seq![]
    }
}

/// Everything but the lock flag is unchanged.
pub open spec fn same_tables(a: PluginRunner, b: PluginRunner) -> bool {
    &&& a.id == b.id
    &&& a.name == b.name
    &&& a.properties@ == b.properties@
    &&& a.subscriptions@ == b.subscriptions@
    &&& a.subscribers@ == b.subscribers@
}

/// The handle of this plugin's property `id`.
pub open spec fn own_handle(r: PluginRunner, id: u64) -> PropertyHandle {
    PropertyHandle { plugin: r.id, property: id }
}

/// Who subscribes to property `id`.
pub open spec fn subs_of(r: PluginRunner, id: u64) -> Seq<u64> {
    if r.subscribers@.contains_key(id) {
        r.subscribers@[id]@
    } else {
        seq![]
    }
}

/// The full name of a property: plugin name and property name, both
/// lower-cased, joined by a dot.
pub open spec fn full_property_name(plugin: Seq<char>, short: Seq<char>) -> Seq<char> {
    str_lowercase(plugin) + "."@ + str_lowercase(short)
}

/// Creating property `id`: ignored when the id is taken; otherwise the
/// property is kept, published and named.
pub open spec fn create_property_post(
    o: PluginRunner,
    n: PluginRunner,
    id: u64,
    c: PropertyContainer,
    before: Seq<ActionView>,
    after: Seq<ActionView>,
) -> bool {
    let h = own_handle(o, id);
    &&& n.is_locked
    &&& n.id == o.id && n.name == o.name
    &&& n.subscriptions@ == o.subscriptions@ && n.subscribers@ == o.subscribers@
    &&& if o.properties@.contains_key(id) {
        n.properties@ == o.properties@ && after == before + lock_prefix(o.is_locked)
    } else {
        &&& n.properties@.dom() == o.properties@.dom().insert(id)
        &&& forall|k: u64| k != id && #[trigger] o.properties@.contains_key(k) ==> n.properties@[k]
            == o.properties@[k]
        &&& n.properties@[id].short_name@ == c.name_view()
        &&& n.properties@[id].allow_modify == c.may_modify()
        &&& after == before + lock_prefix(o.is_locked) + seq![
            ActionView::StoreProperty(h, c.value_view()),
            ActionView::RegisterName(h, full_property_name(o.name@, c.name_view())),
        ]
    }
}

/// Changing the type of property `id`: ignored when it does not exist;
/// otherwise its write permission is replaced, the new storage is
/// published, and its subscribers are told.
pub open spec fn type_change_post(
    o: PluginRunner,
    n: PluginRunner,
    id: u64,
    c: ContainerView,
    allow_modify: bool,
    before: Seq<ActionView>,
    after: Seq<ActionView>,
) -> bool {
    let h = own_handle(o, id);
    &&& n.is_locked
    &&& n.id == o.id && n.name == o.name
    &&& n.subscriptions@ == o.subscriptions@ && n.subscribers@ == o.subscribers@
    &&& if o.properties@.contains_key(id) {
        &&& n.properties@.dom() == o.properties@.dom()
        &&& forall|k: u64| k != id && #[trigger] o.properties@.contains_key(k) ==> n.properties@[k]
            == o.properties@[k]
        &&& n.properties@[id].allow_modify == allow_modify
        &&& n.properties@[id].short_name == o.properties@[id].short_name
        &&& after == before + lock_prefix(o.is_locked) + seq![
            ActionView::StoreProperty(h, c),
            ActionView::Notify(subs_of(o, id), NoticeView::UpdateSubscription(h)),
        ]
    } else {
        n.properties@ == o.properties@ && after == before + lock_prefix(o.is_locked)
    }
}

/// Deleting property `id`: ignored when it does not exist; otherwise it is
/// dropped, withdrawn from the data store, its subscribers are told and
/// forgotten.
pub open spec fn delete_post(
    o: PluginRunner,
    n: PluginRunner,
    id: u64,
    before: Seq<ActionView>,
    after: Seq<ActionView>,
) -> bool {
    let h = own_handle(o, id);
    &&& n.is_locked
    &&& n.id == o.id && n.name == o.name
    &&& n.subscriptions@ == o.subscriptions@
    &&& if o.properties@.contains_key(id) {
        &&& n.properties@ == o.properties@.remove(id)
        &&& n.subscribers@ == o.subscribers@.remove(id)
        &&& after == before + lock_prefix(o.is_locked) + seq![
            ActionView::RemoveStoredProperty(h),
            ActionView::Notify(subs_of(o, id), NoticeView::Unsubscribe(h)),
        ]
    } else {
        &&& n.properties@ == o.properties@
        &&& n.subscribers@ == o.subscribers@
        &&& after == before + lock_prefix(o.is_locked)
    }
}

impl PluginRunner {
    /// A fresh loader for the plugin `id` named `name`: unlocked, with no
    /// properties, subscriptions or subscribers.
    pub fn new(id: u64, name: String) -> (r: PluginRunner)
        ensures
            r.id == id,
            r.name == name,
            !r.is_locked,
            r.properties@ == Map::<u64, OwnedProperty>::empty(),
            r.subscriptions@ == Map::<u128, PropertyHandle>::empty(),
            r.subscribers@ == Map::<u64, Vec<u64>>::empty(),
    {
        PluginRunner {
            id,
            name,
            is_locked: false,
            properties: HashMap::new(),
            subscriptions: HashMap::new(),
            subscribers: HashMap::new(),
        }
    }

    /// Locks the plugin unless it is locked already: an unlocked plugin is
    /// sent the lock message and marked locked (see `lock_post`).
    pub fn send_lock(&mut self, out: &mut Vec<LoaderAction>)
        ensures
            lock_post(*old(self), *final(self), actions_view(old(out)@), actions_view(final(out)@)),
    {
        if !self.is_locked {
            out.push(LoaderAction::Lock);
            self.is_locked = true;
        }
        assert(actions_view(out@) =~= actions_view(old(out)@) + lock_prefix(old(self).is_locked));
    }

    /// Unlocks the plugin if it is locked (`send_unlock`).
    fn send_unlock(&mut self, out: &mut Vec<LoaderAction>)
        ensures
            !final(self).is_locked,
            same_tables(*old(self), *final(self)),
            actions_view(final(out)@) == actions_view(old(out)@) + unlock_prefix(
                old(self).is_locked,
            ),
    {
        if self.is_locked {
            self.is_locked = false;
            out.push(LoaderAction::Unlock);
        }
        assert(actions_view(out@) =~= actions_view(old(out)@) + unlock_prefix(
            old(self).is_locked,
        ));
    }

    fn subscribers_of(&self, id: u64) -> (r: Vec<u64>)
        ensures
            r@ == subs_of(*self, id),
    {
        match self.subscribers.get(&id) {
            Some(v) => v.clone(),
            None => Vec::new(),
        }
    }

    /// Creates a property of this plugin (see `create_property_post`).
    pub fn create_property(
        &mut self,
        id: u64,
        container: PropertyContainer,
        out: &mut Vec<LoaderAction>,
    )
        ensures
            create_property_post(
                *old(self),
                *final(self),
                id,
                container,
                actions_view(old(out)@),
                actions_view(final(out)@),
            ),
    {
        self.send_lock(out);
        if self.properties.contains_key(&id) {
            return;
        }
        let ghost c = container;
        let (short, val_container, allow) = container.into_parts();
        let lower_plugin = to_lowercase(self.name.as_str());
        let lower_prop = to_lowercase(short.as_str());
        let mut prop_name = lower_plugin;
        proof {
            reveal_strlit(".");
        }
        prop_name.append(".");
        prop_name.append(lower_prop.as_str());
        let ghost before = out@;
        self.properties.insert(id, OwnedProperty { short_name: short, allow_modify: allow });
        let h = PropertyHandle { plugin: self.id, property: id };
        out.push(LoaderAction::StoreProperty(h, val_container));
        out.push(LoaderAction::RegisterName(h, prop_name));
        assert(actions_view(out@) =~= actions_view(before) + seq![
            ActionView::StoreProperty(h, c.value_view()),
            ActionView::RegisterName(h, full_property_name(self.name@, c.name_view())),
        ]);
        assert(self.properties@.dom() =~= old(self).properties@.dom().insert(id));
    }

    /// Changes the storage and write permission of a property of this
    /// plugin (see `type_change_post`).
    pub fn property_type_change(
        &mut self,
        id: u64,
        val_container: ValueContainer,
        allow_modify: bool,
        out: &mut Vec<LoaderAction>,
    )
        ensures
            type_change_post(
                *old(self),
                *final(self),
                id,
                val_container@,
                allow_modify,
                actions_view(old(out)@),
                actions_view(final(out)@),
            ),
    {
        self.send_lock(out);
        let ghost before = out@;
        match self.properties.remove(&id) {
            None => {
                assert(self.properties@ =~= old(self).properties@);
                assert(actions_view(out@) =~= actions_view(before));
            },
            Some(cont) => {
                let ghost vc = val_container@;
                let OwnedProperty { short_name, allow_modify: _ } = cont;
                let cont = OwnedProperty { short_name, allow_modify };
                self.properties.insert(id, cont);
                let h = PropertyHandle { plugin: self.id, property: id };
                out.push(LoaderAction::StoreProperty(h, val_container));
                let subs = self.subscribers_of(id);
                out.push(LoaderAction::Notify(subs, Notice::UpdateSubscription(h)));
                assert(actions_view(out@) =~= actions_view(before) + seq![
                    ActionView::StoreProperty(h, vc),
                    ActionView::Notify(subs_of(*old(self), id), NoticeView::UpdateSubscription(h)),
                ]);
                assert(self.properties@.dom() =~= old(self).properties@.dom());
                assert(self.properties@ =~= old(self).properties@.insert(id, cont));
            },
        }
    }

    /// Deletes a property of this plugin (see `delete_post`).
    pub fn delete_property(&mut self, id: u64, out: &mut Vec<LoaderAction>)
        ensures
            delete_post(*old(self), *final(self), id, actions_view(old(out)@), actions_view(final(out)@)),
    {
        self.send_lock(out);
        if !self.properties.contains_key(&id) {
            return;
        }
        let ghost before = out@;
        self.properties.remove(&id);
        let h = PropertyHandle { plugin: self.id, property: id };
        out.push(LoaderAction::RemoveStoredProperty(h));
        let subs = self.subscribers_of(id);
        out.push(LoaderAction::Notify(subs, Notice::Unsubscribe(h)));
        self.subscribers.remove(&id);
        assert(actions_view(out@) =~= actions_view(before) + seq![
            ActionView::RemoveStoredProperty(h),
            ActionView::Notify(subs_of(*old(self), id), NoticeView::Unsubscribe(h)),
        ]);
    }
}

/// Whether the plugin subscribes to `h`.
pub open spec fn subscribes_to(r: PluginRunner, h: PropertyHandle) -> bool {
    r.subscriptions@.contains_key(sub_key(h))
}

/// Only the lock flag and the actions change, by an unlock (when locked)
/// followed by `tail`.
pub open spec fn unlocked_then(
    o: PluginRunner,
    n: PluginRunner,
    before: Seq<ActionView>,
    after: Seq<ActionView>,
    tail: Seq<ActionView>,
) -> bool {
    &&& !n.is_locked
    &&& same_tables(o, n)
    &&& after == before + unlock_prefix(o.is_locked) + tail
}

/// Asked by plugin `requester` for a subscription to `h`: when `h` is a
/// property of this plugin, the requester is told it may read it.
pub open spec fn generate_subscription_tail(o: PluginRunner, requester: u64, h: PropertyHandle) -> Seq<
    ActionView,
> {
    if h.plugin == o.id && o.properties@.contains_key(h.property) {
        seq![
            ActionView::Notify(
                seq![requester],
                NoticeView::UpdateSubscription(h),
            ),
        ]
    } else {
        seq![]
    }
}

/// Told it may read `h`: the plugin is locked and the subscription
/// recorded.
pub open spec fn update_subscription_post(
    o: PluginRunner,
    n: PluginRunner,
    h: PropertyHandle,
    before: Seq<ActionView>,
    after: Seq<ActionView>,
) -> bool {
    &&& n.is_locked
    &&& n.id == o.id && n.name == o.name
    &&& n.properties@ == o.properties@ && n.subscribers@ == o.subscribers@
    &&& n.subscriptions@ == o.subscriptions@.insert(sub_key(h), h)
    &&& after == before + lock_prefix(o.is_locked)
}

/// Unsubscribing from `h`: ignored when there is no such subscription;
/// otherwise it is dropped and the owner told.
pub open spec fn unsubscribe_post(
    o: PluginRunner,
    n: PluginRunner,
    h: PropertyHandle,
    before: Seq<ActionView>,
    after: Seq<ActionView>,
) -> bool {
    &&& n.is_locked
    &&& n.id == o.id && n.name == o.name
    &&& n.properties@ == o.properties@ && n.subscribers@ == o.subscribers@
    &&& if o.subscriptions@.contains_key(sub_key(h)) {
        &&& n.subscriptions@ == o.subscriptions@.remove(sub_key(h))
        &&& after == before + lock_prefix(o.is_locked) + seq![
            ActionView::Notify(seq![h.plugin], NoticeView::HasUnsubscribed(o.id, h)),
        ]
    } else {
        n.subscriptions@ == o.subscriptions@ && after == before + lock_prefix(o.is_locked)
    }
}

/// Every plugin but `who`.
pub open spec fn other_than(who: u64) -> spec_fn(u64) -> bool {
    |x: u64| x != who
}

/// Plugin `who` no longer subscribes to `h`: when `h` is a property of this
/// plugin with subscribers, `who` is taken off its list.
pub open spec fn has_unsubscribed_post(
    o: PluginRunner,
    n: PluginRunner,
    h: PropertyHandle,
    who: u64,
    before: Seq<ActionView>,
    after: Seq<ActionView>,
) -> bool {
    &&& !n.is_locked
    &&& n.id == o.id && n.name == o.name
    &&& n.properties@ == o.properties@ && n.subscriptions@ == o.subscriptions@
    &&& after == before + unlock_prefix(o.is_locked)
    &&& if h.plugin == o.id && o.subscribers@.contains_key(h.property) {
        &&& n.subscribers@.dom() == o.subscribers@.dom()
        &&& forall|k: u64| k != h.property && #[trigger] o.subscribers@.contains_key(k) ==> n.subscribers@[k]
            == o.subscribers@[k]
        &&& n.subscribers@[h.property]@ == o.subscribers@[h.property]@.filter(other_than(who))
    } else {
        n.subscribers@ == o.subscribers@
    }
}

/// What handling one message does (see the functions it names).
pub open spec fn handle_post(
    o: PluginRunner,
    n: PluginRunner,
    msg: LoaderMessage,
    before: Seq<ActionView>,
    after: Seq<ActionView>,
    stop: bool,
) -> bool {
    &&& stop == (msg is Shutdown)
    &&& match msg {
        LoaderMessage::PropertyCreate(id, c) => create_property_post(o, n, id, c, before, after),
        LoaderMessage::PropertyTypeChange(id, c, allow) => type_change_post(
            o,
            n,
            id,
            c@,
            allow,
            before,
            after,
        ),
        LoaderMessage::PropertyDelete(id) => delete_post(o, n, id, before, after),
        LoaderMessage::Subscribe(h) => unlocked_then(
            o,
            n,
            before,
            after,
            seq![ActionView::Notify(seq![h.plugin], NoticeView::GenerateSubscription(o.id, h))],
        ),
        LoaderMessage::GenerateSubscribtion(requester, h) => unlocked_then(
            o,
            n,
            before,
            after,
            generate_subscription_tail(o, requester, h),
        ),
        LoaderMessage::UpdateSubscription(h) => update_subscription_post(o, n, h, before, after),
        LoaderMessage::Unsubscribe(h) => unsubscribe_post(o, n, h, before, after),
        LoaderMessage::HasUnsubscribed(who, h) => has_unsubscribed_post(
            o,
            n,
            h,
            who,
            before,
            after,
        ),
        LoaderMessage::StartupFinished => unlocked_then(
            o,
            n,
            before,
            after,
            seq![ActionView::SetReady, ActionView::Deliver(MessageType::StartupFinished)],
        ),
        LoaderMessage::SendPluginMessagePtr(target) => {
            &&& n == o
            &&& after == before.push(
                ActionView::Notify(seq![target], NoticeView::PluginMessagePtr(o.id)),
            )
        },
        LoaderMessage::Deliver(t) => unlocked_then(
            o,
            n,
            before,
            after,
            seq![ActionView::Deliver(t)],
        ),
        LoaderMessage::Shutdown => unlocked_then(
            o,
            n,
            before,
            after,
            seq![ActionView::Deliver(MessageType::Shutdown)],
        ),
    }
}

impl PluginRunner {
    /// Asks the owner of `h` for a subscription (step one of three).
    pub fn subscribe_property_start(&mut self, h: PropertyHandle, out: &mut Vec<LoaderAction>)
        ensures
            unlocked_then(
                *old(self),
                *final(self),
                actions_view(old(out)@),
                actions_view(final(out)@),
                seq![ActionView::Notify(seq![h.plugin], NoticeView::GenerateSubscription(old(self).id, h))],
            ),
    {
        self.send_unlock(out);
        let ghost before = out@;
        let mut target: Vec<u64> = Vec::new();
        target.push(h.plugin);
        out.push(LoaderAction::Notify(target, Notice::GenerateSubscription(self.id, h)));
        assert(actions_view(out@) =~= actions_view(before) + seq![
            ActionView::Notify(seq![h.plugin], NoticeView::GenerateSubscription(self.id, h)),
        ]);
    }

    /// Answers a request for a subscription (step two of three): tells the
    /// requester it may read `h` when `h` is a property of this plugin. The caller
    /// records the subscriber with `subscription_delivered` once the answer
    /// was delivered.
    pub fn generate_subcription(
        &mut self,
        requester: u64,
        h: PropertyHandle,
        out: &mut Vec<LoaderAction>,
    )
        ensures
            unlocked_then(
                *old(self),
                *final(self),
                actions_view(old(out)@),
                actions_view(final(out)@),
                generate_subscription_tail(*old(self), requester, h),
            ),
    {
        self.send_unlock(out);
        let ghost before = out@;
        if h.plugin != self.id {
            assert(actions_view(out@) =~= actions_view(before));
            return;
        }
        match self.properties.get(&h.property) {
            None => {
                assert(actions_view(out@) =~= actions_view(before));
            },
            Some(_) => {
                let mut target: Vec<u64> = Vec::new();
                target.push(requester);
                out.push(LoaderAction::Notify(target, Notice::UpdateSubscription(h)));
                assert(actions_view(out@) =~= actions_view(before) + generate_subscription_tail(
                    *old(self),
                    requester,
                    h,
                ));
            },
        }
    }

    /// Records `requester` as a subscriber of property `property` after
    /// its subscription was delivered.
    pub fn subscription_delivered(&mut self, requester: u64, property: u64)
        ensures
            final(self).id == old(self).id && final(self).name == old(self).name,
            final(self).is_locked == old(self).is_locked,
            final(self).properties@ == old(self).properties@,
            final(self).subscriptions@ == old(self).subscriptions@,
            final(self).subscribers@.dom() == old(self).subscribers@.dom().insert(property),
            forall|k: u64| k != property && #[trigger] old(self).subscribers@.contains_key(k)
                ==> final(self).subscribers@[k] == old(self).subscribers@[k],
            final(self).subscribers@[property]@ == subs_of(*old(self), property).push(requester),
    {
        let mut subs = self.subscribers_of(property);
        subs.push(requester);
        self.subscribers.insert(property, subs);
        assert(self.subscribers@.dom() =~= old(self).subscribers@.dom().insert(property));
    }

    /// Records the subscription to `h` (step three of three; also how a
    /// changed storage is announced to subscribers).
    pub fn update_subscription(&mut self, h: PropertyHandle, out: &mut Vec<LoaderAction>)
        ensures
            update_subscription_post(
                *old(self),
                *final(self),
                h,
                actions_view(old(out)@),
                actions_view(final(out)@),
            ),
    {
        self.send_lock(out);
        let k = subscription_key(h);
        self.subscriptions.insert(k, h);
    }

    /// Drops the subscription to `h` and tells its owner (see
    /// `unsubscribe_post`).
    pub fn unsubscribe(&mut self, h: PropertyHandle, out: &mut Vec<LoaderAction>)
        ensures
            unsubscribe_post(
                *old(self),
                *final(self),
                h,
                actions_view(old(out)@),
                actions_view(final(out)@),
            ),
    {
        self.send_lock(out);
        let k = subscription_key(h);
        if !self.subscriptions.contains_key(&k) {
            return;
        }
        let ghost before = out@;
        self.subscriptions.remove(&k);
        let mut target: Vec<u64> = Vec::new();
        target.push(h.plugin);
        out.push(LoaderAction::Notify(target, Notice::HasUnsubscribed(self.id, h)));
        assert(actions_view(out@) =~= actions_view(before) + seq![
            ActionView::Notify(seq![h.plugin], NoticeView::HasUnsubscribed(self.id, h)),
        ]);
    }

    /// Takes `who` off the subscribers of `h` (see `has_unsubscribed_post`).
    pub fn has_unsubscribed(
        &mut self,
        h: PropertyHandle,
        who: u64,
        out: &mut Vec<LoaderAction>,
    )
        ensures
            has_unsubscribed_post(
                *old(self),
                *final(self),
                h,
                who,
                actions_view(old(out)@),
                actions_view(final(out)@),
            ),
    {
        self.send_unlock(out);
        if h.plugin != self.id {
            return;
        }
        let subs = match self.subscribers.get(&h.property) {
            Some(v) => v,
            None => {
                return;
            },
        };
        let ghost s = subs@;
        let mut kept: Vec<u64> = Vec::new();
        let mut i: usize = 0;
        while i < subs.len()
            invariant
                i <= subs.len(),
                s == subs@,
                kept@ == s.take(i as int).filter(other_than(who)),
            decreases subs.len() - i,
        {
            proof {
                reveal(Seq::filter);
                assert(s.take(i + 1).drop_last() =~= s.take(i as int));
            }
            if subs[i] != who {
                kept.push(subs[i]);
            }
            i = i + 1;
        }
        assert(s.take(s.len() as int) =~= s);
        self.subscribers.insert(h.property, kept);
        assert(self.subscribers@.dom() =~= old(self).subscribers@.dom());
    }

    /// The plugin finished its start: it is marked running and told so.
    pub fn startup_complete(&mut self, out: &mut Vec<LoaderAction>)
        ensures
            unlocked_then(
                *old(self),
                *final(self),
                actions_view(old(out)@),
                actions_view(final(out)@),
                seq![ActionView::SetReady, ActionView::Deliver(MessageType::StartupFinished)],
            ),
    {
        self.send_unlock(out);
        let ghost before = out@;
        out.push(LoaderAction::SetReady);
        out.push(LoaderAction::Deliver(MessageType::StartupFinished));
        assert(actions_view(out@) =~= actions_view(before) + seq![
            ActionView::SetReady,
            ActionView::Deliver(MessageType::StartupFinished),
        ]);
    }

    /// Passes a message on to the plugin, which must not be locked for it
    /// (`send_simple_message`; also the shutdown message).
    pub fn send_simple_message(&mut self, t: MessageType, out: &mut Vec<LoaderAction>)
        ensures
            unlocked_then(
                *old(self),
                *final(self),
                actions_view(old(out)@),
                actions_view(final(out)@),
                seq![ActionView::Deliver(t)],
            ),
    {
        self.send_unlock(out);
        let ghost before = out@;
        out.push(LoaderAction::Deliver(t));
        assert(actions_view(out@) =~= actions_view(before) + seq![ActionView::Deliver(t)]);
    }

    /// Handles one message (see `handle_post`); `true` when the loop ends
    /// (the shutdown message).
    pub fn process_message(&mut self, msg: LoaderMessage, out: &mut Vec<LoaderAction>) -> (stop:
        bool)
        ensures
            handle_post(
                *old(self),
                *final(self),
                msg,
                actions_view(old(out)@),
                actions_view(final(out)@),
                stop,
            ),
    {
        match msg {
            LoaderMessage::PropertyCreate(id, c) => {
                self.create_property(id, c, out);
                false
            },
            LoaderMessage::PropertyTypeChange(id, c, allow) => {
                self.property_type_change(id, c, allow, out);
                false
            },
            LoaderMessage::PropertyDelete(id) => {
                self.delete_property(id, out);
                false
            },
            LoaderMessage::Subscribe(h) => {
                self.subscribe_property_start(h, out);
                false
            },
            LoaderMessage::GenerateSubscribtion(requester, h) => {
                self.generate_subcription(requester, h, out);
                false
            },
            LoaderMessage::UpdateSubscription(h) => {
                self.update_subscription(h, out);
                false
            },
            LoaderMessage::Unsubscribe(h) => {
                self.unsubscribe(h, out);
                false
            },
            LoaderMessage::HasUnsubscribed(who, h) => {
                self.has_unsubscribed(h, who, out);
                false
            },
            LoaderMessage::StartupFinished => {
                self.startup_complete(out);
                false
            },
            LoaderMessage::SendPluginMessagePtr(target) => {
                let ghost before = out@;
                let mut t: Vec<u64> = Vec::new();
                t.push(target);
                out.push(LoaderAction::Notify(t, Notice::PluginMessagePtr(self.id)));
                assert(actions_view(out@) =~= actions_view(before).push(
                    ActionView::Notify(seq![target], NoticeView::PluginMessagePtr(self.id)),
                ));
                false
            },
            LoaderMessage::Deliver(t) => {
                self.send_simple_message(t, out);
                false
            },
            LoaderMessage::Shutdown => {
                self.send_simple_message(MessageType::Shutdown, out);
                true
            },
        }
    }

    /// Between messages: when no message waits and the plugin is locked, it
    /// is unlocked.
    pub fn idle(&mut self, queue_empty: bool, out: &mut Vec<LoaderAction>)
        ensures
            same_tables(*old(self), *final(self)),
            final(self).is_locked == (old(self).is_locked && !queue_empty),
            actions_view(final(out)@) == actions_view(old(out)@) + (if queue_empty {
                unlock_prefix(old(self).is_locked)
            } else {
                seq![]
            }),
    {
        if queue_empty && self.is_locked {
            self.send_unlock(out);
        }
        assert(actions_view(out@) =~= actions_view(old(out)@) + (if queue_empty {
            unlock_prefix(old(self).is_locked)
        } else {
            seq![]
        }));
    }
}

impl PluginRunner {
    /// Takes in the code the plugin answered to the message `sent` (a lock,
    /// an unlock or a delivered message): any code but 0 ends the loop of
    /// this plugin. A lock the plugin refused is not taken, so the plugin
    /// stays unlocked; nothing else changes.
    pub fn plugin_answer(&mut self, sent: &LoaderAction, code: i32) -> (stop: bool)
        ensures
            stop == (code != 0),
            answer_post(*old(self), *final(self), sent@, code),
    {
        if code != 0 {
            if let LoaderAction::Lock = sent {
                self.is_locked = false;
            }
            true
        } else {
            false
        }
    }
}

/// What follows the plugin's init, by the code it answered: with 0 the
/// plugin is told that its start is complete (the message to queue for
/// it); with any other code it is removed before its loop begins (`None`).
pub fn init_outcome(code: i32) -> (r: Option<LoaderMessage>)
    ensures
        code == 0 ==> r matches Some(LoaderMessage::StartupFinished),
        code != 0 ==> r is None,
{
    if code == 0 {
        Some(LoaderMessage::StartupFinished)
    } else {
        None
    }
}

/// What taking in the plugin's answer `code` to `sent` does: only a
/// refused lock changes anything, and it leaves the plugin unlocked.
pub open spec fn answer_post(o: PluginRunner, n: PluginRunner, sent: ActionView, code: i32) -> bool {
    &&& same_tables(o, n)
    &&& n.is_locked == if code != 0 && sent is Lock {
        false
    } else {
        o.is_locked
    }
}

/// Locking twice sends one lock message: the second lock finds the plugin
/// locked and sends nothing.
pub proof fn lemma_lock_sent_once(
    o: PluginRunner,
    m: PluginRunner,
    n: PluginRunner,
    a0: Seq<ActionView>,
    a1: Seq<ActionView>,
    a2: Seq<ActionView>,
)
    requires
        lock_post(o, m, a0, a1),
        lock_post(m, n, a1, a2),
    ensures
        a2 == a0 + lock_prefix(o.is_locked),
        n.is_locked,
        same_tables(o, n),
{
    assert(a2 =~= a1);
}

/// A lock the plugin refused is not taken: the next lock sends the lock
/// message again.
pub proof fn lemma_refused_lock_is_sent_again(
    o: PluginRunner,
    m: PluginRunner,
    k: PluginRunner,
    n: PluginRunner,
    a0: Seq<ActionView>,
    a1: Seq<ActionView>,
    a2: Seq<ActionView>,
    code: i32,
)
    requires
        !o.is_locked,
        lock_post(o, m, a0, a1),
        answer_post(m, k, ActionView::Lock, code),
        code != 0,
        lock_post(k, n, a1, a2),
    ensures
        a1 == a0.push(ActionView::Lock),
        a2 == a1.push(ActionView::Lock),
        n.is_locked,
{
    assert(a1 =~= a0.push(ActionView::Lock));
    assert(a2 =~= a1.push(ActionView::Lock));
}

/// No action of `s` is a lock or an unlock.
pub open spec fn no_lock_actions(s: Seq<ActionView>) -> bool {
    forall|i: int| 0 <= i < s.len() ==> !(#[trigger] s[i] is Lock) && !(s[i] is Unlock)
}

/// The lock and unlock messages a plugin receives alternate with its lock
/// flag: handling one message adds at most one of them, first, and only a
/// lock to an unlocked plugin (which is locked afterwards) or an unlock to
/// a locked one (which is unlocked afterwards).
pub proof fn lemma_lock_messages_follow_flag(
    o: PluginRunner,
    n: PluginRunner,
    msg: LoaderMessage,
    before: Seq<ActionView>,
    after: Seq<ActionView>,
    stop: bool,
)
    requires
        handle_post(o, n, msg, before, after, stop),
    ensures
        after.len() >= before.len(),
        forall|i: int|
            before.len() <= i < after.len() && #[trigger] after[i] is Lock ==> i == before.len()
                && !o.is_locked && n.is_locked,
        forall|i: int|
            before.len() <= i < after.len() && #[trigger] after[i] is Unlock ==> i == before.len()
                && o.is_locked && !n.is_locked,
{
    let tail: Seq<ActionView> = match msg {
        LoaderMessage::PropertyCreate(id, c) => if o.properties@.contains_key(id) {
            seq![]
        } else {
            seq![
                ActionView::StoreProperty(own_handle(o, id), c.value_view()),
                ActionView::RegisterName(own_handle(o, id), full_property_name(o.name@, c.name_view())),
            ]
        },
        LoaderMessage::PropertyTypeChange(id, c, _) => if o.properties@.contains_key(id) {
            seq![
                ActionView::StoreProperty(own_handle(o, id), c@),
                ActionView::Notify(subs_of(o, id), NoticeView::UpdateSubscription(own_handle(o, id))),
            ]
        } else {
            seq![]
        },
        LoaderMessage::PropertyDelete(id) => if o.properties@.contains_key(id) {
            seq![
                ActionView::RemoveStoredProperty(own_handle(o, id)),
                ActionView::Notify(subs_of(o, id), NoticeView::Unsubscribe(own_handle(o, id))),
            ]
        } else {
            seq![]
        },
        LoaderMessage::Subscribe(h) => seq![
            ActionView::Notify(seq![h.plugin], NoticeView::GenerateSubscription(o.id, h)),
        ],
        LoaderMessage::GenerateSubscribtion(requester, h) => generate_subscription_tail(o, requester, h),
        LoaderMessage::UpdateSubscription(_) => seq![],
        LoaderMessage::Unsubscribe(h) => if o.subscriptions@.contains_key(sub_key(h)) {
            seq![ActionView::Notify(seq![h.plugin], NoticeView::HasUnsubscribed(o.id, h))]
        } else {
            seq![]
        },
        LoaderMessage::HasUnsubscribed(_, _) => seq![],
        LoaderMessage::StartupFinished => seq![
            ActionView::SetReady,
            ActionView::Deliver(MessageType::StartupFinished),
        ],
        LoaderMessage::SendPluginMessagePtr(target) => seq![
            ActionView::Notify(seq![target], NoticeView::PluginMessagePtr(o.id)),
        ],
        LoaderMessage::Deliver(t) => seq![ActionView::Deliver(t)],
        LoaderMessage::Shutdown => seq![ActionView::Deliver(MessageType::Shutdown)],
    };
    let prefix: Seq<ActionView> = match msg {
        LoaderMessage::PropertyCreate(_, _) => lock_prefix(o.is_locked),
        LoaderMessage::PropertyTypeChange(_, _, _) => lock_prefix(o.is_locked),
        LoaderMessage::PropertyDelete(_) => lock_prefix(o.is_locked),
        LoaderMessage::UpdateSubscription(_) => lock_prefix(o.is_locked),
        LoaderMessage::Unsubscribe(_) => lock_prefix(o.is_locked),
        LoaderMessage::SendPluginMessagePtr(_) => seq![],
        _ => unlock_prefix(o.is_locked),
    };
    assert(no_lock_actions(tail));
    assert(after == before + prefix + tail);
    assert forall|i: int| before.len() <= i < after.len() && #[trigger] after[i] is Lock implies i
        == before.len() && !o.is_locked && n.is_locked by {
        if i >= before.len() + prefix.len() {
            assert(after[i] == tail[i - before.len() - prefix.len()]);
        } else {
            assert(after[i] == prefix[i - before.len()]);
        }
    }
    assert forall|i: int| before.len() <= i < after.len() && #[trigger] after[i] is Unlock implies i
        == before.len() && o.is_locked && !n.is_locked by {
        if i >= before.len() + prefix.len() {
            assert(after[i] == tail[i - before.len() - prefix.len()]);
        } else {
            assert(after[i] == prefix[i - before.len()]);
        }
    }
}

/// The last component of a path: what follows the last separator (`/`,
/// and on Windows also `\\`).
pub open spec fn file_name(path: Seq<char>, windows: bool) -> Seq<char>
    decreases path.len(),
{
    if path.len() == 0 {
        path
    } else if path.last() == '/' || (windows && path.last() == '\\') {
        Seq::empty()
    } else {
        file_name(path.drop_last(), windows).push(path.last())
    }
}

/// What follows the last dot of `name`, unless that dot is its first
/// character.
pub open spec fn after_last_dot(name: Seq<char>) -> Option<Seq<char>>
    decreases name.len(),
{
    if name.len() == 0 {
        None
    } else if name.last() == '.' {
        if name.len() == 1 {
            None
        } else {
            Some(Seq::empty())
        }
    } else {
        match after_last_dot(name.drop_last()) {
            Some(e) => Some(e.push(name.last())),
            None => None,
        }
    }
}

/// The extension of a file name (`Path::extension`): what follows its last
/// dot, unless that dot is the name's first character or the name is `..`.
pub open spec fn extension(name: Seq<char>) -> Option<Seq<char>> {
    if name == ".."@ {
        None
    } else {
        after_last_dot(name)
    }
}

/// The extension that plugin libraries have on the platform.
pub open spec fn plugin_ending(windows: bool) -> Seq<char> {
    if windows {
        "dll"@
    } else {
        "so"@
    }
}

/// A found path is loaded as a plugin when it is a file with the
/// platform's library extension.
pub open spec fn spec_is_plugin_file(path: Seq<char>, is_file: bool, windows: bool) -> bool {
    is_file && extension(file_name(path, windows)) == Some(plugin_ending(windows))
}

/// A separator of path components.
pub open spec fn is_separator(c: char, windows: bool) -> bool {
    c == '/' || (windows && c == '\\')
}

proof fn lemma_file_name_at(path: Seq<char>, windows: bool, j: int)
    requires
        0 <= j <= path.len(),
        forall|k: int| j <= k < path.len() ==> !is_separator(#[trigger] path[k], windows),
        j == 0 || is_separator(path[j - 1], windows),
    ensures
        file_name(path, windows) == path.skip(j),
    decreases path.len(),
{
    if path.len() == 0 {
        assert(path.skip(j) =~= path);
    } else if is_separator(path.last(), windows) {
        assert(j == path.len()) by {
            if j < path.len() {
                assert(!is_separator(path[path.len() - 1], windows));
            }
        }
        assert(path.skip(j) =~= Seq::<char>::empty());
    } else {
        assert(j < path.len()) by {
            if j == path.len() {
                assert(is_separator(path[j - 1], windows));
            }
        }
        let d = path.drop_last();
        assert forall|k: int| j <= k < d.len() implies !is_separator(#[trigger] d[k], windows) by {
            assert(d[k] == path[k]);
        }
        if j > 0 {
            assert(d[j - 1] == path[j - 1]);
        }
        lemma_file_name_at(d, windows, j);
        assert(d.skip(j).push(path.last()) =~= path.skip(j));
    }
}

proof fn lemma_after_last_dot_none(name: Seq<char>)
    requires
        forall|k: int| 0 <= k < name.len() ==> #[trigger] name[k] != '.',
    ensures
        after_last_dot(name) is None,
    decreases name.len(),
{
    if name.len() > 0 {
        let d = name.drop_last();
        assert forall|k: int| 0 <= k < d.len() implies #[trigger] d[k] != '.' by {
            assert(d[k] == name[k]);
        }
        lemma_after_last_dot_none(d);
    }
}

proof fn lemma_after_last_dot_at(name: Seq<char>, i: int)
    requires
        0 <= i < name.len(),
        name[i] == '.',
        forall|k: int| i < k < name.len() ==> #[trigger] name[k] != '.',
    ensures
        after_last_dot(name) == (if i == 0 {
            None
        } else {
            Some(name.skip(i + 1))
        }),
    decreases name.len(),
{
    if i == name.len() - 1 {
        assert(name.skip(i + 1) =~= Seq::<char>::empty());
    } else {
        let d = name.drop_last();
        assert(d[i] == '.');
        assert forall|k: int| i < k < d.len() implies #[trigger] d[k] != '.' by {
            assert(d[k] == name[k]);
        }
        lemma_after_last_dot_at(d, i);
        if i != 0 {
            assert(d.skip(i + 1).push(name.last()) =~= name.skip(i + 1));
        }
    }
}

/// Whether a found path is loaded as a plugin (see `spec_is_plugin_file`).
pub fn is_plugin_file(path: &str, is_file: bool, windows: bool) -> (r: bool)
    ensures
        r == spec_is_plugin_file(path@, is_file, windows),
{
    if !is_file {
        return false;
    }
    let v = crate::text::chars_of(path);
    let n = v.len();
    let mut j: usize = n;
    while j > 0 && !(v[j - 1] == '/' || (windows && v[j - 1] == '\\'))
        invariant
            j <= n,
            n == v@.len(),
            v@ == path@,
            forall|k: int| j <= k < n ==> !is_separator(#[trigger] v@[k], windows),
        decreases j,
    {
        j = j - 1;
    }
    proof {
        lemma_file_name_at(path@, windows, j as int);
    }
    let ghost name = path@.skip(j as int);
    let mut d: usize = n;
    let mut found = false;
    while d > j && !found
        invariant
            j <= d <= n,
            n == v@.len(),
            v@ == path@,
            found ==> d < n && v@[d as int] == '.',
            forall|k: int| d < k < n ==> #[trigger] v@[k] != '.',
            !found ==> forall|k: int| d <= k < n ==> #[trigger] v@[k] != '.',
        decreases d + (if found { 0int } else { 1int }),
    {
        if v[d - 1] == '.' {
            d = d - 1;
            found = true;
        } else {
            d = d - 1;
        }
    }
    let is_dotdot = n - j == 2 && v[j] == '.' && v[j + 1] == '.';
    proof {
        if is_dotdot {
            assert(name =~= ".."@) by {
                reveal_strlit("..");
            }
        } else {
            assert(name != ".."@) by {
                reveal_strlit("..");
                if name == ".."@ {
                    assert(name.len() == 2);
                    assert(name[0] == path@[j as int]);
                    assert(name[1] == path@[j + 1]);
                }
            }
        }
    }
    if is_dotdot {
        return false;
    }
    if !found {
        proof {
            assert forall|k: int| 0 <= k < name.len() implies #[trigger] name[k] != '.' by {
                assert(name[k] == v@[j + k]);
            }
            lemma_after_last_dot_none(name);
        }
        return false;
    }
    proof {
        let i = d - j;
        assert(name[i as int] == '.');
        assert forall|k: int| i < k < name.len() implies #[trigger] name[k] != '.' by {
            assert(name[k] == v@[j + k]);
        }
        lemma_after_last_dot_at(name, i as int);
        reveal_strlit("so");
        reveal_strlit("dll");
    }
    if d == j {
        return false;
    }
    let ghost ext = name.skip((d - j) + 1);
    assert(ext =~= path@.skip(d + 1));
    let r = if windows {
        n - d == 4 && v[d + 1] == 'd' && v[d + 2] == 'l' && v[d + 3] == 'l'
    } else {
        n - d == 3 && v[d + 1] == 's' && v[d + 2] == 'o'
    };
    proof {
        let e = plugin_ending(windows);
        if r {
            assert(ext =~= e);
        } else if ext == e {
            assert(ext.len() == e.len());
            assert(ext[0] == v@[d + 1]);
            assert(ext[1] == v@[d + 2]);
            if windows {
                assert(ext[2] == v@[d + 3]);
            }
        }
    }
    r
}

/// What a configured plugin location turned out to be.
pub enum LocationKind {
    File,
    Directory,
    /// A folder whose listing failed (the reason is attached).
    UnreadableDirectory(String),
    Missing,
}

/// What the search for plugins needs to know next.
pub enum LocationRequest {
    /// What the configured location at this path is.
    Inspect(String),
    /// The next entry of the folder being listed.
    NextEntry,
}

/// The answer to a `LocationRequest`.
pub enum LocationAnswer {
    Location(LocationKind),
    /// The next folder entry (its path and whether it is a file), the
    /// reason it could not be read, or `None` at the end of the folder.
    Entry(Option<Result<(String, bool), String>>),
}

/// The search for plugins through the configured locations: files are
/// taken as they are, folders are listed (not recursively).
pub struct PluginLocationIter {
    pub config_locations: Vec<String>,
    pub index: usize,
    pub in_directory: bool,
}

/// The view of a found item.
pub open spec fn found_view(r: Option<Result<String, String>>) -> Option<Result<Seq<char>, Seq<char>>> {
    match r {
        None => None,
        Some(Ok(p)) => Some(Ok(p@)),
        Some(Err(e)) => Some(Err(e@)),
    }
}

impl PluginLocationIter {
    /// Starts the search at the first configured location.
    pub fn new(config_locations: Vec<String>) -> (r: PluginLocationIter)
        ensures
            r.config_locations == config_locations,
            r.index == 0,
            !r.in_directory,
    {
        PluginLocationIter { config_locations, index: 0, in_directory: false }
    }

    /// What is needed next: the next entry while a folder is listed, else
    /// the kind of the next configured location; `None` when the search is
    /// over.
    pub fn request(&self) -> (r: Option<LocationRequest>)
        ensures
            self.in_directory ==> r matches Some(LocationRequest::NextEntry),
            !self.in_directory && self.index < self.config_locations@.len() ==> (r matches Some(
                LocationRequest::Inspect(p),
            ) && p@ == self.config_locations@[self.index as int]@),
            !self.in_directory && self.index >= self.config_locations@.len() ==> r is None,
    {
        if self.in_directory {
            Some(LocationRequest::NextEntry)
        } else if self.index < self.config_locations.len() {
            Some(LocationRequest::Inspect(self.config_locations[self.index].clone()))
        } else {
            None
        }
    }

    /// Takes the answer to the last request and gives what it yields: a
    /// plugin path, an error, or nothing (the search goes on). A folder
    /// entry yields its path when it is a plugin file and its error when it
    /// failed; the end of the folder goes back to the configured
    /// locations. A configured file yields itself when it is a plugin file;
    /// a folder starts its listing; an unreadable folder and a missing
    /// location yield an error.
    pub fn next(&mut self, answer: LocationAnswer, windows: bool) -> (r: Option<Result<String, String>>)
        requires
            old(self).in_directory ==> answer is Entry,
            !old(self).in_directory ==> answer is Location && old(self).index < old(self).config_locations@.len(),
        ensures
            final(self).config_locations == old(self).config_locations,
            old(self).in_directory ==> match answer {
                LocationAnswer::Entry(Some(Ok((p, is_file)))) => final(self).index == old(self).index
                    && final(self).in_directory
                    && found_view(r) == (if spec_is_plugin_file(p@, is_file, windows) {
                        Some(Ok::<Seq<char>, Seq<char>>(p@))
                    } else {
                        None
                    }),
                LocationAnswer::Entry(Some(Err(e))) => final(self).index == old(self).index
                    && final(self).in_directory && found_view(r) == Some(Err::<Seq<char>, Seq<char>>(e@)),
                _ => final(self).index == old(self).index && !final(self).in_directory && r is None,
            },
            !old(self).in_directory ==> {
                let path = old(self).config_locations@[old(self).index as int]@;
                &&& final(self).index == old(self).index + 1
                &&& match answer {
                    LocationAnswer::Location(LocationKind::File) => !final(self).in_directory
                        && found_view(r) == (if spec_is_plugin_file(path, true, windows) {
                            Some(Ok::<Seq<char>, Seq<char>>(path))
                        } else {
                            None
                        }),
                    LocationAnswer::Location(LocationKind::Directory) => final(self).in_directory && r is None,
                    LocationAnswer::Location(LocationKind::UnreadableDirectory(e)) => !final(self).in_directory
                        && found_view(r) == Some(Err::<Seq<char>, Seq<char>>("Unable to read folder "@ + e@)),
                    _ => !final(self).in_directory && found_view(r) == Some(
                        Err::<Seq<char>, Seq<char>>(path + " Does Not Exist!"@),
                    ),
                }
            },
    {
        proof {
            reveal_strlit("Unable to read folder ");
            reveal_strlit(" Does Not Exist!");
        }
        if self.in_directory {
            match answer {
                LocationAnswer::Entry(Some(Ok((p, is_file)))) => {
                    if is_plugin_file(p.as_str(), is_file, windows) {
                        Some(Ok(p))
                    } else {
                        None
                    }
                },
                LocationAnswer::Entry(Some(Err(e))) => Some(Err(e)),
                _ => {
                    self.in_directory = false;
                    None
                },
            }
        } else {
            let i = self.index;
            let n = self.config_locations.len();
            assert(i < n);
            self.index = i + 1;
            match answer {
                LocationAnswer::Location(LocationKind::File) => {
                    let path = self.config_locations[i].clone();
                    if is_plugin_file(path.as_str(), true, windows) {
                        Some(Ok(path))
                    } else {
                        None
                    }
                },
                LocationAnswer::Location(LocationKind::Directory) => {
                    self.in_directory = true;
                    None
                },
                LocationAnswer::Location(LocationKind::UnreadableDirectory(e)) => {
                    let mut m = String::from_str("Unable to read folder ");
                    m.append(e.as_str());
                    Some(Err(m))
                },
                _ => {
                    let mut m = self.config_locations[i].clone();
                    m.append(" Does Not Exist!");
                    Some(Err(m))
                },
            }
        }
    }
}

} // verus!
