use vstd::prelude::*;
use std::collections::HashMap;
use crate::codes::DataStoreReturnCode;
use crate::handles::{ActionHandle, PropertyHandle};
use crate::values::{
    spec_new_container, spec_read, spec_updated, spec_value_eq, spec_web_value, update_accepted, ContainerView,
    Property, PropertyView, Value,
    ValueCache, ValueContainer, WebValueView,
};
use crate::hashing::{generate_property_name_hash, spec_property_name_hash};
use vstd::string::StringExecFns;
use crate::web_handle::{spec_extract_hashes, WebActionHandle};
use vstd::std_specs::iter::IteratorSpec;

verus! {

broadcast use vstd::std_specs::hash::group_hash_axioms;

/// Whether a plugin is still starting or has finished its start.
#[derive(Debug, Clone, Copy, PartialEq, Eq, Structural)]
pub enum PluginStatus {
    Init,
    Running,
}

/// A setting of a plugin: its name, its value, and whether it is left out
/// when the settings are saved.
pub struct PluginSettingProperty {
    pub name: String,
    pub value: ValueContainer,
    pub transient: bool,
}

/// What the data store keeps of a registered plugin.
pub struct PluginEntry {
    pub name: String,
    pub version: [u16; 3],
    pub settings: HashMap<u64, PluginSettingProperty>,
    pub plugin_status: PluginStatus,
}

/// An action to hand to a plugin: who triggered it (a plugin id, or the
/// web client), the plugin and its action, and the id it runs under.
#[derive(Debug, Clone, Copy, PartialEq, Eq, Structural)]
pub struct ActionRequest {
    pub origin: u64,
    pub plugin: u64,
    pub action: u64,
    pub id: u64,
}

/// The central state: the registered plugins, the published properties and
/// their names, the next action id and whether shutdown has begun.
pub struct DataStore {
    pub errors: bool,
    pub plugins: HashMap<u64, PluginEntry>,
    pub properties: HashMap<u64, HashMap<u64, ValueContainer>>,
    pub prop_names: HashMap<u64, HashMap<u64, String>>,
    pub next_action_id: u64,
    pub shutdown: bool,
}

/// The published storage of property `h`, if any.
pub open spec fn property_of(ds: DataStore, h: PropertyHandle) -> Option<ContainerView> {
    if ds.properties@.contains_key(h.plugin) && ds.properties@[h.plugin]@.contains_key(h.property) {
        Some(ds.properties@[h.plugin]@[h.property]@)
    } else {
        None
    }
}

/// The recorded full name of property `h`, if any.
pub open spec fn name_of(ds: DataStore, h: PropertyHandle) -> Option<Seq<char>> {
    if ds.prop_names@.contains_key(h.plugin) && ds.prop_names@[h.plugin]@.contains_key(h.property) {
        Some(ds.prop_names@[h.plugin]@[h.property]@)
    } else {
        None
    }
}

/// The setting `property` of plugin `plugin`, if both exist.
pub open spec fn setting_of(ds: DataStore, plugin: u64, property: u64) -> Option<
    PluginSettingProperty,
> {
    if ds.plugins@.contains_key(plugin) && ds.plugins@[plugin].settings@.contains_key(property) {
        Some(ds.plugins@[plugin].settings@[property])
    } else {
        None
    }
}

/// Only the plugins table may have changed.
pub open spec fn same_except_plugins(a: DataStore, b: DataStore) -> bool {
    &&& a.errors == b.errors
    &&& a.properties@ == b.properties@
    &&& a.prop_names@ == b.prop_names@
    &&& a.next_action_id == b.next_action_id
    &&& a.shutdown == b.shutdown
}

/// Only the settings of `plugin` may have changed.
pub open spec fn same_but_settings(a: DataStore, b: DataStore, plugin: u64) -> bool {
    &&& same_except_plugins(a, b)
    &&& b.plugins@.dom() == a.plugins@.dom()
    &&& forall|k: u64| k != plugin && #[trigger] a.plugins@.contains_key(k) ==> b.plugins@[k]
        == a.plugins@[k]
    &&& a.plugins@.contains_key(plugin) ==> {
        &&& b.plugins@[plugin].name == a.plugins@[plugin].name
        &&& b.plugins@[plugin].version == a.plugins@[plugin].version
        &&& b.plugins@[plugin].plugin_status == a.plugins@[plugin].plugin_status
    }
}

/// Takes the settings of a registered plugin out of its entry; the entry,
/// with no settings, is handed back for `put_settings`.
fn take_settings(ds: &mut DataStore, plugin: u64) -> (r: (PluginEntry, HashMap<
    u64,
    PluginSettingProperty,
>))
    requires
        old(ds).plugins@.contains_key(plugin),
    ensures
        final(ds).plugins@ == old(ds).plugins@.remove(plugin),
        same_except_plugins(*old(ds), *final(ds)),
        r.0.name == old(ds).plugins@[plugin].name,
        r.0.version == old(ds).plugins@[plugin].version,
        r.0.plugin_status == old(ds).plugins@[plugin].plugin_status,
        r.1@ == old(ds).plugins@[plugin].settings@,
{
    match ds.plugins.remove(&plugin) {
        Some(e) => {
            let PluginEntry { name, version, settings, plugin_status } = e;
            (PluginEntry { name, version, settings: HashMap::new(), plugin_status }, settings)
        },
        None => {
            assert(false);
            (
                PluginEntry {
                    name: String::new(),
                    version: [0, 0, 0],
                    settings: HashMap::new(),
                    plugin_status: PluginStatus::Init,
                },
                HashMap::new(),
            )
        },
    }
}

/// Puts an entry taken by `take_settings` back with the settings `m`.
fn put_settings(
    ds: &mut DataStore,
    plugin: u64,
    entry: PluginEntry,
    m: HashMap<u64, PluginSettingProperty>,
)
    ensures
        final(ds).plugins@.dom() == old(ds).plugins@.dom().insert(plugin),
        same_except_plugins(*old(ds), *final(ds)),
        forall|k: u64| k != plugin && #[trigger] old(ds).plugins@.contains_key(k)
            ==> final(ds).plugins@[k] == old(ds).plugins@[k],
        final(ds).plugins@[plugin].name == entry.name,
        final(ds).plugins@[plugin].version == entry.version,
        final(ds).plugins@[plugin].plugin_status == entry.plugin_status,
        final(ds).plugins@[plugin].settings@ == m@,
{
    let PluginEntry { name, version, settings: _, plugin_status } = entry;
    ds.plugins.insert(plugin, PluginEntry { name, version, settings: m, plugin_status });
    assert(ds.plugins@.dom() =~= old(ds).plugins@.dom().insert(plugin));
}

impl DataStore {
    /// An empty store; `errors` notes configuration errors found so far.
    pub fn new(errors: bool) -> (r: DataStore)
        ensures
            r.errors == errors,
            r.plugins@ == Map::<u64, PluginEntry>::empty(),
            r.properties@ == Map::<u64, HashMap<u64, ValueContainer>>::empty(),
            r.prop_names@ == Map::<u64, HashMap<u64, String>>::empty(),
            r.next_action_id == 0,
            !r.shutdown,
    {
        DataStore {
            errors,
            plugins: HashMap::new(),
            properties: HashMap::new(),
            prop_names: HashMap::new(),
            next_action_id: 0,
            shutdown: false,
        }
    }

    /// Registers plugin `id`, starting, with no settings yet. Refused
    /// (`false`) once shutdown has begun or when the id is taken.
    pub fn register_plugin(&mut self, id: u64, name: String, version: [u16; 3]) -> (r: bool)
        ensures
            r == (!old(self).shutdown && !old(self).plugins@.contains_key(id)),
            same_except_plugins(*old(self), *final(self)),
            r ==> final(self).plugins@.dom() == old(self).plugins@.dom().insert(id),
            r ==> forall|k: u64| k != id && #[trigger] old(self).plugins@.contains_key(k)
                ==> final(self).plugins@[k] == old(self).plugins@[k],
            r ==> final(self).plugins@[id].name == name && final(self).plugins@[id].version
                == version && final(self).plugins@[id].settings@.len() == 0
                && final(self).plugins@[id].plugin_status == PluginStatus::Init,
            !r ==> final(self).plugins@ == old(self).plugins@,
    {
        if self.shutdown {
            return false;
        }
        if self.plugins.contains_key(&id) {
            return false;
        }
        let entry = PluginEntry {
            name,
            version,
            settings: HashMap::new(),
            plugin_status: PluginStatus::Init,
        };
        self.plugins.insert(id, entry);
        assert(self.plugins@.dom() =~= old(self).plugins@.dom().insert(id));
        true
    }

    /// Removes plugin `id`. Unless shutdown has begun, its properties are
    /// withdrawn too and the event loop is to be told (the second result).
    pub fn delete_plugin(&mut self, id: u64) -> (r: (DataStoreReturnCode, bool))
        ensures
            !old(self).plugins@.contains_key(id) ==> r == (DataStoreReturnCode::DoesNotExist, false)
                && *final(self) == *old(self),
            old(self).plugins@.contains_key(id) ==> {
                &&& r.0 == DataStoreReturnCode::Success
                &&& r.1 == !old(self).shutdown
                &&& final(self).plugins@ == old(self).plugins@.remove(id)
                &&& final(self).properties@ == (if old(self).shutdown {
                    old(self).properties@
                } else {
                    old(self).properties@.remove(id)
                })
                &&& final(self).prop_names@ == old(self).prop_names@
                &&& final(self).errors == old(self).errors
                &&& final(self).shutdown == old(self).shutdown
                &&& final(self).next_action_id == old(self).next_action_id
            },
    {
        if !self.plugins.contains_key(&id) {
            return (DataStoreReturnCode::DoesNotExist, false);
        }
        self.plugins.remove(&id);
        if self.shutdown {
            return (DataStoreReturnCode::Success, false);
        }
        self.properties.remove(&id);
        (DataStoreReturnCode::Success, true)
    }

    /// Hands out the next action id; ids climb by one (wrapping at the end
    /// of `u64`).
    pub fn take_action_id(&mut self) -> (r: u64)
        ensures
            r == old(self).next_action_id,
            final(self).next_action_id == (if old(self).next_action_id == u64::MAX {
                0
            } else {
                (old(self).next_action_id + 1) as u64
            }),
            final(self).plugins@ == old(self).plugins@,
            final(self).properties@ == old(self).properties@,
            final(self).prop_names@ == old(self).prop_names@,
            final(self).errors == old(self).errors,
            final(self).shutdown == old(self).shutdown,
    {
        let id = self.next_action_id;
        self.next_action_id = if id == u64::MAX {
            0
        } else {
            id + 1
        };
        id
    }

    /// An action for plugin `target_plugin`: takes the next action id, which
    /// is handed out when the plugin is registered (and the action can then
    /// be sent to it).
    pub fn trigger_action(&mut self, target_plugin: u64) -> (r: Option<u64>)
        ensures
            final(self).next_action_id == (if old(self).next_action_id == u64::MAX {
                0
            } else {
                (old(self).next_action_id + 1) as u64
            }),
            final(self).plugins@ == old(self).plugins@,
            final(self).properties@ == old(self).properties@,
            r == (if old(self).plugins@.contains_key(target_plugin) {
                Some(old(self).next_action_id)
            } else {
                None
            }),
    {
        let id = self.take_action_id();
        if self.plugins.contains_key(&target_plugin) {
            Some(id)
        } else {
            None
        }
    }

    /// Whether plugin `id` is registered.
    pub fn has_plugin(&self, id: u64) -> (r: bool)
        ensures
            r == self.plugins@.contains_key(id),
    {
        self.plugins.contains_key(&id)
    }

    /// An action from the web interface, triggered by `origin`: takes an
    /// action id, then checks the action's handle and that its plugin is
    /// registered. Gives the action to hand to that plugin: its origin,
    /// plugin, action and id.
    pub fn trigger_web_action(&mut self, origin: u64, action: &WebActionHandle) -> (r: Result<
        ActionRequest,
        &'static str,
    >)
        ensures
            final(self).next_action_id == (if old(self).next_action_id == u64::MAX {
                0
            } else {
                (old(self).next_action_id + 1) as u64
            }),
            final(self).plugins@ == old(self).plugins@,
            final(self).properties@ == old(self).properties@,
            match spec_extract_hashes(action@) {
                None => r == Err::<ActionRequest, &'static str>("Malformed ActionHandle"),
                Some((p, a)) => if old(self).plugins@.contains_key(p) {
                    r == Ok::<ActionRequest, &'static str>(
                        ActionRequest { origin, plugin: p, action: a, id: old(self).next_action_id },
                    )
                } else {
                    r == Err::<ActionRequest, &'static str>("Plugin does not exist")
                },
            },
    {
        let id = self.take_action_id();
        let handle = match action.to_action_handle() {
            Ok(h) => h,
            Err(_) => return Err("Malformed ActionHandle"),
        };
        if self.plugins.contains_key(&handle.plugin) {
            Ok(ActionRequest { origin, plugin: handle.plugin, action: handle.action, id })
        } else {
            Err("Plugin does not exist")
        }
    }

    pub fn get_shutdown_status(&self) -> (r: bool)
        ensures
            r == self.shutdown,
    {
        self.shutdown
    }

    /// Publishes (or replaces) the storage of property `h`.
    pub fn set_property(&mut self, h: PropertyHandle, val: ValueContainer)
        ensures
            property_of(*final(self), h) == Some(val@),
            forall|g: PropertyHandle| g != h ==> property_of(*final(self), g) == property_of(
                *old(self),
                g,
            ),
            final(self).plugins@ == old(self).plugins@,
            final(self).prop_names@ == old(self).prop_names@,
    {
        let mut inner = match self.properties.remove(&h.plugin) {
            Some(m) => m,
            None => HashMap::new(),
        };
        inner.insert(h.property, val);
        self.properties.insert(h.plugin, inner);
    }

    /// Withdraws property `h` (if it is published).
    pub fn delete_property(&mut self, h: PropertyHandle)
        ensures
            property_of(*final(self), h) is None,
            forall|g: PropertyHandle| g != h ==> property_of(*final(self), g) == property_of(
                *old(self),
                g,
            ),
            final(self).plugins@ == old(self).plugins@,
            final(self).prop_names@ == old(self).prop_names@,
    {
        match self.properties.remove(&h.plugin) {
            Some(mut inner) => {
                inner.remove(&h.property);
                self.properties.insert(h.plugin, inner);
            },
            None => {},
        }
    }

    /// Writes `val` into the storage of property `h`, the one copy every
    /// reader sees: `None` when `h` is not published; otherwise whether the
    /// storage took the value (see `update_accepted`).
    pub fn update_property_value(&mut self, h: PropertyHandle, val: Property) -> (r: Option<bool>)
        ensures
            match property_of(*old(self), h) {
                None => r is None && property_of(*final(self), h) is None,
                Some(c) => r == Some(update_accepted(c, val@)) && property_of(*final(self), h) == Some(
                    if update_accepted(c, val@) {
                        spec_updated(c, val@)
                    } else {
                        c
                    },
                ),
            },
            forall|g: PropertyHandle| g != h ==> property_of(*final(self), g) == property_of(
                *old(self),
                g,
            ),
            final(self).plugins@ == old(self).plugins@,
            final(self).prop_names@ == old(self).prop_names@,
            final(self).errors == old(self).errors,
            final(self).next_action_id == old(self).next_action_id,
            final(self).shutdown == old(self).shutdown,
    {
        let mut inner = match self.properties.remove(&h.plugin) {
            Some(m) => m,
            None => {
                assert(self.properties@ =~= old(self).properties@);
                return None;
            },
        };
        let r = match inner.remove(&h.property) {
            Some(mut c) => {
                let ok = c.update(val);
                inner.insert(h.property, c);
                Some(ok)
            },
            None => None,
        };
        self.properties.insert(h.plugin, inner);
        proof {
            assert forall|g: PropertyHandle| g != h implies property_of(*self, g) == property_of(*old(self), g) by {
                if g.plugin == h.plugin {
                    assert(g.property != h.property);
                }
            }
        }
        r
    }

    /// Reads the storage of property `h`, handing out an array with the
    /// write permission `allow_modify`; `None` when `h` is not published.
    pub fn read_property(&self, h: PropertyHandle, allow_modify: bool) -> (r: Option<Property>)
        ensures
            match property_of(*self, h) {
                None => r is None,
                Some(c) => r matches Some(p) && p@ == spec_read(c, allow_modify),
            },
    {
        match self.get_property_container(&h) {
            Some(c) => Some(c.read(allow_modify)),
            None => None,
        }
    }

    /// The published storage of property `h`.
    pub fn get_property_container(&self, h: &PropertyHandle) -> (r: Option<&ValueContainer>)
        ensures
            match r {
                Some(c) => property_of(*self, *h) == Some(c@),
                None => property_of(*self, *h) is None,
            },
    {
        match self.properties.get(&h.plugin) {
            Some(inner) => inner.get(&h.property),
            None => None,
        }
    }

    /// Records the full name of property `h`.
    pub fn register_property_name(&mut self, h: PropertyHandle, name: String)
        ensures
            name_of(*final(self), h) == Some(name@),
            forall|g: PropertyHandle| g != h ==> name_of(*final(self), g) == name_of(*old(self), g),
            final(self).plugins@ == old(self).plugins@,
            final(self).properties@ == old(self).properties@,
    {
        let mut inner = match self.prop_names.remove(&h.plugin) {
            Some(m) => m,
            None => HashMap::new(),
        };
        inner.insert(h.property, name);
        self.prop_names.insert(h.plugin, inner);
    }

    /// The recorded full name of property `h`.
    pub fn read_property_name(&self, h: &PropertyHandle) -> (r: Option<String>)
        ensures
            match r {
                Some(n) => name_of(*self, *h) == Some(n@),
                None => name_of(*self, *h) is None,
            },
    {
        match self.prop_names.get(&h.plugin) {
            Some(inner) => match inner.get(&h.property) {
                Some(n) => Some(n.clone()),
                None => None,
            },
            None => None,
        }
    }

    /// The setting `property` of plugin `plugin`.
    pub fn get_plugin_settings_property(&self, plugin: u64, property: u64) -> (r: Option<
        &PluginSettingProperty,
    >)
        ensures
            match r {
                Some(p) => setting_of(*self, plugin, property) == Some(*p),
                None => setting_of(*self, plugin, property) is None,
            },
    {
        match self.plugins.get(&plugin) {
            Some(p) => p.settings.get(&property),
            None => None,
        }
    }

    /// Stores (or replaces) a setting of a registered plugin; an
    /// unregistered plugin is an internal error.
    pub fn insert_plugin_settings_property(
        &mut self,
        plugin: u64,
        property: u64,
        prop: PluginSettingProperty,
    ) -> (r: DataStoreReturnCode)
        ensures
            !old(self).plugins@.contains_key(plugin) ==> r == DataStoreReturnCode::InternalError
                && *final(self) == *old(self),
            old(self).plugins@.contains_key(plugin) ==> {
                &&& r == DataStoreReturnCode::Success
                &&& same_but_settings(*old(self), *final(self), plugin)
                &&& final(self).plugins@[plugin].settings@ == old(
                    self,
                ).plugins@[plugin].settings@.insert(property, prop)
            },
    {
        if !self.plugins.contains_key(&plugin) {
            return DataStoreReturnCode::InternalError;
        }
        let (entry, mut settings) = take_settings(self, plugin);
        settings.insert(property, prop);
        put_settings(self, plugin, entry, settings);
        assert(self.plugins@.dom() =~= old(self).plugins@.dom());
        DataStoreReturnCode::Success
    }

    /// Marks a setting as left out of (or kept in) saved settings. An
    /// unregistered plugin is an internal error; a missing setting does not
    /// exist.
    pub fn set_plugin_settings_property_transient(
        &mut self,
        plugin: u64,
        property: u64,
        transient: bool,
    ) -> (r: DataStoreReturnCode)
        ensures
            !old(self).plugins@.contains_key(plugin) ==> r == DataStoreReturnCode::InternalError
                && *final(self) == *old(self),
            old(self).plugins@.contains_key(plugin) && !old(self).plugins@[plugin].settings@.contains_key(property)
                ==> r == DataStoreReturnCode::DoesNotExist && same_but_settings(*old(self), *final(self), plugin)
                && final(self).plugins@[plugin].settings@ == old(self).plugins@[plugin].settings@,
            setting_of(*old(self), plugin, property) is Some ==> {
                let p = setting_of(*old(self), plugin, property)->Some_0;
                &&& r == DataStoreReturnCode::Success
                &&& same_but_settings(*old(self), *final(self), plugin)
                &&& final(self).plugins@[plugin].settings@.dom() == old(self).plugins@[plugin].settings@.dom()
                &&& forall|k: u64| k != property && #[trigger] old(self).plugins@[plugin].settings@.contains_key(k)
                    ==> final(self).plugins@[plugin].settings@[k] == old(self).plugins@[plugin].settings@[k]
                &&& final(self).plugins@[plugin].settings@[property].name == p.name
                &&& final(self).plugins@[plugin].settings@[property].value == p.value
                &&& final(self).plugins@[plugin].settings@[property].transient == transient
            },
    {
        if !self.plugins.contains_key(&plugin) {
            return DataStoreReturnCode::InternalError;
        }
        let (entry, mut settings) = take_settings(self, plugin);
        let r = match settings.remove(&property) {
            Some(p) => {
                let PluginSettingProperty { name, value, transient: _ } = p;
                settings.insert(property, PluginSettingProperty { name, value, transient });
                DataStoreReturnCode::Success
            },
            None => DataStoreReturnCode::DoesNotExist,
        };
        proof {
            if r == DataStoreReturnCode::Success {
                assert(settings@.dom() =~= old(self).plugins@[plugin].settings@.dom());
            } else {
                assert(settings@ =~= old(self).plugins@[plugin].settings@);
            }
        }
        put_settings(self, plugin, entry, settings);
        r
    }

    /// Whether a setting is left out of saved settings; a setting that does
    /// not exist counts as left out.
    pub fn is_plugin_settings_property_transient(&self, plugin: u64, property: u64) -> (r: bool)
        ensures
            r == match setting_of(*self, plugin, property) {
                Some(p) => p.transient,
                None => true,
            },
    {
        match self.get_plugin_settings_property(plugin, property) {
            Some(p) => p.transient,
            None => true,
        }
    }

    /// Removes a setting. An unregistered plugin is an internal error; a
    /// missing setting does not exist.
    pub fn remove_plugin_settings_property(&mut self, plugin: u64, property: u64) -> (r:
        DataStoreReturnCode)
        ensures
            !old(self).plugins@.contains_key(plugin) ==> r == DataStoreReturnCode::InternalError
                && *final(self) == *old(self),
            old(self).plugins@.contains_key(plugin) ==> {
                &&& r == (if old(self).plugins@[plugin].settings@.contains_key(property) {
                    DataStoreReturnCode::Success
                } else {
                    DataStoreReturnCode::DoesNotExist
                })
                &&& same_but_settings(*old(self), *final(self), plugin)
                &&& final(self).plugins@[plugin].settings@ == old(self).plugins@[plugin].settings@.remove(property)
            },
    {
        if !self.plugins.contains_key(&plugin) {
            return DataStoreReturnCode::InternalError;
        }
        let (entry, mut settings) = take_settings(self, plugin);
        let r = match settings.remove(&property) {
            Some(_) => DataStoreReturnCode::Success,
            None => DataStoreReturnCode::DoesNotExist,
        };
        put_settings(self, plugin, entry, settings);
        assert(self.plugins@.dom() =~= old(self).plugins@.dom());
        r
    }

    /// Whether a configuration error or a failed service was noted.
    pub fn has_errors(&self) -> (r: bool)
        ensures
            r == self.errors,
    {
        self.errors
    }

    /// Notes a configuration error or a failed service.
    pub fn set_errors(&mut self)
        ensures
            final(self).errors,
            final(self).plugins@ == old(self).plugins@,
            final(self).properties@ == old(self).properties@,
            final(self).prop_names@ == old(self).prop_names@,
            final(self).next_action_id == old(self).next_action_id,
            final(self).shutdown == old(self).shutdown,
    {
        self.errors = true;
    }
}

/// Filtering a sequence without duplicates keeps as many elements as
/// filtering the set of its elements.
proof fn lemma_filter_len_matches_set(s: Seq<u64>, p: spec_fn(u64) -> bool)
    requires
        s.no_duplicates(),
    ensures
        s.filter(p).len() == s.to_set().filter(p).len(),
    decreases s.len(),
{
    broadcast use vstd::set::group_set_axioms, vstd::seq_lib::seq_to_set_is_finite;
    broadcast use vstd::set_lib::group_set_properties;

    reveal(Seq::filter);
    if s.len() == 0 {
        assert(s.to_set().filter(p) =~= Set::empty());
    } else {
        let t = s.drop_last();
        let x = s.last();
        assert(t.no_duplicates());
        lemma_filter_len_matches_set(t, p);
        assert(s =~= t + seq![x]);
        Seq::lemma_to_set_insert_commutes(t, x);
        assert(s.to_set() =~= t.to_set().insert(x));
        assert(!t.to_set().contains(x)) by {
            if t.contains(x) {
                let i = choose|i: int| 0 <= i < t.len() && t[i] == x;
                assert(s[i] == s[s.len() - 1]);
            }
        }
        assert(t.to_set().filter(p).finite());
        if p(x) {
            assert(s.to_set().filter(p) =~= t.to_set().filter(p).insert(x));
        } else {
            assert(s.to_set().filter(p) =~= t.to_set().filter(p));
        }
    }
}

/// The plugins that have finished their start.
pub open spec fn is_running(ds: DataStore) -> spec_fn(u64) -> bool {
    |k: u64| ds.plugins@[k].plugin_status == PluginStatus::Running
}

/// The running plugins other than `id`.
pub open spec fn running_except(ds: DataStore, id: u64) -> spec_fn(u64) -> bool {
    |k: u64| k != id && ds.plugins@[k].plugin_status == PluginStatus::Running
}

impl DataStore {
    /// The ids of all registered plugins, each once.
    pub fn plugin_ids(&self) -> (r: Vec<u64>)
        ensures
            r@.no_duplicates(),
            r@.to_set() == self.plugins@.dom(),
    {
        let mut ids: Vec<u64> = Vec::new();
        let keys = self.plugins.keys();
        let ghost all = keys.remaining().unref();
        assert(all.to_set() == self.plugins@.dom());
        assert(all.no_duplicates());
        for k in it: keys
            invariant
                ids@ == it.seq().take(it.index()).unref(),
                it.seq().unref() == all,
        {
            ids.push(*k);
            assert(ids@ =~= it.seq().take(it.index() + 1).unref());
        }
        assert(ids@ =~= all);
        ids
    }
}

impl DataStore {
    /// How many plugins have finished their start.
    pub fn count_plugins(&self) -> (r: usize)
        ensures
            r == self.plugins@.dom().filter(is_running(*self)).len(),
    {
        let ids = self.plugin_ids();
        let ghost p = is_running(*self);
        let mut count: usize = 0;
        let mut i: usize = 0;
        while i < ids.len()
            invariant
                i <= ids.len(),
                p == is_running(*self),
                ids@.to_set() == self.plugins@.dom(),
                count == ids@.take(i as int).filter(p).len(),
                count <= i,
            decreases ids.len() - i,
        {
            proof {
                reveal(Seq::filter);
                assert(ids@.take(i + 1).drop_last() =~= ids@.take(i as int));
                assert(ids@.to_set().contains(ids@[i as int]));
            }
            match self.plugins.get(&ids[i]) {
                Some(e) => {
                    if e.plugin_status == PluginStatus::Running {
                        count = count + 1;
                    }
                },
                None => {},
            }
            i = i + 1;
        }
        proof {
            assert(ids@.take(ids@.len() as int) =~= ids@);
            lemma_filter_len_matches_set(ids@, p);
        }
        count
    }

    /// Begins the shutdown: registration is closed from now on. Gives the
    /// plugins that are to be told, each once.
    pub fn start_shutdown(&mut self) -> (r: Vec<u64>)
        ensures
            final(self).shutdown,
            final(self).plugins@ == old(self).plugins@,
            final(self).properties@ == old(self).properties@,
            final(self).prop_names@ == old(self).prop_names@,
            final(self).errors == old(self).errors,
            final(self).next_action_id == old(self).next_action_id,
            r@.no_duplicates(),
            r@.to_set() == old(self).plugins@.dom(),
    {
        self.shutdown = true;
        self.plugin_ids()
    }

    /// Marks plugin `id` as running. Gives the other running plugins, each
    /// once: each of them is to be told of `id`, and `id` of each of them.
    pub fn set_plugin_ready(&mut self, id: u64) -> (r: Vec<u64>)
        requires
            old(self).plugins@.contains_key(id),
        ensures
            same_except_plugins(*old(self), *final(self)),
            final(self).plugins@.dom() == old(self).plugins@.dom(),
            forall|k: u64| k != id && #[trigger] old(self).plugins@.contains_key(k)
                ==> final(self).plugins@[k] == old(self).plugins@[k],
            final(self).plugins@[id].plugin_status == PluginStatus::Running,
            final(self).plugins@[id].name == old(self).plugins@[id].name,
            final(self).plugins@[id].version == old(self).plugins@[id].version,
            final(self).plugins@[id].settings@ == old(self).plugins@[id].settings@,
            r@.no_duplicates(),
            r@.to_set() == final(self).plugins@.dom().filter(running_except(*final(self), id)),
    {
        let (entry, settings) = take_settings(self, id);
        let PluginEntry { name, version, settings: _, plugin_status: _ } = entry;
        put_settings(
            self,
            id,
            PluginEntry { name, version, settings: HashMap::new(), plugin_status: PluginStatus::Running },
            settings,
        );
        assert(self.plugins@.dom() =~= old(self).plugins@.dom());
        let ids = self.plugin_ids();
        let ghost p = running_except(*self, id);
        let mut others: Vec<u64> = Vec::new();
        let mut i: usize = 0;
        while i < ids.len()
            invariant
                i <= ids.len(),
                p == running_except(*self, id),
                ids@.to_set() == self.plugins@.dom(),
                ids@.no_duplicates(),
                others@ == ids@.take(i as int).filter(p),
            decreases ids.len() - i,
        {
            proof {
                reveal(Seq::filter);
                assert(ids@.take(i + 1).drop_last() =~= ids@.take(i as int));
                assert(ids@.to_set().contains(ids@[i as int]));
            }
            let k = ids[i];
            if k != id {
                match self.plugins.get(&k) {
                    Some(e) => {
                        if e.plugin_status == PluginStatus::Running {
                            others.push(k);
                        }
                    },
                    None => {},
                }
            }
            i = i + 1;
        }
        proof {
            assert(ids@.take(ids@.len() as int) =~= ids@);
            assert(others@.no_duplicates()) by {
                assert forall|a: int, b: int| 0 <= a < b < others@.len() implies others@[a]
                    != others@[b] by {
                    lemma_filter_no_dup(ids@, p, a, b);
                }
            }
            assert(others@.to_set() =~= self.plugins@.dom().filter(p)) by {
                assert forall|k: u64| others@.to_set().contains(k) <==> self.plugins@.dom().filter(p).contains(k) by {
                    if self.plugins@.dom().filter(p).contains(k) {
                        assert(ids@.to_set().contains(k));
                        let j = choose|j: int| 0 <= j < ids@.len() && ids@[j] == k;
                        ids@.lemma_filter_contains(p, j);
                    }
                    if others@.to_set().contains(k) {
                        let j = choose|j: int| 0 <= j < others@.len() && others@[j] == k;
                        ids@.lemma_filter_pred(p, j);
                        ids@.lemma_filter_contains_rev(p, k);
                        assert(ids@.to_set().contains(k));
                    }
                }
            }
        }
        others
    }
}

/// Filtering keeps a sequence free of duplicates.
proof fn lemma_filter_no_dup(s: Seq<u64>, p: spec_fn(u64) -> bool, a: int, b: int)
    requires
        s.no_duplicates(),
        0 <= a < b < s.filter(p).len(),
    ensures
        s.filter(p)[a] != s.filter(p)[b],
    decreases s.len(),
{
    reveal(Seq::filter);
    let t = s.drop_last();
    assert(t.no_duplicates());
    if p(s.last()) && b == s.filter(p).len() - 1 {
        assert(s.filter(p)[b] == s.last());
        assert(s.filter(p)[a] == t.filter(p)[a]);
        let e = t.filter(p)[a];
        assert(t.filter(p).contains(e));
        t.lemma_filter_contains_rev(p, e);
        if e == s.last() {
            let i = choose|i: int| 0 <= i < t.len() && t[i] == s.last();
            assert(s[i] == s[s.len() - 1]);
        }
    } else {
        assert(s.filter(p)[a] == t.filter(p)[a]);
        assert(s.filter(p)[b] == t.filter(p)[b]);
        lemma_filter_no_dup(t, p, a, b);
    }
}

/// The saved settings, visiting the settings in the order `ids` and
/// leaving out the transient ones: each kept setting's name with the value
/// its storage holds.
pub open spec fn saved_settings(m: Map<u64, PluginSettingProperty>, ids: Seq<u64>) -> Seq<
    (Seq<char>, WebValueView),
>
    decreases ids.len(),
{
    if ids.len() == 0 {
        seq![]
    } else {
        let s = m[ids[0]];
        if s.transient {
            saved_settings(m, ids.skip(1))
        } else {
            seq![(s.name@, spec_web_value(s.value@))] + saved_settings(m, ids.skip(1))
        }
    }
}

/// The views of saved settings.
pub open spec fn saved_view(v: Seq<(String, Value)>) -> Seq<(Seq<char>, WebValueView)> {
    v.map_values(|e: (String, Value)| (e.0@, e.1@))
}

/// No setting of `m` holds an array (arrays cannot be saved).
pub open spec fn no_array_settings(m: Map<u64, PluginSettingProperty>) -> bool {
    forall|k: u64| #[trigger] m.contains_key(k) ==> !(m[k].value is Arr)
}

fn setting_ids(m: &HashMap<u64, PluginSettingProperty>) -> (r: Vec<u64>)
    ensures
        r@.no_duplicates(),
        r@.to_set() == m@.dom(),
{
    let mut ids: Vec<u64> = Vec::new();
    let keys = m.keys();
    let ghost all = keys.remaining().unref();
    for k in it: keys
        invariant
            ids@ == it.seq().take(it.index()).unref(),
            it.seq().unref() == all,
    {
        ids.push(*k);
        assert(ids@ =~= it.seq().take(it.index() + 1).unref());
    }
    assert(ids@ =~= all);
    ids
}

impl DataStore {
    /// The settings of `plugin` to be saved, as (name, value) pairs, in
    /// some order of the settings that visits each once; transient settings
    /// are left out. `None` when the plugin is not registered.
    pub fn settings_to_save(&self, plugin: u64) -> (r: Option<Vec<(String, Value)>>)
        requires
            self.plugins@.contains_key(plugin) ==> no_array_settings(self.plugins@[plugin].settings@),
        ensures
            !self.plugins@.contains_key(plugin) ==> r is None,
            self.plugins@.contains_key(plugin) ==> r is Some && exists|ids: Seq<u64>|
                {
                    &&& ids.no_duplicates()
                    &&& ids.to_set() == self.plugins@[plugin].settings@.dom()
                    &&& #[trigger] saved_view(r->Some_0@) == saved_settings(
                        self.plugins@[plugin].settings@,
                        ids,
                    )
                },
    {
        let entry = match self.plugins.get(&plugin) {
            Some(e) => e,
            None => return None,
        };
        let ghost m = entry.settings@;
        let ids = setting_ids(&entry.settings);
        let mut out: Vec<(String, Value)> = Vec::new();
        let mut i: usize = 0;
        assert(ids@.skip(0) =~= ids@);
        assert(saved_view(out@) + saved_settings(m, ids@.skip(0)) =~= saved_settings(m, ids@));
        while i < ids.len()
            invariant
                i <= ids.len(),
                m == entry.settings@,
                ids@.to_set() == m.dom(),
                no_array_settings(m),
                saved_view(out@) + saved_settings(m, ids@.skip(i as int)) == saved_settings(m, ids@),
            decreases ids.len() - i,
        {
            let ghost before = out@;
            assert(ids@.skip(i as int).skip(1) =~= ids@.skip(i + 1));
            assert(ids@.to_set().contains(ids@[i as int]));
            match entry.settings.get(&ids[i]) {
                Some(item) => {
                    if !item.transient {
                        let mut cache = ValueCache::default();
                        item.value.read_web(&mut cache);
                        out.push((item.name.clone(), cache.value));
                        assert(saved_view(out@) =~= saved_view(before) + seq![
                            (item.name@, spec_web_value(item.value@)),
                        ]);
                    }
                },
                None => {},
            }
            i = i + 1;
        }
        assert(ids@.skip(ids@.len() as int) =~= Seq::<u64>::empty());
        assert(saved_view(out@) =~= saved_settings(m, ids@));
        Some(out)
    }
}

/// How loading a plugin's settings went.
pub enum PluginSettingsLoadState {
    Loaded,
    NoFile,
    FileSystemError(String),
    JsonParseError(String),
    /// The settings were saved by a newer version of the plugin (attached).
    VersionNewerThenCurrent([u16; 3]),
    /// The settings were saved by an older version of the plugin (attached).
    VersionOlderThenCurrent([u16; 3]),
    PslsHandleNullPtr,
}

/// What reading a plugin's settings file gave.
pub enum SettingsFileRead {
    /// There is no file.
    Missing,
    /// The file could not be read (the reason is attached).
    Unreadable(String),
    /// The file is not a settings file (the reason is attached).
    Unparsable(String),
    /// The version of the plugin that saved it, and the settings in the
    /// order they were read.
    Parsed([u16; 3], Vec<(String, Value)>),
    /// The file parsed, but the setting with this name holds an array
    /// update, which no setting can be loaded from.
    ArrayUpdate(String),
}

/// The message for a setting that holds an array update: its name is
/// named, and whether the name is valid too.
pub open spec fn array_update_message(name: Seq<char>) -> Seq<char> {
    if spec_property_name_hash(name) is Some {
        "Invalid Property Type Error: Property '"@ + name + "' can not be ArrUpdate"@
    } else {
        "Property Error: Property '"@ + name + "' has an invalid type and name"@
    }
}

fn array_update_text(name: &String) -> (r: String)
    ensures
        r@ == array_update_message(name@),
{
    match generate_property_name_hash(name.as_str()) {
        Some(_) => {
            proof {
                reveal_strlit("Invalid Property Type Error: Property '");
                reveal_strlit("' can not be ArrUpdate");
            }
            let mut msg = String::from_str("Invalid Property Type Error: Property '");
            msg.append(name.as_str());
            msg.append("' can not be ArrUpdate");
            assert(msg@ =~= array_update_message(name@));
            msg
        },
        None => {
            proof {
                reveal_strlit("Property Error: Property '");
                reveal_strlit("' has an invalid type and name");
            }
            let mut msg = String::from_str("Property Error: Property '");
            msg.append(name.as_str());
            msg.append("' has an invalid type and name");
            assert(msg@ =~= array_update_message(name@));
            msg
        },
    }
}

/// Compares versions part by part.
pub open spec fn version_less(a: [u16; 3], b: [u16; 3]) -> bool {
    a[0] < b[0] || (a[0] == b[0] && (a[1] < b[1] || (a[1] == b[1] && a[2] < b[2])))
}

/// The property that a settings value is stored as.
pub open spec fn spec_value_property(v: WebValueView) -> PropertyView {
    match v {
        WebValueView::Empty => PropertyView::Empty,
        WebValueView::Int(x) => PropertyView::Int(x),
        WebValueView::Float(x) => PropertyView::Float(x),
        WebValueView::Bool(x) => PropertyView::Boolean(x),
        WebValueView::Str(x) => PropertyView::Str(x),
        WebValueView::Dur(x) => PropertyView::Duration(x),
    }
}

/// Stores a settings value as a property holding it would be stored.
pub fn container_from_value(v: Value) -> (r: ValueContainer)
    ensures
        r@ == spec_new_container(spec_value_property(v@)),
{
    let p = match v {
        Value::Empty => Property::Empty,
        Value::Int(x) => Property::Int(x),
        Value::Float(x) => Property::Float(x),
        Value::Bool(x) => Property::Boolean(x),
        Value::Str(x) => Property::Str(x),
        Value::Dur(x) => Property::Duration(x),
    };
    ValueContainer::new(p)
}

/// The views of settings entries.
pub open spec fn entries_view(e: Seq<(String, Value)>) -> Seq<(Seq<char>, WebValueView)> {
    e.map_values(|x: (String, Value)| (x.0@, x.1@))
}

/// The index of the first entry whose name is not a valid property name.
pub open spec fn first_invalid(e: Seq<(Seq<char>, WebValueView)>) -> Option<int>
    decreases e.len(),
{
    if e.len() == 0 {
        None
    } else {
        match first_invalid(e.drop_last()) {
            Some(i) => Some(i),
            None => if spec_property_name_hash(e.last().0) is None {
                Some(e.len() - 1)
            } else {
                None
            },
        }
    }
}

/// The settings that valid entries give: keyed by the hash of the name,
/// later entries replacing earlier ones with the same key.
pub open spec fn loaded_settings(e: Seq<(Seq<char>, WebValueView)>) -> Map<
    u64,
    (Seq<char>, ContainerView),
>
    decreases e.len(),
{
    if e.len() == 0 {
        Map::empty()
    } else {
        let x = e.last();
        loaded_settings(e.drop_last()).insert(
            spec_property_name_hash(x.0)->Some_0,
            (x.0, spec_new_container(spec_value_property(x.1))),
        )
    }
}

/// The settings map `m` holds exactly `l`, none of them transient.
pub open spec fn settings_match(m: Map<u64, PluginSettingProperty>, l: Map<u64, (Seq<char>, ContainerView)>) -> bool {
    &&& m.dom() == l.dom()
    &&& forall|k: u64| #[trigger] m.contains_key(k) ==> m[k].name@ == l[k].0 && m[k].value@ == l[k].1
        && !m[k].transient
}

/// The message for an invalid setting name.
pub open spec fn invalid_name_message(name: Seq<char>) -> Seq<char> {
    "Property Name Error: '"@ + name + "' is an invalid name"@
}

/// The outcome of loading settings that parsed (see `reload_plugin_settings`).
pub open spec fn load_outcome(
    r: Result<HashMap<u64, PluginSettingProperty>, String>,
    e: Seq<(Seq<char>, WebValueView)>,
) -> bool {
    match first_invalid(e) {
        Some(i) => r is Err && r->Err_0@ == invalid_name_message(e[i].0),
        None => r is Ok && settings_match(r->Ok_0@, loaded_settings(e)),
    }
}

fn load_entries(entries: Vec<(String, Value)>) -> (r: Result<HashMap<u64, PluginSettingProperty>, String>)
    ensures
        load_outcome(r, entries_view(entries@)),
{
    let ghost all = entries_view(entries@);
    let ghost orig = entries@;
    let mut m: HashMap<u64, PluginSettingProperty> = HashMap::new();
    let mut i: usize = 0;
    let n = entries.len();
    let mut rest = entries;
    while i < n
        invariant
            i <= n,
            n == all.len(),
            all == entries_view(orig),
            orig == entries@,
            rest@ == orig.skip(i as int),
            first_invalid(all.take(i as int)) is None,
            settings_match(m@, loaded_settings(all.take(i as int))),
        decreases n - i,
    {
        let (name, value) = rest.remove(0);
        proof {
            assert(rest@ =~= orig.skip(i + 1));
            assert(all.take(i + 1).drop_last() =~= all.take(i as int));
            assert((name@, value@) == all[i as int]);
        }
        match generate_property_name_hash(name.as_str()) {
            None => {
                proof {
                    reveal_strlit("Property Name Error: '");
                    reveal_strlit("' is an invalid name");
                    lemma_first_invalid_prefix(all, i as int + 1);
                }
                let mut msg = String::from_str("Property Name Error: '");
                msg.append(name.as_str());
                msg.append("' is an invalid name");
                assert(first_invalid(all) == Some(i as int));
                assert(msg@ =~= invalid_name_message(all[i as int].0));
                let r: Result<HashMap<u64, PluginSettingProperty>, String> = Err(msg);
                assert(load_outcome(r, all));
                return r;
            },
            Some(id) => {
                let cont = container_from_value(value);
                m.insert(id, PluginSettingProperty { name, value: cont, transient: false });
                proof {
                    let l = loaded_settings(all.take(i + 1));
                    assert(m@.dom() =~= l.dom());
                }
            },
        }
        i = i + 1;
    }
    assert(all.take(n as int) =~= all);
    Ok(m)
}

/// An invalid entry within a prefix is the first invalid entry of the
/// whole sequence when none comes before it.
proof fn lemma_first_invalid_prefix(e: Seq<(Seq<char>, WebValueView)>, k: int)
    requires
        0 < k <= e.len(),
        first_invalid(e.take(k - 1)) is None,
        spec_property_name_hash(e[k - 1].0) is None,
    ensures
        first_invalid(e) == Some(k - 1),
    decreases e.len(),
{
    assert(e.take(k).drop_last() =~= e.take(k - 1));
    if k < e.len() {
        assert(e.drop_last().take(k) =~= e.take(k));
        assert(e.drop_last().take(k - 1) =~= e.take(k - 1));
        lemma_first_invalid_prefix(e.drop_last(), k);
    } else {
        assert(e.take(k) =~= e);
    }
}

/// The load state for settings that parsed and were loaded, from the
/// version of the plugin and the version that saved them.
pub open spec fn version_outcome(current: [u16; 3], saved: [u16; 3], r: PluginSettingsLoadState) -> bool {
    if current[0] == saved[0] && current[1] == saved[1] && current[2] == saved[2] {
        r is Loaded
    } else if version_less(current, saved) {
        r == PluginSettingsLoadState::VersionNewerThenCurrent(saved)
    } else {
        r == PluginSettingsLoadState::VersionOlderThenCurrent(saved)
    }
}

fn compare_versions(current: [u16; 3], saved: [u16; 3]) -> (r: PluginSettingsLoadState)
    ensures
        version_outcome(current, saved, r),
{
    if current[0] == saved[0] && current[1] == saved[1] && current[2] == saved[2] {
        PluginSettingsLoadState::Loaded
    } else if current[0] < saved[0] || (current[0] == saved[0] && (current[1] < saved[1] || (
    current[1] == saved[1] && current[2] < saved[2]))) {
        PluginSettingsLoadState::VersionNewerThenCurrent(saved)
    } else {
        PluginSettingsLoadState::VersionOlderThenCurrent(saved)
    }
}

impl DataStore {
    /// Loads the settings of `plugin` from what reading its settings file
    /// gave. A missing, unreadable or unparsable file leaves the settings
    /// as they were. A parsed file replaces them: when an entry has an
    /// invalid name or holds an array update, by no settings at all (and
    /// that entry is reported), otherwise by its entries, and the state
    /// compares the plugin's version with the one that saved the file.
    pub fn reload_plugin_settings(&mut self, plugin: u64, file: SettingsFileRead) -> (r:
        PluginSettingsLoadState)
        ensures
            !old(self).plugins@.contains_key(plugin) ==> r is PslsHandleNullPtr && *final(self)
                == *old(self),
            old(self).plugins@.contains_key(plugin) ==> match file {
                SettingsFileRead::Missing => r is NoFile && *final(self) == *old(self),
                SettingsFileRead::Unreadable(t) => r matches PluginSettingsLoadState::FileSystemError(u)
                    && u@ == t@ && *final(self) == *old(self),
                SettingsFileRead::Unparsable(t) => r matches PluginSettingsLoadState::JsonParseError(u)
                    && u@ == t@ && *final(self) == *old(self),
                SettingsFileRead::ArrayUpdate(name) => r matches PluginSettingsLoadState::JsonParseError(u)
                    && u@ == array_update_message(name@) && same_but_settings(*old(self), *final(self), plugin)
                    && final(self).plugins@[plugin].settings@.len() == 0,
                SettingsFileRead::Parsed(saved, e) => {
                    &&& same_but_settings(*old(self), *final(self), plugin)
                    &&& match first_invalid(entries_view(e@)) {
                        Some(i) => r matches PluginSettingsLoadState::JsonParseError(u) && u@
                            == invalid_name_message(entries_view(e@)[i].0)
                            && final(self).plugins@[plugin].settings@.len() == 0,
                        None => settings_match(
                            final(self).plugins@[plugin].settings@,
                            loaded_settings(entries_view(e@)),
                        ) && version_outcome(old(self).plugins@[plugin].version, saved, r),
                    }
                },
            },
    {
        if !self.plugins.contains_key(&plugin) {
            return PluginSettingsLoadState::PslsHandleNullPtr;
        }
        match file {
            SettingsFileRead::Missing => PluginSettingsLoadState::NoFile,
            SettingsFileRead::Unreadable(t) => PluginSettingsLoadState::FileSystemError(t),
            SettingsFileRead::Unparsable(t) => PluginSettingsLoadState::JsonParseError(t),
            SettingsFileRead::ArrayUpdate(name) => {
                let (entry, _old_settings) = take_settings(self, plugin);
                put_settings(self, plugin, entry, HashMap::new());
                assert(self.plugins@.dom() =~= old(self).plugins@.dom());
                PluginSettingsLoadState::JsonParseError(array_update_text(&name))
            },
            SettingsFileRead::Parsed(saved, e) => {
                let (entry, _old_settings) = take_settings(self, plugin);
                let current = entry.version;
                match load_entries(e) {
                    Err(msg) => {
                        put_settings(self, plugin, entry, HashMap::new());
                        assert(self.plugins@.dom() =~= old(self).plugins@.dom());
                        PluginSettingsLoadState::JsonParseError(msg)
                    },
                    Ok(m) => {
                        put_settings(self, plugin, entry, m);
                        assert(self.plugins@.dom() =~= old(self).plugins@.dom());
                        compare_versions(current, saved)
                    },
                }
            },
        }
    }
}

/// Each setting is kept under the hash of its name (how settings are
/// created and loaded).
pub open spec fn keyed_by_name(m: Map<u64, PluginSettingProperty>) -> bool {
    forall|k: u64| #[trigger] m.contains_key(k) ==> spec_property_name_hash(m[k].name@) == Some(k)
}

proof fn lemma_loaded_concat(a: Seq<(Seq<char>, WebValueView)>, b: Seq<(Seq<char>, WebValueView)>)
    ensures
        loaded_settings(a + b) == loaded_settings(a).union_prefer_right(loaded_settings(b)),
    decreases b.len(),
{
    if b.len() == 0 {
        assert(a + b =~= a);
        assert(loaded_settings(a).union_prefer_right(loaded_settings(b)) =~= loaded_settings(a));
    } else {
        lemma_loaded_concat(a, b.drop_last());
        assert((a + b).drop_last() =~= a + b.drop_last());
        assert((a + b).last() == b.last());
        assert(loaded_settings(a + b) =~= loaded_settings(a).union_prefer_right(loaded_settings(b)));
    }
}

proof fn lemma_first_invalid_concat(a: Seq<(Seq<char>, WebValueView)>, b: Seq<(Seq<char>, WebValueView)>)
    requires
        first_invalid(a) is None,
        first_invalid(b) is None,
    ensures
        first_invalid(a + b) is None,
    decreases b.len(),
{
    if b.len() == 0 {
        assert(a + b =~= a);
    } else {
        lemma_first_invalid_concat(a, b.drop_last());
        assert((a + b).drop_last() =~= a + b.drop_last());
        assert((a + b).last() == b.last());
    }
}

proof fn lemma_saved_then_loaded(m: Map<u64, PluginSettingProperty>, ids: Seq<u64>)
    requires
        ids.no_duplicates(),
        forall|i: int| 0 <= i < ids.len() ==> m.contains_key(#[trigger] ids[i]),
        keyed_by_name(m),
        no_array_settings(m),
    ensures
        first_invalid(saved_settings(m, ids)) is None,
        forall|k: u64| #[trigger] loaded_settings(saved_settings(m, ids)).contains_key(k)
            <==> (ids.contains(k) && !m[k].transient),
        forall|k: u64| #[trigger] loaded_settings(saved_settings(m, ids)).contains_key(k)
            ==> loaded_settings(saved_settings(m, ids))[k].0 == m[k].name@ && spec_read(
            loaded_settings(saved_settings(m, ids))[k].1,
            false,
        ) == spec_read(m[k].value@, false),
    decreases ids.len(),
{
    if ids.len() == 0 {
        assert(saved_settings(m, ids) =~= Seq::<(Seq<char>, WebValueView)>::empty());
        assert(loaded_settings(saved_settings(m, ids)) =~= Map::empty());
    } else {
        let k0 = ids[0];
        let rest = ids.skip(1);
        let s0 = m[k0];
        assert forall|i: int| 0 <= i < rest.len() implies m.contains_key(#[trigger] rest[i]) by {
            assert(rest[i] == ids[i + 1]);
        }
        assert(rest.no_duplicates()) by {
            assert forall|i: int, j: int| 0 <= i < j < rest.len() implies rest[i] != rest[j] by {
                assert(rest[i] == ids[i + 1] && rest[j] == ids[j + 1]);
            }
        }
        assert(!rest.contains(k0)) by {
            if rest.contains(k0) {
                let j = choose|j: int| 0 <= j < rest.len() && rest[j] == k0;
                assert(ids[j + 1] == ids[0]);
            }
        }
        lemma_saved_then_loaded(m, rest);
        assert forall|k: u64| k != k0 implies ((rest.contains(k) && !m[k].transient) <==> (ids.contains(k)
            && !m[k].transient)) by {
            if ids.contains(k) {
                let j = choose|j: int| 0 <= j < ids.len() && ids[j] == k;
                assert(j != 0);
                assert(rest[j - 1] == k);
            }
            if rest.contains(k) {
                let j = choose|j: int| 0 <= j < rest.len() && rest[j] == k;
                assert(ids[j + 1] == k);
            }
        }
        assert(ids.contains(k0)) by {
            assert(ids[0] == k0);
        }
        if s0.transient {
            assert(saved_settings(m, ids) == saved_settings(m, rest));
        } else {
            let v = spec_web_value(s0.value@);
            let head = seq![(s0.name@, v)];
            let tail = saved_settings(m, rest);
            assert(saved_settings(m, ids) == head + tail);
            lemma_loaded_concat(head, tail);
            assert(head.drop_last() =~= Seq::<(Seq<char>, WebValueView)>::empty());
            assert(head.last() == (s0.name@, v));
            assert(first_invalid(head.drop_last()) is None);
            assert(loaded_settings(head.drop_last()) =~= Map::<u64, (Seq<char>, ContainerView)>::empty());
            assert(m.contains_key(k0));
            assert(spec_property_name_hash(s0.name@) == Some(k0));
            assert(!(s0.value@ is Arr));
            assert(first_invalid(head) is None);
            lemma_first_invalid_concat(head, tail);
            let lh = loaded_settings(head);
            assert(lh =~= Map::<u64, (Seq<char>, ContainerView)>::empty().insert(
                k0,
                (s0.name@, spec_new_container(spec_value_property(v))),
            ));
        }
    }
}

/// Loading what saving a plugin's settings wrote gives back every
/// non-transient setting (under its key, by name and by the value a read
/// gives) and nothing else.
pub proof fn lemma_save_then_reload(m: Map<u64, PluginSettingProperty>, ids: Seq<u64>)
    requires
        ids.no_duplicates(),
        ids.to_set() == m.dom(),
        keyed_by_name(m),
        no_array_settings(m),
    ensures
        first_invalid(saved_settings(m, ids)) is None,
        forall|k: u64| #[trigger] loaded_settings(saved_settings(m, ids)).contains_key(k)
            <==> (m.contains_key(k) && !m[k].transient),
        forall|k: u64| #[trigger] loaded_settings(saved_settings(m, ids)).contains_key(k)
            ==> loaded_settings(saved_settings(m, ids))[k].0 == m[k].name@ && spec_read(
            loaded_settings(saved_settings(m, ids))[k].1,
            false,
        ) == spec_read(m[k].value@, false),
{
    assert forall|i: int| 0 <= i < ids.len() implies m.contains_key(#[trigger] ids[i]) by {
        assert(ids.to_set().contains(ids[i]));
    }
    lemma_saved_then_loaded(m, ids);
    assert forall|k: u64| ids.contains(k) <==> m.contains_key(k) by {
        assert(ids.to_set().contains(k) == ids.contains(k));
    }
}

/// Deleting a plugin right after registering it gives back the plugins
/// that were registered before.
pub proof fn lemma_register_then_delete(before: DataStore, registered: DataStore, id: u64)
    requires
        !before.plugins@.contains_key(id),
        registered.plugins@.dom() == before.plugins@.dom().insert(id),
        forall|k: u64| k != id && #[trigger] before.plugins@.contains_key(k)
            ==> registered.plugins@[k] == before.plugins@[k],
    ensures
        registered.plugins@.remove(id) == before.plugins@,
{
    assert(registered.plugins@.remove(id) =~= before.plugins@);
}

/// A version as one number: major, then minor, then patch, each part
/// outweighing all later ones.
pub open spec fn version_number(v: [u16; 3]) -> int {
    v[0] as int * 0x1_0000_0000 + v[1] as int * 0x1_0000 + v[2] as int
}

proof fn lemma_version_less_is_numeric(a: [u16; 3], b: [u16; 3])
    ensures
        version_less(a, b) <==> version_number(a) < version_number(b),
        version_number(a) == version_number(b) <==> (a[0] == b[0] && a[1] == b[1] && a[2] == b[2]),
{
    let (a0, a1, a2) = (a[0] as int, a[1] as int, a[2] as int);
    let (b0, b1, b2) = (b[0] as int, b[1] as int, b[2] as int);
    assert(0 <= a1 * 0x1_0000 + a2 < 0x1_0000_0000) by (nonlinear_arith)
        requires
            0 <= a1 < 0x1_0000,
            0 <= a2 < 0x1_0000,
    ;
    assert(0 <= b1 * 0x1_0000 + b2 < 0x1_0000_0000) by (nonlinear_arith)
        requires
            0 <= b1 < 0x1_0000,
            0 <= b2 < 0x1_0000,
    ;
    assert(a0 < b0 ==> version_number(a) < version_number(b)) by (nonlinear_arith)
        requires
            0 <= a1 * 0x1_0000 + a2 < 0x1_0000_0000,
            0 <= b1 * 0x1_0000 + b2 < 0x1_0000_0000,
            version_number(a) == a0 * 0x1_0000_0000 + a1 * 0x1_0000 + a2,
            version_number(b) == b0 * 0x1_0000_0000 + b1 * 0x1_0000 + b2,
    ;
    assert(b0 < a0 ==> version_number(b) < version_number(a)) by (nonlinear_arith)
        requires
            0 <= a1 * 0x1_0000 + a2 < 0x1_0000_0000,
            0 <= b1 * 0x1_0000 + b2 < 0x1_0000_0000,
            version_number(a) == a0 * 0x1_0000_0000 + a1 * 0x1_0000 + a2,
            version_number(b) == b0 * 0x1_0000_0000 + b1 * 0x1_0000 + b2,
    ;
    assert(a1 < b1 ==> a1 * 0x1_0000 + a2 < b1 * 0x1_0000 + b2) by (nonlinear_arith)
        requires
            0 <= a2 < 0x1_0000,
            0 <= b2 < 0x1_0000,
    ;
    assert(b1 < a1 ==> b1 * 0x1_0000 + b2 < a1 * 0x1_0000 + a2) by (nonlinear_arith)
        requires
            0 <= a2 < 0x1_0000,
            0 <= b2 < 0x1_0000,
    ;
}

/// Versions are compared part by part, major first: when the plugin is
/// newer than the version that saved its settings the load state says the
/// file is older, when it is older the state says the file is newer, and
/// only equal versions count as loaded without remark.
pub proof fn lemma_version_outcome_follows_order(current: [u16; 3], saved: [u16; 3], r: PluginSettingsLoadState)
    requires
        version_outcome(current, saved, r),
    ensures
        version_number(current) > version_number(saved) ==> r == PluginSettingsLoadState::VersionOlderThenCurrent(saved),
        version_number(current) < version_number(saved) ==> r == PluginSettingsLoadState::VersionNewerThenCurrent(saved),
        version_number(current) == version_number(saved) ==> r is Loaded,
{
    lemma_version_less_is_numeric(current, saved);
}

} // verus!
