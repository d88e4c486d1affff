use vstd::prelude::*;
use crate::codes::DataStoreReturnCode;
use crate::events::EventMessage;
use crate::handles::{ascii_name_hashes, spec_name_hashes, ActionHandle, EventHandle, PropertyHandle};
use crate::hashing::{generate_property_name_hash, is_ascii_text, spec_property_name_hash};
use crate::loader::{
    actions_view, create_property_post, delete_post, handle_post, lemma_sub_key_injective,
    opt_str_view, own_handle, spec_compiletime_hash, sub_key, subscribes_to, unsubscribe_post,
    update_subscription_post, ActionView, LoaderMessage, PluginNameHash, PluginRunner,
};
use crate::registry::{property_of, setting_of, DataStore, PluginSettingProperty, same_but_settings};
use crate::values::{
    array_of, array_store_wf, spec_new_array, spec_new_container, spec_read, spec_store_write_code,
    update_accepted, spec_updated, ArrayStore, ArrayValueHandle, ContainerView, Property, PropertyType,
    PropertyView, ValueContainer,
};
use vstd::string::StringExecFns;

verus! {

broadcast use vstd::std_specs::hash::group_hash_axioms;

/// The check a new property (or setting) named `name` with handle `h`
/// must pass for plugin `id`: a readable name whose hash is the handle's,
/// and the plugin's own handle. `Success` when it passes.
pub open spec fn spec_name_check(id: u64, name: Option<Seq<char>>, h: PropertyHandle) -> DataStoreReturnCode {
    match name {
        None => DataStoreReturnCode::ParameterCorrupted,
        Some(n) => match spec_property_name_hash(n) {
            None => DataStoreReturnCode::ParameterCorrupted,
            Some(x) => if h.property != x {
                DataStoreReturnCode::ParameterCorrupted
            } else if h.plugin != id {
                DataStoreReturnCode::NotAuthenticated
            } else {
                DataStoreReturnCode::Success
            },
        },
    }
}

fn name_check(id: u64, name: Option<&str>, h: PropertyHandle) -> (r: DataStoreReturnCode)
    ensures
        r == spec_name_check(id, opt_str_view(name), h),
{
    let n = match name {
        Some(n) => n,
        None => return DataStoreReturnCode::ParameterCorrupted,
    };
    match generate_property_name_hash(n) {
        None => DataStoreReturnCode::ParameterCorrupted,
        Some(x) => if h.property != x {
            DataStoreReturnCode::ParameterCorrupted
        } else if h.plugin != id {
            DataStoreReturnCode::NotAuthenticated
        } else {
            DataStoreReturnCode::Success
        },
    }
}

/// Asks for a new property of plugin `han`: refused unless the name
/// check passes (see `spec_name_check`) and the id is still free
/// (`AlreadyExists`); otherwise the message that queues its creation, with
/// a writable storage for `value`.
pub fn create_property(
    han: &PluginRunner,
    name: Option<&str>,
    prop_handle: PropertyHandle,
    value: Property,
) -> (r: Result<LoaderMessage, DataStoreReturnCode>)
    ensures
        ({
            let check = spec_name_check(han.id, opt_str_view(name), prop_handle);
            if check != DataStoreReturnCode::Success {
                r == Err::<LoaderMessage, DataStoreReturnCode>(check)
            } else if han.properties@.contains_key(prop_handle.property) {
                r == Err::<LoaderMessage, DataStoreReturnCode>(DataStoreReturnCode::AlreadyExists)
            } else {
                r matches Ok(LoaderMessage::PropertyCreate(p, c)) && p == prop_handle.property
                    && c.value_view() == spec_new_container(value@) && c.may_modify()
                    && c.name_view() == opt_str_view(name)->Some_0
            }
        }),
{
    let check = name_check(han.id, name, prop_handle);
    if check != DataStoreReturnCode::Success {
        return Err(check);
    }
    if han.properties.contains_key(&prop_handle.property) {
        return Err(DataStoreReturnCode::AlreadyExists);
    }
    let n = match name {
        Some(n) => n,
        None => return Err(DataStoreReturnCode::ParameterCorrupted),
    };
    let c = crate::values::PropertyContainer::new(String::from_str(n), value);
    Ok(LoaderMessage::PropertyCreate(prop_handle.property, c))
}

/// What writing `value` into property `h` as plugin `han` answers: only
/// the plugin's own properties may be written (`NotAuthenticated` for a
/// handle of another plugin), `DoesNotExist` when the plugin has no such
/// property or it is not published, `TypeMissmatch` when the plugin may
/// not write it or the storage refuses the value (wrong type, an array).
pub open spec fn spec_update_code(han: PluginRunner, ds: DataStore, h: PropertyHandle, value: PropertyView) -> DataStoreReturnCode {
    if h.plugin != han.id {
        DataStoreReturnCode::NotAuthenticated
    } else if !han.properties@.contains_key(h.property) {
        DataStoreReturnCode::DoesNotExist
    } else {
        match property_of(ds, h) {
            None => DataStoreReturnCode::DoesNotExist,
            Some(c) => if han.properties@[h.property].allow_modify && update_accepted(c, value) {
                DataStoreReturnCode::Success
            } else {
                DataStoreReturnCode::TypeMissmatch
            },
        }
    }
}

/// The data store after `update_property`: the storage of `h` holds the
/// value when the write succeeded, everything else is as before.
pub open spec fn update_post(
    han: PluginRunner,
    o: DataStore,
    n: DataStore,
    h: PropertyHandle,
    value: PropertyView,
    r: DataStoreReturnCode,
) -> bool {
    &&& r == spec_update_code(han, o, h, value)
    &&& property_of(n, h) == if r == DataStoreReturnCode::Success {
        Some(spec_updated(property_of(o, h)->Some_0, value))
    } else {
        property_of(o, h)
    }
    &&& forall|g: PropertyHandle| g != h ==> property_of(n, g) == property_of(o, g)
    &&& n.plugins@ == o.plugins@
    &&& n.prop_names@ == o.prop_names@
}

/// Writes `value` into property `prop_handle` of plugin `han`, in the
/// storage the data store keeps (see `update_post`).
pub fn update_property(han: &PluginRunner, ds: &mut DataStore, prop_handle: PropertyHandle, value: Property) -> (r:
    DataStoreReturnCode)
    ensures
        update_post(*han, *old(ds), *final(ds), prop_handle, value@, r),
{
    if prop_handle.plugin != han.id {
        return DataStoreReturnCode::NotAuthenticated;
    }
    let allow = match han.properties.get(&prop_handle.property) {
        Some(p) => p.allow_modify,
        None => return DataStoreReturnCode::DoesNotExist,
    };
    if !allow {
        return match ds.get_property_container(&prop_handle) {
            Some(_) => DataStoreReturnCode::TypeMissmatch,
            None => DataStoreReturnCode::DoesNotExist,
        };
    }
    match ds.update_property_value(prop_handle, value) {
        None => DataStoreReturnCode::DoesNotExist,
        Some(true) => DataStoreReturnCode::Success,
        Some(false) => DataStoreReturnCode::TypeMissmatch,
    }
}

/// What reading property `h` gives plugin `han`: its own properties with
/// its write permission, others only when subscribed to and never
/// writable; either way from the one storage the data store keeps.
pub open spec fn spec_get_property_value(han: PluginRunner, ds: DataStore, h: PropertyHandle) -> Result<
    PropertyView,
    DataStoreReturnCode,
> {
    let may = if h.plugin == han.id {
        if han.properties@.contains_key(h.property) {
            Some(han.properties@[h.property].allow_modify)
        } else {
            None
        }
    } else if subscribes_to(han, h) {
        Some(false)
    } else {
        None
    };
    match may {
        None => Err(DataStoreReturnCode::DoesNotExist),
        Some(m) => match property_of(ds, h) {
            Some(c) => Ok(spec_read(c, m)),
            None => Err(DataStoreReturnCode::DoesNotExist),
        },
    }
}

/// The view of the result of a read.
pub open spec fn read_view(r: Result<Property, DataStoreReturnCode>) -> Result<
    PropertyView,
    DataStoreReturnCode,
> {
    match r {
        Ok(p) => Ok(p@),
        Err(e) => Err(e),
    }
}

/// Reads property `prop_handle` for plugin `han` (see
/// `spec_get_property_value`).
pub fn get_property_value(han: &PluginRunner, ds: &DataStore, prop_handle: PropertyHandle) -> (r: Result<
    Property,
    DataStoreReturnCode,
>)
    ensures
        read_view(r) == spec_get_property_value(*han, *ds, prop_handle),
{
    let may = if prop_handle.plugin == han.id {
        match han.properties.get(&prop_handle.property) {
            Some(p) => p.allow_modify,
            None => return Err(DataStoreReturnCode::DoesNotExist),
        }
    } else {
        let k = crate::loader::subscription_key(prop_handle);
        if !han.subscriptions.contains_key(&k) {
            return Err(DataStoreReturnCode::DoesNotExist);
        }
        false
    };
    match ds.read_property(prop_handle, may) {
        Some(p) => Ok(p),
        None => Err(DataStoreReturnCode::DoesNotExist),
    }
}

/// The handle named by `name` (`plugin.property`); an unreadable or
/// malformed name is `ParameterCorrupted`. For an ASCII name the handle is
/// the one of `ascii_name_hashes`, which ignores case (see
/// `lemma_ascii_names_ignore_case`).
pub fn generate_property_handle(name: Option<&str>) -> (r: Result<PropertyHandle, DataStoreReturnCode>)
    ensures
        match opt_str_view(name) {
            None => r == Err::<PropertyHandle, DataStoreReturnCode>(DataStoreReturnCode::ParameterCorrupted),
            Some(n) => match spec_name_hashes(n) {
                None => r == Err::<PropertyHandle, DataStoreReturnCode>(DataStoreReturnCode::ParameterCorrupted),
                Some((a, b)) => r == Ok::<PropertyHandle, DataStoreReturnCode>(PropertyHandle { plugin: a, property: b }),
            },
        },
        opt_str_view(name) matches Some(n) && is_ascii_text(n) ==> match ascii_name_hashes(opt_str_view(name)->Some_0) {
            None => r == Err::<PropertyHandle, DataStoreReturnCode>(DataStoreReturnCode::ParameterCorrupted),
            Some((a, b)) => r == Ok::<PropertyHandle, DataStoreReturnCode>(PropertyHandle { plugin: a, property: b }),
        },
{
    match name {
        None => Err(DataStoreReturnCode::ParameterCorrupted),
        Some(n) => match PropertyHandle::new(n) {
            Some(h) => Ok(h),
            None => Err(DataStoreReturnCode::ParameterCorrupted),
        },
    }
}

/// The event handle named by `name` (see `generate_property_handle`).
pub fn generate_event_handle(name: Option<&str>) -> (r: Result<EventHandle, DataStoreReturnCode>)
    ensures
        match opt_str_view(name) {
            None => r == Err::<EventHandle, DataStoreReturnCode>(DataStoreReturnCode::ParameterCorrupted),
            Some(n) => match spec_name_hashes(n) {
                None => r == Err::<EventHandle, DataStoreReturnCode>(DataStoreReturnCode::ParameterCorrupted),
                Some((a, b)) => r == Ok::<EventHandle, DataStoreReturnCode>(EventHandle { plugin: a, event: b }),
            },
        },
{
    match name {
        None => Err(DataStoreReturnCode::ParameterCorrupted),
        Some(n) => match EventHandle::new(n) {
            Some(h) => Ok(h),
            None => Err(DataStoreReturnCode::ParameterCorrupted),
        },
    }
}

/// The action handle named by `name` (see `generate_property_handle`).
pub fn generate_action_handle(name: Option<&str>) -> (r: Result<ActionHandle, DataStoreReturnCode>)
    ensures
        match opt_str_view(name) {
            None => r == Err::<ActionHandle, DataStoreReturnCode>(DataStoreReturnCode::ParameterCorrupted),
            Some(n) => match spec_name_hashes(n) {
                None => r == Err::<ActionHandle, DataStoreReturnCode>(DataStoreReturnCode::ParameterCorrupted),
                Some((a, b)) => r == Ok::<ActionHandle, DataStoreReturnCode>(ActionHandle { plugin: a, action: b }),
            },
        },
{
    match name {
        None => Err(DataStoreReturnCode::ParameterCorrupted),
        Some(n) => match ActionHandle::new(n) {
            Some(h) => Ok(h),
            None => Err(DataStoreReturnCode::ParameterCorrupted),
        },
    }
}

/// Asks to delete a property of plugin `han`; only its own existing
/// properties can be deleted.
pub fn delete_property(han: &PluginRunner, prop_handle: PropertyHandle) -> (r: Result<
    LoaderMessage,
    DataStoreReturnCode,
>)
    ensures
        if prop_handle.plugin == han.id && han.properties@.contains_key(prop_handle.property) {
            r matches Ok(LoaderMessage::PropertyDelete(p)) && p == prop_handle.property
        } else {
            r == Err::<LoaderMessage, DataStoreReturnCode>(DataStoreReturnCode::DoesNotExist)
        },
{
    if prop_handle.plugin == han.id && han.properties.contains_key(&prop_handle.property) {
        Ok(LoaderMessage::PropertyDelete(prop_handle.property))
    } else {
        Err(DataStoreReturnCode::DoesNotExist)
    }
}

/// Asks to replace the storage of a property of plugin `han` by one for
/// `value` (writable); only its own existing properties can change type.
pub fn change_property_type(han: &PluginRunner, prop_handle: PropertyHandle, value: Property) -> (r:
    Result<LoaderMessage, DataStoreReturnCode>)
    ensures
        if prop_handle.plugin == han.id && han.properties@.contains_key(prop_handle.property) {
            r matches Ok(LoaderMessage::PropertyTypeChange(p, c, allow)) && p == prop_handle.property
                && c@ == spec_new_container(value@) && allow
        } else {
            r == Err::<LoaderMessage, DataStoreReturnCode>(DataStoreReturnCode::DoesNotExist)
        },
{
    if prop_handle.plugin == han.id && han.properties.contains_key(&prop_handle.property) {
        let cont = ValueContainer::new(value);
        Ok(LoaderMessage::PropertyTypeChange(prop_handle.property, cont, true))
    } else {
        Err(DataStoreReturnCode::DoesNotExist)
    }
}

/// Asks to drop the subscription to `prop_handle`; refused when there is
/// none.
pub fn unsubscribe_property(han: &PluginRunner, prop_handle: PropertyHandle) -> (r: Result<
    LoaderMessage,
    DataStoreReturnCode,
>)
    ensures
        if subscribes_to(*han, prop_handle) {
            r matches Ok(LoaderMessage::Unsubscribe(h)) && h == prop_handle
        } else {
            r == Err::<LoaderMessage, DataStoreReturnCode>(DataStoreReturnCode::DoesNotExist)
        },
{
    let k = crate::loader::subscription_key(prop_handle);
    if !han.subscriptions.contains_key(&k) {
        return Err(DataStoreReturnCode::DoesNotExist);
    }
    Ok(LoaderMessage::Unsubscribe(prop_handle))
}

/// Asks for a subscription to `prop_handle`; whether the property exists
/// is found out by the loaders, so the request is always passed on.
pub fn subscribe_property(prop_handle: PropertyHandle) -> (r: LoaderMessage)
    ensures
        r matches LoaderMessage::Subscribe(h) && h == prop_handle,
{
    LoaderMessage::Subscribe(prop_handle)
}

/// Subscribes plugin `han_id` to an event; the event loop remembers the
/// subscription even before the event is created.
pub fn subscribe_event(han_id: u64, event: EventHandle) -> (r: EventMessage)
    ensures
        r == EventMessage::Subscribe(event, han_id),
{
    EventMessage::Subscribe(event, han_id)
}

/// Ends the subscription of plugin `han_id` to an event.
pub fn unsubscribe_event(han_id: u64, event: EventHandle) -> (r: EventMessage)
    ensures
        r == EventMessage::Unsubscribe(event, han_id),
{
    EventMessage::Unsubscribe(event, han_id)
}

/// Triggers an action of another plugin: the action gets the next action
/// id, which is answered when the plugin is registered
/// (`ParameterCorrupted` otherwise).
pub fn trigger_action(ds: &mut DataStore, action_handle: ActionHandle) -> (r: Result<
    u64,
    DataStoreReturnCode,
>)
    ensures
        final(ds).next_action_id == (if old(ds).next_action_id == u64::MAX {
            0
        } else {
            (old(ds).next_action_id + 1) as u64
        }),
        final(ds).plugins@ == old(ds).plugins@,
        final(ds).properties@ == old(ds).properties@,
        r == (if old(ds).plugins@.contains_key(action_handle.plugin) {
            Ok::<u64, DataStoreReturnCode>(old(ds).next_action_id)
        } else {
            Err::<u64, DataStoreReturnCode>(DataStoreReturnCode::ParameterCorrupted)
        }),
{
    match ds.trigger_action(action_handle.plugin) {
        Some(id) => Ok(id),
        None => Err(DataStoreReturnCode::ParameterCorrupted),
    }
}

/// Events may only be created, deleted and triggered by the plugin they
/// belong to.
pub fn create_event(han_id: u64, event: EventHandle) -> (r: Result<EventMessage, DataStoreReturnCode>)
    ensures
        event.plugin == han_id ==> r == Ok::<EventMessage, DataStoreReturnCode>(EventMessage::Create(event)),
        event.plugin != han_id ==> r == Err::<EventMessage, DataStoreReturnCode>(DataStoreReturnCode::NotAuthenticated),
{
    if han_id != event.plugin {
        return Err(DataStoreReturnCode::NotAuthenticated);
    }
    Ok(EventMessage::Create(event))
}

/// See `create_event`.
pub fn delete_event(han_id: u64, event: EventHandle) -> (r: Result<EventMessage, DataStoreReturnCode>)
    ensures
        event.plugin == han_id ==> r == Ok::<EventMessage, DataStoreReturnCode>(EventMessage::Remove(event)),
        event.plugin != han_id ==> r == Err::<EventMessage, DataStoreReturnCode>(DataStoreReturnCode::NotAuthenticated),
{
    if han_id != event.plugin {
        return Err(DataStoreReturnCode::NotAuthenticated);
    }
    Ok(EventMessage::Remove(event))
}

/// See `create_event`.
pub fn trigger_event(han_id: u64, event: EventHandle) -> (r: Result<EventMessage, DataStoreReturnCode>)
    ensures
        event.plugin == han_id ==> r == Ok::<EventMessage, DataStoreReturnCode>(EventMessage::Trigger(event)),
        event.plugin != han_id ==> r == Err::<EventMessage, DataStoreReturnCode>(DataStoreReturnCode::NotAuthenticated),
{
    if han_id != event.plugin {
        return Err(DataStoreReturnCode::NotAuthenticated);
    }
    Ok(EventMessage::Trigger(event))
}

/// The id of another plugin, from its name (as at compile time, but also
/// while the host runs).
pub fn get_foreign_plugin_id(name: Option<&str>) -> (r: PluginNameHash)
    ensures
        r == spec_compiletime_hash(false, opt_str_view(name)),
{
    crate::loader::compiletime_get_plugin_name_hash(false, name)
}

/// Reading a setting: only a plugin's own settings, and as writable.
pub fn get_plugin_settings_property(ds: &DataStore, han_id: u64, prop_handle: PropertyHandle) -> (r:
    Result<Property, DataStoreReturnCode>)
    ensures
        prop_handle.plugin != han_id ==> r == Err::<Property, DataStoreReturnCode>(DataStoreReturnCode::NotAuthenticated),
        prop_handle.plugin == han_id ==> match setting_of(*ds, han_id, prop_handle.property) {
            Some(s) => read_view(r) == Ok::<PropertyView, DataStoreReturnCode>(spec_read(s.value@, true)),
            None => r == Err::<Property, DataStoreReturnCode>(DataStoreReturnCode::DoesNotExist),
        },
{
    if prop_handle.plugin != han_id {
        return Err(DataStoreReturnCode::NotAuthenticated);
    }
    match ds.get_plugin_settings_property(han_id, prop_handle.property) {
        Some(value) => Ok(value.value.read(true)),
        None => Err(DataStoreReturnCode::DoesNotExist),
    }
}

/// Creates a setting of plugin `han_id`: the name check of properties
/// applies, an existing setting is `AlreadyExists`, and an unregistered
/// plugin an internal error.
pub fn create_plugin_settings_property(
    ds: &mut DataStore,
    han_id: u64,
    prop_handle: PropertyHandle,
    name: Option<&str>,
    value: Property,
    transient: bool,
) -> (r: DataStoreReturnCode)
    ensures
        ({
            let check = spec_name_check(han_id, opt_str_view(name), prop_handle);
            if check != DataStoreReturnCode::Success {
                r == check && *final(ds) == *old(ds)
            } else if setting_of(*old(ds), han_id, prop_handle.property) is Some {
                r == DataStoreReturnCode::AlreadyExists && *final(ds) == *old(ds)
            } else if !old(ds).plugins@.contains_key(han_id) {
                r == DataStoreReturnCode::InternalError && *final(ds) == *old(ds)
            } else {
                &&& r == DataStoreReturnCode::Success
                &&& same_but_settings(*old(ds), *final(ds), han_id)
                &&& final(ds).plugins@[han_id].settings@.dom() == old(ds).plugins@[han_id].settings@.dom().insert(prop_handle.property)
                &&& forall|k: u64| k != prop_handle.property && #[trigger] old(ds).plugins@[han_id].settings@.contains_key(k)
                    ==> final(ds).plugins@[han_id].settings@[k] == old(ds).plugins@[han_id].settings@[k]
                &&& final(ds).plugins@[han_id].settings@[prop_handle.property].name@ == opt_str_view(name)->Some_0
                &&& final(ds).plugins@[han_id].settings@[prop_handle.property].value@ == spec_new_container(value@)
                &&& final(ds).plugins@[han_id].settings@[prop_handle.property].transient == transient
            }
        }),
{
    let check = name_check(han_id, name, prop_handle);
    if check != DataStoreReturnCode::Success {
        return check;
    }
    if ds.get_plugin_settings_property(han_id, prop_handle.property).is_some() {
        return DataStoreReturnCode::AlreadyExists;
    }
    let n = match name {
        Some(n) => n,
        None => return DataStoreReturnCode::ParameterCorrupted,
    };
    let prop_container = ValueContainer::new(value);
    let r = ds.insert_plugin_settings_property(
        han_id,
        prop_handle.property,
        PluginSettingProperty { name: String::from_str(n), value: prop_container, transient },
    );
    proof {
        if old(ds).plugins@.contains_key(han_id) {
            assert(ds.plugins@[han_id].settings@.dom() =~= old(ds).plugins@[han_id].settings@.dom().insert(prop_handle.property));
        }
    }
    r
}

/// Replaces the value of a setting of plugin `han_id` by a new storage for
/// `value`, keeping its name and transience.
pub fn change_plugin_settings_property(
    ds: &mut DataStore,
    han_id: u64,
    prop_handle: PropertyHandle,
    value: Property,
) -> (r: DataStoreReturnCode)
    ensures
        prop_handle.plugin != han_id ==> r == DataStoreReturnCode::NotAuthenticated && *final(ds) == *old(ds),
        prop_handle.plugin == han_id ==> match setting_of(*old(ds), han_id, prop_handle.property) {
            None => r == DataStoreReturnCode::DoesNotExist && *final(ds) == *old(ds),
            Some(s) => {
                &&& r == DataStoreReturnCode::Success
                &&& same_but_settings(*old(ds), *final(ds), han_id)
                &&& final(ds).plugins@[han_id].settings@.dom() == old(ds).plugins@[han_id].settings@.dom()
                &&& forall|k: u64| k != prop_handle.property && #[trigger] old(ds).plugins@[han_id].settings@.contains_key(k)
                    ==> final(ds).plugins@[han_id].settings@[k] == old(ds).plugins@[han_id].settings@[k]
                &&& final(ds).plugins@[han_id].settings@[prop_handle.property].name@ == s.name@
                &&& final(ds).plugins@[han_id].settings@[prop_handle.property].value@ == spec_new_container(value@)
                &&& final(ds).plugins@[han_id].settings@[prop_handle.property].transient == s.transient
            },
        },
{
    if prop_handle.plugin != han_id {
        return DataStoreReturnCode::NotAuthenticated;
    }
    let (transient, name) = match ds.get_plugin_settings_property(han_id, prop_handle.property) {
        Some(setting) => (setting.transient, setting.name.clone()),
        None => return DataStoreReturnCode::DoesNotExist,
    };
    let prop_container = ValueContainer::new(value);
    let r = ds.insert_plugin_settings_property(
        han_id,
        prop_handle.property,
        PluginSettingProperty { name, value: prop_container, transient },
    );
    assert(ds.plugins@[han_id].settings@.dom() =~= old(ds).plugins@[han_id].settings@.dom());
    r
}

/// Deletes a setting; only a plugin's own.
pub fn delete_plugin_settings_property(ds: &mut DataStore, han_id: u64, prop_handle: PropertyHandle) -> (r:
    DataStoreReturnCode)
    ensures
        prop_handle.plugin != han_id ==> r == DataStoreReturnCode::NotAuthenticated && *final(ds) == *old(ds),
        prop_handle.plugin == han_id && !old(ds).plugins@.contains_key(han_id) ==> r
            == DataStoreReturnCode::InternalError && *final(ds) == *old(ds),
        prop_handle.plugin == han_id && old(ds).plugins@.contains_key(han_id) ==> {
            &&& r == (if old(ds).plugins@[han_id].settings@.contains_key(prop_handle.property) {
                DataStoreReturnCode::Success
            } else {
                DataStoreReturnCode::DoesNotExist
            })
            &&& same_but_settings(*old(ds), *final(ds), han_id)
            &&& final(ds).plugins@[han_id].settings@ == old(ds).plugins@[han_id].settings@.remove(prop_handle.property)
        },
{
    if prop_handle.plugin != han_id {
        return DataStoreReturnCode::NotAuthenticated;
    }
    ds.remove_plugin_settings_property(han_id, prop_handle.property)
}

/// Whether a setting is transient; another plugin's setting, or a
/// missing one, counts as transient.
pub fn is_plugin_settings_property_transient(ds: &DataStore, han_id: u64, prop_handle: PropertyHandle) -> (r:
    bool)
    ensures
        r == (prop_handle.plugin != han_id || match setting_of(*ds, han_id, prop_handle.property) {
            Some(s) => s.transient,
            None => true,
        }),
{
    if prop_handle.plugin != han_id {
        return true;
    }
    ds.is_plugin_settings_property_transient(han_id, prop_handle.property)
}

/// Marks a setting transient or not; only a plugin's own.
pub fn set_plugin_settings_property_transient(
    ds: &mut DataStore,
    han_id: u64,
    prop_handle: PropertyHandle,
    transient: bool,
) -> (r: DataStoreReturnCode)
    ensures
        prop_handle.plugin != han_id ==> r == DataStoreReturnCode::NotAuthenticated && *final(ds) == *old(ds),
        prop_handle.plugin == han_id ==> match setting_of(*old(ds), han_id, prop_handle.property) {
            None => (r == DataStoreReturnCode::InternalError || r == DataStoreReturnCode::DoesNotExist)
                && (r == DataStoreReturnCode::InternalError <==> !old(ds).plugins@.contains_key(han_id)),
            Some(s) => {
                &&& r == DataStoreReturnCode::Success
                &&& same_but_settings(*old(ds), *final(ds), han_id)
                &&& final(ds).plugins@[han_id].settings@[prop_handle.property].transient == transient
                &&& final(ds).plugins@[han_id].settings@[prop_handle.property].name == s.name
                &&& final(ds).plugins@[han_id].settings@[prop_handle.property].value == s.value
            },
        },
{
    if prop_handle.plugin != han_id {
        return DataStoreReturnCode::NotAuthenticated;
    }
    ds.set_plugin_settings_property_transient(han_id, prop_handle.property, transient)
}

/// Putting a message back into the queue is not implemented.
pub fn reenqueue_message() -> (r: DataStoreReturnCode)
    ensures
        r == DataStoreReturnCode::NotImplemented,
{
    DataStoreReturnCode::NotImplemented
}

/// Creates a writable array of `size` copies of `init_value` in `arrays`;
/// `None` for an initial value that is empty or an array.
pub fn create_array(arrays: &mut ArrayStore, size: usize, init_value: Property) -> (r: Option<ArrayValueHandle>)
    requires
        array_store_wf(*old(arrays)),
        old(arrays).next_id < u64::MAX,
    ensures
        array_store_wf(*final(arrays)),
        match spec_new_array(size as nat, init_value@) {
            None => r is None && *final(arrays) == *old(arrays),
            Some(a) => r matches Some(h) && h.allow_modify && h.id == old(arrays).next_id
                && final(arrays).next_id == old(arrays).next_id + 1
                && array_of(*final(arrays), h.id) == Some(a)
                && array_of(*old(arrays), h.id) is None
                && forall|id: u64| id != h.id ==> #[trigger] array_of(*final(arrays), id) == array_of(*old(arrays), id),
        },
{
    arrays.create(size, init_value)
}

/// A second handle on the same array, with the same write permission.
pub fn clone_array_handle(array_handle: &ArrayValueHandle) -> (r: ArrayValueHandle)
    ensures
        r == *array_handle,
{
    ArrayValueHandle { id: array_handle.id, allow_modify: array_handle.allow_modify }
}

/// The element of an array at `index`; `Property::Empty` out of bounds.
pub fn get_array_value(arrays: &ArrayStore, array_handle: &ArrayValueHandle, index: usize) -> (r: Property)
    ensures
        r@ == match array_of(*arrays, array_handle.id) {
            Some(a) => a.item(index as int),
            None => PropertyView::Empty,
        },
{
    arrays.get(array_handle, index)
}

/// The length of an array.
pub fn get_array_length(arrays: &ArrayStore, array_handle: &ArrayValueHandle) -> (r: usize)
    ensures
        r == match array_of(*arrays, array_handle.id) {
            Some(a) => a.len(),
            None => 0,
        },
{
    arrays.length(array_handle)
}

/// The type of the values of an array.
pub fn get_array_type(arrays: &ArrayStore, array_handle: &ArrayValueHandle) -> (r: PropertyType)
    ensures
        r == match array_of(*arrays, array_handle.id) {
            Some(a) => a.kind(),
            None => PropertyType::Empty,
        },
{
    arrays.kind(array_handle)
}

/// Writes into an array; only through a handle with write permission
/// (`NotAuthenticated` otherwise). Every handle on the array sees the
/// write.
pub fn set_array_value(arrays: &mut ArrayStore, array_handle: &ArrayValueHandle, index: usize, value: Property) -> (r:
    DataStoreReturnCode)
    requires
        array_store_wf(*old(arrays)),
    ensures
        array_store_wf(*final(arrays)),
        final(arrays).next_id == old(arrays).next_id,
        r == spec_store_write_code(*old(arrays), *array_handle, index as int, value@),
        array_of(*final(arrays), array_handle.id) == if r is Success {
            Some(array_of(*old(arrays), array_handle.id)->Some_0.with_item(index as int, value@))
        } else {
            array_of(*old(arrays), array_handle.id)
        },
        forall|id: u64| id != array_handle.id ==> #[trigger] array_of(*final(arrays), id) == array_of(*old(arrays), id),
{
    arrays.set(array_handle, index, value)
}

/// A plugin that was told it may read another plugin's property reads the
/// one storage the data store keeps for it, never writable.
pub proof fn lemma_subscription_then_read(
    o: PluginRunner,
    n: PluginRunner,
    ds: DataStore,
    h: PropertyHandle,
    before: Seq<ActionView>,
    after: Seq<ActionView>,
)
    requires
        update_subscription_post(o, n, h, before, after),
        h.plugin != o.id,
    ensures
        spec_get_property_value(n, ds, h) == match property_of(ds, h) {
            Some(c) => Ok::<PropertyView, DataStoreReturnCode>(spec_read(c, false)),
            None => Err(DataStoreReturnCode::DoesNotExist),
        },
{
}

/// After unsubscribing from `h` a plugin can no longer read it; its other
/// subscriptions are untouched.
pub proof fn lemma_unsubscribe_then_read(
    o: PluginRunner,
    n: PluginRunner,
    ds: DataStore,
    h: PropertyHandle,
    g: PropertyHandle,
    before: Seq<ActionView>,
    after: Seq<ActionView>,
)
    requires
        unsubscribe_post(o, n, h, before, after),
        h.plugin != o.id,
    ensures
        spec_get_property_value(n, ds, h) == Err::<PropertyView, DataStoreReturnCode>(DataStoreReturnCode::DoesNotExist),
        g != h ==> subscribes_to(n, g) == subscribes_to(o, g),
{
    lemma_sub_key_injective(g, h);
}

/// A property created with an initial value reads back that value once
/// its storage is published (an array only when the handle may write it:
/// the property then refers to that same array).
pub proof fn lemma_create_then_read(
    o: PluginRunner,
    n: PluginRunner,
    ds: DataStore,
    id: u64,
    c: crate::values::PropertyContainer,
    v: PropertyView,
    before: Seq<ActionView>,
    after: Seq<ActionView>,
)
    requires
        create_property_post(o, n, id, c, before, after),
        !o.properties@.contains_key(id),
        c.value_view() == spec_new_container(v),
        c.may_modify(),
        v is Array ==> (v matches PropertyView::Array(Some((_, m))) && m),
        property_of(ds, own_handle(o, id)) == Some(c.value_view()),
    ensures
        spec_get_property_value(n, ds, own_handle(o, id)) == Ok::<PropertyView, DataStoreReturnCode>(v),
{
    crate::values::lemma_new_then_read(v);
}

/// A deleted property can no longer be read by its plugin.
pub proof fn lemma_delete_then_read(
    o: PluginRunner,
    n: PluginRunner,
    ds: DataStore,
    id: u64,
    before: Seq<ActionView>,
    after: Seq<ActionView>,
)
    requires
        delete_post(o, n, id, before, after),
    ensures
        spec_get_property_value(n, ds, own_handle(o, id)) == Err::<PropertyView, DataStoreReturnCode>(DataStoreReturnCode::DoesNotExist),
{
}

/// What a plugin writes into its property is what it reads back and what
/// every plugin subscribed to the property reads: when the write succeeds,
/// each reader gets the written value; a write that fails changes what no
/// one reads.
pub proof fn lemma_write_then_readers_read(
    owner: PluginRunner,
    reader: PluginRunner,
    o: DataStore,
    n: DataStore,
    h: PropertyHandle,
    v: PropertyView,
    r: DataStoreReturnCode,
)
    requires
        update_post(owner, o, n, h, v, r),
        reader.id == owner.id ==> reader == owner,
        reader.id != owner.id ==> subscribes_to(reader, h),
    ensures
        r == DataStoreReturnCode::Success ==> spec_get_property_value(reader, n, h) == Ok::<
            PropertyView,
            DataStoreReturnCode,
        >(v),
        r != DataStoreReturnCode::Success ==> spec_get_property_value(reader, n, h)
            == spec_get_property_value(reader, o, h),
{
    if r == DataStoreReturnCode::Success {
        let c = property_of(o, h)->Some_0;
        crate::values::lemma_update_then_read(c, v, reader.id == owner.id && owner.properties@[h.property].allow_modify);
        crate::values::lemma_update_then_read(c, v, false);
        crate::values::lemma_update_then_read(c, v, true);
    }
}

} // verus!
