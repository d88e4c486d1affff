use datarace::api::{
    change_property_type, create_property, delete_property, get_property_value,
    unsubscribe_property, update_property,
};
use datarace::codes::{DataStoreReturnCode, MessageType};
use datarace::handles::PropertyHandle;
use datarace::hashing::{generate_plugin_name_hash, generate_property_name_hash};
use datarace::loader::{init_outcome, LoaderAction, LoaderMessage, Notice, PluginRunner};
use datarace::registry::DataStore;
use datarace::values::{Property, ValueContainer};

fn runner() -> PluginRunner {
    let id = generate_plugin_name_hash("test_plugin").unwrap();
    PluginRunner::new(id, "Test_Plugin".to_string())
}

fn handle_for(r: &PluginRunner, name: &str) -> PropertyHandle {
    PropertyHandle { plugin: r.id, property: generate_property_name_hash(name).unwrap() }
}

fn apply(ds: &mut DataStore, out: &[LoaderAction]) {
    for a in out {
        match a {
            LoaderAction::StoreProperty(h, c) => ds.set_property(*h, copy_container(c)),
            LoaderAction::RemoveStoredProperty(h) => ds.delete_property(*h),
            LoaderAction::RegisterName(h, n) => ds.register_property_name(*h, n.clone()),
            _ => {}
        }
    }
}

fn copy_container(c: &ValueContainer) -> ValueContainer {
    match c {
        ValueContainer::Empty => ValueContainer::Empty,
        ValueContainer::Int(x) => ValueContainer::Int(*x),
        ValueContainer::Float(x) => ValueContainer::Float(*x),
        ValueContainer::Bool(x) => ValueContainer::Bool(*x),
        ValueContainer::Str(s, v) => ValueContainer::Str(s.clone(), *v),
        ValueContainer::Dur(x) => ValueContainer::Dur(*x),
        ValueContainer::Arr(id) => ValueContainer::Arr(*id),
    }
}

fn create(r: &mut PluginRunner, ds: &mut DataStore, name: &str, value: Property) -> Vec<LoaderAction> {
    let h = handle_for(r, name);
    let msg = create_property(r, Some(name), h, value).unwrap();
    let mut out = Vec::new();
    assert!(!r.process_message(msg, &mut out));
    apply(ds, &out);
    out
}

#[test]
fn create_then_read() {
    let mut r = runner();
    let mut ds = DataStore::new(false);
    let out = create(&mut r, &mut ds, "Test", Property::Int(5));
    assert!(matches!(out[0], LoaderAction::Lock));
    assert!(matches!(&out[2], LoaderAction::RegisterName(_, n) if n == "test_plugin.test"));
    let h = handle_for(&r, "test");
    assert!(matches!(get_property_value(&r, &ds, h), Ok(Property::Int(5))));
}

#[test]
fn create_checks_name_and_owner() {
    let mut r = runner();
    let mut ds = DataStore::new(false);
    let h = handle_for(&r, "speed");
    let wrong = PropertyHandle { plugin: h.plugin, property: h.property.wrapping_add(1) };
    assert!(matches!(
        create_property(&r, Some("speed"), wrong, Property::Int(1)),
        Err(DataStoreReturnCode::ParameterCorrupted)
    ));
    let foreign = PropertyHandle { plugin: h.plugin.wrapping_add(1), property: h.property };
    assert!(matches!(
        create_property(&r, Some("speed"), foreign, Property::Int(1)),
        Err(DataStoreReturnCode::NotAuthenticated)
    ));
    assert!(matches!(
        create_property(&r, Some(".speed"), h, Property::Int(1)),
        Err(DataStoreReturnCode::ParameterCorrupted)
    ));
    assert!(matches!(
        create_property(&r, None, h, Property::Int(1)),
        Err(DataStoreReturnCode::ParameterCorrupted)
    ));
    create(&mut r, &mut ds, "speed", Property::Int(1));
    assert!(matches!(
        create_property(&r, Some("speed"), h, Property::Int(1)),
        Err(DataStoreReturnCode::AlreadyExists)
    ));
}

#[test]
fn updates_keep_the_type() {
    let mut r = runner();
    let mut ds = DataStore::new(false);
    create(&mut r, &mut ds, "visible", Property::Int(1));
    create(&mut r, &mut ds, "gen", Property::Str("Macros Rock!".to_string()));
    let v = handle_for(&r, "visible");
    let g = handle_for(&r, "gen");
    assert_eq!(update_property(&r, &mut ds, v, Property::Int(3)), DataStoreReturnCode::Success);
    assert_eq!(
        update_property(&r, &mut ds, g, Property::Str("Write The Macros!".to_string())),
        DataStoreReturnCode::Success
    );
    assert_eq!(update_property(&r, &mut ds, g, Property::Boolean(false)), DataStoreReturnCode::TypeMissmatch);
    assert_eq!(
        update_property(&r, &mut ds, v, Property::Str("4".to_string())),
        DataStoreReturnCode::TypeMissmatch
    );
    assert!(matches!(get_property_value(&r, &ds, v), Ok(Property::Int(3))));
    assert!(matches!(get_property_value(&r, &ds, g), Ok(Property::Str(s)) if s == "Write The Macros!"));
    let missing = handle_for(&r, "missing");
    assert_eq!(update_property(&r, &mut ds, missing, Property::Int(1)), DataStoreReturnCode::DoesNotExist);
}

#[test]
fn another_plugins_handle_is_refused() {
    let mut r = runner();
    let mut ds = DataStore::new(false);
    create(&mut r, &mut ds, "speed", Property::Int(1));
    let own = handle_for(&r, "speed");
    let other = PropertyHandle { plugin: own.plugin.wrapping_add(1), property: own.property };
    assert_eq!(update_property(&r, &mut ds, other, Property::Int(9)), DataStoreReturnCode::NotAuthenticated);
    assert!(matches!(get_property_value(&r, &ds, own), Ok(Property::Int(1))));
}

#[test]
fn subscriber_reads_what_the_owner_writes() {
    let mut owner = runner();
    let mut ds = DataStore::new(false);
    create(&mut owner, &mut ds, "speed", Property::Int(1));
    let h = handle_for(&owner, "speed");
    let reader_id = generate_plugin_name_hash("reader").unwrap();
    let mut reader = PluginRunner::new(reader_id, "reader".to_string());
    let mut out = Vec::new();
    reader.process_message(LoaderMessage::UpdateSubscription(h), &mut out);
    assert!(matches!(get_property_value(&reader, &ds, h), Ok(Property::Int(1))));
    assert_eq!(update_property(&owner, &mut ds, h, Property::Int(42)), DataStoreReturnCode::Success);
    assert!(matches!(get_property_value(&reader, &ds, h), Ok(Property::Int(42))));
    assert!(matches!(get_property_value(&owner, &ds, h), Ok(Property::Int(42))));
    assert_eq!(update_property(&reader, &mut ds, h, Property::Int(7)), DataStoreReturnCode::NotAuthenticated);
    assert!(matches!(get_property_value(&reader, &ds, h), Ok(Property::Int(42))));
}

#[test]
fn type_change_and_delete() {
    let mut r = runner();
    let mut ds = DataStore::new(false);
    create(&mut r, &mut ds, "gen", Property::Str("x".to_string()));
    let g = handle_for(&r, "gen");
    let msg = change_property_type(&r, g, Property::Boolean(true)).unwrap();
    let mut out = Vec::new();
    r.process_message(msg, &mut out);
    apply(&mut ds, &out);
    assert!(matches!(get_property_value(&r, &ds, g), Ok(Property::Boolean(true))));
    let msg = delete_property(&r, g).unwrap();
    let mut out = Vec::new();
    r.process_message(msg, &mut out);
    apply(&mut ds, &out);
    assert!(matches!(get_property_value(&r, &ds, g), Err(DataStoreReturnCode::DoesNotExist)));
    assert!(matches!(delete_property(&r, g), Err(DataStoreReturnCode::DoesNotExist)));
    assert!(matches!(change_property_type(&r, g, Property::Int(1)), Err(DataStoreReturnCode::DoesNotExist)));
}

#[test]
fn subscriptions_are_read_only() {
    let mut r = runner();
    let mut ds = DataStore::new(false);
    let foreign = PropertyHandle { plugin: 1, property: 2 };
    ds.set_property(foreign, ValueContainer::new(Property::Int(9)));
    assert!(matches!(get_property_value(&r, &ds, foreign), Err(DataStoreReturnCode::DoesNotExist)));
    assert!(matches!(unsubscribe_property(&r, foreign), Err(DataStoreReturnCode::DoesNotExist)));
    let mut out = Vec::new();
    r.process_message(LoaderMessage::UpdateSubscription(foreign), &mut out);
    assert!(matches!(get_property_value(&r, &ds, foreign), Ok(Property::Int(9))));
    let msg = unsubscribe_property(&r, foreign).unwrap();
    r.process_message(msg, &mut out);
    assert!(matches!(out.last(), Some(LoaderAction::Notify(t, Notice::HasUnsubscribed(_, h))) if t == &vec![1u64] && *h == foreign));
    assert!(matches!(get_property_value(&r, &ds, foreign), Err(DataStoreReturnCode::DoesNotExist)));
}

#[test]
fn owner_answers_subscription_requests() {
    let mut r = runner();
    let mut ds = DataStore::new(false);
    create(&mut r, &mut ds, "speed", Property::Int(7));
    let h = handle_for(&r, "speed");
    let mut out = Vec::new();
    r.process_message(LoaderMessage::GenerateSubscribtion(99, h), &mut out);
    assert!(matches!(out.last(), Some(LoaderAction::Notify(t, Notice::UpdateSubscription(g))) if t == &vec![99u64] && *g == h));
    r.subscription_delivered(99, h.property);
    r.subscription_delivered(98, h.property);
    let mut out = Vec::new();
    r.process_message(LoaderMessage::HasUnsubscribed(99, h), &mut out);
    let msg = delete_property(&r, h).unwrap();
    let mut out = Vec::new();
    r.process_message(msg, &mut out);
    assert!(matches!(out.last(), Some(LoaderAction::Notify(t, Notice::Unsubscribe(g))) if t == &vec![98u64] && *g == h));
}

#[test]
fn lock_messages_alternate() {
    let mut r = runner();
    let mut ds = DataStore::new(false);
    let mut out = Vec::new();
    create(&mut r, &mut ds, "a", Property::Int(1));
    assert!(r.is_locked);
    let h = handle_for(&r, "b");
    let msg = create_property(&r, Some("b"), h, Property::Int(2)).unwrap();
    r.process_message(msg, &mut out);
    assert!(!out.iter().any(|a| matches!(a, LoaderAction::Lock)));
    r.idle(false, &mut out);
    assert!(r.is_locked);
    r.idle(true, &mut out);
    assert!(!r.is_locked);
    assert!(matches!(out.last(), Some(LoaderAction::Unlock)));
    let mut out = Vec::new();
    r.process_message(LoaderMessage::Deliver(MessageType::InternalMessage), &mut out);
    assert_eq!(out.len(), 1);
    assert!(matches!(out[0], LoaderAction::Deliver(MessageType::InternalMessage)));
}

#[test]
fn shutdown_ends_the_loop() {
    let mut r = runner();
    let mut ds = DataStore::new(false);
    create(&mut r, &mut ds, "a", Property::Int(1));
    let mut out = Vec::new();
    assert!(r.process_message(LoaderMessage::Shutdown, &mut out));
    assert!(matches!(out[0], LoaderAction::Unlock));
    assert!(matches!(out[1], LoaderAction::Deliver(MessageType::Shutdown)));
}

#[test]
fn startup_marks_plugin_ready() {
    let mut r = runner();
    let mut out = Vec::new();
    r.process_message(LoaderMessage::StartupFinished, &mut out);
    assert!(matches!(out[0], LoaderAction::SetReady));
    assert!(matches!(out[1], LoaderAction::Deliver(MessageType::StartupFinished)));
}

#[test]
fn a_refused_lock_leaves_the_plugin_unlocked() {
    let mut r = runner();
    let mut ds = DataStore::new(false);
    let out = create(&mut r, &mut ds, "a", Property::Int(1));
    assert!(r.is_locked);
    assert!(!r.plugin_answer(&out[0], 0));
    assert!(r.is_locked);
    assert!(r.plugin_answer(&out[0], 3));
    assert!(!r.is_locked);
}

#[test]
fn a_failed_delivery_ends_the_loop() {
    let mut r = runner();
    let mut out = Vec::new();
    r.process_message(LoaderMessage::Deliver(MessageType::InternalMessage), &mut out);
    assert!(r.plugin_answer(&out[0], -1));
    assert!(!r.plugin_answer(&out[0], 0));
    assert!(!r.is_locked);
}

#[test]
fn init_codes_decide_the_start() {
    assert!(matches!(init_outcome(0), Some(LoaderMessage::StartupFinished)));
    assert!(init_outcome(1).is_none());
}

#[test]
fn locking_twice_sends_one_lock() {
    let mut r = runner();
    let mut out = Vec::new();
    r.send_lock(&mut out);
    r.send_lock(&mut out);
    assert_eq!(out.len(), 1);
    assert!(matches!(out[0], LoaderAction::Lock));
    assert!(r.is_locked);
    // The plugin refuses the lock: it stays unlocked, so the next lock is sent again.
    assert!(r.plugin_answer(&out[0], 1));
    r.send_lock(&mut out);
    assert_eq!(out.len(), 2);
    assert!(matches!(out[1], LoaderAction::Lock));
}
