use datarace::api::{
    create_array, get_array_length, get_array_type, get_array_value, subscribe_event, subscribe_property,
    trigger_action, unsubscribe_event,
};
use datarace::codes::DataStoreReturnCode;
use datarace::events::EventMessage;
use datarace::handles::{ActionHandle, EventHandle, PropertyHandle};
use datarace::hashing::generate_plugin_name_hash;
use datarace::loader::LoaderMessage;
use datarace::registry::DataStore;
use datarace::values::{ArrayStore, ArrayValueHandle, Property, PropertyType};

#[test]
fn subscriptions_are_passed_on() {
    let h = PropertyHandle::new("other.speed").unwrap();
    assert!(matches!(subscribe_property(h), LoaderMessage::Subscribe(x) if x == h));
    let ev = EventHandle::new("other.lap").unwrap();
    assert!(matches!(subscribe_event(5, ev), EventMessage::Subscribe(e, 5) if e == ev));
    assert!(matches!(unsubscribe_event(5, ev), EventMessage::Unsubscribe(e, 5) if e == ev));
}

#[test]
fn actions_of_registered_plugins_get_climbing_ids() {
    let mut ds = DataStore::new(false);
    let id = generate_plugin_name_hash("target").unwrap();
    assert!(ds.register_plugin(id, "target".to_string(), [0, 1, 0]));
    let go = ActionHandle::new("target.go").unwrap();
    let first = trigger_action(&mut ds, go).unwrap();
    assert_eq!(trigger_action(&mut ds, go), Ok(first + 1));
    let missing = ActionHandle::new("nobody.go").unwrap();
    assert_eq!(trigger_action(&mut ds, missing), Err(DataStoreReturnCode::ParameterCorrupted));
    // The refused action still used up an id.
    assert_eq!(trigger_action(&mut ds, go), Ok(first + 3));
}

#[test]
fn arrays_are_read_through_their_handles() {
    let mut arrays = ArrayStore::new();
    let arr = create_array(&mut arrays, 3, Property::Boolean(true)).unwrap();
    assert_eq!(get_array_length(&arrays, &arr), 3);
    assert_eq!(get_array_type(&arrays, &arr), PropertyType::Boolean);
    assert!(matches!(get_array_value(&arrays, &arr, 2), Property::Boolean(true)));
    assert!(matches!(get_array_value(&arrays, &arr, 3), Property::Empty));
    let missing = ArrayValueHandle { id: arr.id + 1, allow_modify: true };
    assert_eq!(get_array_length(&arrays, &missing), 0);
    assert_eq!(get_array_type(&arrays, &missing), PropertyType::Empty);
}
