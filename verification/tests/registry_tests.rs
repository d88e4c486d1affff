use datarace::api::{
    change_plugin_settings_property, create_plugin_settings_property,
    delete_plugin_settings_property, get_plugin_settings_property,
    is_plugin_settings_property_transient, reenqueue_message,
    set_plugin_settings_property_transient,
};
use datarace::codes::DataStoreReturnCode;
use datarace::handles::PropertyHandle;
use datarace::hashing::{generate_plugin_name_hash, generate_property_name_hash};
use datarace::registry::{ActionRequest, DataStore, PluginSettingsLoadState, SettingsFileRead};
use datarace::values::{Property, Value, ValueContainer};
use datarace::web_handle::WebActionHandle;

fn store_with_plugin() -> (DataStore, u64) {
    let mut ds = DataStore::new(false);
    let id = generate_plugin_name_hash("test_plugin").unwrap();
    assert!(ds.register_plugin(id, "test_plugin".to_string(), [1, 2, 3]));
    (ds, id)
}

fn setting(id: u64, name: &str) -> PropertyHandle {
    PropertyHandle { plugin: id, property: generate_property_name_hash(name).unwrap() }
}

#[test]
fn plugins_register_once() {
    let (mut ds, id) = store_with_plugin();
    assert!(!ds.register_plugin(id, "test_plugin".to_string(), [1, 2, 3]));
    assert!(ds.has_plugin(id));
    assert_eq!(ds.count_plugins(), 0);
    let others = ds.set_plugin_ready(id);
    assert!(others.is_empty());
    assert_eq!(ds.count_plugins(), 1);
}

#[test]
fn ready_plugins_learn_of_each_other() {
    let (mut ds, id) = store_with_plugin();
    assert!(ds.register_plugin(7, "seven".to_string(), [0, 0, 1]));
    assert!(ds.register_plugin(8, "eight".to_string(), [0, 0, 1]));
    ds.set_plugin_ready(7);
    let others = ds.set_plugin_ready(id);
    assert_eq!(others, vec![7]);
    assert_eq!(ds.count_plugins(), 2);
}

#[test]
fn delete_plugin_withdraws_its_properties() {
    let (mut ds, id) = store_with_plugin();
    let h = PropertyHandle { plugin: id, property: 5 };
    ds.set_property(h, ValueContainer::new(Property::Int(1)));
    assert!(ds.get_property_container(&h).is_some());
    assert_eq!(ds.delete_plugin(id), (DataStoreReturnCode::Success, true));
    assert!(ds.get_property_container(&h).is_none());
    assert_eq!(ds.delete_plugin(id), (DataStoreReturnCode::DoesNotExist, false));
    assert!(ds.register_plugin(id, "test_plugin".to_string(), [1, 2, 3]));
}

#[test]
fn shutdown_closes_registration() {
    let (mut ds, id) = store_with_plugin();
    let told = ds.start_shutdown();
    assert_eq!(told, vec![id]);
    assert!(ds.get_shutdown_status());
    assert!(!ds.register_plugin(3, "late".to_string(), [0, 0, 0]));
    assert_eq!(ds.delete_plugin(id), (DataStoreReturnCode::Success, false));
}

#[test]
fn action_ids_climb() {
    let (mut ds, id) = store_with_plugin();
    assert_eq!(ds.trigger_action(id), Some(0));
    assert_eq!(ds.trigger_action(12345), None);
    assert_eq!(ds.trigger_action(id), Some(2));
    let w = WebActionHandle::new(id, 77);
    assert_eq!(
        ds.trigger_web_action(5, &w),
        Ok(ActionRequest { origin: 5, plugin: id, action: 77, id: 3 })
    );
    let missing = WebActionHandle::new(id.wrapping_add(1), 77);
    assert_eq!(ds.trigger_web_action(5, &missing), Err("Plugin does not exist"));
    let broken = WebActionHandle::from_text("broken".to_string());
    assert_eq!(ds.trigger_web_action(5, &broken), Err("Malformed ActionHandle"));
}

#[test]
fn property_names_are_recorded() {
    let (mut ds, id) = store_with_plugin();
    let h = PropertyHandle { plugin: id, property: 1 };
    assert_eq!(ds.read_property_name(&h), None);
    ds.register_property_name(h, "test_plugin.test".to_string());
    assert_eq!(ds.read_property_name(&h), Some("test_plugin.test".to_string()));
    ds.delete_property(h);
    assert!(ds.get_property_container(&h).is_none());
}

#[test]
fn settings_lifecycle() {
    let (mut ds, id) = store_with_plugin();
    let std = setting(id, "test");
    let trans = setting(id, "transient");
    assert_eq!(
        create_plugin_settings_property(&mut ds, id, std, Some("test"), Property::Int(-34), false),
        DataStoreReturnCode::Success
    );
    assert_eq!(
        create_plugin_settings_property(&mut ds, id, std, Some("test"), Property::Int(1), false),
        DataStoreReturnCode::AlreadyExists
    );
    assert!(matches!(get_plugin_settings_property(&ds, id, std), Ok(Property::Int(-34))));
    assert_eq!(
        change_plugin_settings_property(&mut ds, id, std, Property::Float(2.5f64.to_bits())),
        DataStoreReturnCode::Success
    );
    assert!(matches!(get_plugin_settings_property(&ds, id, std), Ok(Property::Float(b)) if b == 2.5f64.to_bits()));
    assert!(!is_plugin_settings_property_transient(&ds, id, std));
    assert_eq!(
        create_plugin_settings_property(&mut ds, id, trans, Some("transient"), Property::Boolean(false), true),
        DataStoreReturnCode::Success
    );
    assert!(is_plugin_settings_property_transient(&ds, id, trans));
    assert_eq!(set_plugin_settings_property_transient(&mut ds, id, trans, false), DataStoreReturnCode::Success);
    assert!(!is_plugin_settings_property_transient(&ds, id, trans));
    assert_eq!(delete_plugin_settings_property(&mut ds, id, trans), DataStoreReturnCode::Success);
    assert!(matches!(get_plugin_settings_property(&ds, id, trans), Err(DataStoreReturnCode::DoesNotExist)));
    assert!(is_plugin_settings_property_transient(&ds, id, trans));
    assert_eq!(delete_plugin_settings_property(&mut ds, id, trans), DataStoreReturnCode::DoesNotExist);
    assert_eq!(set_plugin_settings_property_transient(&mut ds, id, trans, true), DataStoreReturnCode::DoesNotExist);
}

#[test]
fn settings_of_other_plugins_are_refused() {
    let (mut ds, id) = store_with_plugin();
    let invalid = PropertyHandle {
        plugin: generate_plugin_name_hash("invalid").unwrap(),
        property: generate_property_name_hash("invalid").unwrap(),
    };
    assert_eq!(
        create_plugin_settings_property(&mut ds, id, invalid, Some("invalid"), Property::Empty, false),
        DataStoreReturnCode::NotAuthenticated
    );
    assert_eq!(
        change_plugin_settings_property(&mut ds, id, invalid, Property::Empty),
        DataStoreReturnCode::NotAuthenticated
    );
    assert!(matches!(get_plugin_settings_property(&ds, id, invalid), Err(DataStoreReturnCode::NotAuthenticated)));
    assert!(is_plugin_settings_property_transient(&ds, id, invalid));
    assert_eq!(delete_plugin_settings_property(&mut ds, id, invalid), DataStoreReturnCode::NotAuthenticated);
    assert_eq!(
        set_plugin_settings_property_transient(&mut ds, id, invalid, true),
        DataStoreReturnCode::NotAuthenticated
    );
    assert_eq!(reenqueue_message(), DataStoreReturnCode::NotImplemented);
}

#[test]
fn saving_leaves_out_transient_settings() {
    let (mut ds, id) = store_with_plugin();
    let std = setting(id, "test");
    let trans = setting(id, "transient");
    create_plugin_settings_property(&mut ds, id, std, Some("test"), Property::Int(-34), false);
    create_plugin_settings_property(&mut ds, id, trans, Some("transient"), Property::Boolean(true), true);
    let saved = ds.settings_to_save(id).unwrap();
    assert_eq!(saved.len(), 1);
    assert_eq!(saved[0].0, "test");
    assert!(matches!(saved[0].1, Value::Int(-34)));
    assert!(ds.settings_to_save(id.wrapping_add(1)).is_none());
}

#[test]
fn reloading_settings() {
    let (mut ds, id) = store_with_plugin();
    assert!(matches!(ds.reload_plugin_settings(id, SettingsFileRead::Missing), PluginSettingsLoadState::NoFile));
    let entries = vec![("test".to_string(), Value::Int(-34))];
    assert!(matches!(
        ds.reload_plugin_settings(id, SettingsFileRead::Parsed([1, 2, 3], entries)),
        PluginSettingsLoadState::Loaded
    ));
    let std = setting(id, "test");
    assert!(matches!(get_plugin_settings_property(&ds, id, std), Ok(Property::Int(-34))));
    let newer = vec![("test".to_string(), Value::Bool(true))];
    assert!(matches!(
        ds.reload_plugin_settings(id, SettingsFileRead::Parsed([1, 3, 0], newer)),
        PluginSettingsLoadState::VersionNewerThenCurrent([1, 3, 0])
    ));
    let older = vec![];
    assert!(matches!(
        ds.reload_plugin_settings(id, SettingsFileRead::Parsed([0, 9, 9], older)),
        PluginSettingsLoadState::VersionOlderThenCurrent([0, 9, 9])
    ));
    assert!(matches!(get_plugin_settings_property(&ds, id, std), Err(DataStoreReturnCode::DoesNotExist)));
}

#[test]
fn invalid_setting_names_clear_the_settings() {
    let (mut ds, id) = store_with_plugin();
    let std = setting(id, "test");
    create_plugin_settings_property(&mut ds, id, std, Some("test"), Property::Int(1), false);
    let entries = vec![("ok".to_string(), Value::Int(1)), (".bad".to_string(), Value::Int(2))];
    match ds.reload_plugin_settings(id, SettingsFileRead::Parsed([1, 2, 3], entries)) {
        PluginSettingsLoadState::JsonParseError(m) => {
            assert_eq!(m, "Property Name Error: '.bad' is an invalid name")
        },
        _ => panic!("expected a parse error"),
    }
    assert!(matches!(get_plugin_settings_property(&ds, id, std), Err(DataStoreReturnCode::DoesNotExist)));
    assert!(matches!(
        ds.reload_plugin_settings(12, SettingsFileRead::Missing),
        PluginSettingsLoadState::PslsHandleNullPtr
    ));
}

#[test]
fn errors_are_noted() {
    let mut ds = DataStore::new(false);
    assert!(!ds.has_errors());
    ds.set_errors();
    assert!(ds.has_errors());
}

#[test]
fn reloading_what_was_saved_restores_the_kept_settings() {
    let (mut ds, id) = store_with_plugin();
    let std = setting(id, "test");
    let name = setting(id, "name");
    let trans = setting(id, "transient");
    create_plugin_settings_property(&mut ds, id, std, Some("test"), Property::Float(2.5f64.to_bits()), false);
    create_plugin_settings_property(&mut ds, id, name, Some("name"), Property::Str("Tester".to_string()), false);
    create_plugin_settings_property(&mut ds, id, trans, Some("transient"), Property::Boolean(false), true);
    let saved = ds.settings_to_save(id).unwrap();
    assert_eq!(saved.len(), 2);
    change_plugin_settings_property(&mut ds, id, std, Property::Int(9));
    assert!(matches!(
        ds.reload_plugin_settings(id, SettingsFileRead::Parsed([1, 2, 3], saved)),
        PluginSettingsLoadState::Loaded
    ));
    assert!(matches!(get_plugin_settings_property(&ds, id, std), Ok(Property::Float(b)) if b == 2.5f64.to_bits()));
    assert!(matches!(get_plugin_settings_property(&ds, id, name), Ok(Property::Str(ref s)) if s == "Tester"));
    assert!(matches!(get_plugin_settings_property(&ds, id, trans), Err(DataStoreReturnCode::DoesNotExist)));
}

#[test]
fn two_fresh_string_settings_are_both_saved() {
    let (mut ds, id) = store_with_plugin();
    let a = setting(id, "first");
    let b = setting(id, "second");
    create_plugin_settings_property(&mut ds, id, a, Some("first"), Property::Str("one".to_string()), false);
    create_plugin_settings_property(&mut ds, id, b, Some("second"), Property::Str("two".to_string()), false);
    let saved = ds.settings_to_save(id).unwrap();
    assert_eq!(saved.len(), 2);
    for (name, value) in &saved {
        match name.as_str() {
            "first" => assert!(matches!(value, Value::Str(t) if t == "one")),
            "second" => assert!(matches!(value, Value::Str(t) if t == "two")),
            _ => panic!("unexpected setting"),
        }
    }
}

#[test]
fn array_updates_in_a_settings_file_clear_the_settings() {
    let (mut ds, id) = store_with_plugin();
    let std = setting(id, "test");
    create_plugin_settings_property(&mut ds, id, std, Some("test"), Property::Int(1), false);
    match ds.reload_plugin_settings(id, SettingsFileRead::ArrayUpdate("arr".to_string())) {
        PluginSettingsLoadState::JsonParseError(m) => {
            assert_eq!(m, "Invalid Property Type Error: Property 'arr' can not be ArrUpdate")
        },
        _ => panic!("expected a parse error"),
    }
    assert!(matches!(get_plugin_settings_property(&ds, id, std), Err(DataStoreReturnCode::DoesNotExist)));
    match ds.reload_plugin_settings(id, SettingsFileRead::ArrayUpdate(".arr".to_string())) {
        PluginSettingsLoadState::JsonParseError(m) => {
            assert_eq!(m, "Property Error: Property '.arr' has an invalid type and name")
        },
        _ => panic!("expected a parse error"),
    }
}
