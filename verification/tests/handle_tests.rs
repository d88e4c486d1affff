use datarace::api::{generate_action_handle, generate_event_handle, generate_property_handle};
use datarace::loader::compiletime_get_plugin_name_hash;
use datarace::codes::DataStoreReturnCode;
use datarace::handles::{ActionHandle, EventHandle, PropertyHandle};
use datarace::hashing::{generate_plugin_name_hash, generate_property_name_hash};
use datarace::web_handle::{extract_hashes, WebActionHandle, WebPropertyHandle};

#[test]
fn handles_are_case_and_whitespace_insensitive() {
    let runtime = generate_property_handle(Some("test_plugin.Test")).unwrap();
    let padded = generate_property_handle(Some(" test_plugin.test ")).unwrap();
    assert_eq!(runtime, padded);
    assert_eq!(PropertyHandle::new("TEST_PLUGIN.TEST"), Some(runtime));
}

#[test]
fn malformed_names_are_refused() {
    assert_eq!(
        generate_property_handle(Some(".leadingdot.error")),
        Err(DataStoreReturnCode::ParameterCorrupted)
    );
    assert_eq!(
        generate_property_handle(Some("nodoterror")),
        Err(DataStoreReturnCode::ParameterCorrupted)
    );
    assert_eq!(generate_property_handle(None), Err(DataStoreReturnCode::ParameterCorrupted));
    assert_eq!(
        generate_property_handle(Some("plugin.name.")),
        Err(DataStoreReturnCode::ParameterCorrupted)
    );
}

#[test]
fn more_dots_belong_to_the_property_name() {
    let h = PropertyHandle::new("plugin.group.value").unwrap();
    assert_eq!(Some(h.plugin), generate_plugin_name_hash("plugin"));
    assert_eq!(Some(h.property), generate_property_name_hash("group.value"));
}

#[test]
fn empty_property_part_is_accepted() {
    let h = PropertyHandle::new("plugin.").unwrap();
    assert_eq!(Some(h.property), generate_property_name_hash(""));
}

#[test]
fn event_and_action_handles_hash_like_properties() {
    let ev = generate_event_handle(Some("test_plugin.event")).unwrap();
    let p = PropertyHandle::new("test_plugin.event").unwrap();
    assert_eq!(ev, EventHandle { plugin: p.plugin, event: p.property });
    let a = generate_action_handle(Some("Test_Plugin.Action")).unwrap();
    assert_eq!(Some(a), ActionHandle::new("test_plugin.action"));
    assert_eq!(a.get_action_code(), a.action);
    assert_eq!(generate_event_handle(Some("noevent")), Err(DataStoreReturnCode::ParameterCorrupted));
}

#[test]
fn plugin_names_may_not_hold_dots() {
    assert_eq!(generate_plugin_name_hash("a.b"), None);
    assert_eq!(generate_plugin_name_hash("Sample"), generate_plugin_name_hash("sample"));
    assert_ne!(generate_plugin_name_hash("sample"), generate_plugin_name_hash("other"));
}

#[test]
fn property_names_may_not_start_or_end_with_a_dot() {
    assert_eq!(generate_property_name_hash(".x"), None);
    assert_eq!(generate_property_name_hash("x."), None);
    assert!(generate_property_name_hash("x.y").is_some());
    assert_eq!(generate_property_name_hash("Speed"), generate_property_name_hash("speed"));
}

#[test]
fn default_property_handle_is_zero() {
    let h = PropertyHandle::default();
    assert_eq!(h, PropertyHandle { plugin: 0, property: 0 });
    assert_eq!(PropertyHandle::from_values(4, 5), PropertyHandle { plugin: 4, property: 5 });
}

#[test]
fn web_handles_round_trip() {
    let h = PropertyHandle { plugin: 12, property: 34 };
    let w = WebPropertyHandle::from_handle(h);
    assert_eq!(w.as_text(), "12|34");
    assert_eq!(w.get_hashes(), Some((12, 34)));
    let a = ActionHandle { plugin: u64::MAX, action: 0 };
    let wa = WebActionHandle::from_handle(a);
    assert_eq!(wa.to_action_handle(), Ok(a));
}

#[test]
fn web_handles_reject_malformed_text() {
    assert_eq!(extract_hashes("12|34"), Some((12, 34)));
    assert_eq!(extract_hashes("1234"), None);
    assert_eq!(extract_hashes("x|1"), None);
    assert_eq!(extract_hashes("1|18446744073709551616"), None);
    let bad = WebActionHandle::from_text("nonsense".to_string());
    assert_eq!(bad.to_action_handle(), Err("Malformed ActionHandle"));
}

#[test]
fn handles_ignore_case_and_surrounding_whitespace() {
    let a = generate_property_handle(Some(" test_plugIn.Test ")).unwrap();
    let b = generate_property_handle(Some(" test_plugin.test ")).unwrap();
    let c = generate_property_handle(Some("test_plugin.Test")).unwrap();
    assert_eq!(a, b);
    assert_eq!(b, c);
    assert_eq!(generate_property_handle(Some("test_plugin.test.")), Err(DataStoreReturnCode::ParameterCorrupted));
}

#[test]
fn compile_time_ids_refuse_dots() {
    assert!(!compiletime_get_plugin_name_hash(false, Some("test.plugin")).valid);
    let h = compiletime_get_plugin_name_hash(false, Some("TEST_plugin"));
    assert!(h.valid);
    assert_eq!(Some(h.id), generate_plugin_name_hash("test_plugin"));
}
