use datarace::codes::{DataStoreReturnCode, ReturnValue};
use datarace::loader::{
    check_plugin_description, compiletime_get_api_version, compiletime_get_plugin_name_hash,
    DescriptionError, PluginNameHash, API_VERSION,
};
use datarace::hashing::generate_plugin_name_hash;
use datarace::plugin_api::{Action, ActionCallback, Property};

#[test]
fn success_becomes_ok() {
    assert_eq!(DataStoreReturnCode::Success.to_result(), Ok(()));
    assert!(DataStoreReturnCode::Success.is_ok());
}

#[test]
fn failure_codes_become_errors() {
    assert_eq!(
        DataStoreReturnCode::DoesNotExist.to_result(),
        Err(DataStoreReturnCode::DoesNotExist)
    );
    assert!(!DataStoreReturnCode::TypeMissmatch.is_ok());
    assert!(!DataStoreReturnCode::Unknown.is_ok());
}

#[test]
fn numeric_codes_map_to_names() {
    assert_eq!(DataStoreReturnCode::from_code(0), DataStoreReturnCode::Success);
    assert_eq!(DataStoreReturnCode::from_code(1), DataStoreReturnCode::NotAuthenticated);
    assert_eq!(DataStoreReturnCode::from_code(2), DataStoreReturnCode::AlreadyExists);
    assert_eq!(DataStoreReturnCode::from_code(3), DataStoreReturnCode::DoesNotExist);
    assert_eq!(DataStoreReturnCode::from_code(5), DataStoreReturnCode::TypeMissmatch);
    assert_eq!(DataStoreReturnCode::from_code(6), DataStoreReturnCode::NotImplemented);
    assert_eq!(DataStoreReturnCode::from_code(10), DataStoreReturnCode::ParameterCorrupted);
    assert_eq!(DataStoreReturnCode::from_code(11), DataStoreReturnCode::DataCorrupted);
    assert_eq!(DataStoreReturnCode::from_code(4), DataStoreReturnCode::Unknown);
    assert_eq!(DataStoreReturnCode::from_code(255), DataStoreReturnCode::Unknown);
}

#[test]
fn code_messages() {
    assert_eq!(
        DataStoreReturnCode::Success.message(),
        "Everything went correct, value ready"
    );
    assert_eq!(
        DataStoreReturnCode::NotAuthenticated.message(),
        "Action denied: Lack of authority"
    );
    assert_eq!(
        DataStoreReturnCode::DoesNotExist.message(),
        "Action failed: Can not access item that does not exist"
    );
    assert_eq!(
        DataStoreReturnCode::Unknown.message(),
        "Action failed for an unknown reason. Plugin is too out of date to know this message, possibly the reason for the Error"
    );
}

#[test]
fn return_value_from_error_holds_default() {
    let r: ReturnValue<u64> = ReturnValue::new_from_error(DataStoreReturnCode::DoesNotExist);
    assert_eq!(r.code, DataStoreReturnCode::DoesNotExist);
    assert_eq!(r.value, 0);
}

#[test]
fn return_value_from_result() {
    let ok: ReturnValue<u64> = ReturnValue::from_result(Ok(17));
    assert_eq!(ok.code, DataStoreReturnCode::Success);
    assert_eq!(ok.value, 17);
    let err: ReturnValue<u64> = ReturnValue::from_result(Err(DataStoreReturnCode::ParameterCorrupted));
    assert_eq!(err.code, DataStoreReturnCode::ParameterCorrupted);
    assert_eq!(err.value, 0);
}

#[test]
fn api_version_only_at_compile_time() {
    assert_eq!(compiletime_get_api_version(false), API_VERSION);
    assert_eq!(compiletime_get_api_version(false), 0);
    assert_eq!(compiletime_get_api_version(true), u64::MAX);
}

#[test]
fn plugin_name_hash_at_compile_time() {
    let h = compiletime_get_plugin_name_hash(false, Some("Test_Plugin"));
    assert!(h.valid);
    assert_eq!(Some(h.id), generate_plugin_name_hash("test_plugin"));
    assert_eq!(
        compiletime_get_plugin_name_hash(true, Some("test_plugin")),
        PluginNameHash { id: 0, valid: false }
    );
    assert_eq!(
        compiletime_get_plugin_name_hash(false, Some("bad.name")),
        PluginNameHash { id: 0, valid: false }
    );
    assert_eq!(
        compiletime_get_plugin_name_hash(false, None),
        PluginNameHash { id: 0, valid: false }
    );
}

#[test]
fn plugin_descriptions_are_checked() {
    let id = generate_plugin_name_hash("sample_plugin").unwrap();
    assert_eq!(check_plugin_description(Some("sample_plugin"), id, 0), Ok(id));
    assert_eq!(
        check_plugin_description(None, id, 0),
        Err(DescriptionError::UnreadableName)
    );
    assert_eq!(
        check_plugin_description(Some("sample_plugin"), id, u64::MAX),
        Err(DescriptionError::RuntimeApiVersion)
    );
    assert_eq!(
        check_plugin_description(Some("sample_plugin"), id, 3),
        Err(DescriptionError::ApiVersionMismatch)
    );
    assert_eq!(
        check_plugin_description(Some("sample.plugin"), id, 0),
        Err(DescriptionError::InvalidName)
    );
    assert_eq!(
        check_plugin_description(Some("sample_plugin"), id.wrapping_add(1), 0),
        Err(DescriptionError::IdMismatch(id))
    );
}

#[test]
fn durations_on_the_plugin_side() {
    assert!(matches!(Property::from_millis(5000), Property::Duration(5_000_000)));
    assert!(matches!(Property::from_millis(-5), Property::Duration(-5000)));
    assert!(matches!(Property::from_micros(42), Property::Duration(42)));
    assert!(matches!(Property::from_duration(2_000_000, true), Property::Duration(-2_000_000)));
    assert_eq!(Property::Duration(-1500).to_duration(), Some((1500, true)));
    assert_eq!(Property::Duration(1500).to_duration(), Some((1500, false)));
    assert_eq!(Property::Int(3).to_duration(), None);
    assert_eq!(Property::Duration(i64::MIN).to_duration(), Some((1u64 << 63, true)));
    assert!(matches!(Property::from_string("x".to_string()), Property::Str(s) if s == "x"));
}

#[test]
fn action_and_callback_accessors() {
    let a = Action { action: 7, param: vec![Property::Int(1)], id: 3, origin: 9 };
    assert_eq!(a.get_action_code(), 7);
    assert_eq!(a.get_action_id(), 3);
    assert_eq!(a.get_origin(), 9);
    assert_eq!(a.get_parameters().len(), 1);
    let ok = ActionCallback { return_code: 0, param: vec![], id: 3, origin: 2 };
    assert!(ok.is_success());
    let bad = ActionCallback { return_code: 5, param: vec![], id: 4, origin: 2 };
    assert!(!bad.is_success());
    assert_eq!(bad.get_return_code(), 5);
    assert_eq!(bad.get_action_id(), 4);
    assert_eq!(bad.get_origin(), 2);
    assert!(bad.get_parameters().is_empty());
}
