use datarace::codes::{DataStoreReturnCode, ReturnValue};
use datarace::dashboard::Property;
use datarace::dashboard_js::{generate_web_action_handle, i64_to_string};
use datarace::handles::{ActionHandle, PropertyHandle};
use datarace::loader::{compiletime_get_plugin_name_hash, PluginNameHash};
use datarace::plugin_api::c_text;
use datarace::web_handle::{WebActionHandle, WebPropertyHandle};

fn web_text(name: &str) -> String {
    WebPropertyHandle::from_handle(PropertyHandle::new(name).unwrap()).as_text().to_string()
}

#[test]
fn integers_are_written_in_decimal() {
    assert_eq!(i64_to_string(0), "0");
    assert_eq!(i64_to_string(-5), "-5");
    assert_eq!(i64_to_string(1234567), "1234567");
    assert_eq!(i64_to_string(i64::MIN), "-9223372036854775808");
    assert_eq!(i64_to_string(i64::MAX), "9223372036854775807");
}

#[test]
fn handle_script_reads_the_data_map() {
    let p: Property<i64> = Property::Computed("plugin.speed".to_string());
    let expected = format!("DATA.get(\"{}\")", web_text("plugin.speed"));
    assert_eq!(p.generate_handle_js(), Some(expected));
    let fixed: Property<i64> = Property::Fixed(3);
    assert_eq!(fixed.generate_handle_js(), None);
    let broken: Property<i64> = Property::Computed("nodot".to_string());
    assert_eq!(broken.generate_handle_js(), None);
}

#[test]
fn integer_properties_read_as_scripts() {
    let h = format!("DATA.get(\"{}\")", web_text("plugin.speed"));
    let fixed: Property<i64> = Property::Fixed(-5);
    assert_eq!(fixed.generate_read_js("gauge", "x"), "-5");
    let computed: Property<i64> = Property::Computed("plugin.speed".to_string());
    assert_eq!(computed.generate_read_js("gauge", "x"), format!("read_int({})", h));
    let formated: Property<i64> =
        Property::Formated { source: "plugin.speed".to_string(), formater: "return x;".to_string() };
    assert_eq!(formated.generate_read_js("gauge", "x"), format!("parse_to_int(gauge_F_x({}))", h));
    let deref: Property<i64> =
        Property::Deref { source: "plugin.speed".to_string(), index: Box::new(Property::Fixed(2)) };
    assert_eq!(deref.generate_read_js("gauge", "x"), format!("read_int(read_arr({},2))", h));
    let broken: Property<i64> = Property::Computed("nodot".to_string());
    assert_eq!(broken.generate_read_js("gauge", "x"), "0");
}

#[test]
fn nested_index_scripts_use_the_formatter_name_of_the_outer_field() {
    let h = format!("DATA.get(\"{}\")", web_text("plugin.list"));
    let hi = format!("DATA.get(\"{}\")", web_text("plugin.idx"));
    let inner: Property<i64> =
        Property::Formated { source: "plugin.idx".to_string(), formater: "return x;".to_string() };
    let deref: Property<bool> = Property::Deref { source: "plugin.list".to_string(), index: Box::new(inner) };
    assert_eq!(
        deref.generate_read_js("lamp", "visible"),
        format!("read_bool(read_arr({},parse_to_int(lamp_F_visible_F_deref({}))))", h, hi)
    );
}

#[test]
fn bool_and_text_properties_read_as_scripts() {
    let h = format!("DATA.get(\"{}\")", web_text("plugin.on"));
    assert_eq!(Property::Fixed(true).generate_read_js("a", "b"), "true");
    assert_eq!(Property::<bool>::Computed("plugin.on".to_string()).generate_read_js("a", "b"), format!("read_bool({})", h));
    assert_eq!(Property::<bool>::Computed("bad".to_string()).generate_read_js("a", "b"), "false");
    let text: Property<String> =
        Property::Formated { source: "plugin.on".to_string(), formater: "return x;".to_string() };
    assert_eq!(text.generate_read_js("a", "b"), format!("a_F_b({}).toString()", h));
    assert_eq!(Property::Fixed("hi".to_string()).generate_read_js("a", "b"), "hi");
    assert_eq!(Property::<String>::Computed("bad".to_string()).generate_read_js("a", "b"), "");
}

#[test]
fn web_action_handles_are_quoted_text() {
    let handle = ActionHandle::new("plugin.reset").unwrap();
    let text = WebActionHandle::from_handle(handle).as_text().to_string();
    assert_eq!(generate_web_action_handle("Plugin.Reset"), Some(format!("\"{}\"", text)));
    assert!(text.contains('|'));
    assert_eq!(generate_web_action_handle("reset"), None);
}

#[test]
fn return_values_read_back_as_results() {
    let ok: ReturnValue<u64> = ReturnValue::from_result(Ok(7));
    assert_eq!(ok.code, DataStoreReturnCode::Success);
    assert_eq!(ok.into_result(), Ok(7));
    let err: ReturnValue<u64> = ReturnValue::from_result(Err(DataStoreReturnCode::DoesNotExist));
    assert_eq!(err.value, 0);
    assert_eq!(err.into_result(), Err(DataStoreReturnCode::DoesNotExist));
    let e2: ReturnValue<u64> = ReturnValue::new_from_error(DataStoreReturnCode::NotAuthenticated);
    assert_eq!(e2.into_result(), Err(DataStoreReturnCode::NotAuthenticated));
}

#[test]
fn plugin_name_hash_reads_as_option() {
    assert_eq!(PluginNameHash { id: 9, valid: true }.to_option(), Some(9));
    assert_eq!(PluginNameHash { id: 9, valid: false }.to_option(), None);
    assert_eq!(compiletime_get_plugin_name_hash(false, Some("a.b")).to_option(), None);
    assert_eq!(compiletime_get_plugin_name_hash(true, Some("sample")).to_option(), None);
    assert_eq!(
        compiletime_get_plugin_name_hash(false, Some("Sample")).to_option(),
        datarace::hashing::generate_plugin_name_hash("sample")
    );
}

#[test]
fn c_text_stops_at_the_first_nul() {
    assert_eq!(c_text("abc\0def"), "abc");
    assert_eq!(c_text("abc"), "abc");
    assert_eq!(c_text("\0"), "");
}

#[test]
fn plugin_values_convert_from_rust_values() {
    let p = datarace::plugin_api::Property::from(5i64);
    assert!(matches!(p, datarace::plugin_api::Property::Int(5)));
    assert!(matches!(datarace::plugin_api::Property::from(200u8), datarace::plugin_api::Property::Int(200)));
    assert!(matches!(datarace::plugin_api::Property::from(-3i16), datarace::plugin_api::Property::Int(-3)));
    assert!(matches!(datarace::plugin_api::Property::from(4_000_000_000u32), datarace::plugin_api::Property::Int(4_000_000_000)));
    assert!(matches!(datarace::plugin_api::Property::from(true), datarace::plugin_api::Property::Bool(true)));
    assert!(matches!(datarace::plugin_api::Property::from("Tester".to_string()), datarace::plugin_api::Property::Str(ref s) if s == "Tester"));
}
