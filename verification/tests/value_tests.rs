use datarace::api::{clone_array_handle, create_array, get_array_value, set_array_value};
use datarace::codes::DataStoreReturnCode;
use datarace::values::{
    ArrayStore, ArrayValueContainer, ArrayValueHandle, Property, PropertyContainer, PropertyType, Value,
    ValueCache, ValueContainer,
};

fn int_of(p: Property) -> Option<i64> {
    match p {
        Property::Int(x) => Some(x),
        _ => None,
    }
}

#[test]
fn new_array_holds_initial_value() {
    let arr = ArrayValueContainer::new(3, Property::Int(3)).unwrap();
    assert_eq!(arr.length(), 3);
    assert_eq!(arr.get_type(), PropertyType::Int);
    for i in 0..3 {
        assert_eq!(int_of(arr.read(i)), Some(3));
    }
}

#[test]
fn out_of_bounds_read_is_empty() {
    let arr = ArrayValueContainer::new(3, Property::Int(3)).unwrap();
    assert!(matches!(arr.read(4), Property::Empty));
}

#[test]
fn array_writes_are_checked() {
    let mut arrays = ArrayStore::new();
    let h = create_array(&mut arrays, 3, Property::Int(3)).unwrap();
    assert!(h.allow_modify);
    assert_eq!(set_array_value(&mut arrays, &h, 4, Property::Int(5)), DataStoreReturnCode::DoesNotExist);
    assert_eq!(
        set_array_value(&mut arrays, &h, 2, Property::Float(2.2f64.to_bits())),
        DataStoreReturnCode::TypeMissmatch
    );
    assert_eq!(set_array_value(&mut arrays, &h, 0, Property::Int(3)), DataStoreReturnCode::Success);
    assert_eq!(set_array_value(&mut arrays, &h, 1, Property::Int(2)), DataStoreReturnCode::Success);
    assert_eq!(set_array_value(&mut arrays, &h, 2, Property::Int(1)), DataStoreReturnCode::Success);
    let c = clone_array_handle(&h);
    assert_eq!(int_of(get_array_value(&arrays, &c, 0)), Some(3));
    assert_eq!(int_of(get_array_value(&arrays, &c, 1)), Some(2));
    assert_eq!(int_of(get_array_value(&arrays, &c, 2)), Some(1));
}

#[test]
fn writes_through_one_handle_are_seen_through_all() {
    let mut arrays = ArrayStore::new();
    let h = create_array(&mut arrays, 2, Property::Str(String::new())).unwrap();
    assert_eq!(set_array_value(&mut arrays, &h, 0, Property::Str("Tester".to_string())), DataStoreReturnCode::Success);
    let stored = ValueContainer::new(Property::Array(Some(clone_array_handle(&h))));
    assert_eq!(set_array_value(&mut arrays, &h, 1, Property::Str("Array".to_string())), DataStoreReturnCode::Success);
    match stored.read(false) {
        Property::Array(Some(r)) => {
            assert!(!r.allow_modify);
            assert!(matches!(get_array_value(&arrays, &r, 0), Property::Str(t) if t == "Tester"));
            assert!(matches!(get_array_value(&arrays, &r, 1), Property::Str(t) if t == "Array"));
            assert_eq!(set_array_value(&mut arrays, &r, 1, Property::Str("x".to_string())), DataStoreReturnCode::NotAuthenticated);
        },
        _ => panic!("expected the stored array"),
    }
    let other = create_array(&mut arrays, 1, Property::Int(0)).unwrap();
    assert_ne!(other.id, h.id);
}

#[test]
fn read_only_array_handles_refuse_writes() {
    let mut arrays = ArrayStore::new();
    let w = create_array(&mut arrays, 2, Property::Boolean(true)).unwrap();
    let h = ArrayValueHandle { id: w.id, allow_modify: false };
    assert_eq!(
        set_array_value(&mut arrays, &h, 0, Property::Boolean(false)),
        DataStoreReturnCode::NotAuthenticated
    );
    assert!(matches!(get_array_value(&arrays, &h, 0), Property::Boolean(true)));
}

#[test]
fn arrays_need_a_plain_initial_value() {
    let mut arrays = ArrayStore::new();
    assert!(create_array(&mut arrays, 3, Property::Empty).is_none());
    assert!(ArrayValueContainer::new(3, Property::Array(None)).is_none());
    let s = ArrayValueContainer::new(2, Property::Str("Tester".to_string())).unwrap();
    assert!(matches!(s.read(1), Property::Str(t) if t == "Tester"));
    assert_eq!(s.get_type(), PropertyType::Str);
}

#[test]
fn container_update_keeps_its_type() {
    let pc = PropertyContainer::new("speed".to_string(), Property::Int(8));
    assert_eq!(pc.short_name(), "speed");
    assert!(pc.allow_modify());
    let (name, mut c, allow) = pc.into_parts();
    assert_eq!(name, "speed");
    assert!(allow);
    assert!(matches!(c.read(true), Property::Int(8)));
    assert!(c.update(Property::Int(3)));
    assert!(matches!(c.read(true), Property::Int(3)));
    assert!(!c.update(Property::Boolean(false)));
    assert!(!c.update(Property::Str("4".to_string())));
    assert!(matches!(c.read(true), Property::Int(3)));
}

#[test]
fn arrays_are_not_replaced_by_updates() {
    let mut arrays = ArrayStore::new();
    let first = create_array(&mut arrays, 1, Property::Int(1)).unwrap();
    let other = create_array(&mut arrays, 1, Property::Int(2)).unwrap();
    let mut c = ValueContainer::new(Property::Array(Some(first)));
    assert!(!c.update(Property::Array(Some(other))));
    assert!(matches!(c, ValueContainer::Arr(id) if id == first.id));
}

#[test]
fn string_writes_raise_the_version() {
    let mut c = ValueContainer::new(Property::Str("a".to_string()));
    assert!(matches!(c, ValueContainer::Str(_, 1)));
    assert!(c.update(Property::Str("b".to_string())));
    assert!(matches!(&c, ValueContainer::Str(t, 2) if t == "b"));
}

#[test]
fn web_polling_reports_changes() {
    let c = ValueContainer::new(Property::Int(4));
    let mut cache = ValueCache::default();
    assert!(c.read_web(&mut cache));
    assert!(matches!(cache.value, Value::Int(4)));
    assert!(!c.read_web(&mut cache));
    let s = ValueContainer::new(Property::Str("a".to_string()));
    assert!(s.read_web(&mut cache));
    assert!(matches!(&cache.value, Value::Str(t) if t == "a"));
    assert!(!s.read_web(&mut cache));
}

#[test]
fn float_values_compare_like_f64() {
    let nan = Value::Float(f64::NAN.to_bits());
    assert!(!nan.equals(&Value::Float(f64::NAN.to_bits())));
    assert!(Value::Float(0.0f64.to_bits()).equals(&Value::Float((-0.0f64).to_bits())));
    assert!(Value::Float(2.5f64.to_bits()).equals(&Value::Float(2.5f64.to_bits())));
    assert!(!Value::Int(1).equals(&Value::Dur(1)));
}

#[test]
fn writes_keep_the_length_and_type_of_an_array() {
    let mut arrays = ArrayStore::new();
    let h = create_array(&mut arrays, 4, Property::Duration(10)).unwrap();
    let writes = [
        (0usize, Property::Duration(1)),
        (9, Property::Duration(2)),
        (2, Property::Int(3)),
        (3, Property::Duration(-4)),
    ];
    for (i, v) in writes {
        set_array_value(&mut arrays, &h, i, v);
        assert_eq!(datarace::api::get_array_length(&arrays, &h), 4);
        assert_eq!(datarace::api::get_array_type(&arrays, &h), PropertyType::Duration);
    }
    assert!(matches!(get_array_value(&arrays, &h, 4), Property::Empty));
    assert!(matches!(get_array_value(&arrays, &h, 3), Property::Duration(-4)));
    assert!(matches!(get_array_value(&arrays, &h, 2), Property::Duration(10)));
}

#[test]
fn array_ids_count_up_from_zero() {
    let mut arrays = ArrayStore::new();
    assert_eq!(arrays.next_id, 0);
    let a = create_array(&mut arrays, 1, Property::Int(0)).unwrap();
    assert!(create_array(&mut arrays, 1, Property::Empty).is_none());
    let b = create_array(&mut arrays, 1, Property::Int(0)).unwrap();
    assert_eq!((a.id, b.id, arrays.next_id), (0, 1, 2));
}
