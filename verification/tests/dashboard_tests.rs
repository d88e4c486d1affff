use datarace::dashboard::{Action, DashElement, DashElementType, Dashboard, Property, Text};

fn square(name: &str) -> DashElement {
    DashElement {
        name: name.to_string(),
        x: Property::Fixed(0),
        y: Property::Fixed(0),
        size_x: Property::Computed("plugin.width".to_string()),
        size_y: Property::Formated { source: "plugin.height".to_string(), formater: "return x;".to_string() },
        visible: Property::Fixed(true),
        element: DashElementType::Square("#FFFFFF".to_string()),
    }
}

#[test]
fn element_names_are_lowercased() {
    assert_eq!(square("Speed_1").normalize_name(), Ok("speed_1".to_string()));
}

#[test]
fn element_names_with_illegal_characters_are_refused() {
    assert_eq!(
        square("speed-1").normalize_name(),
        Err("Unable to render dashboard: Name 'speed-1' containes illegal characters (only ascii alphabet, numbers and _ permitted)".to_string())
    );
}

#[test]
fn numeric_element_names_are_refused() {
    assert_eq!(
        square("123").normalize_name(),
        Err("Unable to render dashboard: Name '123' is only numbers, requires at least one ascii letter or _".to_string())
    );
}

#[test]
fn element_names_must_be_unique() {
    let a = square("A");
    let names = a.gather_names(vec![]).unwrap();
    assert_eq!(names, vec!["a".to_string()]);
    assert!(square("a").gather_names(names).is_err());
}

#[test]
fn dashboards_list_their_properties_once() {
    let d = Dashboard {
        name: "test".to_string(),
        elements: vec![square("a"), square("b")],
        size_x: 1920,
        size_y: 1080,
        font_size: 16,
    };
    let mut props = d.list_properties();
    props.sort();
    assert_eq!(props, vec!["plugin.height".to_string(), "plugin.width".to_string()]);
    let scripts = d.all_formatter_scripts();
    assert_eq!(scripts.len(), 2);
    assert_eq!(scripts[0], ("a_F_size_y".to_string(), "return x;".to_string()));
}

#[test]
fn buttons_list_their_actions() {
    let b = DashElement {
        name: "b".to_string(),
        x: Property::Fixed(0),
        y: Property::Fixed(0),
        size_x: Property::Fixed(1),
        size_y: Property::Fixed(1),
        visible: Property::Fixed(true),
        element: DashElementType::Button {
            action: Action::Plugin("plugin.action".to_string()),
            text: Text { text: Property::Fixed("Go".to_string()), font_size: None },
        },
    };
    let d = Dashboard { name: "t".to_string(), elements: vec![b], size_x: 1, size_y: 1, font_size: 1 };
    assert_eq!(d.list_actions(), vec!["plugin.action".to_string()]);
}

#[test]
fn gathering_lists_names_in_pre_order_after_the_given_ones() {
    let mut folder = square("Outer");
    folder.element = DashElementType::Folder(vec![square("A"), square("b")]);
    let names = folder.gather_names(vec!["first".to_string()]).unwrap();
    assert_eq!(names, vec!["first".to_string(), "outer".to_string(), "a".to_string(), "b".to_string()]);
    let mut repeated = square("Outer");
    repeated.element = DashElementType::Folder(vec![square("x"), square("X")]);
    assert!(repeated.gather_names(vec![]).is_err());
}
