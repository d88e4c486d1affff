use datarace::dashboard::{Action as DashAction, DashElement, DashElementType, Dashboard, Property as DashProperty, Text};
use datarace::handles::{ActionHandle, PropertyHandle};
use datarace::registry::DataStore;
use datarace::values::{Property, Value, ValueContainer};
use datarace::web::{authorize_web_action, dashboard_allow_list, AccessTable, Auth, FsResourceError};
use datarace::web_handle::WebActionHandle;
use datarace::web_updater::{SocketChMsg, WebUpdater};

#[test]
fn resource_error_messages() {
    assert_eq!(
        FsResourceError::DoesNotExist.format(Some("dash")),
        "Unable to load Resource dash: Does Not Exist"
    );
    assert_eq!(
        FsResourceError::AccessDenied.format(None),
        "Unable to load Resource: You are not permitted to access this resource"
    );
    assert_eq!(
        FsResourceError::FSError("boom".to_string()).format(None),
        "Unable to load Resource: Failed to open file: boom"
    );
    assert_eq!(FsResourceError::DoesNotExist.status_code(), 404);
    assert_eq!(FsResourceError::AccessDenied.status_code(), 403);
    assert_eq!(FsResourceError::SerdeParseError("x".to_string()).status_code(), 500);
}

#[test]
fn dashboards_may_only_trigger_their_actions() {
    let allow = dashboard_allow_list(&vec!["plugin.go".to_string(), "invalid".to_string()]);
    assert_eq!(allow.len(), 1);
    let go = allow[0];
    let auth = Auth::Dashboard("dash".to_string(), allow);
    let ok = WebActionHandle::from_handle(go);
    assert_eq!(authorize_web_action(Some(&auth), "c1", &ok), Ok(0));
    let other = WebActionHandle::from_handle(ActionHandle { plugin: go.plugin, action: go.action.wrapping_add(1) });
    assert_eq!(
        authorize_web_action(Some(&auth), "c1", &other),
        Err("This action is not authorized for this dashboard".to_string())
    );
    let bad = WebActionHandle::from_text("bad".to_string());
    assert_eq!(authorize_web_action(Some(&auth), "c1", &bad), Err("Invalid Action Format".to_string()));
    assert_eq!(
        authorize_web_action(None, "c1", &ok),
        Err("Client c1 has not done auth yet".to_string())
    );
    let plugin = Auth::Plugin(42, "p".to_string());
    assert_eq!(authorize_web_action(Some(&plugin), "c2", &bad), Ok(42));
}

#[test]
fn dashboards_connect_and_disconnect() {
    let mut ds = DataStore::new(false);
    let h = PropertyHandle::new("plugin.speed").unwrap();
    ds.set_property(h, ValueContainer::new(Property::Int(5)));
    let mut up = WebUpdater::new();
    let props = vec!["plugin.speed".to_string(), "plugin.rpm".to_string()];
    assert!(!up.process_msg(SocketChMsg::AddDashboard("dash".to_string()), Some(props.clone())));
    assert_eq!(up.props.len(), 2);
    assert!(!up.process_msg(SocketChMsg::AddDashboard("dash".to_string()), Some(props)));
    assert_eq!(up.dashboards, vec![("dash".to_string(), 2)]);
    let key = up.props.keys().copied().find(|k| up.props[k].handle == h).unwrap();
    assert_eq!(up.props[&key].dashes, vec!["dash".to_string()]);
    assert!(up.process_msg(SocketChMsg::ChangedProperty(h), None));
    assert_eq!(up.props.len(), 2);
    up.process_msg(SocketChMsg::RmDashboard("dash".to_string()), None);
    assert_eq!(up.props.len(), 2);
    up.process_msg(SocketChMsg::RmDashboard("dash".to_string()), None);
    assert_eq!(up.props.len(), 0);
    assert_eq!(up.dashboards, vec![("dash".to_string(), 0)]);
}

#[test]
fn unloadable_dashboards_change_nothing() {
    let mut up = WebUpdater::new();
    assert!(!up.process_msg(SocketChMsg::AddDashboard("gone".to_string()), None));
    assert!(up.props.is_empty());
    assert!(up.dashboards.is_empty());
}

#[test]
fn polling_sends_changed_values_to_their_dashboards() {
    let mut ds = DataStore::new(false);
    let speed = PropertyHandle::new("plugin.speed").unwrap();
    let rpm = PropertyHandle::new("plugin.rpm").unwrap();
    ds.set_property(speed, ValueContainer::new(Property::Int(5)));
    ds.set_property(rpm, ValueContainer::new(Property::Str("idle".to_string())));
    let mut up = WebUpdater::new();
    up.process_msg(SocketChMsg::AddDashboard("a".to_string()), Some(vec!["plugin.speed".to_string()]));
    up.process_msg(
        SocketChMsg::AddDashboard("b".to_string()),
        Some(vec!["plugin.speed".to_string(), "plugin.rpm".to_string()]),
    );
    assert!(!up.shows_array(&ds));
    let first = up.poll(&ds);
    assert_eq!(first.len(), 2);
    let s = first.iter().find(|u| u.0 == speed).unwrap();
    assert!(matches!(s.1, Value::Int(5)));
    assert_eq!(s.2, vec!["a".to_string(), "b".to_string()]);
    let packs = up.packages(&first);
    assert_eq!(packs.len(), 2);
    assert_eq!(packs[0].0, "a");
    assert_eq!(packs[0].1.len(), 1);
    assert_eq!(packs[0].1[0].0, speed);
    assert_eq!(packs[1].1.len(), 2);
    // Nothing changed since: nothing to send.
    assert!(up.poll(&ds).is_empty());
    // A write into the stored value reaches the dashboards.
    assert_eq!(ds.update_property_value(speed, Property::Int(7)), Some(true));
    let second = up.poll(&ds);
    assert_eq!(second.len(), 1);
    assert!(matches!(second[0].1, Value::Int(7)));
    let packs = up.packages(&second);
    assert_eq!(packs.len(), 2);
    assert_eq!(packs[0].1.len(), 1);
    assert_eq!(packs[1].1.len(), 1);
    // A written string carries a new version, so it is sent.
    assert_eq!(ds.update_property_value(rpm, Property::Str("race".to_string())), Some(true));
    let third = up.poll(&ds);
    assert_eq!(third.len(), 1);
    assert!(matches!(&third[0].1, Value::Str(t) if t == "race"));
    // A new storage of another type is read as well; only the dashboard
    // showing the property gets a package.
    ds.set_property(rpm, ValueContainer::new(Property::Int(3)));
    assert!(up.process_msg(SocketChMsg::ChangedProperty(rpm), None));
    let fourth = up.poll(&ds);
    let packs = up.packages(&fourth);
    assert_eq!(packs.len(), 1);
    assert_eq!(packs[0].0, "b");
    assert!(matches!(packs[0].1[0].1, Value::Int(3)));
    // A deleted property is shown as empty.
    ds.delete_property(rpm);
    let fifth = up.poll(&ds);
    assert_eq!(fifth.len(), 1);
    assert!(matches!(fifth[0].1, Value::Empty));
}

#[test]
fn clients_are_tracked_until_they_leave() {
    let button = DashElement {
        name: "go".to_string(),
        x: DashProperty::Fixed(0),
        y: DashProperty::Fixed(0),
        size_x: DashProperty::Fixed(1),
        size_y: DashProperty::Fixed(1),
        visible: DashProperty::Fixed(true),
        element: DashElementType::Button {
            action: DashAction::Plugin("plugin.go".to_string()),
            text: Text { text: DashProperty::Fixed("Go".to_string()), font_size: None },
        },
    };
    let dash = Dashboard { name: "main".to_string(), elements: vec![button], size_x: 10, size_y: 10, font_size: 1 };
    let mut t = AccessTable::new();
    assert!(t.get_auth(7).is_none());
    let msg = t.insert_dashboard(7, &dash);
    assert!(matches!(msg, SocketChMsg::AddDashboard(ref n) if n == "main"));
    let go = WebActionHandle::from_handle(ActionHandle::new("plugin.go").unwrap());
    let stop = WebActionHandle::from_handle(ActionHandle::new("plugin.stop").unwrap());
    assert_eq!(authorize_web_action(t.get_auth(7), "7", &go), Ok(0));
    assert!(authorize_web_action(t.get_auth(7), "7", &stop).is_err());
    assert_eq!(authorize_web_action(t.get_auth(8), "8", &go), Err("Client 8 has not done auth yet".to_string()));
    let gone = t.remove_auth(7);
    assert!(matches!(gone, Some(SocketChMsg::RmDashboard(ref n)) if n == "main"));
    assert!(t.get_auth(7).is_none());
    assert!(t.remove_auth(7).is_none());
    t.insert_auth(9, Auth::Plugin(3, "p".to_string()));
    assert!(matches!(t.get_auth(9), Some(Auth::Plugin(3, _))));
}
