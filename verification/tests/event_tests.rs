use datarace::events::{EventMessage, EventNotice, EventRegistry};
use datarace::handles::EventHandle;

fn ev(plugin: u64, event: u64) -> EventHandle {
    EventHandle { plugin, event }
}

#[test]
fn subscribers_are_told_of_triggers() {
    let mut reg = EventRegistry::new();
    let e = ev(1, 10);
    reg.handle(EventMessage::Create(e));
    reg.handle(EventMessage::Subscribe(e, 2));
    reg.handle(EventMessage::Subscribe(e, 2));
    let step = reg.handle(EventMessage::Trigger(e));
    assert_eq!(step.notices, vec![(2, EventNotice::Triggered(e))]);
    assert!(!step.stop);
}

#[test]
fn presubscription_survives_creation() {
    let mut reg = EventRegistry::new();
    let e = ev(1, 11);
    reg.handle(EventMessage::Subscribe(e, 3));
    reg.handle(EventMessage::Create(e));
    let step = reg.handle(EventMessage::Trigger(e));
    assert_eq!(step.notices, vec![(3, EventNotice::Triggered(e))]);
}

#[test]
fn unsubscribe_is_confirmed_and_stops_triggers() {
    let mut reg = EventRegistry::new();
    let e = ev(1, 12);
    reg.handle(EventMessage::Create(e));
    reg.handle(EventMessage::Subscribe(e, 4));
    let step = reg.handle(EventMessage::Unsubscribe(e, 4));
    assert_eq!(step.notices, vec![(4, EventNotice::Unsubscribed(e))]);
    let again = reg.handle(EventMessage::Unsubscribe(e, 4));
    assert!(again.notices.is_empty());
    assert!(reg.handle(EventMessage::Trigger(e)).notices.is_empty());
}

#[test]
fn removing_an_event_tells_its_subscribers() {
    let mut reg = EventRegistry::new();
    let e = ev(1, 13);
    reg.handle(EventMessage::Create(e));
    reg.handle(EventMessage::Subscribe(e, 5));
    reg.handle(EventMessage::Subscribe(e, 6));
    let step = reg.handle(EventMessage::Remove(e));
    assert_eq!(
        step.notices,
        vec![(5, EventNotice::Unsubscribed(e)), (6, EventNotice::Unsubscribed(e))]
    );
    assert!(reg.handle(EventMessage::Trigger(e)).notices.is_empty());
}

#[test]
fn removing_a_plugin() {
    let mut reg = EventRegistry::new();
    let own = ev(7, 1);
    let other = ev(8, 1);
    reg.handle(EventMessage::Create(own));
    reg.handle(EventMessage::Create(other));
    reg.handle(EventMessage::Subscribe(other, 7));
    reg.handle(EventMessage::Subscribe(other, 9));
    let step = reg.handle(EventMessage::RemovePlugin(7));
    assert_eq!(step.follow_up, vec![own]);
    let t = reg.handle(EventMessage::Trigger(other));
    assert_eq!(t.notices, vec![(9, EventNotice::Triggered(other))]);
}

#[test]
fn shutdown_stops_the_loop() {
    let mut reg = EventRegistry::new();
    assert!(reg.handle(EventMessage::Shutdown).stop);
}
