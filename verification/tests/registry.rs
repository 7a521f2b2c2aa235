use status_notifier::registry::{RegistryEvent, WatcherRegistry};

fn names_of(reg: &WatcherRegistry) -> Vec<String> {
    reg.registered_items()
}

#[test]
fn register_emits_event_and_lists_item() {
    let mut reg = WatcherRegistry::new();
    let ev = reg.register(String::from("org.example.item1"), Some(String::from("/Item")));
    match ev {
        Some(RegistryEvent::Registered(it)) => {
            assert_eq!(it.service, "org.example.item1");
            assert_eq!(it.object_path.as_deref(), Some("/Item"));
        }
        _ => panic!("expected a registered event"),
    }
    assert_eq!(names_of(&reg), vec![String::from("org.example.item1")]);
    assert_eq!(reg.len(), 1);
}

#[test]
fn duplicate_register_is_a_no_op() {
    let mut reg = WatcherRegistry::new();
    assert!(reg.register(String::from("org.example.item1"), None).is_some());
    let second = reg.register(String::from("org.example.item1"), None);
    assert!(second.is_none());
    assert_eq!(reg.len(), 1);
}

#[test]
fn unregister_absent_is_a_no_op() {
    let mut reg = WatcherRegistry::new();
    assert!(reg.unregister(&String::from("org.example.ghost")).is_none());
    assert_eq!(reg.len(), 0);
}

#[test]
fn unregister_removes_and_keeps_order() {
    let mut reg = WatcherRegistry::new();
    reg.register(String::from("org.example.a"), None);
    reg.register(String::from("org.example.b"), None);
    reg.register(String::from("org.example.c"), None);
    let ev = reg.unregister(&String::from("org.example.b"));
    match ev {
        Some(RegistryEvent::Unregistered(it)) => assert_eq!(it.service, "org.example.b"),
        _ => panic!("expected an unregistered event"),
    }
    assert_eq!(
        names_of(&reg),
        vec![String::from("org.example.a"), String::from("org.example.c")]
    );
}

#[test]
fn peer_vanishing_synthesizes_unregistration() {
    let mut reg = WatcherRegistry::new();
    reg.register(String::from("org.example.a"), None);
    let ev = reg.peer_vanished(&String::from("org.example.a"));
    assert!(matches!(ev, Some(RegistryEvent::Unregistered(_))));
    assert_eq!(reg.len(), 0);
}

#[test]
fn visible_set_equals_net_registrations() {
    // Register a, a again (no-op), b; unregister c (no-op), then a:
    // only b has a net-positive registration, so only b is visible.
    let mut reg = WatcherRegistry::new();
    reg.register(String::from("org.example.a"), None);
    reg.register(String::from("org.example.a"), None);
    reg.register(String::from("org.example.b"), None);
    reg.unregister(&String::from("org.example.c"));
    reg.unregister(&String::from("org.example.a"));
    assert_eq!(names_of(&reg), vec![String::from("org.example.b")]);
}
