use status_notifier::dispatcher::Dispatcher;
use status_notifier::error::Error;
use status_notifier::menu::{PropValue, RawNode};
use status_notifier::status_menu::{Action, Identity};

fn text(key: &str, value: &str) -> (String, PropValue) {
    (String::from(key), PropValue::Text(String::from(value)))
}

fn small_wire() -> RawNode {
    RawNode {
        id: 0,
        props: vec![],
        children: vec![RawNode { id: 1, props: vec![text("label", "A")], children: vec![] }],
    }
}

fn identity(service: &str) -> Identity {
    Identity { service: String::from(service), menu_path: String::from("/MenuBar") }
}

#[test]
fn adding_an_item_starts_its_fetch() {
    let mut disp = Dispatcher::new();
    let act = disp.add_item(identity("org.example.a"), String::from("icon-a"));
    assert_eq!(act, Action::Fetch);
    assert_eq!(disp.len(), 1);
    assert_eq!(disp.client_at(0).name(), "org.example.a");
}

#[test]
fn adding_a_duplicate_identity_is_refused() {
    let mut disp = Dispatcher::new();
    disp.add_item(identity("org.example.a"), String::from("icon-a"));
    let act = disp.add_item(identity("org.example.a"), String::from("icon-b"));
    assert_eq!(act, Action::Idle);
    assert_eq!(disp.len(), 1);
    assert_eq!(disp.client_at(0).icon_name(), "icon-a");
}

#[test]
fn signals_route_to_the_right_client() {
    let mut disp = Dispatcher::new();
    disp.add_item(identity("org.example.a"), String::from("icon-a"));
    disp.add_item(identity("org.example.b"), String::from("icon-b"));
    // Item a's fetch completes; item b's is still outstanding.
    let (act, err) = disp.handle_fetch_result(&String::from("org.example.a"), Ok(small_wire()));
    assert_eq!(act, Action::Idle);
    assert!(err.is_none());
    assert_eq!(disp.client_at(0).popup_view().len(), 1);
    assert!(disp.client_at(1).popup_view().is_empty());
    // A signal for a, whose latch is idle again, starts a fetch at once.
    assert_eq!(disp.handle_layout_signal(&String::from("org.example.a")), Action::Fetch);
    // A signal for b coalesces behind its outstanding fetch.
    assert_eq!(disp.handle_layout_signal(&String::from("org.example.b")), Action::Idle);
}

#[test]
fn unregistering_mid_fetch_discards_the_result() {
    // The item's fetch is outstanding when it unregisters.  The state is
    // removed at once, and the completion that arrives afterwards is
    // discarded: nothing reappears, no fetch restarts.
    let mut disp = Dispatcher::new();
    disp.add_item(identity("org.example.a"), String::from("icon-a"));
    assert!(disp.remove_item(&String::from("org.example.a")));
    assert_eq!(disp.len(), 0);
    let (act, err) = disp.handle_fetch_result(&String::from("org.example.a"), Ok(small_wire()));
    assert_eq!(act, Action::Idle);
    assert!(err.is_none());
    assert_eq!(disp.len(), 0);
}

#[test]
fn removing_an_unknown_identity_is_a_no_op() {
    let mut disp = Dispatcher::new();
    disp.add_item(identity("org.example.a"), String::from("icon-a"));
    assert!(!disp.remove_item(&String::from("org.example.ghost")));
    assert_eq!(disp.len(), 1);
}

#[test]
fn clicks_route_by_identity() {
    let mut disp = Dispatcher::new();
    disp.add_item(identity("org.example.a"), String::from("icon-a"));
    disp.handle_fetch_result(&String::from("org.example.a"), Ok(small_wire()));
    let act = disp.handle_click(&String::from("org.example.a"), 1, false);
    assert_eq!(act, Action::SendClick { id: 1 });
    // A click for an identity that is gone does nothing.
    let act = disp.handle_click(&String::from("org.example.zz"), 1, false);
    assert_eq!(act, Action::Idle);
}

#[test]
fn fetch_errors_surface_through_routing() {
    let mut disp = Dispatcher::new();
    disp.add_item(identity("org.example.a"), String::from("icon-a"));
    let (act, err) =
        disp.handle_fetch_result(&String::from("org.example.a"), Err(Error::LayoutFetchFailed));
    assert_eq!(act, Action::Idle);
    assert_eq!(err, Some(Error::LayoutFetchFailed));
}

#[test]
fn error_descriptions_are_nonempty() {
    let kinds = [
        Error::BusUnavailable,
        Error::NameRequestFailed,
        Error::LayoutFetchFailed,
        Error::ClickDispatchFailed,
        Error::MalformedSignalArgs,
    ];
    for k in kinds {
        assert!(!k.describe().is_empty());
    }
}
