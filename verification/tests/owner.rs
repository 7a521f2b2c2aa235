use status_notifier::bus_name::BusName;
use status_notifier::owner::{BusNameOwner, OwnerAction, OwnerChange, OwnershipState, RequestReply};

fn fresh_owner() -> BusNameOwner {
    let name = BusName::try_new("org.example.Watcher").unwrap();
    BusNameOwner::new(name, String::from(":1.42"))
}

fn changed(new_owner: Option<&str>) -> OwnerChange {
    OwnerChange {
        name: String::from("org.example.Watcher"),
        new_owner: new_owner.map(String::from),
    }
}

#[test]
fn claim_requests_the_name() {
    let mut owner = fresh_owner();
    assert_eq!(owner.state(), OwnershipState::Unowned);
    let (reported, act) = owner.claim();
    assert_eq!(act, OwnerAction::IssueRequest);
    assert_eq!(reported, vec![OwnershipState::Requesting]);
    assert_eq!(owner.state(), OwnershipState::Requesting);
}

#[test]
fn immediate_success_reports_owned() {
    let mut owner = fresh_owner();
    owner.claim();
    let reported = owner.on_request_reply(RequestReply::PrimaryOwner);
    assert_eq!(reported, vec![OwnershipState::Owned]);
    assert_eq!(owner.state(), OwnershipState::Owned);
}

#[test]
fn queued_reply_stays_requesting() {
    let mut owner = fresh_owner();
    owner.claim();
    let reported = owner.on_request_reply(RequestReply::InQueue);
    assert_eq!(reported, vec![OwnershipState::Requesting]);
    assert_eq!(owner.state(), OwnershipState::Requesting);
}

#[test]
fn failed_request_reports_unowned() {
    let mut owner = fresh_owner();
    owner.claim();
    let reported = owner.on_request_failed();
    assert_eq!(reported, vec![OwnershipState::Unowned]);
    assert_eq!(owner.state(), OwnershipState::Unowned);
}

#[test]
fn owner_changed_to_us_acquires() {
    let mut owner = fresh_owner();
    owner.claim();
    owner.on_request_reply(RequestReply::InQueue);
    let (reported, act) = owner.on_owner_changed(&changed(Some(":1.42")));
    assert_eq!(act, OwnerAction::Idle);
    assert_eq!(reported, vec![OwnershipState::Owned]);
    assert_eq!(owner.state(), OwnershipState::Owned);
}

#[test]
fn owner_changed_to_other_loses() {
    let mut owner = fresh_owner();
    owner.claim();
    owner.on_request_reply(RequestReply::PrimaryOwner);
    let (reported, act) = owner.on_owner_changed(&changed(Some(":1.99")));
    assert_eq!(act, OwnerAction::Idle);
    assert_eq!(reported, vec![OwnershipState::Lost]);
    assert_eq!(owner.state(), OwnershipState::Lost);
}

#[test]
fn ownerless_name_triggers_retry() {
    let mut owner = fresh_owner();
    owner.claim();
    owner.on_request_reply(RequestReply::PrimaryOwner);
    let (reported, act) = owner.on_owner_changed(&changed(None));
    assert_eq!(act, OwnerAction::IssueRequest);
    assert_eq!(reported, vec![OwnershipState::Lost, OwnershipState::Requesting]);
    assert_eq!(owner.state(), OwnershipState::Requesting);
}

#[test]
fn signal_about_another_name_is_ignored() {
    let mut owner = fresh_owner();
    owner.claim();
    owner.on_request_reply(RequestReply::PrimaryOwner);
    let ev = OwnerChange {
        name: String::from("org.example.Other"),
        new_owner: Some(String::from(":1.99")),
    };
    let (reported, act) = owner.on_owner_changed(&ev);
    assert_eq!(act, OwnerAction::Idle);
    assert!(reported.is_empty());
    assert_eq!(owner.state(), OwnershipState::Owned);
}

#[test]
fn no_duplicate_owned_across_reacquisition() {
    // Acquire, see our own ownership confirmed, lose, requeue, reacquire:
    // the stream never shows Owned twice in a row.
    let mut owner = fresh_owner();
    let mut stream: Vec<OwnershipState> = Vec::new();
    let (rep, _) = owner.claim();
    stream.extend(rep);
    stream.extend(owner.on_request_reply(RequestReply::PrimaryOwner));
    // A redundant confirmation of our own ownership reports nothing.
    let (rep, _) = owner.on_owner_changed(&changed(Some(":1.42")));
    stream.extend(rep);
    let (rep, _) = owner.on_owner_changed(&changed(Some(":1.7")));
    stream.extend(rep);
    let (rep, _) = owner.on_owner_changed(&changed(None));
    stream.extend(rep);
    let (rep, _) = owner.on_owner_changed(&changed(Some(":1.42")));
    stream.extend(rep);
    assert_eq!(
        stream,
        vec![
            OwnershipState::Requesting,
            OwnershipState::Owned,
            OwnershipState::Lost,
            OwnershipState::Requesting,
            OwnershipState::Owned,
        ]
    );
    for pair in stream.windows(2) {
        assert!(!(pair[0] == OwnershipState::Owned && pair[1] == OwnershipState::Owned));
    }
}
