use status_notifier::bus_name::BusName;
use status_notifier::error::Error;

#[test]
fn accepts_typical_well_known_name() {
    let name = BusName::try_new("org.kde.StatusNotifierWatcher").unwrap();
    assert_eq!(name.as_str(), "org.kde.StatusNotifierWatcher");
    assert_eq!(name.to_text(), "org.kde.StatusNotifierWatcher");
}

#[test]
fn accepts_dashes_underscores_and_digits() {
    assert!(BusName::try_new("com.example.app-2_test").is_ok());
    assert!(BusName::try_new("a.b").is_ok());
}

#[test]
fn rejects_missing_dot() {
    assert_eq!(BusName::try_new("nodots").unwrap_err(), Error::MalformedSignalArgs);
}

#[test]
fn rejects_empty_and_short() {
    assert!(BusName::try_new("").is_err());
    assert!(BusName::try_new("a.").is_err());
    assert!(BusName::try_new(".a").is_err());
}

#[test]
fn rejects_adjacent_dots_and_trailing_dot() {
    assert!(BusName::try_new("org..example").is_err());
    assert!(BusName::try_new("org.example.").is_err());
}

#[test]
fn rejects_digit_after_dot_or_at_start() {
    assert!(BusName::try_new("1org.example").is_err());
    assert!(BusName::try_new("org.2example").is_err());
    assert!(BusName::try_new("org.example2").is_ok());
}

#[test]
fn rejects_bad_characters_and_non_ascii() {
    assert!(BusName::try_new("org.exa mple").is_err());
    assert!(BusName::try_new("org.exa:mple").is_err());
    assert!(BusName::try_new("org.exämple").is_err());
}

#[test]
fn rejects_overlong_name() {
    let mut long = String::from("a.");
    long.push_str(&"b".repeat(260));
    assert!(BusName::try_new(&long).is_err());
    let mut ok = String::from("a.");
    ok.push_str(&"b".repeat(253));
    assert!(BusName::try_new(&ok).is_ok());
}
