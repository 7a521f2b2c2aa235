use status_notifier::error::Error;
use status_notifier::menu::{contains_id, parse_node, replace_subtree, MenuItem, NodeType, PropValue, RawNode};
use status_notifier::render::{render_plan, RenderEntry};

fn prop(key: &str, value: PropValue) -> (String, PropValue) {
    (String::from(key), value)
}

fn text(key: &str, value: &str) -> (String, PropValue) {
    prop(key, PropValue::Text(String::from(value)))
}

fn raw(id: i32, props: Vec<(String, PropValue)>, children: Vec<RawNode>) -> RawNode {
    RawNode { id, props, children }
}

/// The layout tree of the scenarios: root 0 with a labelled entry A, a
/// separator, and a submenu B holding B1.
fn sample_tree() -> MenuItem {
    let wire = raw(
        0,
        vec![],
        vec![
            raw(1, vec![text("label", "A")], vec![]),
            raw(2, vec![text("type", "separator")], vec![]),
            raw(
                3,
                vec![text("label", "B"), text("children-display", "submenu")],
                vec![raw(4, vec![text("label", "B1")], vec![])],
            ),
        ],
    );
    parse_node(&wire).unwrap()
}

fn entry_summary(e: &RenderEntry) -> (Option<(i32, String, bool, bool)>, bool) {
    match e {
        RenderEntry::Divider { nested } => (None, *nested),
        RenderEntry::Entry { id, label, is_submenu, nested, .. } => {
            (Some((*id, label.clone(), *is_submenu, *nested)), *nested)
        }
    }
}

#[test]
fn parse_reads_recognized_properties() {
    let tree = sample_tree();
    assert_eq!(tree.id, 0);
    assert_eq!(tree.children.len(), 3);
    let a = &tree.children[0];
    assert_eq!(a.id, 1);
    assert_eq!(a.node_type, NodeType::Standard);
    assert_eq!(a.label.as_deref(), Some("A"));
    assert!(!a.submenu);
    let sep = &tree.children[1];
    assert_eq!(sep.node_type, NodeType::Separator);
    let b = &tree.children[2];
    assert!(b.submenu);
    assert_eq!(b.children.len(), 1);
    assert_eq!(b.children[0].label.as_deref(), Some("B1"));
}

#[test]
fn parse_reads_toggle_state_and_icon() {
    let wire = raw(
        5,
        vec![
            text("label", "Mute"),
            prop("toggle-state", PropValue::Number(1)),
            prop("icon-data", PropValue::Bytes(vec![1, 2, 3])),
            text("ignored-key", "ignored"),
        ],
        vec![],
    );
    let item = parse_node(&wire).unwrap();
    assert_eq!(item.toggle_state, Some(1));
    assert_eq!(item.icon_data.as_deref(), Some(&[1u8, 2, 3][..]));
}

#[test]
fn unknown_type_text_renders_as_standard() {
    let wire = raw(7, vec![text("type", "fancy"), text("label", "X")], vec![]);
    let item = parse_node(&wire).unwrap();
    assert_eq!(item.node_type, NodeType::Standard);
}

#[test]
fn wrongly_shaped_property_is_malformed() {
    let wire = raw(8, vec![prop("label", PropValue::Number(4))], vec![]);
    assert_eq!(parse_node(&wire).unwrap_err(), Error::MalformedSignalArgs);
}

#[test]
fn malformed_child_poisons_the_tree() {
    let bad_child = raw(9, vec![prop("toggle-state", PropValue::Text(String::from("on")))], vec![]);
    let wire = raw(0, vec![], vec![raw(1, vec![text("label", "ok")], vec![]), bad_child]);
    assert_eq!(parse_node(&wire).unwrap_err(), Error::MalformedSignalArgs);
}

#[test]
fn collapsed_plan_hides_submenu_children() {
    // Expanded: none.  The plan shows A, a divider, and B — B1 absent.
    let tree = sample_tree();
    let plan = render_plan(&tree, None);
    assert_eq!(plan.len(), 3);
    assert_eq!(
        entry_summary(&plan[0]).0,
        Some((1, String::from("A"), false, false))
    );
    assert!(matches!(&plan[1], RenderEntry::Divider { nested: false }));
    assert_eq!(
        entry_summary(&plan[2]).0,
        Some((3, String::from("B"), true, false))
    );
}

#[test]
fn expanded_plan_nests_submenu_children() {
    // Expanded: 3.  The plan shows A, a divider, B, then B1 nested.
    let tree = sample_tree();
    let plan = render_plan(&tree, Some(3));
    assert_eq!(plan.len(), 4);
    assert_eq!(
        entry_summary(&plan[2]).0,
        Some((3, String::from("B"), true, false))
    );
    assert_eq!(
        entry_summary(&plan[3]).0,
        Some((4, String::from("B1"), false, true))
    );
}

#[test]
fn checked_entries_are_marked() {
    let wire = raw(
        0,
        vec![],
        vec![raw(1, vec![text("label", "Mute"), prop("toggle-state", PropValue::Number(1))], vec![])],
    );
    let tree = parse_node(&wire).unwrap();
    let plan = render_plan(&tree, None);
    match &plan[0] {
        RenderEntry::Entry { checked, .. } => assert!(*checked),
        _ => panic!("expected an entry"),
    }
}

#[test]
fn unlabelled_node_is_skipped_entirely() {
    let wire = raw(
        0,
        vec![],
        vec![
            raw(1, vec![], vec![raw(2, vec![text("label", "hidden")], vec![])]),
            raw(3, vec![text("label", "shown")], vec![]),
        ],
    );
    let tree = parse_node(&wire).unwrap();
    let plan = render_plan(&tree, None);
    assert_eq!(plan.len(), 1);
    assert_eq!(entry_summary(&plan[0]).0, Some((3, String::from("shown"), false, false)));
}

#[test]
fn replace_subtree_swaps_one_branch() {
    let mut tree = sample_tree();
    let replacement = parse_node(&raw(3, vec![text("label", "B-new")], vec![])).unwrap();
    assert!(contains_id(&tree, 3));
    let found = replace_subtree(&mut tree, 3, replacement);
    assert!(found);
    assert_eq!(tree.children.len(), 3);
    assert_eq!(tree.children[2].label.as_deref(), Some("B-new"));
    assert!(tree.children[2].children.is_empty());
    // Untouched branches stay as they were.
    assert_eq!(tree.children[0].label.as_deref(), Some("A"));
}

#[test]
fn replace_subtree_without_the_id_changes_nothing() {
    let mut tree = sample_tree();
    let replacement = parse_node(&raw(99, vec![text("label", "ghost")], vec![])).unwrap();
    let found = replace_subtree(&mut tree, 99, replacement);
    assert!(!found);
    assert!(!contains_id(&tree, 99));
    assert_eq!(tree.children.len(), 3);
    assert_eq!(tree.children[2].label.as_deref(), Some("B"));
}
