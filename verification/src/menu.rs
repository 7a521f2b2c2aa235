//! The menu layout tree and its wire shape.
//!
//! A layout fetch returns a recursive wire value: `(id, properties,
//! children)`.  [`RawNode`] models that value with plain data, and
//! [`parse_node`] reads the recognized properties (`type`, `label`,
//! `toggle-state`, `children-display`, `icon-data`) into a [`MenuItem`]
//! tree.  A recognized property carrying a value of the wrong shape
//! makes the whole tree malformed and the fetch result is dropped.
//! Unrecognized properties are ignored.

use vstd::prelude::*;

use crate::error::Error;

verus! {

/// The type of a menu node, from the wire `type` property.  Anything
/// other than the separator marker renders as a standard node.
#[derive(Clone, Copy, Debug, PartialEq, Eq, Structural)]
pub enum NodeType {
    Standard,
    Separator,
}

/// One property value of the wire layout tree, reduced to the variants
/// the menu logic reads.  Payloads of other shapes arrive as `Other`.
#[derive(Debug)]
pub enum PropValue {
    Text(String),
    Number(i32),
    Bytes(Vec<u8>),
    Other,
}

/// The wire shape of one layout node: id, property list, children.
#[derive(Debug)]
#[verifier::ext_equal]
pub struct RawNode {
    pub id: i32,
    pub props: Vec<(String, PropValue)>,
    pub children: Vec<RawNode>,
}

/// One parsed menu node.
#[derive(Debug)]
#[verifier::ext_equal]
pub struct MenuItem {
    pub id: i32,
    pub node_type: NodeType,
    pub label: Option<String>,
    pub toggle_state: Option<i32>,
    pub submenu: bool,
    pub icon_data: Option<Vec<u8>>,
    pub children: Vec<MenuItem>,
}

/// The value of the first property named `key`, if any.
pub open spec fn lookup_prop(props: Seq<(String, PropValue)>, key: Seq<char>) -> Option<PropValue>
    decreases props.len(),
{
    if props.len() == 0 {
        None
    } else if props[0].0@ == key {
        Some(props[0].1)
    } else {
        lookup_prop(props.drop_first(), key)
    }
}

/// Every recognized property that is present carries a value of the
/// expected shape.
pub open spec fn props_well_formed(props: Seq<(String, PropValue)>) -> bool {
    &&& match lookup_prop(props, "type"@) {
        None => true,
        Some(PropValue::Text(_)) => true,
        Some(_) => false,
    }
    &&& match lookup_prop(props, "label"@) {
        None => true,
        Some(PropValue::Text(_)) => true,
        Some(_) => false,
    }
    &&& match lookup_prop(props, "toggle-state"@) {
        None => true,
        Some(PropValue::Number(_)) => true,
        Some(_) => false,
    }
    &&& match lookup_prop(props, "children-display"@) {
        None => true,
        Some(PropValue::Text(_)) => true,
        Some(_) => false,
    }
    &&& match lookup_prop(props, "icon-data"@) {
        None => true,
        Some(PropValue::Bytes(_)) => true,
        Some(_) => false,
    }
}

/// The node type the properties describe.
pub open spec fn spec_node_type(props: Seq<(String, PropValue)>) -> NodeType {
    match lookup_prop(props, "type"@) {
        Some(PropValue::Text(s)) => if s@ == "separator"@ {
            NodeType::Separator
        } else {
            NodeType::Standard
        },
        _ => NodeType::Standard,
    }
}

/// The label the properties describe, if any.
pub open spec fn spec_label(props: Seq<(String, PropValue)>) -> Option<Seq<char>> {
    match lookup_prop(props, "label"@) {
        Some(PropValue::Text(s)) => Some(s@),
        _ => None,
    }
}

/// The toggle state the properties describe, if any.
pub open spec fn spec_toggle(props: Seq<(String, PropValue)>) -> Option<i32> {
    match lookup_prop(props, "toggle-state"@) {
        Some(PropValue::Number(v)) => Some(v),
        _ => None,
    }
}

/// Whether the properties mark the node as a submenu.
pub open spec fn spec_submenu(props: Seq<(String, PropValue)>) -> bool {
    match lookup_prop(props, "children-display"@) {
        Some(PropValue::Text(s)) => s@ == "submenu"@,
        _ => false,
    }
}

/// The icon bytes the properties describe, if any.
pub open spec fn spec_icon(props: Seq<(String, PropValue)>) -> Option<Seq<u8>> {
    match lookup_prop(props, "icon-data"@) {
        Some(PropValue::Bytes(b)) => Some(b@),
        _ => None,
    }
}

/// `m` is the parse of the wire node `raw`: same id, fields read from
/// the recognized properties, children parsed in order.
pub open spec fn parses_to(raw: RawNode, m: MenuItem) -> bool
    decreases raw,
{
    &&& props_well_formed(raw.props@)
    &&& m.id == raw.id
    &&& m.node_type == spec_node_type(raw.props@)
    &&& match m.label {
        Some(t) => spec_label(raw.props@) == Some(t@),
        None => spec_label(raw.props@) is None,
    }
    &&& m.toggle_state == spec_toggle(raw.props@)
    &&& m.submenu == spec_submenu(raw.props@)
    &&& match m.icon_data {
        Some(b) => spec_icon(raw.props@) == Some(b@),
        None => spec_icon(raw.props@) is None,
    }
    &&& m.children@.len() == raw.children@.len()
    &&& forall|i: int|
        0 <= i < raw.children@.len() ==> parses_to(
            #[trigger] raw.children@[i],
            m.children@[i],
        )
}

/// The wire node, or some node below it, carries a recognized property
/// of the wrong shape.
pub open spec fn malformed_tree(raw: RawNode) -> bool
    decreases raw,
{
    ||| !props_well_formed(raw.props@)
    ||| exists|i: int| 0 <= i < raw.children@.len() && malformed_tree(#[trigger] raw.children@[i])
}

/// True when `k` is the same text as the literal `lit`.
fn key_is(k: &String, lit: &str) -> (r: bool)
    ensures
        r == (k@ == lit@),
{
    *k == lit.to_owned()
}

/// The value of the first property named `key`, if any.
fn get_prop<'a>(props: &'a Vec<(String, PropValue)>, key: &str) -> (r: Option<&'a PropValue>)
    ensures
        match r {
            Some(p) => lookup_prop(props@, key@) == Some(*p),
            None => lookup_prop(props@, key@) is None,
        },
{
    let n = props.len();
    let mut i: usize = 0;
    proof {
        assert(props@.skip(0) =~= props@);
    }
    while i < n
        invariant
            i <= n,
            n == props@.len(),
            lookup_prop(props@, key@) == lookup_prop(props@.skip(i as int), key@),
            forall|k: int| 0 <= k < i ==> (#[trigger] props@[k]).0@ != key@,
        decreases n - i,
    {
        proof {
            assert(props@.skip(i as int)[0] == props@[i as int]);
        }
        if key_is(&props[i].0, key) {
            return Some(&props[i].1);
        }
        proof {
            assert(props@.skip(i as int).drop_first() =~= props@.skip(i as int + 1));
        }
        i += 1;
    }
    proof {
        assert(props@.skip(n as int).len() == 0);
    }
    None
}

/// Parses one wire node and everything below it.  Returns the parsed
/// tree exactly when no recognized property anywhere in the tree has a
/// value of the wrong shape; otherwise the malformed-arguments error.
#[verifier::loop_isolation(false)]
pub fn parse_node(raw: &RawNode) -> (r: Result<MenuItem, Error>)
    ensures
        match r {
            Ok(m) => parses_to(*raw, m) && !malformed_tree(*raw),
            Err(e) => e == Error::MalformedSignalArgs && malformed_tree(*raw),
        },
    decreases *raw,
{
    let node_type = match get_prop(&raw.props, "type") {
        None => NodeType::Standard,
        Some(PropValue::Text(s)) => {
            if key_is(s, "separator") {
                NodeType::Separator
            } else {
                NodeType::Standard
            }
        },
        Some(_) => {
            return Err(Error::MalformedSignalArgs);
        },
    };
    let label = match get_prop(&raw.props, "label") {
        None => None,
        Some(PropValue::Text(s)) => Some(s.clone()),
        Some(_) => {
            return Err(Error::MalformedSignalArgs);
        },
    };
    let toggle_state = match get_prop(&raw.props, "toggle-state") {
        None => None,
        Some(PropValue::Number(v)) => Some(*v),
        Some(_) => {
            return Err(Error::MalformedSignalArgs);
        },
    };
    let submenu = match get_prop(&raw.props, "children-display") {
        None => false,
        Some(PropValue::Text(s)) => key_is(s, "submenu"),
        Some(_) => {
            return Err(Error::MalformedSignalArgs);
        },
    };
    let icon_data = match get_prop(&raw.props, "icon-data") {
        None => None,
        Some(PropValue::Bytes(b)) => {
            let copy = b.clone();
            proof {
                assert(copy@ =~= b@);
            }
            Some(copy)
        },
        Some(_) => {
            return Err(Error::MalformedSignalArgs);
        },
    };
    let n = raw.children.len();
    let mut children: Vec<MenuItem> = Vec::new();
    let mut i: usize = 0;
    while i < n
        invariant
            i <= n,
            n == raw.children@.len(),
            children@.len() == i,
            forall|k: int|
                0 <= k < i ==> parses_to(#[trigger] raw.children@[k], children@[k]),
            forall|k: int| 0 <= k < i ==> !malformed_tree(#[trigger] raw.children@[k]),
        decreases n - i,
    {
        proof {
            assert(decreases_to!(*raw => raw.children@[i as int]));
        }
        match parse_node(&raw.children[i]) {
            Ok(m) => {
                children.push(m);
            },
            Err(e) => {
                return Err(e);
            },
        }
        i += 1;
    }
    Ok(MenuItem { id: raw.id, node_type, label, toggle_state, submenu, icon_data, children })
}

/// The tree `m`, or some node below it, has a node with this id.
pub open spec fn tree_contains_id(m: MenuItem, id: i32) -> bool
    decreases m,
{
    ||| m.id == id
    ||| exists|i: int| 0 <= i < m.children@.len() && tree_contains_id(#[trigger] m.children@[i], id)
}

/// Whether the tree rooted at `m` has a node with this id.
#[verifier::loop_isolation(false)]
pub fn contains_id(m: &MenuItem, id: i32) -> (r: bool)
    ensures
        r == tree_contains_id(*m, id),
    decreases *m,
{
    if m.id == id {
        return true;
    }
    let n: usize = m.children.len();
    let mut i: usize = 0;
    while i < n
        invariant
            i <= n,
            n == m.children@.len(),
            forall|k: int| 0 <= k < i ==> !tree_contains_id(#[trigger] m.children@[k], id),
        decreases n - i,
    {
        proof {
            assert(decreases_to!(*m => m.children@[i as int]));
        }
        if contains_id(&m.children[i], id) {
            return true;
        }
        i += 1;
    }
    false
}

/// `res` is `m` with the first subtree (in preorder) whose root carries
/// `id` replaced by `sub`; everything outside that one path is the same
/// value as before.  Meaningful only when the id occurs in `m`.
pub open spec fn is_subtree_replacement(m: MenuItem, id: i32, sub: MenuItem, res: MenuItem) -> bool
    decreases m,
{
    if m.id == id {
        res == sub
    } else {
        &&& res.id == m.id
        &&& res.node_type == m.node_type
        &&& res.label == m.label
        &&& res.toggle_state == m.toggle_state
        &&& res.submenu == m.submenu
        &&& res.icon_data == m.icon_data
        &&& res.children@.len() == m.children@.len()
        &&& exists|k: int|
            {
                &&& 0 <= k < m.children@.len()
                &&& tree_contains_id(#[trigger] m.children@[k], id)
                &&& forall|j: int| 0 <= j < k ==> !tree_contains_id(#[trigger] m.children@[j], id)
                &&& forall|j: int|
                    0 <= j < m.children@.len() && j != k ==> res.children@[j] == m.children@[j]
                &&& is_subtree_replacement(m.children@[k], id, sub, res.children@[k])
            }
    }
}

/// Replaces the first subtree (in preorder) rooted at `id` inside `m` by
/// `sub`, in place.  Returns whether a replacement happened; when the id
/// does not occur, the tree is unchanged and `sub` is dropped.
#[verifier::loop_isolation(false)]
pub fn replace_subtree(m: &mut MenuItem, id: i32, sub: MenuItem) -> (found: bool)
    ensures
        found == tree_contains_id(*old(m), id),
        found ==> is_subtree_replacement(*old(m), id, sub, *final(m)),
        !found ==> *final(m) == *old(m),
    decreases *old(m),
{
    if m.id == id {
        *m = sub;
        return true;
    }
    let n: usize = m.children.len();
    let mut i: usize = 0;
    while i < n
        invariant
            i <= n,
            *m == *old(m),
            n == m.children@.len(),
            forall|k: int| 0 <= k < i ==> !tree_contains_id(#[trigger] m.children@[k], id),
        decreases n - i,
    {
        proof {
            assert(decreases_to!(*m => m.children@[i as int]));
        }
        if contains_id(&m.children[i], id) {
            let ghost before = *m;
            let hit = replace_subtree(&mut m.children[i], id, sub);
            proof {
                assert(hit);
                assert(m.children@ =~= before.children@.update(i as int, m.children@[i as int]));
                assert forall|j: int|
                    0 <= j < before.children@.len() && j != i implies m.children@[j]
                    == before.children@[j] by {}
                assert(is_subtree_replacement(*old(m), id, sub, *m));
                assert(tree_contains_id(*old(m), id));
            }
            return true;
        }
        i += 1;
    }
    false
}

} // verus!
