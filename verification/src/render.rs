//! The per-item layout cache and the menu render plan.
//!
//! The cache holds the last successfully fetched layout tree of one tray
//! item; it is replaced wholesale by a full refetch, or has one subtree
//! replaced by an incremental update naming that subtree's id.
//!
//! The render plan flattens a tree, given the currently expanded submenu
//! id, into an ordered list of entries: a separator renders as a
//! divider; a labelled node renders as a clickable entry, marked checked
//! when its toggle state is nonzero; the children of a submenu node
//! render inline below it (as nested entries, not expandable further)
//! exactly when its id is the expanded one; a node with neither label
//! nor separator type is skipped entirely, children included.  At most
//! one submenu is open at a time.

use vstd::prelude::*;

use crate::menu::{is_subtree_replacement, replace_subtree, tree_contains_id, MenuItem, NodeType};

verus! {

/// One entry of the render plan.
#[derive(Debug)]
pub enum RenderEntry {
    /// A horizontal divider.
    Divider { nested: bool },
    /// A clickable entry.  `nested` marks entries that sit inside the
    /// expanded submenu.
    Entry { id: i32, label: String, checked: bool, is_submenu: bool, nested: bool },
}

/// The mathematical shape of one render entry.
pub enum RenderEntryView {
    Divider { nested: bool },
    Entry { id: i32, label: Seq<char>, checked: bool, is_submenu: bool, nested: bool },
}

impl View for RenderEntry {
    type V = RenderEntryView;

    open spec fn view(&self) -> RenderEntryView {
        match self {
            RenderEntry::Divider { nested } => RenderEntryView::Divider { nested: *nested },
            RenderEntry::Entry { id, label, checked, is_submenu, nested } => (
            RenderEntryView::Entry {
                id: *id,
                label: label@,
                checked: *checked,
                is_submenu: *is_submenu,
                nested: *nested,
            }),
        }
    }
}

/// The views of a whole plan.
pub open spec fn plan_view(v: Seq<RenderEntry>) -> Seq<RenderEntryView> {
    v.map_values(|e: RenderEntry| e@)
}

/// Whether a node renders as checked: its toggle state is present and
/// nonzero.
pub open spec fn checked_of(m: MenuItem) -> bool {
    match m.toggle_state {
        Some(t) => t != 0,
        None => false,
    }
}

/// What one node contributes on its own: a divider for a separator, a
/// clickable entry for a labelled node, nothing otherwise.
pub open spec fn entry_of(m: MenuItem, nested: bool) -> Seq<RenderEntryView> {
    if m.node_type == NodeType::Separator {
        seq![RenderEntryView::Divider { nested }]
    } else {
        match m.label {
            Some(l) => seq![
                RenderEntryView::Entry {
                    id: m.id,
                    label: l@,
                    checked: checked_of(m),
                    is_submenu: m.submenu,
                    nested,
                },
            ],
            None => Seq::empty(),
        }
    }
}

/// The entries of a run of sibling nodes, none of them expanded.
pub open spec fn entries_of(children: Seq<MenuItem>, nested: bool) -> Seq<RenderEntryView>
    decreases children.len(),
{
    if children.len() == 0 {
        Seq::empty()
    } else {
        entries_of(children.drop_last(), nested) + entry_of(children.last(), nested)
    }
}

/// Whether `m` is the submenu whose children are shown inline.
pub open spec fn is_expanded_submenu(m: MenuItem, expanded: Option<i32>) -> bool {
    &&& m.node_type != NodeType::Separator
    &&& m.label is Some
    &&& m.submenu
    &&& expanded == Some(m.id)
}

/// What one top-level node contributes: its own entry, followed by its
/// children (nested) when it is the expanded submenu.
pub open spec fn entry_with_expansion(m: MenuItem, expanded: Option<i32>) -> Seq<RenderEntryView> {
    entry_of(m, false) + if is_expanded_submenu(m, expanded) {
        entries_of(m.children@, true)
    } else {
        Seq::empty()
    }
}

/// The entries of the top-level run of nodes.
pub open spec fn top_entries(children: Seq<MenuItem>, expanded: Option<i32>) -> Seq<RenderEntryView>
    decreases children.len(),
{
    if children.len() == 0 {
        Seq::empty()
    } else {
        top_entries(children.drop_last(), expanded) + entry_with_expansion(
            children.last(),
            expanded,
        )
    }
}

/// The whole render plan of a layout tree: its root is never rendered
/// itself; its children render in order, with the children of the
/// expanded submenu inline.
pub open spec fn spec_render(root: MenuItem, expanded: Option<i32>) -> Seq<RenderEntryView> {
    top_entries(root.children@, expanded)
}

/// Appends what `m` contributes on its own.
fn push_entry(out: &mut Vec<RenderEntry>, m: &MenuItem, nested: bool)
    ensures
        plan_view(final(out)@) == plan_view(old(out)@) + entry_of(*m, nested),
{
    let ghost before = out@;
    if matches!(m.node_type, NodeType::Separator) {
        out.push(RenderEntry::Divider { nested });
    } else {
        match &m.label {
            Some(l) => {
                let checked = match m.toggle_state {
                    Some(t) => t != 0,
                    None => false,
                };
                out.push(
                    RenderEntry::Entry {
                        id: m.id,
                        label: l.clone(),
                        checked,
                        is_submenu: m.submenu,
                        nested,
                    },
                );
            },
            None => {},
        }
    }
    proof {
        assert(plan_view(out@) =~= plan_view(before) + entry_of(*m, nested));
    }
}

/// Builds the render plan of `root` under the given expanded submenu id.
#[verifier::loop_isolation(false)]
pub fn render_plan(root: &MenuItem, expanded: Option<i32>) -> (r: Vec<RenderEntry>)
    ensures
        plan_view(r@) == spec_render(*root, expanded),
{
    let mut out: Vec<RenderEntry> = Vec::new();
    let n: usize = root.children.len();
    let mut i: usize = 0;
    proof {
        assert(plan_view(out@) =~= Seq::empty());
        assert(top_entries(root.children@.take(0), expanded) =~= Seq::empty());
    }
    while i < n
        invariant
            i <= n,
            n == root.children@.len(),
            plan_view(out@) == top_entries(root.children@.take(i as int), expanded),
        decreases n - i,
    {
        let child = &root.children[i];
        push_entry(&mut out, child, false);
        let expand_here = {
            let is_sep = matches!(child.node_type, NodeType::Separator);
            let has_label = child.label.is_some();
            let wanted = match expanded {
                Some(e) => e == child.id,
                None => false,
            };
            !is_sep && has_label && child.submenu && wanted
        };
        if expand_here {
            let m: usize = child.children.len();
            let mut j: usize = 0;
            proof {
                assert(entries_of(child.children@.take(0), true) =~= Seq::empty());
                assert(plan_view(out@) =~= top_entries(root.children@.take(i as int), expanded)
                    + entry_of(root.children@[i as int], false) + entries_of(
                    child.children@.take(0),
                    true,
                ));
            }
            while j < m
                invariant
                    j <= m,
                    i < n,
                    m == child.children@.len(),
                    plan_view(out@) == top_entries(root.children@.take(i as int), expanded)
                        + entry_of(root.children@[i as int], false) + entries_of(
                        child.children@.take(j as int),
                        true,
                    ),
                decreases m - j,
            {
                push_entry(&mut out, &child.children[j], true);
                proof {
                    assert(child.children@.take(j + 1).drop_last() =~= child.children@.take(
                        j as int,
                    ));
                    assert(child.children@.take(j + 1).last() == child.children@[j as int]);
                    assert(plan_view(out@) =~= top_entries(root.children@.take(i as int), expanded)
                        + entry_of(root.children@[i as int], false) + entries_of(
                        child.children@.take(j + 1),
                        true,
                    ));
                }
                j += 1;
            }
            proof {
                assert(child.children@.take(m as int) =~= child.children@);
                assert(is_expanded_submenu(root.children@[i as int], expanded));
                assert(plan_view(out@) =~= top_entries(root.children@.take(i as int), expanded)
                    + entry_with_expansion(root.children@[i as int], expanded));
            }
        } else {
            proof {
                assert(!is_expanded_submenu(root.children@[i as int], expanded));
                assert(plan_view(out@) =~= top_entries(root.children@.take(i as int), expanded)
                    + entry_with_expansion(root.children@[i as int], expanded));
            }
        }
        proof {
            assert(root.children@.take(i + 1).drop_last() =~= root.children@.take(i as int));
            assert(root.children@.take(i + 1).last() == root.children@[i as int]);
        }
        i += 1;
    }
    proof {
        assert(root.children@.take(n as int) =~= root.children@);
    }
    out
}

/// The last-known layout tree of one tray item.
#[derive(Debug)]
pub struct LayoutCache {
    current: Option<MenuItem>,
}

impl LayoutCache {
    /// The cached tree, if any.
    pub closed spec fn spec_current(&self) -> Option<MenuItem> {
        self.current
    }

    /// An empty cache: nothing fetched yet.
    pub fn new() -> (r: Self)
        ensures
            r.spec_current() is None,
    {
        LayoutCache { current: None }
    }

    /// Replaces the whole tree after a successful full fetch.
    pub fn set_layout(&mut self, tree: MenuItem)
        ensures
            final(self).spec_current() == Some(tree),
    {
        self.current = Some(tree);
    }

    /// Applies an incremental update that names one subtree: replaces
    /// the first subtree carrying `id` by `sub`.  Returns false, leaving
    /// the cache unchanged, when nothing is cached or the id does not
    /// occur; the caller then falls back to a full refetch.
    pub fn apply_partial(&mut self, id: i32, sub: MenuItem) -> (applied: bool)
        ensures
            match old(self).spec_current() {
                None => !applied && final(self).spec_current() is None,
                Some(t) => {
                    &&& applied == tree_contains_id(t, id)
                    &&& if applied {
                        match final(self).spec_current() {
                            Some(t2) => is_subtree_replacement(t, id, sub, t2),
                            None => false,
                        }
                    } else {
                        final(self).spec_current() == Some(t)
                    }
                },
            },
    {
        match &mut self.current {
            Some(t) => replace_subtree(t, id, sub),
            None => false,
        }
    }

    /// A reference to the cached tree, for rendering.
    pub fn current(&self) -> (r: &Option<MenuItem>)
        ensures
            *r == self.spec_current(),
    {
        &self.current
    }

    /// Whether a tree is cached.
    pub fn has_layout(&self) -> (r: bool)
        ensures
            r == (self.spec_current() is Some),
    {
        self.current.is_some()
    }
}

} // verus!
