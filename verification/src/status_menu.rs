//! Per-item protocol client state.
//!
//! A [`State`] follows one tray item: its identity, its icon name, the
//! last fetched menu layout, which submenu is expanded, and the fetch
//! latch.  The latch keeps exactly one layout fetch outstanding at a time:
//! a layout-updated signal arriving while a fetch is outstanding is
//! coalesced into exactly one further fetch after the current one
//! completes, however many signals arrive in between.
//!
//! A click always issues exactly one outbound event call, whatever came
//! of earlier calls; a click on a submenu header also toggles which
//! submenu is expanded.  A failed fetch keeps the previous layout; the
//! next layout-updated signal retries.

use vstd::prelude::*;

use crate::error::Error;
use crate::menu::{malformed_tree, parse_node, parses_to, MenuItem, RawNode};
use crate::render::{plan_view, render_plan, spec_render, LayoutCache, RenderEntry};

verus! {

/// The identity of one tray item: the service name it registered and
/// the object path of its menu.
#[derive(Debug)]
pub struct Identity {
    pub service: String,
    pub menu_path: String,
}

/// A message for one item's state.
#[derive(Debug)]
pub enum Msg {
    /// A completed layout fetch: the wire tree, or the error the fetch
    /// ran into.
    Layout(Result<RawNode, Error>),
    /// A click on entry `id`; the flag says the entry is a submenu
    /// header.
    Click(i32, bool),
}

/// What the bus loop must do after an update.
#[derive(Clone, Copy, Debug, PartialEq, Eq, Structural)]
pub enum Action {
    /// Nothing to do.
    Idle,
    /// Start one layout fetch for this item.
    Fetch,
    /// Issue one clicked event call for entry `id`, with an empty
    /// payload, and do not retry it.
    SendClick { id: i32 },
}

/// The fetch latch: whether a fetch is outstanding, and whether one more
/// is owed once it completes.
#[derive(Clone, Copy, Debug, PartialEq, Eq, Structural)]
pub struct FetchLatch {
    pub in_flight: bool,
    pub pending: bool,
}

/// The latch after a layout-updated signal, and whether a fetch starts
/// now: an idle latch starts one at once; a busy latch only notes that one
/// more is owed.
pub open spec fn signal_step(g: FetchLatch) -> (FetchLatch, bool) {
    if !g.in_flight {
        (FetchLatch { in_flight: true, pending: g.pending }, true)
    } else {
        (FetchLatch { in_flight: true, pending: true }, false)
    }
}

/// The latch after a fetch completes, and whether the owed fetch starts
/// now.
pub open spec fn complete_step(g: FetchLatch) -> (FetchLatch, bool) {
    if g.pending {
        (FetchLatch { in_flight: true, pending: false }, true)
    } else {
        (FetchLatch { in_flight: false, pending: false }, false)
    }
}

/// A further fetch is only ever owed while one is outstanding, so at
/// most one fetch per item is in flight at a time.
pub open spec fn latch_ok(g: FetchLatch) -> bool {
    g.pending ==> g.in_flight
}

/// Both latch transitions preserve [`latch_ok`], so it holds in every
/// reachable state.
pub proof fn lemma_latch_ok_preserved(g: FetchLatch)
    ensures
        latch_ok(signal_step(g).0),
        latch_ok(complete_step(g).0),
{
}

/// The latch after `n` layout-updated signals.
pub open spec fn latch_after_signals(g: FetchLatch, n: nat) -> FetchLatch
    decreases n,
{
    if n == 0 {
        g
    } else {
        signal_step(latch_after_signals(g, (n - 1) as nat)).0
    }
}

/// How many fetches those `n` signals start.
pub open spec fn fetches_during_signals(g: FetchLatch, n: nat) -> nat
    decreases n,
{
    if n == 0 {
        0
    } else {
        fetches_during_signals(g, (n - 1) as nat) + if signal_step(
            latch_after_signals(g, (n - 1) as nat),
        ).1 {
            1nat
        } else {
            0nat
        }
    }
}

/// Layout-updated signals arriving while a fetch is outstanding start
/// nothing at once and are coalesced into exactly one further fetch when
/// the outstanding one completes — never zero, and never more than one:
/// the completion after that owed fetch starts nothing more (if no new
/// signal arrived).
pub proof fn lemma_signal_coalescing(g: FetchLatch, n: nat)
    requires
        g.in_flight,
        !g.pending,
        n > 0,
    ensures
        fetches_during_signals(g, n) == 0,
        latch_after_signals(g, n) == (FetchLatch { in_flight: true, pending: true }),
        complete_step(latch_after_signals(g, n)).1,
        complete_step(latch_after_signals(g, n)).0 == (FetchLatch { in_flight: true, pending: false }),
        !complete_step(complete_step(latch_after_signals(g, n)).0).1,
    decreases n,
{
    if n == 1 {
        assert(latch_after_signals(g, 0) == g);
        assert(fetches_during_signals(g, 0) == 0);
    } else {
        lemma_signal_coalescing(g, (n - 1) as nat);
    }
}

/// Which submenu is expanded after clicking the submenu header `id`:
/// clicking the expanded one collapses it; clicking any other replaces
/// the expansion.  At most one submenu is open at a time.
pub open spec fn toggle_expanded(expanded: Option<i32>, id: i32) -> Option<i32> {
    if expanded == Some(id) {
        None
    } else {
        Some(id)
    }
}

/// The toggle law: clicking a submenu id when it is not expanded expands
/// exactly it; clicking it again collapses the menu.
pub proof fn lemma_submenu_toggle(expanded: Option<i32>, id: i32)
    ensures
        expanded != Some(id) ==> toggle_expanded(expanded, id) == Some(id),
        toggle_expanded(Some(id), id) is None,
        toggle_expanded(toggle_expanded(Option::<i32>::None, id), id) is None,
{
}

/// The state of one tray item's protocol client.
#[derive(Debug)]
pub struct State {
    item: Identity,
    icon: String,
    layout: LayoutCache,
    expanded: Option<i32>,
    latch: FetchLatch,
}

/// Identity and icon are untouched by a transition.
pub open spec fn same_item(pre: State, post: State) -> bool {
    &&& post.spec_service() == pre.spec_service()
    &&& post.spec_menu_path() == pre.spec_menu_path()
    &&& post.spec_icon() == pre.spec_icon()
}

/// The transition on a layout-updated signal: the latch advances by
/// [`signal_step`], a fetch starts exactly when the latch was idle, and
/// nothing else moves.
pub open spec fn signal_transition(pre: State, post: State, act: Action) -> bool {
    &&& post.spec_latch() == signal_step(pre.spec_latch()).0
    &&& act == (if signal_step(pre.spec_latch()).1 {
        Action::Fetch
    } else {
        Action::Idle
    })
    &&& same_item(pre, post)
    &&& post.spec_layout() == pre.spec_layout()
    &&& post.spec_expanded() == pre.spec_expanded()
}

/// The transition on a completed fetch: a well-formed tree replaces the
/// layout; a malformed tree or a failed fetch keeps the previous layout
/// and surfaces the error.  The latch advances by [`complete_step`] and
/// the owed coalesced fetch, if any, starts now.
pub open spec fn layout_transition(
    pre: State,
    res: Result<RawNode, Error>,
    post: State,
    act: Action,
    err: Option<Error>,
) -> bool {
    &&& post.spec_latch() == complete_step(pre.spec_latch()).0
    &&& act == (if complete_step(pre.spec_latch()).1 {
        Action::Fetch
    } else {
        Action::Idle
    })
    &&& match res {
        Ok(raw) => {
            if malformed_tree(raw) {
                &&& post.spec_layout() == pre.spec_layout()
                &&& err == Some(Error::MalformedSignalArgs)
            } else {
                &&& match post.spec_layout() {
                    Some(m) => parses_to(raw, m),
                    None => false,
                }
                &&& err is None
            }
        },
        Err(e) => post.spec_layout() == pre.spec_layout() && err == Some(e),
    }
    &&& same_item(pre, post)
    &&& post.spec_expanded() == pre.spec_expanded()
}

/// The transition on a click: exactly one clicked event call goes out,
/// whatever came of earlier calls, and a submenu header click toggles
/// the expansion.  Nothing else moves.
pub open spec fn click_transition(
    pre: State,
    id: i32,
    is_submenu: bool,
    post: State,
    act: Action,
) -> bool {
    &&& act == (Action::SendClick { id })
    &&& post.spec_latch() == pre.spec_latch()
    &&& post.spec_layout() == pre.spec_layout()
    &&& post.spec_expanded() == (if is_submenu {
        toggle_expanded(pre.spec_expanded(), id)
    } else {
        pre.spec_expanded()
    })
    &&& same_item(pre, post)
}

impl State {
    /// The service name of the item.
    pub closed spec fn spec_service(&self) -> Seq<char> {
        self.item.service@
    }

    /// The object path of the item's menu.
    pub closed spec fn spec_menu_path(&self) -> Seq<char> {
        self.item.menu_path@
    }

    /// The icon name of the item.
    pub closed spec fn spec_icon(&self) -> Seq<char> {
        self.icon@
    }

    /// The cached layout tree, if any.
    pub closed spec fn spec_layout(&self) -> Option<MenuItem> {
        self.layout.spec_current()
    }

    /// The currently expanded submenu id, if any.
    pub closed spec fn spec_expanded(&self) -> Option<i32> {
        self.expanded
    }

    /// The fetch latch.
    pub closed spec fn spec_latch(&self) -> FetchLatch {
        self.latch
    }

    /// A fresh client for one item: no layout yet, nothing expanded, and
    /// the initial layout fetch already in flight — the caller starts it.
    pub fn new(item: Identity, icon: String) -> (r: (State, Action))
        ensures
            r.0.spec_service() == item.service@,
            r.0.spec_menu_path() == item.menu_path@,
            r.0.spec_icon() == icon@,
            r.0.spec_layout() is None,
            r.0.spec_expanded() is None,
            r.0.spec_latch() == (FetchLatch { in_flight: true, pending: false }),
            r.1 == Action::Fetch,
    {
        let state = State {
            item,
            icon,
            layout: LayoutCache::new(),
            expanded: None,
            latch: FetchLatch { in_flight: true, pending: false },
        };
        (state, Action::Fetch)
    }

    /// The service name, as text.
    pub fn name(&self) -> (r: &str)
        ensures
            r@ == self.spec_service(),
    {
        self.item.service.as_str()
    }

    /// The icon name, as text.
    pub fn icon_name(&self) -> (r: &str)
        ensures
            r@ == self.spec_icon(),
    {
        self.icon.as_str()
    }

    /// Stores a new icon name reported for the item.
    pub fn update_icon(&mut self, icon: String)
        ensures
            final(self).spec_icon() == icon@,
            final(self).spec_service() == old(self).spec_service(),
            final(self).spec_menu_path() == old(self).spec_menu_path(),
            final(self).spec_layout() == old(self).spec_layout(),
            final(self).spec_expanded() == old(self).spec_expanded(),
            final(self).spec_latch() == old(self).spec_latch(),
    {
        self.icon = icon;
    }

    /// Feeds in a layout-updated signal from the item's menu object.
    /// Starts a fetch only when none is outstanding; otherwise coalesces.
    pub fn on_layout_updated(&mut self) -> (act: Action)
        ensures
            signal_transition(*old(self), *final(self), act),
    {
        if !self.latch.in_flight {
            self.latch = FetchLatch { in_flight: true, pending: self.latch.pending };
            Action::Fetch
        } else {
            self.latch = FetchLatch { in_flight: true, pending: true };
            Action::Idle
        }
    }

    /// Feeds in one message: a completed fetch or a click.
    ///
    /// A completed fetch replaces the layout when its tree parses; a
    /// malformed tree or a failed fetch keeps the previous layout and
    /// comes back as the error for the caller to log or surface.  Either
    /// way, an owed coalesced fetch starts now.
    ///
    /// A click always issues exactly one clicked event call — no retry,
    /// no dependence on earlier outcomes — and a click on a submenu
    /// header toggles the expansion.
    pub fn update(&mut self, msg: Msg) -> (r: (Action, Option<Error>))
        ensures
            match msg {
                Msg::Layout(res) => layout_transition(*old(self), res, *final(self), r.0, r.1),
                Msg::Click(id, is_submenu) => click_transition(
                    *old(self),
                    id,
                    is_submenu,
                    *final(self),
                    r.0,
                ) && r.1 is None,
            },
    {
        match msg {
            Msg::Layout(res) => {
                let err = match res {
                    Ok(raw) => match parse_node(&raw) {
                        Ok(tree) => {
                            self.layout.set_layout(tree);
                            None
                        },
                        Err(e) => Some(e),
                    },
                    Err(e) => Some(e),
                };
                let act = if self.latch.pending {
                    self.latch = FetchLatch { in_flight: true, pending: false };
                    Action::Fetch
                } else {
                    self.latch = FetchLatch { in_flight: false, pending: false };
                    Action::Idle
                };
                (act, err)
            },
            Msg::Click(id, is_submenu) => {
                if is_submenu {
                    let same = match self.expanded {
                        Some(e) => e == id,
                        None => false,
                    };
                    self.expanded = if same {
                        None
                    } else {
                        Some(id)
                    };
                }
                (Action::SendClick { id }, None)
            },
        }
    }

    /// The last successfully fetched layout tree, if any.
    pub fn layout(&self) -> (r: &Option<MenuItem>)
        ensures
            *r == self.spec_layout(),
    {
        self.layout.current()
    }

    /// The render plan of the item's menu: what the cached layout shows
    /// under the current expansion, or nothing while no layout is known
    /// (a placeholder menu rather than a vanished item).
    pub fn popup_view(&self) -> (r: Vec<RenderEntry>)
        ensures
            match self.spec_layout() {
                Some(t) => plan_view(r@) == spec_render(t, self.spec_expanded()),
                None => r@.len() == 0,
            },
    {
        match self.layout.current() {
            Some(t) => render_plan(t, self.expanded),
            None => Vec::new(),
        }
    }
}

} // verus!
