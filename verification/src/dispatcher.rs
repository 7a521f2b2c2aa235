//! Routing between the bus loop and the per-item clients.
//!
//! The dispatcher owns one [`State`] per live tray item, keyed by the
//! stable identity assigned at registration: the item's service name.
//! No two live clients share an identity.  Clicks from the shell and
//! per-item signals from the bus are routed to the right client; what
//! arrives for an identity that is no longer registered is discarded,
//! so a fetch that completes after its item unregistered cannot
//! resurrect the removed entry.

use vstd::prelude::*;

use crate::error::Error;
use crate::menu::RawNode;
use crate::status_menu::{
    click_transition, layout_transition, signal_transition, Action, Identity, Msg, State,
};

verus! {

/// One client per live tray item, keyed by service name.
#[derive(Debug)]
pub struct Dispatcher {
    clients: Vec<State>,
}

impl View for Dispatcher {
    type V = Seq<State>;

    closed spec fn view(&self) -> Seq<State> {
        self.clients@
    }
}

impl Dispatcher {
    /// The identities of the live clients, in registration order.
    pub open spec fn services(&self) -> Seq<Seq<char>> {
        self@.map_values(|c: State| c.spec_service())
    }

    /// Whether a live client carries this identity.
    pub open spec fn has_item(&self, service: Seq<char>) -> bool {
        self.services().contains(service)
    }

    /// Identities are pairwise distinct.
    pub open spec fn well_formed(&self) -> bool {
        forall|i: int, j: int|
            0 <= i < j < self.services().len() ==> self.services()[i] != self.services()[j]
    }

    /// A dispatcher with no clients.
    pub fn new() -> (r: Self)
        ensures
            r.well_formed(),
            r@ == Seq::<State>::empty(),
    {
        Dispatcher { clients: Vec::new() }
    }

    /// The index of the client with this identity, if any.
    fn find(&self, service: &String) -> (r: Option<usize>)
        ensures
            match r {
                Some(i) => i < self@.len() && self@[i as int].spec_service() == service@,
                None => !self.has_item(service@),
            },
    {
        let n = self.clients.len();
        let mut i: usize = 0;
        while i < n
            invariant
                i <= n,
                n == self@.len(),
                forall|k: int| 0 <= k < i ==> (#[trigger] self@[k]).spec_service() != service@,
            decreases n - i,
        {
            if self.clients[i].name().to_owned() == *service {
                return Some(i);
            }
            i += 1;
        }
        proof {
            assert forall|k: int| 0 <= k < self.services().len() implies self.services()[k]
                != service@ by {
                assert(self@[k].spec_service() != service@);
            }
        }
        None
    }

    /// Adds a client for a newly registered item and starts its initial
    /// layout fetch.  An identity already present is left alone: no
    /// second client, no fetch.
    pub fn add_item(&mut self, item: Identity, icon: String) -> (act: Action)
        requires
            old(self).well_formed(),
        ensures
            final(self).well_formed(),
            old(self).has_item(item.service@) ==> final(self)@ == old(self)@ && act == Action::Idle,
            !old(self).has_item(item.service@) ==> {
                &&& final(self)@.len() == old(self)@.len() + 1
                &&& final(self)@.take(old(self)@.len() as int) == old(self)@
                &&& final(self)@.last().spec_service() == item.service@
                &&& final(self)@.last().spec_menu_path() == item.menu_path@
                &&& final(self)@.last().spec_icon() == icon@
                &&& final(self)@.last().spec_layout() is None
                &&& final(self)@.last().spec_expanded() is None
                &&& act == Action::Fetch
            },
    {
        let ghost service_view = item.service@;
        match self.find(&item.service) {
            Some(i) => {
                proof {
                    assert(self.services()[i as int] == service_view);
                    assert(self.has_item(service_view));
                }
                Action::Idle
            },
            None => {
                let (state, act) = State::new(item, icon);
                self.clients.push(state);
                proof {
                    assert(self@.take(old(self)@.len() as int) =~= old(self)@);
                    assert(self.services() =~= old(self).services().push(service_view));
                    assert forall|i: int, j: int|
                        0 <= i < j < self.services().len() implies self.services()[i]
                        != self.services()[j] by {
                        if j < old(self).services().len() {
                            assert(old(self).services()[i] != old(self).services()[j]);
                        } else {
                            assert(self.services()[i] == old(self).services()[i]);
                            if old(self).services().contains(service_view) {
                                assert(old(self).has_item(service_view));
                            }
                            assert(old(self).services()[i] != service_view) by {
                                if old(self).services()[i] == service_view {
                                    assert(old(self).services().contains(service_view));
                                }
                            }
                        }
                    }
                }
                act
            },
        }
    }

    /// Removes the client of an unregistered item, dropping its whole
    /// state.  An unknown identity is a silent no-op.
    pub fn remove_item(&mut self, service: &String) -> (removed: bool)
        requires
            old(self).well_formed(),
        ensures
            final(self).well_formed(),
            removed == old(self).has_item(service@),
            !final(self).has_item(service@),
            !removed ==> final(self)@ == old(self)@,
            removed ==> exists|i: int|
                0 <= i < old(self)@.len() && (#[trigger] old(self)@[i]).spec_service() == service@
                    && final(self)@ == old(self)@.remove(i),
    {
        match self.find(service) {
            Some(i) => {
                let _ = self.clients.remove(i);
                proof {
                    let pre = old(self).services();
                    assert(self.services() =~= pre.remove(i as int));
                    assert forall|a: int, b: int|
                        0 <= a < b < self.services().len() implies self.services()[a]
                        != self.services()[b] by {
                        let a0: int = if a < i { a } else { a + 1 };
                        let b0: int = if b < i { b } else { b + 1 };
                        assert(self.services()[a] == pre[a0]);
                        assert(self.services()[b] == pre[b0]);
                    }
                    assert forall|k: int| 0 <= k < self.services().len() implies self.services()[k]
                        != service@ by {
                        let k0: int = if k < i { k } else { k + 1 };
                        assert(self.services()[k] == pre[k0]);
                        assert(pre[i as int] == service@);
                        if pre[k0] == service@ {
                            if k0 < i {
                                assert(pre[k0] != pre[i as int]);
                            } else {
                                assert(pre[i as int] != pre[k0]);
                            }
                        }
                    }
                    assert(old(self).has_item(service@)) by {
                        assert(pre[i as int] == service@);
                    }
                }
                true
            },
            None => false,
        }
    }

    /// Routes a layout-updated signal to the client of `service`.  A
    /// signal for an unknown identity is dropped.
    pub fn handle_layout_signal(&mut self, service: &String) -> (act: Action)
        requires
            old(self).well_formed(),
        ensures
            final(self).well_formed(),
            !old(self).has_item(service@) ==> final(self)@ == old(self)@ && act == Action::Idle,
            old(self).has_item(service@) ==> exists|i: int|
                0 <= i < old(self)@.len() && (#[trigger] old(self)@[i]).spec_service() == service@
                    && final(self)@ == old(self)@.update(i, final(self)@[i])
                    && signal_transition(old(self)@[i], final(self)@[i], act),
    {
        match self.find(service) {
            Some(i) => {
                let client = &mut self.clients[i];
                let act = client.on_layout_updated();
                proof {
                    assert(old(self).services()[i as int] == service@);
                    assert(old(self).has_item(service@));
                    assert(self@ =~= old(self)@.update(i as int, self@[i as int]));
                    assert(self.services() =~= old(self).services());
                }
                act
            },
            None => Action::Idle,
        }
    }

    /// Routes a completed layout fetch to the client of `service`.  A
    /// result for an identity that unregistered in the meantime is
    /// discarded: the dispatcher is unchanged and the identity does not
    /// reappear.
    pub fn handle_fetch_result(&mut self, service: &String, res: Result<RawNode, Error>) -> (r: (
        Action,
        Option<Error>,
    ))
        requires
            old(self).well_formed(),
        ensures
            final(self).well_formed(),
            !old(self).has_item(service@) ==> final(self)@ == old(self)@ && r.0 == Action::Idle
                && r.1 is None,
            old(self).has_item(service@) ==> exists|i: int|
                0 <= i < old(self)@.len() && (#[trigger] old(self)@[i]).spec_service() == service@
                    && final(self)@ == old(self)@.update(i, final(self)@[i])
                    && layout_transition(old(self)@[i], res, final(self)@[i], r.0, r.1),
    {
        match self.find(service) {
            Some(i) => {
                let client = &mut self.clients[i];
                let r = client.update(Msg::Layout(res));
                proof {
                    assert(old(self).services()[i as int] == service@);
                    assert(old(self).has_item(service@));
                    assert(self@ =~= old(self)@.update(i as int, self@[i as int]));
                    assert(self.services() =~= old(self).services());
                }
                r
            },
            None => (Action::Idle, None),
        }
    }

    /// Routes a click from the shell to the client of `service`.  A
    /// click on an unknown identity does nothing.
    pub fn handle_click(&mut self, service: &String, id: i32, is_submenu: bool) -> (act: Action)
        requires
            old(self).well_formed(),
        ensures
            final(self).well_formed(),
            !old(self).has_item(service@) ==> final(self)@ == old(self)@ && act == Action::Idle,
            old(self).has_item(service@) ==> exists|i: int|
                0 <= i < old(self)@.len() && (#[trigger] old(self)@[i]).spec_service() == service@
                    && final(self)@ == old(self)@.update(i, final(self)@[i])
                    && click_transition(old(self)@[i], id, is_submenu, final(self)@[i], act),
    {
        match self.find(service) {
            Some(i) => {
                let client = &mut self.clients[i];
                let (act, _) = client.update(Msg::Click(id, is_submenu));
                proof {
                    assert(old(self).services()[i as int] == service@);
                    assert(old(self).has_item(service@));
                    assert(self@ =~= old(self)@.update(i as int, self@[i as int]));
                    assert(self.services() =~= old(self).services());
                }
                act
            },
            None => Action::Idle,
        }
    }

    /// A reference to the client at `index`, for rendering.
    pub fn client_at(&self, index: usize) -> (r: &State)
        requires
            index < self@.len(),
        ensures
            *r == self@[index as int],
    {
        &self.clients[index]
    }

    /// How many clients are live.
    pub fn len(&self) -> (r: usize)
        ensures
            r == self@.len(),
    {
        self.clients.len()
    }
}

} // verus!
