//! The watcher registry: the process-wide directory of registered tray
//! item service names.
//!
//! Registration is idempotent per service name: a second register of the
//! same name changes nothing and emits nothing, and unregistering an
//! absent name is a silent no-op.  Every successful change returns the
//! event to hand to in-process subscribers and to broadcast on the bus.
//! When the bus reports that the connection owning a registered name
//! disappeared, [`WatcherRegistry::peer_vanished`] synthesizes the same
//! removal; that is the only implicit cleanup.

use vstd::prelude::*;

verus! {

/// One registered tray item: its service name and, optionally, the
/// object path it was registered under.
#[derive(Debug)]
pub struct RegisteredItem {
    pub service: String,
    pub object_path: Option<String>,
}

/// An add or remove event, handed to subscribers and broadcast as the
/// item-registered / item-unregistered signal.
#[derive(Debug)]
pub enum RegistryEvent {
    Registered(RegisteredItem),
    Unregistered(RegisteredItem),
}

/// The registry itself: an ordered list of items with pairwise distinct
/// service names.
#[derive(Debug)]
pub struct WatcherRegistry {
    items: Vec<RegisteredItem>,
}

impl View for WatcherRegistry {
    type V = Seq<RegisteredItem>;

    closed spec fn view(&self) -> Seq<RegisteredItem> {
        self.items@
    }
}

/// One bus-facing call to the registry, reduced to the service name it
/// names.
pub enum RegistryCall {
    Register(Seq<char>),
    Unregister(Seq<char>),
}

/// The visible item set after one call: register inserts the name,
/// unregister removes it; both are no-ops when already satisfied.
pub open spec fn apply_call(s: Set<Seq<char>>, c: RegistryCall) -> Set<Seq<char>> {
    match c {
        RegistryCall::Register(n) => s.insert(n),
        RegistryCall::Unregister(n) => s.remove(n),
    }
}

/// The visible item set after a whole sequence of calls.
pub open spec fn apply_calls(s: Set<Seq<char>>, cs: Seq<RegistryCall>) -> Set<Seq<char>>
    decreases cs.len(),
{
    if cs.len() == 0 {
        s
    } else {
        apply_call(apply_calls(s, cs.drop_last()), cs.last())
    }
}

/// A name has a net-positive registration in `cs`: some register of it
/// is not followed by any later unregister of it.
pub open spec fn net_registered(cs: Seq<RegistryCall>, n: Seq<char>) -> bool {
    exists|i: int|
        0 <= i < cs.len() && (#[trigger] cs[i]) == RegistryCall::Register(n) && (forall|j: int|
            i < j < cs.len() ==> (#[trigger] cs[j]) != RegistryCall::Unregister(n))
}

/// For every sequence of register/unregister calls starting from an
/// empty registry, the visible item set is exactly the set of names with
/// a net-positive registration: duplicate registers and unmatched
/// unregisters are no-ops.
pub proof fn lemma_visible_set_is_net_registrations(cs: Seq<RegistryCall>)
    ensures
        apply_calls(Set::empty(), cs) =~= Set::new(|n: Seq<char>| net_registered(cs, n)),
    decreases cs.len(),
{
    if cs.len() == 0 {
        assert(forall|n: Seq<char>| !net_registered(cs, n));
    } else {
        let pre = cs.drop_last();
        lemma_visible_set_is_net_registrations(pre);
        match cs.last() {
            RegistryCall::Register(m) => {
                assert forall|n: Seq<char>|
                    net_registered(cs, n) <==> (net_registered(pre, n) || n == m) by {
                    if net_registered(pre, n) {
                        let i = choose|i: int|
                            0 <= i < pre.len() && (#[trigger] pre[i]) == RegistryCall::Register(n)
                                && (forall|j: int|
                                i < j < pre.len() ==> (#[trigger] pre[j])
                                    != RegistryCall::Unregister(n));
                        assert(cs[i] == RegistryCall::Register(n));
                        assert forall|j: int| i < j < cs.len() implies (#[trigger] cs[j])
                            != RegistryCall::Unregister(n) by {
                            if j < cs.len() - 1 {
                                assert(cs[j] == pre[j]);
                                assert(pre[j] != RegistryCall::Unregister(n));
                            } else {
                                assert(cs[j] == RegistryCall::Register(m));
                            }
                        }
                        assert(net_registered(cs, n));
                    }
                    if n == m {
                        let i = cs.len() - 1;
                        assert(cs[i] == RegistryCall::Register(n));
                        assert(net_registered(cs, n));
                    }
                    if net_registered(cs, n) && n != m {
                        let i = choose|i: int|
                            0 <= i < cs.len() && (#[trigger] cs[i]) == RegistryCall::Register(n)
                                && (forall|j: int|
                                i < j < cs.len() ==> (#[trigger] cs[j])
                                    != RegistryCall::Unregister(n));
                        assert(i < cs.len() - 1);
                        assert(pre[i] == RegistryCall::Register(n));
                        assert(forall|j: int|
                            i < j < pre.len() ==> (#[trigger] pre[j])
                                != RegistryCall::Unregister(n));
                        assert(net_registered(pre, n));
                    }
                }
            },
            RegistryCall::Unregister(m) => {
                assert forall|n: Seq<char>|
                    net_registered(cs, n) <==> (net_registered(pre, n) && n != m) by {
                    if net_registered(cs, n) {
                        let i = choose|i: int|
                            0 <= i < cs.len() && (#[trigger] cs[i]) == RegistryCall::Register(n)
                                && (forall|j: int|
                                i < j < cs.len() ==> (#[trigger] cs[j])
                                    != RegistryCall::Unregister(n));
                        assert(cs[cs.len() - 1] != RegistryCall::Unregister(n));
                        assert(n != m);
                        assert(i < cs.len() - 1);
                        assert(pre[i] == RegistryCall::Register(n));
                        assert(forall|j: int|
                            i < j < pre.len() ==> (#[trigger] pre[j])
                                != RegistryCall::Unregister(n));
                        assert(net_registered(pre, n));
                    }
                    if net_registered(pre, n) && n != m {
                        let i = choose|i: int|
                            0 <= i < pre.len() && (#[trigger] pre[i]) == RegistryCall::Register(n)
                                && (forall|j: int|
                                i < j < pre.len() ==> (#[trigger] pre[j])
                                    != RegistryCall::Unregister(n));
                        assert(cs[i] == RegistryCall::Register(n));
                        assert forall|j: int| i < j < cs.len() implies (#[trigger] cs[j])
                            != RegistryCall::Unregister(n) by {
                            if j < cs.len() - 1 {
                                assert(cs[j] == pre[j]);
                                assert(pre[j] != RegistryCall::Unregister(n));
                            } else {
                                assert(cs[j] == RegistryCall::Unregister(m));
                                assert(n != m);
                            }
                        }
                        assert(net_registered(cs, n));
                    }
                }
            },
        }
    }
}

impl WatcherRegistry {
    /// The registered service names, in registration order.
    pub closed spec fn names(&self) -> Seq<Seq<char>> {
        self.items@.map_values(|it: RegisteredItem| it.service@)
    }

    /// The visible item set: the registered service names.
    pub open spec fn name_set(&self) -> Set<Seq<char>> {
        Set::new(|n: Seq<char>| self.names().contains(n))
    }

    /// Service names are pairwise distinct.
    pub open spec fn well_formed(&self) -> bool {
        forall|i: int, j: int|
            0 <= i < j < self.names().len() ==> self.names()[i] != self.names()[j]
    }

    /// An empty registry.
    pub fn new() -> (r: Self)
        ensures
            r.well_formed(),
            r.names() == Seq::<Seq<char>>::empty(),
    {
        let r = WatcherRegistry { items: Vec::new() };
        proof {
            assert(r.names() =~= Seq::<Seq<char>>::empty());
        }
        r
    }

    /// The index of `service` among the items, if present.
    fn find(&self, service: &String) -> (r: Option<usize>)
        ensures
            match r {
                Some(i) => i < self@.len() && self@[i as int].service@ == service@,
                None => !self.name_set().contains(service@),
            },
    {
        let n = self.items.len();
        let mut i: usize = 0;
        while i < n
            invariant
                i <= n,
                n == self.items@.len(),
                forall|k: int| 0 <= k < i ==> (#[trigger] self.items@[k]).service@ != service@,
            decreases n - i,
        {
            if self.items[i].service == *service {
                return Some(i);
            }
            i += 1;
        }
        proof {
            assert forall|k: int| 0 <= k < self.names().len() implies self.names()[k]
                != service@ by {
                assert(self.items@[k].service@ != service@);
            }
        }
        None
    }

    /// Handles a register call.  A new name is appended and the
    /// registered event comes back for broadcasting; a name already
    /// present changes nothing and emits nothing.  Either way the
    /// visible set afterwards is the old set plus the name.
    pub fn register(&mut self, service: String, object_path: Option<String>) -> (r: Option<
        RegistryEvent,
    >)
        requires
            old(self).well_formed(),
        ensures
            final(self).well_formed(),
            final(self).name_set() =~= apply_call(
                old(self).name_set(),
                RegistryCall::Register(service@),
            ),
            old(self).name_set().contains(service@) ==> final(self)@ == old(self)@ && r is None,
            !old(self).name_set().contains(service@) ==> {
                &&& final(self).names() == old(self).names().push(service@)
                &&& match r {
                    Some(RegistryEvent::Registered(it)) => it.service@ == service@
                        && it.object_path == object_path,
                    _ => false,
                }
            },
    {
        match self.find(&service) {
            Some(i) => {
                proof {
                    assert(self.names()[i as int] == service@);
                    assert(self.name_set().contains(service@));
                    assert(self.name_set() =~= self.name_set().insert(service@));
                }
                None
            },
            None => {
                let event_path = match &object_path {
                    Some(p) => Some(p.clone()),
                    None => None,
                };
                let item = RegisteredItem { service: service.clone(), object_path };
                let event_item = RegisteredItem { service, object_path: event_path };
                self.items.push(item);
                proof {
                    assert(self.names() =~= old(self).names().push(event_item.service@));
                    assert forall|n: Seq<char>| #[trigger]
                        self.name_set().contains(n) <==> old(self).name_set().contains(n) || n
                        == event_item.service@ by {
                        if self.names().contains(n) {
                            let k = choose|k: int|
                                0 <= k < self.names().len() && self.names()[k] == n;
                            if k < old(self).names().len() {
                                assert(old(self).names()[k] == n);
                            }
                        }
                        if old(self).names().contains(n) {
                            let k = choose|k: int|
                                0 <= k < old(self).names().len() && old(self).names()[k] == n;
                            assert(self.names()[k] == n);
                        }
                        if n == event_item.service@ {
                            assert(self.names()[self.names().len() - 1] == n);
                        }
                    }
                    assert(self.name_set() =~= old(self).name_set().insert(event_item.service@));
                    assert forall|i: int, j: int|
                        0 <= i < j < self.names().len() implies self.names()[i]
                        != self.names()[j] by {
                        if j < old(self).names().len() {
                            assert(old(self).names()[i] != old(self).names()[j]);
                        } else {
                            assert(!old(self).name_set().contains(event_item.service@));
                            assert(old(self).names()[i] != event_item.service@);
                        }
                    }
                }
                Some(RegistryEvent::Registered(event_item))
            },
        }
    }

    /// Handles an unregister call.  A present name is removed (later
    /// items keep their order) and the unregistered event comes back for
    /// broadcasting; an absent name is a silent no-op.  Either way the
    /// visible set afterwards is the old set minus the name.
    pub fn unregister(&mut self, service: &String) -> (r: Option<RegistryEvent>)
        requires
            old(self).well_formed(),
        ensures
            final(self).well_formed(),
            final(self).name_set() =~= apply_call(
                old(self).name_set(),
                RegistryCall::Unregister(service@),
            ),
            !old(self).name_set().contains(service@) ==> final(self)@ == old(self)@ && r is None,
            old(self).name_set().contains(service@) ==> exists|i: int|
                0 <= i < old(self)@.len() && (#[trigger] old(self)@[i]).service@ == service@
                    && final(self)@ == old(self)@.remove(i) && r == Some(
                    RegistryEvent::Unregistered(old(self)@[i]),
                ),
    {
        match self.find(service) {
            Some(i) => {
                let item = self.items.remove(i);
                proof {
                    let names0 = old(self).names();
                    assert(names0[i as int] == service@);
                    assert(self.names() =~= names0.remove(i as int));
                    assert forall|a: int, b: int|
                        0 <= a < b < self.names().len() implies self.names()[a]
                        != self.names()[b] by {
                        let a0: int = if a < i { a } else { a + 1 };
                        let b0: int = if b < i { b } else { b + 1 };
                        assert(self.names()[a] == names0[a0]);
                        assert(self.names()[b] == names0[b0]);
                    }
                    assert forall|n: Seq<char>| #[trigger]
                        self.name_set().contains(n) <==> (old(self).name_set().contains(n) && n
                        != service@) by {
                        if self.names().contains(n) {
                            let k = choose|k: int|
                                0 <= k < self.names().len() && self.names()[k] == n;
                            let k0: int = if k < i { k } else { k + 1 };
                            assert(names0[k0] == n);
                            if n == service@ {
                                assert(names0[k0] == names0[i as int]);
                            }
                        }
                        if old(self).name_set().contains(n) && n != service@ {
                            let k = choose|k: int| 0 <= k < names0.len() && names0[k] == n;
                            let k1: int = if k < i { k } else { k - 1 };
                            assert(self.names()[k1] == n);
                        }
                    }
                    assert(self.name_set() =~= old(self).name_set().remove(service@));
                }
                Some(RegistryEvent::Unregistered(item))
            },
            None => {
                proof {
                    assert(self.name_set() =~= self.name_set().remove(service@));
                }
                None
            },
        }
    }

    /// Cleanup when the bus reports that the connection owning
    /// `service` disappeared: removes the entry and synthesizes the same
    /// unregistered event an explicit call would have produced.
    pub fn peer_vanished(&mut self, service: &String) -> (r: Option<RegistryEvent>)
        requires
            old(self).well_formed(),
        ensures
            final(self).well_formed(),
            final(self).name_set() =~= apply_call(
                old(self).name_set(),
                RegistryCall::Unregister(service@),
            ),
            !old(self).name_set().contains(service@) ==> final(self)@ == old(self)@ && r is None,
            old(self).name_set().contains(service@) ==> exists|i: int|
                0 <= i < old(self)@.len() && (#[trigger] old(self)@[i]).service@ == service@
                    && final(self)@ == old(self)@.remove(i) && r == Some(
                    RegistryEvent::Unregistered(old(self)@[i]),
                ),
    {
        self.unregister(service)
    }

    /// The registered service names in order, for the bus property that
    /// lists the current items.
    pub fn registered_items(&self) -> (r: Vec<String>)
        ensures
            r@.len() == self.names().len(),
            forall|i: int| 0 <= i < r@.len() ==> (#[trigger] r@[i])@ == self.names()[i],
    {
        let n = self.items.len();
        let mut out: Vec<String> = Vec::new();
        let mut i: usize = 0;
        while i < n
            invariant
                i <= n,
                n == self.items@.len(),
                out@.len() == i,
                forall|k: int| 0 <= k < i ==> (#[trigger] out@[k])@ == self.names()[k],
            decreases n - i,
        {
            out.push(self.items[i].service.clone());
            i += 1;
        }
        out
    }

    /// How many items are registered.
    pub fn len(&self) -> (r: usize)
        ensures
            r == self@.len(),
    {
        self.items.len()
    }
}

} // verus!
