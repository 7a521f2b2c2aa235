//! Ownership of a well-known bus name.
//!
//! [`BusNameOwner`] claims a well-known name and tracks whether this
//! process currently owns it.  The machine is driven by two kinds of
//! input: the reply to the request-name call, and name-owner-changed
//! signals.  Each call returns the states to report on the ownership
//! stream (one per transition, in order) and the bus action to perform.
//!
//! The transition rules:
//! - `Unowned -> Requesting` when the name is claimed;
//! - `Requesting -> Owned` when the request succeeds at once, or a later
//!   owner-changed event names this connection as the new owner;
//! - `Requesting -> Requesting` (still queued) when the reply says the
//!   name is held by another peer;
//! - `Requesting -> Unowned` when the request call itself fails;
//! - `Owned -> Lost` when an owner-changed event reports another owner,
//!   or no owner at all;
//! - `Lost/Unowned -> Requesting` (with a fresh request) whenever an
//!   owner-changed event reports the name became ownerless.
//!
//! Any other combination of state and event changes nothing and reports
//! nothing.

use vstd::prelude::*;

use crate::bus_name::BusName;

verus! {

/// Whether this process holds the well-known name.
#[derive(Clone, Copy, Debug, PartialEq, Eq, Structural)]
pub enum OwnershipState {
    Unowned,
    Requesting,
    Owned,
    Lost,
}

/// The reply of the bus to a request-name call.
#[derive(Clone, Copy, Debug, PartialEq, Eq, Structural)]
pub enum RequestReply {
    /// This connection became the primary owner.
    PrimaryOwner,
    /// Another peer owns the name; this connection is queued behind it.
    InQueue,
    /// Another peer owns the name and this connection was not queued.
    Exists,
    /// This connection already owned the name.
    AlreadyOwner,
}

/// What the bus loop must do after feeding an event in.
#[derive(Clone, Copy, Debug, PartialEq, Eq, Structural)]
pub enum OwnerAction {
    /// Nothing to do; keep listening.
    Idle,
    /// Issue a request-name call for the well-known name.
    IssueRequest,
}

/// A name-owner-changed signal, reduced to plain values: the name it is
/// about and the unique connection name of the new owner, if any.
pub struct OwnerChange {
    pub name: String,
    pub new_owner: Option<String>,
}

/// Claims one well-known name for one connection and follows its fate.
pub struct BusNameOwner {
    name: BusName,
    conn: String,
    state: OwnershipState,
}

/// Result of the claim call: next state, reported states, action.
pub open spec fn claim_step(s: OwnershipState) -> (OwnershipState, Seq<OwnershipState>, OwnerAction) {
    if s == OwnershipState::Unowned {
        (OwnershipState::Requesting, seq![OwnershipState::Requesting], OwnerAction::IssueRequest)
    } else {
        (s, Seq::empty(), OwnerAction::Idle)
    }
}

/// Result of a request-name reply: next state and reported states.
pub open spec fn reply_step(s: OwnershipState, r: RequestReply) -> (OwnershipState, Seq<OwnershipState>) {
    if s == OwnershipState::Requesting {
        match r {
            RequestReply::PrimaryOwner | RequestReply::AlreadyOwner => (
                OwnershipState::Owned,
                seq![OwnershipState::Owned],
            ),
            RequestReply::InQueue | RequestReply::Exists => (
                OwnershipState::Requesting,
                seq![OwnershipState::Requesting],
            ),
        }
    } else {
        (s, Seq::empty())
    }
}

/// Result of a failed request-name call: next state and reported states.
pub open spec fn reply_failed_step(s: OwnershipState) -> (OwnershipState, Seq<OwnershipState>) {
    if s == OwnershipState::Requesting {
        (OwnershipState::Unowned, seq![OwnershipState::Unowned])
    } else {
        (s, Seq::empty())
    }
}

/// Result of an owner-changed signal, reduced to three facts: whether it
/// is about our name, whether the new owner is this connection, and
/// whether the name became ownerless.
pub open spec fn owner_changed_step(
    s: OwnershipState,
    relevant: bool,
    new_is_us: bool,
    ownerless: bool,
) -> (OwnershipState, Seq<OwnershipState>, OwnerAction) {
    if !relevant {
        (s, Seq::empty(), OwnerAction::Idle)
    } else if new_is_us {
        if s == OwnershipState::Requesting {
            (OwnershipState::Owned, seq![OwnershipState::Owned], OwnerAction::Idle)
        } else {
            (s, Seq::empty(), OwnerAction::Idle)
        }
    } else if ownerless {
        match s {
            OwnershipState::Owned => (
                OwnershipState::Requesting,
                seq![OwnershipState::Lost, OwnershipState::Requesting],
                OwnerAction::IssueRequest,
            ),
            OwnershipState::Lost | OwnershipState::Unowned => (
                OwnershipState::Requesting,
                seq![OwnershipState::Requesting],
                OwnerAction::IssueRequest,
            ),
            OwnershipState::Requesting => (s, Seq::empty(), OwnerAction::Idle),
        }
    } else {
        if s == OwnershipState::Owned {
            (OwnershipState::Lost, seq![OwnershipState::Lost], OwnerAction::Idle)
        } else {
            (s, Seq::empty(), OwnerAction::Idle)
        }
    }
}

/// One input to the ownership machine, reduced to plain facts.
pub enum OwnerEvent {
    /// The name is claimed.
    Claim,
    /// The request-name call was answered.
    Reply(RequestReply),
    /// The request-name call itself failed.
    ReplyFailed,
    /// An owner-changed signal, reduced as in
    /// [`BusNameOwner::on_owner_changed`].
    Changed { relevant: bool, new_is_us: bool, ownerless: bool },
}

/// The state after feeding one event into state `s`.
pub open spec fn event_next(s: OwnershipState, e: OwnerEvent) -> OwnershipState {
    match e {
        OwnerEvent::Claim => claim_step(s).0,
        OwnerEvent::Reply(rep) => reply_step(s, rep).0,
        OwnerEvent::ReplyFailed => reply_failed_step(s).0,
        OwnerEvent::Changed { relevant, new_is_us, ownerless } => owner_changed_step(
            s,
            relevant,
            new_is_us,
            ownerless,
        ).0,
    }
}

/// The states reported when one event is fed into state `s`.
pub open spec fn event_reports(s: OwnershipState, e: OwnerEvent) -> Seq<OwnershipState> {
    match e {
        OwnerEvent::Claim => claim_step(s).1,
        OwnerEvent::Reply(rep) => reply_step(s, rep).1,
        OwnerEvent::ReplyFailed => reply_failed_step(s).1,
        OwnerEvent::Changed { relevant, new_is_us, ownerless } => owner_changed_step(
            s,
            relevant,
            new_is_us,
            ownerless,
        ).1,
    }
}

/// The state after feeding a whole sequence of events into state `s0`.
pub open spec fn state_after(s0: OwnershipState, es: Seq<OwnerEvent>) -> OwnershipState
    decreases es.len(),
{
    if es.len() == 0 {
        s0
    } else {
        event_next(state_after(s0, es.drop_last()), es.last())
    }
}

/// Everything reported on the ownership stream when a whole sequence of
/// events is fed into state `s0`, in order.
pub open spec fn reports_of(s0: OwnershipState, es: Seq<OwnerEvent>) -> Seq<OwnershipState>
    decreases es.len(),
{
    if es.len() == 0 {
        Seq::empty()
    } else {
        reports_of(s0, es.drop_last()) + event_reports(state_after(s0, es.drop_last()), es.last())
    }
}

/// No position of the stream reports `Owned` directly after `Owned`.
pub open spec fn no_adjacent_owned(rep: Seq<OwnershipState>) -> bool {
    forall|i: int|
        0 <= i && i + 1 < rep.len() ==> !((#[trigger] rep[i]) == OwnershipState::Owned && rep[i
            + 1] == OwnershipState::Owned)
}

/// Shape of a single step's reports: at most two states come out, the
/// last one reported is the state the machine is now in, a silent step
/// does not move, `Owned` is only ever reported from `Requesting`, and
/// the only two-state report is `Lost` then `Requesting`.
proof fn lemma_step_shape(s: OwnershipState, e: OwnerEvent)
    ensures
        event_reports(s, e).len() <= 2,
        event_reports(s, e).len() > 0 ==> event_reports(s, e).last() == event_next(s, e),
        event_reports(s, e).len() == 0 ==> event_next(s, e) == s,
        forall|k: int|
            0 <= k < event_reports(s, e).len() && (#[trigger] event_reports(s, e)[k])
                == OwnershipState::Owned ==> s == OwnershipState::Requesting,
        event_reports(s, e).len() == 2 ==> event_reports(s, e)[0] == OwnershipState::Lost
            && event_reports(s, e)[1] == OwnershipState::Requesting,
{
}

/// Whenever the stream is nonempty, its last report is the state the
/// machine is in now.
proof fn lemma_last_report_is_state(s0: OwnershipState, es: Seq<OwnerEvent>)
    ensures
        reports_of(s0, es).len() > 0 ==> reports_of(s0, es).last() == state_after(s0, es),
        reports_of(s0, es).len() == 0 ==> state_after(s0, es) == s0,
    decreases es.len(),
{
    if es.len() > 0 {
        lemma_last_report_is_state(s0, es.drop_last());
        lemma_step_shape(state_after(s0, es.drop_last()), es.last());
    }
}

/// The ownership stream never reports `Owned` immediately followed by
/// `Owned`: between two acquisitions there is always an intervening
/// `Lost`, `Requesting` or `Unowned` report.  This holds for every
/// starting state and every sequence of events.
pub proof fn lemma_no_duplicate_owned(s0: OwnershipState, es: Seq<OwnerEvent>)
    ensures
        no_adjacent_owned(reports_of(s0, es)),
    decreases es.len(),
{
    if es.len() > 0 {
        let prefix = es.drop_last();
        let mid = state_after(s0, prefix);
        lemma_no_duplicate_owned(s0, prefix);
        lemma_last_report_is_state(s0, prefix);
        lemma_step_shape(mid, es.last());
        let pre = reports_of(s0, prefix);
        let rep = event_reports(mid, es.last());
        assert(reports_of(s0, es) == pre + rep);
        assert forall|i: int|
            0 <= i && i + 1 < (pre + rep).len() implies !((#[trigger] (pre + rep)[i])
            == OwnershipState::Owned && (pre + rep)[i + 1] == OwnershipState::Owned) by {
            if i + 1 < pre.len() {
                assert((pre + rep)[i] == pre[i]);
                assert((pre + rep)[i + 1] == pre[i + 1]);
            } else if i + 1 == pre.len() {
                assert((pre + rep)[i] == pre[i]);
                assert((pre + rep)[i + 1] == rep[0]);
            } else {
                assert((pre + rep)[i] == rep[i - pre.len()]);
                assert((pre + rep)[i + 1] == rep[i + 1 - pre.len()]);
            }
        }
    }
}

impl BusNameOwner {
    /// The well-known name this owner claims.
    pub closed spec fn spec_name(&self) -> Seq<char> {
        self.name@
    }

    /// The unique name of this process's connection.
    pub closed spec fn spec_conn(&self) -> Seq<char> {
        self.conn@
    }

    /// The current ownership state.
    pub closed spec fn spec_state(&self) -> OwnershipState {
        self.state
    }

    /// A fresh owner that has not yet claimed anything.
    pub fn new(name: BusName, conn: String) -> (r: Self)
        ensures
            r.spec_state() == OwnershipState::Unowned,
            r.spec_name() == name@,
            r.spec_conn() == conn@,
    {
        BusNameOwner { name, conn, state: OwnershipState::Unowned }
    }

    /// The current ownership state, for rendering or logging.
    pub fn state(&self) -> (r: OwnershipState)
        ensures
            r == self.spec_state(),
    {
        self.state
    }

    /// Starts claiming the name.  From `Unowned` this moves to
    /// `Requesting` and asks the caller to issue the request-name call;
    /// from any other state it changes nothing.
    pub fn claim(&mut self) -> (r: (Vec<OwnershipState>, OwnerAction))
        ensures
            final(self).spec_state() == claim_step(old(self).spec_state()).0,
            r.0@ == claim_step(old(self).spec_state()).1,
            r.1 == claim_step(old(self).spec_state()).2,
            final(self).spec_name() == old(self).spec_name(),
            final(self).spec_conn() == old(self).spec_conn(),
    {
        let mut reported: Vec<OwnershipState> = Vec::new();
        if matches!(self.state, OwnershipState::Unowned) {
            self.state = OwnershipState::Requesting;
            reported.push(OwnershipState::Requesting);
            proof {
                assert(reported@ =~= claim_step(old(self).spec_state()).1);
            }
            (reported, OwnerAction::IssueRequest)
        } else {
            proof {
                assert(reported@ =~= claim_step(old(self).spec_state()).1);
            }
            (reported, OwnerAction::Idle)
        }
    }

    /// Feeds in the reply of the request-name call.
    pub fn on_request_reply(&mut self, reply: RequestReply) -> (r: Vec<OwnershipState>)
        ensures
            final(self).spec_state() == reply_step(old(self).spec_state(), reply).0,
            r@ == reply_step(old(self).spec_state(), reply).1,
            final(self).spec_name() == old(self).spec_name(),
            final(self).spec_conn() == old(self).spec_conn(),
    {
        let mut reported: Vec<OwnershipState> = Vec::new();
        if matches!(self.state, OwnershipState::Requesting) {
            match reply {
                RequestReply::PrimaryOwner | RequestReply::AlreadyOwner => {
                    self.state = OwnershipState::Owned;
                    reported.push(OwnershipState::Owned);
                },
                RequestReply::InQueue | RequestReply::Exists => {
                    reported.push(OwnershipState::Requesting);
                },
            }
        }
        proof {
            assert(reported@ =~= reply_step(old(self).spec_state(), reply).1);
        }
        reported
    }

    /// Feeds in the failure of the request-name call itself.  The name is
    /// treated as remaining unowned; a later owner-changed event that
    /// reports the name ownerless will retry.
    pub fn on_request_failed(&mut self) -> (r: Vec<OwnershipState>)
        ensures
            final(self).spec_state() == reply_failed_step(old(self).spec_state()).0,
            r@ == reply_failed_step(old(self).spec_state()).1,
            final(self).spec_name() == old(self).spec_name(),
            final(self).spec_conn() == old(self).spec_conn(),
    {
        let mut reported: Vec<OwnershipState> = Vec::new();
        if matches!(self.state, OwnershipState::Requesting) {
            self.state = OwnershipState::Unowned;
            reported.push(OwnershipState::Unowned);
        }
        proof {
            assert(reported@ =~= reply_failed_step(old(self).spec_state()).1);
        }
        reported
    }

    /// Feeds in a name-owner-changed signal.
    pub fn on_owner_changed(&mut self, ev: &OwnerChange) -> (r: (Vec<OwnershipState>, OwnerAction))
        ensures
            ({
                let relevant = ev.name@ == old(self).spec_name();
                let new_is_us = match ev.new_owner {
                    Some(o) => o@ == old(self).spec_conn(),
                    None => false,
                };
                let ownerless = ev.new_owner is None;
                let step = owner_changed_step(old(self).spec_state(), relevant, new_is_us, ownerless);
                &&& final(self).spec_state() == step.0
                &&& r.0@ == step.1
                &&& r.1 == step.2
                &&& final(self).spec_name() == old(self).spec_name()
                &&& final(self).spec_conn() == old(self).spec_conn()
            }),
    {
        let ghost step = owner_changed_step(
            old(self).spec_state(),
            ev.name@ == old(self).spec_name(),
            match &ev.new_owner {
                Some(o) => o@ == old(self).spec_conn(),
                None => false,
            },
            ev.new_owner is None,
        );
        let mut reported: Vec<OwnershipState> = Vec::new();
        let relevant = ev.name == self.name.to_text();
        if !relevant {
            proof {
                assert(reported@ =~= step.1);
            }
            return (reported, OwnerAction::Idle);
        }
        let new_is_us = match &ev.new_owner {
            Some(o) => *o == self.conn,
            None => false,
        };
        let ownerless = ev.new_owner.is_none();
        if new_is_us {
            if matches!(self.state, OwnershipState::Requesting) {
                self.state = OwnershipState::Owned;
                reported.push(OwnershipState::Owned);
            }
            proof {
                assert(reported@ =~= step.1);
            }
            (reported, OwnerAction::Idle)
        } else if ownerless {
            match self.state {
                OwnershipState::Owned => {
                    self.state = OwnershipState::Requesting;
                    reported.push(OwnershipState::Lost);
                    reported.push(OwnershipState::Requesting);
                    proof {
                        assert(reported@ =~= step.1);
                    }
                    (reported, OwnerAction::IssueRequest)
                },
                OwnershipState::Lost | OwnershipState::Unowned => {
                    self.state = OwnershipState::Requesting;
                    reported.push(OwnershipState::Requesting);
                    proof {
                        assert(reported@ =~= step.1);
                    }
                    (reported, OwnerAction::IssueRequest)
                },
                OwnershipState::Requesting => {
                    proof {
                        assert(reported@ =~= step.1);
                    }
                    (reported, OwnerAction::Idle)
                },
            }
        } else {
            if matches!(self.state, OwnershipState::Owned) {
                self.state = OwnershipState::Lost;
                reported.push(OwnershipState::Lost);
            }
            proof {
                assert(reported@ =~= step.1);
            }
            (reported, OwnerAction::Idle)
        }
    }
}

} // verus!
