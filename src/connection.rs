//! The decisions of one push connection.
//!
//! The caller runs the connection: it waits for whichever comes first of a
//! hub wake-up, the probe timer, a message from the browser, or a failure,
//! hands that event to `on_event`, and performs the action it gets back.

use vstd::prelude::*;

use crate::hub::{lemma_step_wf, publish_step, take_step, unsubscribe_step, Hub, HubOp, HubView, Subscription};

verus! {

/// Seconds between two liveness probes.
pub const PROBE_INTERVAL_SECS: u64 = 30;

/// What happened on a push connection.
#[derive(Clone, Copy, Debug, PartialEq, Eq, Structural)]
pub enum ConnEvent {
    /// The hub may hold an event for this connection.
    Changed,
    /// The probe timer fired.
    ProbeDue,
    /// The browser sent a message (a liveness answer, or anything else).
    ClientMessage,
    /// Sending to the browser failed.
    SendFailed,
    /// Reading from the browser failed, or the browser closed the channel.
    ReceiveEnded,
}

/// What the caller does next on the connection.
#[derive(Clone, Copy, Debug, PartialEq, Eq, Structural)]
pub enum ConnAction {
    /// Send the reload instruction.
    SendReload,
    /// Send a liveness probe.
    SendProbe,
    /// Nothing to send; keep waiting.
    Discard,
    /// Stop: the subscription is released and the channel is to be closed.
    Close,
}

/// One decision: the hub after it, whether the connection stays open, and
/// the action. A closed connection only closes; a failure releases the
/// subscription at once.
pub open spec fn connection_step(h: HubView, open: bool, id: u64, ev: ConnEvent) -> (
    HubView,
    bool,
    ConnAction,
) {
    if !open {
        (h, false, ConnAction::Close)
    } else {
        match ev {
            ConnEvent::Changed => {
                if take_step(h, id).1 is Some {
                    (take_step(h, id).0, true, ConnAction::SendReload)
                } else {
                    (h, true, ConnAction::Discard)
                }
            },
            ConnEvent::ProbeDue => (h, true, ConnAction::SendProbe),
            ConnEvent::ClientMessage => (h, true, ConnAction::Discard),
            ConnEvent::SendFailed => (unsubscribe_step(h, id), false, ConnAction::Close),
            ConnEvent::ReceiveEnded => (unsubscribe_step(h, id), false, ConnAction::Close),
        }
    }
}

/// One push connection and its subscription.
pub struct Connection {
    sub: Subscription,
    open: bool,
}

impl Connection {
    /// The subscription that the connection holds.
    pub closed spec fn spec_subscription(&self) -> Subscription {
        self.sub
    }

    /// Whether the connection still runs.
    pub closed spec fn spec_is_open(&self) -> bool {
        self.open
    }

    /// Opens a connection with a fresh subscription on the hub; `None`
    /// when the hub has no id left to give.
    pub fn open(hub: &mut Hub) -> (r: Option<Connection>)
        requires
            old(hub).wf(),
        ensures
            final(hub).wf(),
            final(hub)@ == crate::hub::subscribe_step(old(hub)@).0,
            match r {
                Some(c) => c.spec_is_open() && crate::hub::subscribe_step(old(hub)@).1 == Some(
                    c.spec_subscription().id,
                ),
                None => crate::hub::subscribe_step(old(hub)@).1 is None,
            },
    {
        match hub.subscribe() {
            Some(sub) => Some(Connection { sub, open: true }),
            None => None,
        }
    }

    /// The subscription that the connection holds.
    pub fn subscription(&self) -> (r: Subscription)
        ensures
            r == self.spec_subscription(),
    {
        self.sub
    }

    /// Whether the connection still runs.
    pub fn is_open(&self) -> (r: bool)
        ensures
            r == self.spec_is_open(),
    {
        self.open
    }

    /// Decides what to do on `ev`, taking the next event from the hub on a
    /// wake-up and releasing the subscription on a failure.
    pub fn on_event(&mut self, hub: &mut Hub, ev: ConnEvent) -> (r: ConnAction)
        requires
            old(hub).wf(),
        ensures
            final(hub).wf(),
            final(self).spec_subscription() == old(self).spec_subscription(),
            (final(hub)@, final(self).spec_is_open(), r) == connection_step(
                old(hub)@,
                old(self).spec_is_open(),
                old(self).spec_subscription().id,
                ev,
            ),
    {
        if !self.open {
            return ConnAction::Close;
        }
        match ev {
            ConnEvent::Changed => {
                match hub.take(self.sub) {
                    Some(_) => ConnAction::SendReload,
                    None => ConnAction::Discard,
                }
            },
            ConnEvent::ProbeDue => ConnAction::SendProbe,
            ConnEvent::ClientMessage => ConnAction::Discard,
            ConnEvent::SendFailed | ConnEvent::ReceiveEnded => {
                hub.unsubscribe(self.sub);
                self.open = false;
                ConnAction::Close
            },
        }
    }
}

/// A failure on an open connection closes it in that one step and releases
/// its subscription, while every other subscription keeps its cursor and the
/// published events stay as they were.
pub proof fn lemma_disconnect_releases(h: HubView, id: u64, ev: ConnEvent)
    requires
        h.wf(),
        ev == ConnEvent::SendFailed || ev == ConnEvent::ReceiveEnded,
    ensures
        ({
            let (g, open, action) = connection_step(h, true, id, ev);
            &&& action == ConnAction::Close
            &&& !open
            &&& !g.cursors.contains_key(id)
            &&& g.published == h.published
            &&& forall|other: u64|
                other != id ==> (#[trigger] g.cursors.contains_key(other)
                    == h.cursors.contains_key(other)) && (h.cursors.contains_key(other)
                    ==> g.cursors[other] == h.cursors[other])
            &&& g.wf()
        }),
{
    lemma_step_wf(h, HubOp::Unsubscribe(id));
}

/// An open connection that has taken every published event relays one
/// publish as exactly one reload: its first wake-up after the publish sends
/// the reload, the next sends nothing.
pub proof fn lemma_one_publish_one_reload(h: HubView, id: u64)
    requires
        h.wf(),
        h.published < u64::MAX,
        h.cursors.contains_key(id),
        h.pending(id) == 0,
    ensures
        ({
            let g = publish_step(h).0;
            let (g1, open1, a1) = connection_step(g, true, id, ConnEvent::Changed);
            let (g2, open2, a2) = connection_step(g1, open1, id, ConnEvent::Changed);
            &&& a1 == ConnAction::SendReload
            &&& open1
            &&& a2 == ConnAction::Discard
            &&& g2.pending(id) == 0
        }),
{
}

/// An open connection with `k` events pending relays `k` reloads on `k`
/// wake-ups, taking the events one by one in publish order, and then
/// nothing more.
pub proof fn lemma_pending_events_all_relayed(h: HubView, id: u64)
    requires
        h.wf(),
        h.cursors.contains_key(id),
    ensures
        ({
            let (g, open, a) = connection_step(h, true, id, ConnEvent::Changed);
            &&& open
            &&& h.pending(id) > 0 ==> a == ConnAction::SendReload && g.cursors.contains_key(id)
                && g.cursors[id] == h.cursors[id] + 1 && g.pending(id) == h.pending(id) - 1
                && g.wf()
            &&& h.pending(id) == 0 ==> a == ConnAction::Discard && g == h
        }),
{
    lemma_step_wf(h, HubOp::Take(id));
}

} // verus!
