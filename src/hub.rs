//! The notification hub: one publisher, any number of subscriptions.
//!
//! Events carry no payload; the hub numbers them in publish order, from 0.
//! Each subscription holds a cursor, the number of the next event it will
//! be handed. A new subscription starts at the number of the next event to
//! be published, so it never sees an earlier one.

use vstd::prelude::*;

verus! {

/// A handle on the hub, held by one push connection.
#[derive(Clone, Copy, Debug, PartialEq, Eq, Structural)]
pub struct Subscription {
    pub id: u64,
}

/// The registry entry of one subscription.
#[derive(Clone, Copy, Debug)]
pub struct Slot {
    pub id: u64,
    pub cursor: u64,
}

/// The abstract state of the hub.
pub struct HubView {
    /// How many events have been published.
    pub published: nat,
    /// The id that the next subscription gets.
    pub next_id: nat,
    /// The cursor of each live subscription.
    pub cursors: Map<u64, nat>,
}

impl HubView {
    /// Every live subscription has an id handed out already and a cursor no
    /// later than the next event; the counters fit in `u64`.
    pub open spec fn wf(self) -> bool {
        &&& self.published <= u64::MAX
        &&& self.next_id <= u64::MAX
        &&& forall|id: u64| #[trigger]
            self.cursors.contains_key(id) ==> id < self.next_id && self.cursors[id]
                <= self.published
    }

    /// How many published events the subscription `id` has not taken yet.
    pub open spec fn pending(self, id: u64) -> int {
        self.published - self.cursors[id]
    }
}

/// A new subscription starts at the next event; `None` once ids run out.
pub open spec fn subscribe_step(h: HubView) -> (HubView, Option<u64>) {
    if h.next_id < u64::MAX {
        (
            HubView {
                published: h.published,
                next_id: h.next_id + 1,
                cursors: h.cursors.insert(h.next_id as u64, h.published),
            },
            Some(h.next_id as u64),
        )
    } else {
        (h, None)
    }
}

/// Publishing adds one event for every live subscription; nothing is kept
/// for subscriptions that come later. `false` once the counter runs out.
pub open spec fn publish_step(h: HubView) -> (HubView, bool) {
    if h.published < u64::MAX {
        (HubView { published: h.published + 1, ..h }, true)
    } else {
        (h, false)
    }
}

/// Taking hands out the next event of the subscription, if there is one.
pub open spec fn take_step(h: HubView, id: u64) -> (HubView, Option<nat>) {
    if h.cursors.contains_key(id) && h.cursors[id] < h.published {
        (HubView { cursors: h.cursors.insert(id, h.cursors[id] + 1), ..h }, Some(h.cursors[id]))
    } else {
        (h, None)
    }
}

/// Unsubscribing releases the subscription and nothing else.
pub open spec fn unsubscribe_step(h: HubView, id: u64) -> HubView {
    HubView { cursors: h.cursors.remove(id), ..h }
}

/// One operation on the hub, for stating what holds along a run of them.
pub enum HubOp {
    Publish,
    Subscribe,
    Take(u64),
    Unsubscribe(u64),
}

/// The hub after one operation.
pub open spec fn hub_step(h: HubView, op: HubOp) -> HubView {
    match op {
        HubOp::Publish => publish_step(h).0,
        HubOp::Subscribe => subscribe_step(h).0,
        HubOp::Take(id) => take_step(h, id).0,
        HubOp::Unsubscribe(id) => unsubscribe_step(h, id),
    }
}

/// The hub after a run of operations.
pub open spec fn run_ops(h: HubView, ops: Seq<HubOp>) -> HubView
    decreases ops.len(),
{
    if ops.len() == 0 {
        h
    } else {
        hub_step(run_ops(h, ops.drop_last()), ops.last())
    }
}

/// The events handed to the subscription `id` along a run of operations,
/// in the order they were handed out.
pub open spec fn received(h: HubView, ops: Seq<HubOp>, id: u64) -> Seq<nat>
    decreases ops.len(),
{
    if ops.len() == 0 {
        Seq::empty()
    } else {
        let before = received(h, ops.drop_last(), id);
        let prev = run_ops(h, ops.drop_last());
        match ops.last() {
            HubOp::Take(x) => {
                if x == id && take_step(prev, id).1 is Some {
                    before.push(take_step(prev, id).1.unwrap())
                } else {
                    before
                }
            },
            _ => before,
        }
    }
}

/// Every operation keeps the hub well formed.
pub proof fn lemma_step_wf(h: HubView, op: HubOp)
    requires
        h.wf(),
    ensures
        hub_step(h, op).wf(),
        hub_step(h, op).published >= h.published,
        hub_step(h, op).next_id >= h.next_id,
{
    let g = hub_step(h, op);
    assert forall|k: u64| #[trigger] g.cursors.contains_key(k) implies k < g.next_id
        && g.cursors[k] <= g.published by {
        assert(h.cursors.contains_key(k) || k == h.next_id);
    }
}

proof fn lemma_run_tracks_subscription(h: HubView, ops: Seq<HubOp>)
    requires
        h.wf(),
        h.next_id < u64::MAX,
    ensures
        ({
            let h1 = subscribe_step(h).0;
            let id = h.next_id as u64;
            let now = run_ops(h1, ops);
            let r = received(h1, ops, id);
            &&& now.wf()
            &&& id < now.next_id
            &&& h.published + r.len() <= now.published
            &&& now.cursors.contains_key(id) ==> now.cursors[id] == h.published + r.len()
            &&& forall|j: int| 0 <= j < r.len() ==> r[j] == h.published + j
        }),
    decreases ops.len(),
{
    let h1 = subscribe_step(h).0;
    let id = h.next_id as u64;
    if ops.len() == 0 {
        lemma_step_wf(h, HubOp::Subscribe);
    } else {
        lemma_run_tracks_subscription(h, ops.drop_last());
        let prev = run_ops(h1, ops.drop_last());
        lemma_step_wf(prev, ops.last());
    }
}

/// A subscription is handed exactly the events published after it was
/// created: numbered from the count published at its creation, one after
/// the other in publish order, none of them before that count, and none that
/// has not been published yet.
pub proof fn lemma_subscription_sees_later_events(h: HubView, ops: Seq<HubOp>)
    requires
        h.wf(),
        h.next_id < u64::MAX,
    ensures
        ({
            let h1 = subscribe_step(h).0;
            let r = received(h1, ops, h.next_id as u64);
            &&& forall|j: int| 0 <= j < r.len() ==> r[j] == h.published + j
            &&& forall|j: int| 0 <= j < r.len() ==> r[j] >= h.published
            &&& h.published + r.len() <= run_ops(h1, ops).published
        }),
{
    lemma_run_tracks_subscription(h, ops);
}

/// The cursors that a list of slots records.
pub open spec fn slots_map(s: Seq<Slot>) -> Map<u64, nat>
    decreases s.len(),
{
    if s.len() == 0 {
        Map::empty()
    } else {
        slots_map(s.drop_last()).insert(s.last().id, s.last().cursor as nat)
    }
}

/// Slot ids increase along the list.
pub open spec fn ids_increasing(s: Seq<Slot>) -> bool {
    forall|i: int, j: int| 0 <= i < j < s.len() ==> s[i].id < s[j].id
}

proof fn lemma_slots_keys(s: Seq<Slot>, k: u64)
    ensures
        slots_map(s).contains_key(k) <==> exists|i: int| 0 <= i < s.len() && s[i].id == k,
    decreases s.len(),
{
    if s.len() > 0 {
        lemma_slots_keys(s.drop_last(), k);
        if slots_map(s.drop_last()).contains_key(k) {
            let i = choose|i: int| 0 <= i < s.len() - 1 && s.drop_last()[i].id == k;
            assert(s[i].id == k);
        }
        if exists|i: int| 0 <= i < s.len() && s[i].id == k {
            let i = choose|i: int| 0 <= i < s.len() && s[i].id == k;
            if i < s.len() - 1 {
                assert(s.drop_last()[i].id == k);
            }
        }
    }
}

proof fn lemma_slots_lookup(s: Seq<Slot>, i: int)
    requires
        ids_increasing(s),
        0 <= i < s.len(),
    ensures
        slots_map(s).contains_key(s[i].id),
        slots_map(s)[s[i].id] == s[i].cursor as nat,
    decreases s.len(),
{
    if i < s.len() - 1 {
        lemma_slots_lookup(s.drop_last(), i);
    }
}

proof fn lemma_slots_update(s: Seq<Slot>, i: int, c: u64)
    requires
        ids_increasing(s),
        0 <= i < s.len(),
    ensures
        slots_map(s.update(i, Slot { id: s[i].id, cursor: c })) == slots_map(s).insert(
            s[i].id,
            c as nat,
        ),
    decreases s.len(),
{
    let t = s.update(i, Slot { id: s[i].id, cursor: c });
    if i == s.len() - 1 {
        assert(t.drop_last() =~= s.drop_last());
    } else {
        assert(t.drop_last() =~= s.drop_last().update(i, Slot { id: s[i].id, cursor: c }));
        lemma_slots_update(s.drop_last(), i, c);
    }
    assert(slots_map(t) =~= slots_map(s).insert(s[i].id, c as nat));
}

proof fn lemma_slots_remove(s: Seq<Slot>, i: int)
    requires
        ids_increasing(s),
        0 <= i < s.len(),
    ensures
        slots_map(s.remove(i)) == slots_map(s).remove(s[i].id),
    decreases s.len(),
{
    let t = s.remove(i);
    lemma_slots_keys(s.drop_last(), s.last().id);
    if i == s.len() - 1 {
        assert(t =~= s.drop_last());
    } else {
        assert(t.drop_last() =~= s.drop_last().remove(i));
        lemma_slots_remove(s.drop_last(), i);
        assert(t.last() == s.last());
    }
    assert(slots_map(t) =~= slots_map(s).remove(s[i].id));
}

/// The hub: a registry of subscriptions and a count of published events.
pub struct Hub {
    published: u64,
    next_id: u64,
    slots: Vec<Slot>,
}

impl View for Hub {
    type V = HubView;

    closed spec fn view(&self) -> HubView {
        HubView {
            published: self.published as nat,
            next_id: self.next_id as nat,
            cursors: slots_map(self.slots@),
        }
    }
}

impl Hub {
    /// The registry is ordered by id, and no slot is ahead of the hub.
    pub closed spec fn wf(&self) -> bool {
        &&& ids_increasing(self.slots@)
        &&& forall|i: int|
            0 <= i < self.slots@.len() ==> #[trigger] self.slots@[i].id < self.next_id
                && self.slots@[i].cursor <= self.published
    }

    proof fn lemma_view_wf(&self)
        requires
            self.wf(),
        ensures
            self@.wf(),
    {
        assert forall|id: u64| #[trigger] self@.cursors.contains_key(id) implies id < self@.next_id
            && self@.cursors[id] <= self@.published by {
            lemma_slots_keys(self.slots@, id);
            let i = choose|i: int| 0 <= i < self.slots@.len() && self.slots@[i].id == id;
            lemma_slots_lookup(self.slots@, i);
        }
    }

    /// An empty hub: no event, no subscription.
    pub fn new() -> (r: Hub)
        ensures
            r.wf(),
            r@.wf(),
            r@.published == 0,
            r@.next_id == 0,
            r@.cursors == Map::<u64, nat>::empty(),
    {
        let r = Hub { published: 0, next_id: 0, slots: Vec::new() };
        proof {
            r.lemma_view_wf();
        }
        r
    }

    /// Where the subscription `id` stands in the registry.
    fn find(&self, id: u64) -> (r: Option<usize>)
        requires
            self.wf(),
        ensures
            match r {
                Some(i) => i < self.slots@.len() && self.slots@[i as int].id == id,
                None => !self@.cursors.contains_key(id),
            },
    {
        let mut i: usize = 0;
        while i < self.slots.len()
            invariant
                i <= self.slots@.len(),
                forall|j: int| 0 <= j < i ==> self.slots@[j].id != id,
            decreases self.slots@.len() - i,
        {
            if self.slots[i].id == id {
                return Some(i);
            }
            i = i + 1;
        }
        proof {
            lemma_slots_keys(self.slots@, id);
        }
        None
    }

    /// Registers a new subscription, which will be handed every event
    /// published from now on and none published before.
    pub fn subscribe(&mut self) -> (r: Option<Subscription>)
        requires
            old(self).wf(),
        ensures
            final(self).wf(),
            final(self)@.wf(),
            final(self)@ == subscribe_step(old(self)@).0,
            match r {
                Some(s) => subscribe_step(old(self)@).1 == Some(s.id),
                None => subscribe_step(old(self)@).1 is None,
            },
    {
        if self.next_id == u64::MAX {
            proof {
                self.lemma_view_wf();
            }
            return None;
        }
        let id = self.next_id;
        let ghost before = self.slots@;
        self.slots.push(Slot { id, cursor: self.published });
        self.next_id = id + 1;
        proof {
            assert(self.slots@.drop_last() =~= before);
            assert(self@.cursors =~= old(self)@.cursors.insert(id, old(self)@.published));
            self.lemma_view_wf();
        }
        Some(Subscription { id })
    }

    /// Publishes one change event to every live subscription.
    pub fn publish(&mut self) -> (r: bool)
        requires
            old(self).wf(),
        ensures
            final(self).wf(),
            final(self)@.wf(),
            (final(self)@, r) == publish_step(old(self)@),
    {
        if self.published < u64::MAX {
            self.published = self.published + 1;
            proof {
                self.lemma_view_wf();
                assert(self@ == publish_step(old(self)@).0);
            }
            true
        } else {
            proof {
                self.lemma_view_wf();
            }
            false
        }
    }

    /// Hands the subscription the number of its next event, if one has been
    /// published that it has not taken yet.
    pub fn take(&mut self, sub: Subscription) -> (r: Option<u64>)
        requires
            old(self).wf(),
        ensures
            final(self).wf(),
            final(self)@.wf(),
            final(self)@ == take_step(old(self)@, sub.id).0,
            match r {
                Some(e) => take_step(old(self)@, sub.id).1 == Some(e as nat),
                None => take_step(old(self)@, sub.id).1 is None,
            },
    {
        match self.find(sub.id) {
            None => {
                proof {
                    self.lemma_view_wf();
                }
                None
            },
            Some(i) => {
                let slot = self.slots[i];
                proof {
                    lemma_slots_lookup(self.slots@, i as int);
                }
                if slot.cursor < self.published {
                    let ghost before = self.slots@;
                    self.slots.set(i, Slot { id: slot.id, cursor: slot.cursor + 1 });
                    proof {
                        lemma_slots_update(before, i as int, (slot.cursor + 1) as u64);
                        self.lemma_view_wf();
                        assert(self@ == take_step(old(self)@, sub.id).0);
                    }
                    Some(slot.cursor)
                } else {
                    proof {
                        self.lemma_view_wf();
                    }
                    None
                }
            },
        }
    }

    /// Releases the subscription; every other one is left as it was.
    pub fn unsubscribe(&mut self, sub: Subscription)
        requires
            old(self).wf(),
        ensures
            final(self).wf(),
            final(self)@.wf(),
            final(self)@ == unsubscribe_step(old(self)@, sub.id),
    {
        match self.find(sub.id) {
            None => {
                proof {
                    self.lemma_view_wf();
                    assert(self@.cursors =~= old(self)@.cursors.remove(sub.id));
                }
            },
            Some(i) => {
                let ghost before = self.slots@;
                self.slots.remove(i);
                proof {
                    lemma_slots_remove(before, i as int);
                    assert forall|a: int, b: int|
                        0 <= a < b < self.slots@.len() implies self.slots@[a].id
                        < self.slots@[b].id by {
                        if a >= i {
                            assert(self.slots@[a] == before[a + 1]);
                        }
                        if b >= i {
                            assert(self.slots@[b] == before[b + 1]);
                        }
                    }
                    assert forall|k: int| 0 <= k < self.slots@.len() implies #[trigger]
                        self.slots@[k].id < self.next_id && self.slots@[k].cursor
                        <= self.published by {
                        if k >= i {
                            assert(self.slots@[k] == before[k + 1]);
                        }
                    }
                    self.lemma_view_wf();
                }
            },
        }
    }
}

} // verus!
