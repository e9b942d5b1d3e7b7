//! Deciding which filesystem changes call for a reload, and coalescing
//! bursts of them.

use vstd::prelude::*;

use crate::hub::{publish_step, HubView};
use crate::links::{is_markdown_file, is_markdown_path, same_text};

verus! {

/// Milliseconds that a burst of changes is gathered before one reload.
pub const COALESCE_WINDOW_MS: u64 = 250;

/// A changed path is worth a reload when it is the watched file or names a
/// Markdown document.
pub open spec fn is_reload_worthy(p: Seq<char>, root: Seq<char>) -> bool {
    p == root || is_markdown_path(p)
}

/// One filesystem event, touching `paths`, is worth a reload when one of
/// its paths is.
pub open spec fn event_wants_reload(paths: Seq<Seq<char>>, root: Seq<char>) -> bool {
    exists|i: int| 0 <= i < paths.len() && is_reload_worthy(#[trigger] paths[i], root)
}

/// Whether a filesystem event that touched `paths` calls for a reload of
/// the page showing `file_path`.
pub fn should_reload(paths: &Vec<String>, file_path: &str) -> (r: bool)
    ensures
        r == event_wants_reload(paths@.map_values(|s: String| s@), file_path@),
{
    let ghost ps = paths@.map_values(|s: String| s@);
    let mut i: usize = 0;
    while i < paths.len()
        invariant
            i <= paths@.len(),
            ps == paths@.map_values(|s: String| s@),
            forall|j: int| 0 <= j < i ==> !is_reload_worthy(#[trigger] ps[j], file_path@),
        decreases paths@.len() - i,
    {
        let p = paths[i].as_str();
        if same_text(p, file_path) || is_markdown_file(p) {
            assert(is_reload_worthy(ps[i as int], file_path@));
            return true;
        }
        i = i + 1;
    }
    false
}

/// The deadline after a change at `now`: a pending deadline is kept, so a
/// burst never postpones its reload; otherwise one window from now.
pub open spec fn deadline_after_change(deadline: Option<u64>, now: u64) -> Option<u64> {
    match deadline {
        Some(d) => Some(d),
        None => Some(
            if now as int + COALESCE_WINDOW_MS <= u64::MAX {
                (now + COALESCE_WINDOW_MS) as u64
            } else {
                u64::MAX
            },
        ),
    }
}

/// Whether a tick at `now` publishes: a deadline is pending and has come.
pub open spec fn tick_fires(deadline: Option<u64>, now: u64) -> bool {
    match deadline {
        Some(d) => d <= now,
        None => false,
    }
}

/// The deadline after a tick at `now`: cleared when the tick fires.
pub open spec fn deadline_after_tick(deadline: Option<u64>, now: u64) -> Option<u64> {
    if tick_fires(deadline, now) {
        None
    } else {
        deadline
    }
}

/// Gathers the reload-worthy changes of a burst into one publish.
pub struct Coalescer {
    deadline: Option<u64>,
}

impl Coalescer {
    /// When the pending reload is due, if one is pending.
    pub closed spec fn spec_deadline(&self) -> Option<u64> {
        self.deadline
    }

    /// Nothing pending.
    pub fn new() -> (r: Coalescer)
        ensures
            r.spec_deadline() is None,
    {
        Coalescer { deadline: None }
    }

    /// When the pending reload is due, if one is pending.
    pub fn deadline(&self) -> (r: Option<u64>)
        ensures
            r == self.spec_deadline(),
    {
        self.deadline
    }

    /// Records a reload-worthy change at `now_ms`.
    pub fn on_change(&mut self, now_ms: u64)
        ensures
            final(self).spec_deadline() == deadline_after_change(old(self).spec_deadline(), now_ms),
    {
        if self.deadline.is_none() {
            let due = if now_ms <= u64::MAX - COALESCE_WINDOW_MS {
                now_ms + COALESCE_WINDOW_MS
            } else {
                u64::MAX
            };
            self.deadline = Some(due);
        }
    }

    /// Whether to publish at `now_ms`; after a publish nothing is pending.
    pub fn on_tick(&mut self, now_ms: u64) -> (r: bool)
        ensures
            r == tick_fires(old(self).spec_deadline(), now_ms),
            final(self).spec_deadline() == deadline_after_tick(old(self).spec_deadline(), now_ms),
    {
        match self.deadline {
            Some(d) => {
                if d <= now_ms {
                    self.deadline = None;
                    true
                } else {
                    false
                }
            },
            None => false,
        }
    }
}

/// A change that touches the watched file calls for a reload, and the
/// publish that follows hands every live subscription exactly one more
/// pending event, leaving the set of subscriptions as it was.
pub proof fn lemma_root_change_reaches_every_subscriber(
    h: HubView,
    paths: Seq<Seq<char>>,
    root: Seq<char>,
)
    requires
        h.wf(),
        h.published < u64::MAX,
        exists|i: int| 0 <= i < paths.len() && paths[i] == root,
    ensures
        event_wants_reload(paths, root),
        publish_step(h).0.cursors == h.cursors,
        forall|id: u64| #[trigger]
            h.cursors.contains_key(id) ==> publish_step(h).0.pending(id) == h.pending(id) + 1,
{
    let i = choose|i: int| 0 <= i < paths.len() && paths[i] == root;
    assert(is_reload_worthy(paths[i], root));
}

/// A change that touches only files other than the watched one, none of
/// them a Markdown document, calls for no reload.
pub proof fn lemma_unrelated_change_ignored(paths: Seq<Seq<char>>, root: Seq<char>)
    requires
        forall|i: int| 0 <= i < paths.len() ==> paths[i] != root && !is_markdown_path(#[trigger] paths[i]),
    ensures
        !event_wants_reload(paths, root),
{
}

/// The deadline after changes at each of the times `ts`, in turn.
pub open spec fn deadline_after_changes(deadline: Option<u64>, ts: Seq<u64>) -> Option<u64>
    decreases ts.len(),
{
    if ts.len() == 0 {
        deadline
    } else {
        deadline_after_change(deadline_after_changes(deadline, ts.drop_last()), ts.last())
    }
}

/// A burst of changes, the first at `first`, yields exactly one reload:
/// whatever changes follow within the burst, it is due one window after the
/// first change (or at the largest time that fits), a tick fires if and only
/// if that time has come, and once it has fired no later tick fires again.
pub proof fn lemma_burst_publishes_once(first: u64, rest: Seq<u64>)
    ensures
        ({
            let d = deadline_after_changes(deadline_after_change(None, first), rest);
            let due = if first as int + COALESCE_WINDOW_MS <= u64::MAX {
                first + COALESCE_WINDOW_MS
            } else {
                u64::MAX as int
            };
            &&& d is Some && d.unwrap() == due
            &&& forall|now: u64| #[trigger] tick_fires(d, now) <==> now >= due
            &&& forall|now: u64, later: u64|
                tick_fires(d, now) ==> !#[trigger] tick_fires(deadline_after_tick(d, now), later)
        }),
    decreases rest.len(),
{
    if rest.len() > 0 {
        lemma_burst_publishes_once(first, rest.drop_last());
    }
}

} // verus!
