use vstd::prelude::*;

use crate::action::GameError;
use crate::turn_manager::{cleanup_period, CleanupMetrics};

verus! {

/// A queue entry: (time, entity id).
pub type QueueEntry = (u64, u64);

/// Lexicographic order on entries: time, then entity.
pub open spec fn qentry_le(a: QueueEntry, b: QueueEntry) -> bool {
    a.0 < b.0 || (a.0 == b.0 && a.1 <= b.1)
}

/// Entries in nondecreasing order.
pub open spec fn qsorted(q: Seq<QueueEntry>) -> bool {
    forall|i: int, j: int| 0 <= i < j < q.len() ==> qentry_le(#[trigger] q[i], #[trigger] q[j])
}

/// `q2` is `q1` with `e` inserted at some index.
pub open spec fn qinserted(q1: Seq<QueueEntry>, q2: Seq<QueueEntry>, e: QueueEntry) -> bool {
    exists|k: int| 0 <= k <= q1.len() && q2 == q1.insert(k, e)
}

/// Time units from `now` until `time` on a clock that wraps around at 2^64.
pub open spec fn wrapped_delay(time: u64, now: u64) -> int {
    if time >= now {
        time - now
    } else {
        time - now + 0x1_0000_0000_0000_0000
    }
}

/// Entries of `q` whose entity is listed in `valid`, in order.
pub open spec fn live_queue_entries(q: Seq<QueueEntry>, valid: Seq<u64>) -> Seq<QueueEntry> {
    q.filter(|e: QueueEntry| valid.contains(e.1))
}

/// Whether `v` holds `x`.
fn holds_id(v: &Vec<u64>, x: u64) -> (r: bool)
    ensures
        r == v@.contains(x),
{
    let n = v.len();
    let mut i: usize = 0;
    while i < n
        invariant
            n == v.len(),
            i <= n,
            forall|j: int| 0 <= j < i ==> v@[j] != x,
        decreases n - i,
    {
        if v[i] == x {
            return true;
        }
        i = i + 1;
    }
    false
}

/// Inserts `e` into the sorted vector `q` after every entry not greater than it.
fn insert_in_order(q: &mut Vec<QueueEntry>, e: QueueEntry)
    requires
        qsorted(old(q)@),
    ensures
        qsorted(final(q)@),
        qinserted(old(q)@, final(q)@, e),
{
    let n = q.len();
    let mut k: usize = 0;
    while k < n && (q[k].0 < e.0 || (q[k].0 == e.0 && q[k].1 <= e.1))
        invariant
            n == q.len(),
            k <= n,
            forall|i: int| 0 <= i < k ==> qentry_le(#[trigger] q@[i], e),
        decreases n - k,
    {
        k = k + 1;
    }
    let ghost q0 = q@;
    q.insert(k, e);
    assert(q@ == q0.insert(k as int, e));
    assert forall|i: int, j: int| 0 <= i < j < q@.len() implies qentry_le(
        #[trigger] q@[i],
        #[trigger] q@[j],
    ) by {
        if j < k {
        } else if i < k && j == k {
        } else if i < k && j > k {
            assert(q@[j] == q0[j - 1]);
            assert(qentry_le(q0[k as int], q0[j - 1]));
        } else if i == k {
            assert(q@[j] == q0[j - 1]);
            assert(qentry_le(q0[k as int], q0[j - 1]));
        } else {
            assert(q@[i] == q0[i - 1]);
            assert(q@[j] == q0[j - 1]);
        }
    }
}

/// Turn queue on a single 64-bit clock: entries (time, entity) taken
/// earliest first.
pub struct TurnQueue {
    current_time: u64,
    turn_queue: Vec<QueueEntry>,
    operations_since_cleanup: u32,
    total_cleanups: u64,
    total_entities_removed: u64,
}

impl TurnQueue {
    /// The queued entries, earliest first.
    pub closed spec fn queue(&self) -> Seq<QueueEntry> {
        self.turn_queue@
    }

    pub closed spec fn now(&self) -> u64 {
        self.current_time
    }

    pub closed spec fn ops_since_cleanup(&self) -> u32 {
        self.operations_since_cleanup
    }

    pub closed spec fn cleanups(&self) -> u64 {
        self.total_cleanups
    }

    pub closed spec fn entities_removed(&self) -> u64 {
        self.total_entities_removed
    }

    /// The queue is kept in order.
    pub closed spec fn wf(&self) -> bool {
        qsorted(self.turn_queue@)
    }

    /// The queued entries, earliest first, for display.
    pub fn entries(&self) -> (r: Vec<QueueEntry>)
        ensures
            r@ == self.queue(),
    {
        let mut r: Vec<QueueEntry> = Vec::new();
        let n = self.turn_queue.len();
        let mut i: usize = 0;
        while i < n
            invariant
                n == self.turn_queue@.len(),
                i <= n,
                r@ == self.turn_queue@.take(i as int),
            decreases n - i,
        {
            r.push(self.turn_queue[i]);
            i = i + 1;
            assert(r@ == self.turn_queue@.take(i as int));
        }
        assert(self.turn_queue@.take(n as int) == self.turn_queue@);
        r
    }

    pub fn is_empty(&self) -> (b: bool)
        ensures
            b == (self.queue().len() == 0),
    {
        self.turn_queue.len() == 0
    }

    /// Queues `entity` at time `next_time`.
    pub fn schedule_turn(&mut self, entity: u64, next_time: u64)
        requires
            old(self).wf(),
        ensures
            final(self).wf(),
            final(self).now() == old(self).now(),
            final(self).ops_since_cleanup() == old(self).ops_since_cleanup(),
            final(self).cleanups() == old(self).cleanups(),
            final(self).entities_removed() == old(self).entities_removed(),
            qinserted(old(self).queue(), final(self).queue(), (next_time, entity)),
    {
        insert_in_order(&mut self.turn_queue, (next_time, entity));
    }

    /// Takes the earliest entry off the queue, moves the clock to its time
    /// and returns (entity, time); `None`, with nothing changed, when empty.
    pub fn get_next_actor(&mut self) -> (r: Option<(u64, u64)>)
        requires
            old(self).wf(),
        ensures
            final(self).wf(),
            final(self).ops_since_cleanup() == old(self).ops_since_cleanup(),
            final(self).cleanups() == old(self).cleanups(),
            final(self).entities_removed() == old(self).entities_removed(),
            old(self).queue().len() == 0 ==> r is None && final(self).queue() == old(self).queue()
                && final(self).now() == old(self).now(),
            old(self).queue().len() > 0 ==> r == Some((old(self).queue()[0].1, old(self).queue()[0].0))
                && final(self).queue() == old(self).queue().drop_first() && final(self).now()
                == old(self).queue()[0].0,
    {
        if self.turn_queue.len() == 0 {
            return None;
        }
        let ghost q0 = self.turn_queue@;
        let (time, entity) = self.turn_queue.remove(0);
        proof {
            assert(self.turn_queue@ == q0.drop_first());
            assert forall|a: int, b: int| 0 <= a < b < self.turn_queue@.len() implies qentry_le(
                #[trigger] self.turn_queue@[a],
                #[trigger] self.turn_queue@[b],
            ) by {
                assert(self.turn_queue@[a] == q0[a + 1]);
                assert(self.turn_queue@[b] == q0[b + 1]);
            }
        }
        self.current_time = time;
        Some((entity, time))
    }

    pub fn current_time(&self) -> (t: u64)
        ensures
            t == self.now(),
    {
        self.current_time
    }

    /// Number of cleanup passes made and of entries they removed.
    pub fn cleanup_totals(&self) -> (r: (u64, u64))
        ensures
            r == (self.cleanups(), self.entities_removed()),
    {
        (self.total_cleanups, self.total_entities_removed)
    }

    /// The earliest (entity, time), without removing it.
    pub fn peek_next(&self) -> (r: Option<(u64, u64)>)
        ensures
            self.queue().len() == 0 ==> r is None,
            self.queue().len() > 0 ==> r == Some((self.queue()[0].1, self.queue()[0].0)),
    {
        if self.turn_queue.len() == 0 {
            None
        } else {
            let (time, entity) = self.turn_queue[0];
            Some((entity, time))
        }
    }

    /// Whether `entity` has an entry in the queue.
    pub fn is_scheduled(&self, entity: u64) -> (b: bool)
        ensures
            b == exists|i: int| 0 <= i < self.queue().len() && (#[trigger] self.queue()[i]).1 == entity,
    {
        let n = self.turn_queue.len();
        let mut i: usize = 0;
        while i < n
            invariant
                n == self.turn_queue.len(),
                i <= n,
                forall|j: int| 0 <= j < i ==> (#[trigger] self.turn_queue@[j]).1 != entity,
            decreases n - i,
        {
            if self.turn_queue[i].1 == entity {
                assert(self.queue()[i as int].1 == entity);
                return true;
            }
            i = i + 1;
        }
        false
    }

    /// Time from now until `time` on the wrapping clock.
    pub fn time_until(&self, time: u64) -> (r: u64)
        ensures
            r == wrapped_delay(time, self.now()),
    {
        if time >= self.current_time {
            time - self.current_time
        } else {
            time + (u64::MAX - self.current_time) + 1
        }
    }

    /// Whether `time_a` comes before `time_b`, counting forward from now on
    /// the wrapping clock.
    pub fn is_before(&self, time_a: u64, time_b: u64) -> (b: bool)
        ensures
            b == (wrapped_delay(time_a, self.now()) < wrapped_delay(time_b, self.now())),
    {
        self.time_until(time_a) < self.time_until(time_b)
    }

    /// Cleanup period for the current queue and `entity_count` world
    /// entities, around a base of 100 operations.
    pub fn get_cleanup_threshold(&self, entity_count: usize) -> (r: u32)
        ensures
            r == cleanup_period(100, entity_count as int, self.queue().len() as int),
    {
        let base_threshold: u32 = 100;
        let queue_size = self.turn_queue.len();
        if entity_count > 1000 || queue_size > 500 {
            return base_threshold / 2;
        } else if entity_count < 100 && queue_size < 50 {
            return base_threshold * 2;
        }
        base_threshold
    }

    /// Counts one more operation, and once the cleanup period for the world's
    /// `entity_count` entities is reached drops every entry whose entity is
    /// not in `valid_entities` (keeping queue order) and resets the count.
    pub fn cleanup_dead_entities(&mut self, entity_count: usize, valid_entities: &Vec<u64>) -> (m:
        CleanupMetrics)
        requires
            old(self).wf(),
            old(self).cleanups() < u64::MAX,
            old(self).entities_removed() + old(self).queue().len() <= u64::MAX,
        ensures
            final(self).wf(),
            final(self).now() == old(self).now(),
            ({
                let period = cleanup_period(
                    100,
                    entity_count as int,
                    old(self).queue().len() as int,
                );
                if old(self).ops_since_cleanup() < period {
                    &&& final(self).queue() == old(self).queue()
                    &&& final(self).ops_since_cleanup() == old(self).ops_since_cleanup() + 1
                    &&& final(self).cleanups() == old(self).cleanups()
                    &&& final(self).entities_removed() == old(self).entities_removed()
                    &&& m.entities_removed == 0
                    &&& m.queue_size_before == 0
                    &&& m.queue_size_after == 0
                } else {
                    &&& final(self).queue() == live_queue_entries(old(self).queue(), valid_entities@)
                    &&& final(self).ops_since_cleanup() == 0
                    &&& final(self).cleanups() == old(self).cleanups() + 1
                    &&& final(self).entities_removed() == old(self).entities_removed()
                        + m.entities_removed
                    &&& m.queue_size_before == old(self).queue().len()
                    &&& m.queue_size_after == final(self).queue().len()
                    &&& m.entities_removed == m.queue_size_before - m.queue_size_after
                }
            }),
    {
        if self.operations_since_cleanup < self.get_cleanup_threshold(entity_count) {
            self.operations_since_cleanup = self.operations_since_cleanup + 1;
            return CleanupMetrics::empty();
        }
        let queue_size_before = self.turn_queue.len();
        let start_time = crate::turn_manager::instant_now();
        let ghost q = self.turn_queue@;
        let ghost p = |e: QueueEntry| valid_entities@.contains(e.1);
        let mut new_queue: Vec<QueueEntry> = Vec::new();
        let mut removed_count: usize = 0;
        let n = self.turn_queue.len();
        let mut i: usize = 0;
        while i < n
            invariant
                n == q.len(),
                self.turn_queue@ == q,
                qsorted(q),
                i <= n,
                p == (|e: QueueEntry| valid_entities@.contains(e.1)),
                new_queue@ == q.take(i as int).filter(p),
                removed_count + new_queue@.len() == i,
                qsorted(new_queue@),
                forall|a: int, j: int|
                    0 <= a < new_queue@.len() && i <= j < n ==> qentry_le(
                        #[trigger] new_queue@[a],
                        #[trigger] q[j],
                    ),
            decreases n - i,
        {
            let e = self.turn_queue[i];
            let ghost prev = q.take(i as int);
            proof {
                assert(q.take(i + 1) == prev.push(e));
                prev.lemma_filter_push(e, p);
            }
            if holds_id(valid_entities, e.1) {
                new_queue.push(e);
                assert forall|a: int, j: int|
                    0 <= a < new_queue@.len() && i + 1 <= j < n implies qentry_le(
                    #[trigger] new_queue@[a],
                    #[trigger] q[j],
                ) by {
                    if a < new_queue@.len() - 1 {
                        assert(qentry_le(new_queue@[a], q[i as int]));
                    }
                }
            } else {
                removed_count = removed_count + 1;
            }
            i = i + 1;
        }
        assert(q.take(n as int) == q);
        self.turn_queue = new_queue;
        self.operations_since_cleanup = 0;
        self.total_cleanups = self.total_cleanups + 1;
        self.total_entities_removed = self.total_entities_removed + removed_count as u64;
        let processing_time = crate::turn_manager::elapsed_since(&start_time);
        CleanupMetrics {
            entities_removed: removed_count,
            queue_size_before,
            queue_size_after: self.turn_queue.len(),
            processing_time,
        }
    }
}

impl Default for TurnQueue {
    /// An empty queue at time 0.
    fn default() -> (tq: TurnQueue)
        ensures
            tq.wf(),
            tq.queue() == Seq::<QueueEntry>::empty(),
            tq.now() == 0,
            tq.ops_since_cleanup() == 0,
            tq.cleanups() == 0,
            tq.entities_removed() == 0,
    {
        TurnQueue {
            current_time: 0,
            turn_queue: Vec::new(),
            operations_since_cleanup: 0,
            total_cleanups: 0,
            total_entities_removed: 0,
        }
    }
}

/// When an actor whose turn came at `time` is next due, given what
/// performing its action returned: after the time the action took, capped at
/// 60000 units (saturating at `u64::MAX`); after a failure the player goes
/// again at once and an AI actor 1000 units later.
pub open spec fn next_due_time(time: u64, is_player: bool, outcome: Result<u64, GameError>) -> int {
    match outcome {
        Ok(d) => {
            let clamped = if d < 60000 {
                d as int
            } else {
                60000
            };
            if time + clamped > u64::MAX {
                u64::MAX as int
            } else {
                time + clamped
            }
        },
        Err(_) => if is_player {
            time as int
        } else {
            time + 1000
        },
    }
}

/// The time at which to queue an actor again after its action; see
/// `next_due_time`.
pub fn reschedule_time(time: u64, is_player: bool, outcome: &Result<u64, GameError>) -> (r: u64)
    requires
        !is_player && outcome is Err ==> time + 1000 <= u64::MAX,
    ensures
        r == next_due_time(time, is_player, *outcome),
{
    match outcome {
        Ok(d_time) => {
            let clamped = if *d_time < 60000 {
                *d_time
            } else {
                60000
            };
            time.saturating_add(clamped)
        },
        Err(_) => if is_player {
            time
        } else {
            time + 1000
        },
    }
}

/// The actor taken next is the earliest queued: the front entry comes no
/// later (by time, then entity) than any other.
pub proof fn lemma_queue_front_is_earliest(tq: &TurnQueue)
    requires
        tq.wf(),
        tq.queue().len() > 0,
    ensures
        forall|i: int| 0 <= i < tq.queue().len() ==> qentry_le(tq.queue()[0], #[trigger] tq.queue()[i]),
{
    let q = tq.queue();
    assert forall|i: int| 0 <= i < q.len() implies qentry_le(q[0], #[trigger] q[i]) by {
        if i > 0 {
            assert(qentry_le(q[0], q[i]));
        }
    }
}

/// On the wrapping clock nothing comes before the present moment, and a
/// moment is never before itself.
pub proof fn lemma_nothing_before_now(now: u64, t: u64)
    ensures
        !(wrapped_delay(t, now) < wrapped_delay(now, now)),
        !(wrapped_delay(t, now) < wrapped_delay(t, now)),
        0 <= wrapped_delay(t, now) < 0x1_0000_0000_0000_0000,
{
}

/// After the queue's clock moved to an entry's time, that entry is due now.
pub proof fn lemma_taken_entry_due(tq: &TurnQueue)
    requires
        tq.queue().len() > 0,
    ensures
        wrapped_delay(tq.queue()[0].0, tq.queue()[0].0) == 0,
{
}

/// An actor is never queued again before the time its turn came (short of
/// the clock's end): whatever its action returned, its next turn is at or
/// after `time`.
pub proof fn lemma_rescheduled_not_earlier(time: u64, is_player: bool, outcome: Result<u64, GameError>)
    ensures
        next_due_time(time, is_player, outcome) >= time,
{
}

/// No queued entry lies before the queue's clock.
pub open spec fn no_past_queue_entries(tq: &TurnQueue) -> bool {
    forall|i: int| 0 <= i < tq.queue().len() ==> (#[trigger] tq.queue()[i]).0 >= tq.now()
}

/// Taking the next actor never moves the clock backwards, and leaves no entry
/// in the past, when none was.
pub proof fn lemma_next_actor_keeps_time_forward(old: &TurnQueue, new: &TurnQueue)
    requires
        old.wf(),
        no_past_queue_entries(old),
        old.queue().len() > 0,
        new.queue() == old.queue().drop_first(),
        new.now() == old.queue()[0].0,
    ensures
        new.now() >= old.now(),
        no_past_queue_entries(new),
{
    let q = old.queue();
    assert(q[0].0 >= old.now());
    assert forall|i: int| 0 <= i < new.queue().len() implies (#[trigger] new.queue()[i]).0 >= new.now() by {
        assert(new.queue()[i] == q[i + 1]);
        assert(qentry_le(q[0], q[i + 1]));
    }
}

} // verus!
