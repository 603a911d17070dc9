use vstd::prelude::*;

use crate::text::decimal;

use crate::action::GameError;

verus! {

/// Time units in one turn.
pub const TURN_TIME: u32 = 100;

/// A queue entry: (turn, time within the turn, entity id).
pub type TurnEntry = (u32, u32, u64);

/// Strict lexicographic order on entries: turn, then time, then entity.
pub open spec fn entry_lt(a: TurnEntry, b: TurnEntry) -> bool {
    a.0 < b.0 || (a.0 == b.0 && a.1 < b.1) || (a.0 == b.0 && a.1 == b.1 && a.2 < b.2)
}

/// Non-strict lexicographic order on entries.
pub open spec fn entry_le(a: TurnEntry, b: TurnEntry) -> bool {
    a == b || entry_lt(a, b)
}

/// Entries in nondecreasing order.
pub open spec fn sorted_entries(q: Seq<TurnEntry>) -> bool {
    forall|i: int, j: int| 0 <= i < j < q.len() ==> entry_le(#[trigger] q[i], #[trigger] q[j])
}

/// Every entry's time lies within a turn.
pub open spec fn times_in_turn(q: Seq<TurnEntry>) -> bool {
    forall|i: int| 0 <= i < q.len() ==> (#[trigger] q[i]).1 < TURN_TIME
}

/// Absolute time of a (turn, time) pair, in time units.
pub open spec fn abs_time(turn: int, time: int) -> int {
    turn * (TURN_TIME as int) + time
}

/// `q2` is `q1` with `e` inserted at some index.
pub open spec fn inserted(q1: Seq<TurnEntry>, q2: Seq<TurnEntry>, e: TurnEntry) -> bool {
    exists|k: int| 0 <= k <= q1.len() && q2 == q1.insert(k, e)
}

/// Index of the first entry for entity `e`, if any.
pub open spec fn first_index_of(q: Seq<TurnEntry>, e: u64, i: int) -> bool {
    &&& 0 <= i < q.len()
    &&& q[i].2 == e
    &&& forall|j: int| 0 <= j < i ==> (#[trigger] q[j]).2 != e
}

/// Whether entity `e` has an entry in `q`.
pub open spec fn has_entity(q: Seq<TurnEntry>, e: u64) -> bool {
    exists|i: int| 0 <= i < q.len() && (#[trigger] q[i]).2 == e
}

/// Time units from (turn, time) until (target_turn, target_time); 0 when
/// the target lies in the past.
pub open spec fn time_until_spec(turn: int, time: int, target_turn: int, target_time: int) -> int {
    if target_turn < turn || (target_turn == turn && target_time < time) {
        0
    } else {
        abs_time(target_turn, target_time) - abs_time(turn, time)
    }
}

/// Cleanup period used for the given world entity count and queue length.
pub open spec fn cleanup_period(threshold: int, entity_count: int, queue_size: int) -> int {
    if entity_count > 1000 || queue_size > 500 {
        threshold / 2
    } else if entity_count < 100 && queue_size < 50 {
        threshold * 2
    } else {
        threshold
    }
}

/// Entries of `q` whose entity is listed in `valid`, in order.
pub open spec fn live_entries(q: Seq<TurnEntry>, valid: Seq<u64>) -> Seq<TurnEntry> {
    q.filter(|e: TurnEntry| valid.contains(e.2))
}

/// Entry `b` follows entry `a` in the queue although it is earlier in
/// (turn, time).
pub open spec fn order_violation(a: TurnEntry, b: TurnEntry) -> bool {
    b.0 < a.0 || (b.0 == a.0 && b.1 < a.1)
}

/// No entry comes after an earlier one, and every time lies within a turn.
pub open spec fn queue_integrity(q: Seq<TurnEntry>) -> bool {
    &&& forall|i: int| 0 < i < q.len() ==> !order_violation(q[i - 1], #[trigger] q[i])
    &&& times_in_turn(q)
}

/// Text reporting that an entry comes after a later one:
/// `Queue order violation: (T, S, E) comes after (LT, LS, _)` with the
/// numbers in decimal.
pub open spec fn order_violation_text(
    turn: u32,
    time: u32,
    entity: u64,
    last_turn: u32,
    last_time: u32,
) -> Seq<char> {
    seq!['Q', 'u', 'e', 'u', 'e', ' ', 'o', 'r', 'd', 'e', 'r', ' ', 'v', 'i', 'o', 'l', 'a', 't', 'i', 'o', 'n', ':', ' ', '('] + decimal(turn as nat) + seq![',', ' '] + decimal(time as nat) + seq![',', ' '] + decimal(entity as nat) + seq![')', ' ', 'c', 'o', 'm', 'e', 's', ' ', 'a', 'f', 't', 'e', 'r', ' ', '(']
        + decimal(last_turn as nat) + seq![',', ' '] + decimal(last_time as nat) + seq![',', ' ', '_', ')']
}

/// Text reporting a time value at or beyond the turn length `turn_time`:
/// `Invalid time value: entity E has time S >= TURN_TIME (T)` with the
/// numbers in decimal.
pub open spec fn invalid_time_text(entity: u64, time: u32, turn_time: u32) -> Seq<char> {
    seq!['I', 'n', 'v', 'a', 'l', 'i', 'd', ' ', 't', 'i', 'm', 'e', ' ', 'v', 'a', 'l', 'u', 'e', ':', ' ', 'e', 'n', 't', 'i', 't', 'y', ' '] + decimal(entity as nat) + seq![' ', 'h', 'a', 's', ' ', 't', 'i', 'm', 'e', ' '] + decimal(time as nat) + seq![' ', '>', '=', ' ', 'T', 'U', 'R', 'N', '_', 'T', 'I', 'M', 'E', ' ', '('] + decimal(turn_time as nat) + seq![')']
}

/// Formats the order-violation report with `format!`, which writes the
/// integers in decimal: the result is `order_violation_text` of the
/// arguments.
#[verifier::external_body]
fn order_violation_message(turn: u32, time: u32, entity: u64, last_turn: u32, last_time: u32) -> (s:
    String)
    ensures
        s@ == order_violation_text(turn, time, entity, last_turn, last_time),
{
    format!("Queue order violation: ({turn}, {time}, {entity}) comes after ({last_turn}, {last_time}, _)")
}

/// Formats the invalid-time report with `format!`, which writes the
/// integers in decimal: the result is `invalid_time_text` of the arguments.
#[verifier::external_body]
fn invalid_time_message(entity: u64, time: u32, turn_time: u32) -> (s: String)
    ensures
        s@ == invalid_time_text(entity, time, turn_time),
{
    format!("Invalid time value: entity {entity} has time {time} >= TURN_TIME ({turn_time})")
}

/// Whether `v` holds `x`.
fn contains_id(v: &Vec<u64>, x: u64) -> (r: bool)
    ensures
        r == v@.contains(x),
{
    let n = v.len();
    let mut i: usize = 0;
    while i < n
        invariant
            n == v.len(),
            i <= n,
            forall|j: int| 0 <= j < i ==> v@[j] != x,
        decreases n - i,
    {
        if v[i] == x {
            return true;
        }
        i = i + 1;
    }
    false
}

/// Measured duration of a cleanup pass (an opaque std value).
#[verifier::external_type_specification]
#[verifier::external_body]
pub struct ExInstant(std::time::Instant);

/// Reads the monotonic clock via `std::time::Instant::now`; nothing is claimed
/// of the value, which depends on the moment of the call.
#[verifier::external_body]
pub(crate) fn instant_now() -> std::time::Instant {
    std::time::Instant::now()
}

/// Calls `std::time::Instant::elapsed`; nothing is claimed of the duration,
/// which depends on the clock.
#[verifier::external_body]
pub(crate) fn elapsed_since(start: &std::time::Instant) -> std::time::Duration {
    start.elapsed()
}

/// Returns `std::time::Duration::ZERO`; the value is opaque to Verus.
#[verifier::external_body]
fn zero_duration() -> std::time::Duration {
    std::time::Duration::ZERO
}

/// Scheduler of entity turns: a priority queue of (turn, time, entity)
/// entries, earliest first, plus the current game clock.
pub struct TurnManager {
    turn_number: u32,
    current_time: u32,
    turn_queue: Vec<TurnEntry>,
    operations_since_cleanup: u32,
    cleanup_threshold: u32,
    total_cleanups: u64,
    total_entities_removed: u64,
    total_turns_processed: u64,
    last_cleanup_duration: std::time::Duration,
    max_queue_size: usize,
}

/// Result of one call of `cleanup_dead_entities`.
pub struct CleanupMetrics {
    pub entities_removed: usize,
    pub queue_size_before: usize,
    pub queue_size_after: usize,
    pub processing_time: std::time::Duration,
}

/// Snapshot of the turn manager's counters.
pub struct TurnManagerStats {
    pub current_turn: u32,
    pub current_time: u32,
    pub queue_size: usize,
    pub total_cleanups: u64,
    pub total_entities_removed: u64,
    pub total_turns_processed: u64,
    pub last_cleanup_duration: std::time::Duration,
    pub operations_since_cleanup: u32,
    pub cleanup_threshold: u32,
}

/// Outcome of `validate_queue_integrity`.
pub struct QueueValidationResult {
    pub is_valid: bool,
    pub issues: Vec<String>,
    pub queue_size: usize,
}

impl CleanupMetrics {
    /// Metrics of a pass that did nothing.
    pub fn empty() -> (m: CleanupMetrics)
        ensures
            m.entities_removed == 0,
            m.queue_size_before == 0,
            m.queue_size_after == 0,
    {
        CleanupMetrics {
            entities_removed: 0,
            queue_size_before: 0,
            queue_size_after: 0,
            processing_time: zero_duration(),
        }
    }
}

/// Exec form of `entry_lt`.
fn entry_less(a: TurnEntry, b: TurnEntry) -> (r: bool)
    ensures
        r == entry_lt(a, b),
{
    a.0 < b.0 || (a.0 == b.0 && a.1 < b.1) || (a.0 == b.0 && a.1 == b.1 && a.2 < b.2)
}

/// Inserts `e` into the sorted vector `q`, after every entry not greater than it.
fn insert_sorted(q: &mut Vec<TurnEntry>, e: TurnEntry)
    requires
        sorted_entries(old(q)@),
    ensures
        sorted_entries(final(q)@),
        inserted(old(q)@, final(q)@, e),
{
    let n = q.len();
    let mut k: usize = 0;
    while k < n && !entry_less(e, q[k])
        invariant
            n == q.len(),
            k <= n,
            forall|i: int| 0 <= i < k ==> entry_le(#[trigger] q@[i], e),
        decreases n - k,
    {
        k = k + 1;
    }
    let ghost q0 = q@;
    q.insert(k, e);
    assert(q@ == q0.insert(k as int, e));
    assert forall|i: int, j: int| 0 <= i < j < q@.len() implies entry_le(
        #[trigger] q@[i],
        #[trigger] q@[j],
    ) by {
        if j < k {
        } else if i < k && j == k {
        } else if i < k && j > k {
            assert(q@[j] == q0[j - 1]);
            assert(entry_lt(e, q0[k as int]));
            assert(entry_le(q0[k as int], q0[j - 1]));
        } else if i == k {
            assert(q@[j] == q0[j - 1]);
            assert(entry_le(q0[k as int], q0[j - 1]));
        } else {
            assert(q@[i] == q0[i - 1]);
            assert(q@[j] == q0[j - 1]);
        }
    }
}

/// Inserting an entry whose time lies within a turn keeps all times within a turn.
proof fn lemma_inserted_times(q1: Seq<TurnEntry>, q2: Seq<TurnEntry>, e: TurnEntry)
    requires
        times_in_turn(q1),
        e.1 < TURN_TIME,
        inserted(q1, q2, e),
    ensures
        times_in_turn(q2),
{
    let k = choose|k: int| 0 <= k <= q1.len() && q2 == q1.insert(k, e);
    assert forall|i: int| 0 <= i < q2.len() implies (#[trigger] q2[i]).1 < TURN_TIME by {
        if i < k {
            assert(q2[i] == q1[i]);
        } else if i > k {
            assert(q2[i] == q1[i - 1]);
        }
    }
}

impl TurnManager {
    /// The queued entries, earliest first.
    pub closed spec fn queue(&self) -> Seq<TurnEntry> {
        self.turn_queue@
    }

    pub closed spec fn turn(&self) -> u32 {
        self.turn_number
    }

    pub closed spec fn time(&self) -> u32 {
        self.current_time
    }

    pub closed spec fn max_size(&self) -> usize {
        self.max_queue_size
    }

    pub closed spec fn threshold(&self) -> u32 {
        self.cleanup_threshold
    }

    pub closed spec fn ops_since_cleanup(&self) -> u32 {
        self.operations_since_cleanup
    }

    pub closed spec fn cleanups(&self) -> u64 {
        self.total_cleanups
    }

    pub closed spec fn entities_removed(&self) -> u64 {
        self.total_entities_removed
    }

    pub closed spec fn turns_processed(&self) -> u64 {
        self.total_turns_processed
    }

    /// The queue is sorted, every queued time and the current time lie
    /// within a turn.
    pub closed spec fn wf(&self) -> bool {
        &&& sorted_entries(self.turn_queue@)
        &&& times_in_turn(self.turn_queue@)
        &&& self.current_time < TURN_TIME
    }

    /// Fields other than the queue and the clock are those of `other`.
    pub open spec fn same_counters(&self, other: &TurnManager) -> bool {
        &&& self.max_size() == other.max_size()
        &&& self.threshold() == other.threshold()
        &&& self.ops_since_cleanup() == other.ops_since_cleanup()
        &&& self.cleanups() == other.cleanups()
        &&& self.entities_removed() == other.entities_removed()
        &&& self.turns_processed() == other.turns_processed()
    }

    /// Fields other than the queue are those of `other`.
    pub open spec fn same_but_queue(&self, other: &TurnManager) -> bool {
        &&& self.same_counters(other)
        &&& self.turn() == other.turn()
        &&& self.time() == other.time()
    }

    /// A manager at turn 0, time 0, with an empty queue of capacity 10000
    /// and cleanup threshold 100.
    pub fn new() -> (tm: TurnManager)
        ensures
            tm.wf(),
            tm.queue() == Seq::<TurnEntry>::empty(),
            tm.turn() == 0,
            tm.time() == 0,
            tm.max_size() == 10000,
            tm.threshold() == 100,
            tm.ops_since_cleanup() == 0,
            tm.cleanups() == 0,
            tm.entities_removed() == 0,
            tm.turns_processed() == 0,
    {
        TurnManager {
            turn_number: 0,
            current_time: 0,
            total_cleanups: 0,
            max_queue_size: 10000,
            cleanup_threshold: 100,
            total_turns_processed: 0,
            total_entities_removed: 0,
            operations_since_cleanup: 0,
            turn_queue: Vec::new(),
            last_cleanup_duration: zero_duration(),
        }
    }

    /// A new manager with the given cleanup threshold and queue capacity.
    pub fn with_config(cleanup_threshold: u32, max_queue_size: usize) -> (tm: TurnManager)
        ensures
            tm.wf(),
            tm.queue() == Seq::<TurnEntry>::empty(),
            tm.turn() == 0,
            tm.time() == 0,
            tm.max_size() == max_queue_size,
            tm.threshold() == cleanup_threshold,
            tm.ops_since_cleanup() == 0,
            tm.cleanups() == 0,
            tm.entities_removed() == 0,
            tm.turns_processed() == 0,
    {
        let mut tm = TurnManager::new();
        tm.cleanup_threshold = cleanup_threshold;
        tm.max_queue_size = max_queue_size;
        tm
    }

    /// Queues `entity` at the current turn and time; fails with `QueueFull`,
    /// changing nothing, when the queue is at capacity.
    pub fn add_entity(&mut self, entity: u64) -> (r: Result<(), GameError>)
        requires
            old(self).wf(),
        ensures
            final(self).wf(),
            final(self).same_but_queue(&*old(self)),
            old(self).queue().len() >= old(self).max_size() ==> r == Err::<(), GameError>(
                GameError::QueueFull,
            ) && final(self).queue() == old(self).queue(),
            old(self).queue().len() < old(self).max_size() ==> r is Ok && inserted(
                old(self).queue(),
                final(self).queue(),
                (old(self).turn(), old(self).time(), entity),
            ),
    {
        if self.turn_queue.len() >= self.max_queue_size {
            return Err(GameError::QueueFull);
        }
        let e = (self.turn_number, self.current_time, entity);
        insert_sorted(&mut self.turn_queue, e);
        proof {
            lemma_inserted_times(old(self).queue(), self.turn_queue@, e);
        }
        Ok(())
    }

    /// Removes the earliest entry of `target_entity`; returns whether there
    /// was one.
    pub fn remove_entity(&mut self, target_entity: u64) -> (found: bool)
        requires
            old(self).wf(),
        ensures
            final(self).wf(),
            final(self).same_but_queue(&*old(self)),
            found == has_entity(old(self).queue(), target_entity),
            !found ==> final(self).queue() == old(self).queue(),
            found ==> exists|i: int|
                first_index_of(old(self).queue(), target_entity, i) && final(self).queue()
                    == old(self).queue().remove(i),
    {
        let n = self.turn_queue.len();
        let mut i: usize = 0;
        while i < n
            invariant
                n == self.turn_queue.len(),
                i <= n,
                self.turn_queue@ == old(self).queue(),
                self.wf(),
                self.same_but_queue(&*old(self)),
                forall|j: int| 0 <= j < i ==> (#[trigger] self.turn_queue@[j]).2 != target_entity,
            decreases n - i,
        {
            if self.turn_queue[i].2 == target_entity {
                let ghost q0 = self.turn_queue@;
                self.turn_queue.remove(i);
                proof {
                    assert(first_index_of(q0, target_entity, i as int));
                    assert forall|a: int, b: int|
                        0 <= a < b < self.turn_queue@.len() implies entry_le(
                        #[trigger] self.turn_queue@[a],
                        #[trigger] self.turn_queue@[b],
                    ) by {
                        let a0 = if a < i { a } else { a + 1 };
                        let b0 = if b < i { b } else { b + 1 };
                        assert(self.turn_queue@[a] == q0[a0]);
                        assert(self.turn_queue@[b] == q0[b0]);
                    }
                    assert forall|a: int| 0 <= a < self.turn_queue@.len() implies (
                    #[trigger] self.turn_queue@[a]).1 < TURN_TIME by {
                        let a0 = if a < i { a } else { a + 1 };
                        assert(self.turn_queue@[a] == q0[a0]);
                    }
                }
                return true;
            }
            i = i + 1;
        }
        false
    }

    /// Empties the queue and sets the time within the turn to 0; the turn
    /// number is reset to 0 too when `reset_turn_number` holds.
    pub fn clear_entities(&mut self, reset_turn_number: bool)
        requires
            old(self).wf(),
        ensures
            final(self).wf(),
            final(self).same_counters(&*old(self)),
            final(self).queue() == Seq::<TurnEntry>::empty(),
            final(self).time() == 0,
            final(self).turn() == (if reset_turn_number { 0 } else { old(self).turn() }),
    {
        if reset_turn_number {
            self.turn_number = 0;
        }
        self.current_time = 0;
        self.turn_queue.clear();
    }

    /// Takes the earliest entry off the queue, moves the clock to its turn
    /// and time, counts the turn, and returns its entity; `None` with nothing
    /// changed when the queue is empty.
    pub fn start_entity_turn(&mut self) -> (r: Option<u64>)
        requires
            old(self).wf(),
            old(self).turns_processed() < u64::MAX,
        ensures
            final(self).wf(),
            old(self).queue().len() == 0 ==> r is None && *final(self) == *old(self),
            old(self).queue().len() > 0 ==> {
                let e = old(self).queue()[0];
                &&& r == Some(e.2)
                &&& final(self).queue() == old(self).queue().drop_first()
                &&& final(self).turn() == e.0
                &&& final(self).time() == e.1
                &&& final(self).turns_processed() == old(self).turns_processed() + 1
                &&& final(self).max_size() == old(self).max_size()
                &&& final(self).threshold() == old(self).threshold()
                &&& final(self).ops_since_cleanup() == old(self).ops_since_cleanup()
                &&& final(self).cleanups() == old(self).cleanups()
                &&& final(self).entities_removed() == old(self).entities_removed()
            },
    {
        if self.turn_queue.len() == 0 {
            return None;
        }
        let ghost q0 = self.turn_queue@;
        let (turn_number, current_time, entity) = self.turn_queue.remove(0);
        proof {
            assert(self.turn_queue@ == q0.drop_first());
            assert forall|a: int, b: int| 0 <= a < b < self.turn_queue@.len() implies entry_le(
                #[trigger] self.turn_queue@[a],
                #[trigger] self.turn_queue@[b],
            ) by {
                assert(self.turn_queue@[a] == q0[a + 1]);
                assert(self.turn_queue@[b] == q0[b + 1]);
            }
            assert forall|a: int| 0 <= a < self.turn_queue@.len() implies (
            #[trigger] self.turn_queue@[a]).1 < TURN_TIME by {
                assert(self.turn_queue@[a] == q0[a + 1]);
            }
            assert(q0[0].1 < TURN_TIME);
        }
        self.turn_number = turn_number;
        self.current_time = current_time;
        self.total_turns_processed = self.total_turns_processed + 1;
        Some(entity)
    }

    /// The (turn, time) reached by spending `time_spent` units from now.
    pub fn calculate_next_turn_time(&self, time_spent: u32) -> (r: (u32, u32))
        requires
            self.wf(),
            self.time() + time_spent <= u32::MAX,
            self.turn() + (self.time() + time_spent) / (TURN_TIME as int) <= u32::MAX,
        ensures
            r.1 < TURN_TIME,
            r.0 == self.turn() + (self.time() + time_spent) / (TURN_TIME as int),
            r.1 == (self.time() + time_spent) % (TURN_TIME as int),
            abs_time(r.0 as int, r.1 as int) == abs_time(self.turn() as int, self.time() as int)
                + time_spent,
    {
        let total = self.current_time + time_spent;
        let next_turn = self.turn_number + total / TURN_TIME;
        let next_time = total % TURN_TIME;
        (next_turn, next_time)
    }

    /// Spending `time_spent` units from now keeps the turn and the time
    /// within `u32`.
    pub open spec fn can_spend(&self, time_spent: int) -> bool {
        &&& self.time() + time_spent <= u32::MAX
        &&& self.turn() + (self.time() + time_spent) / (TURN_TIME as int) <= u32::MAX
    }

    /// `new` is `self` after `entity` ended its turn having spent `time_spent`
    /// units: unless the queue is at capacity (then nothing changes), an entry
    /// for `entity` is inserted `time_spent` units after the current moment.
    pub open spec fn ended_turn(&self, new: &TurnManager, entity: u64, time_spent: int) -> bool {
        &&& new.wf()
        &&& new.same_but_queue(self)
        &&& self.queue().len() >= self.max_size() ==> new.queue() == self.queue()
        &&& self.queue().len() < self.max_size() ==> exists|e: TurnEntry|
            {
                &&& e.2 == entity
                &&& e.1 < TURN_TIME
                &&& abs_time(e.0 as int, e.1 as int) == abs_time(self.turn() as int, self.time() as int)
                    + time_spent
                &&& #[trigger] inserted(self.queue(), new.queue(), e)
            }
    }

    /// Schedules `entity` after it spent `time_spent` units: at the current
    /// turn and time when that is 0, else `time_spent` units later. Fails
    /// with `QueueFull`, changing nothing, when the queue is at capacity.
    pub fn end_entity_turn(&mut self, entity: u64, time_spent: u32) -> (r: Result<(), GameError>)
        requires
            old(self).wf(),
            time_spent > 0 ==> old(self).can_spend(time_spent as int),
        ensures
            old(self).ended_turn(&*final(self), entity, time_spent as int),
            old(self).queue().len() >= old(self).max_size() ==> r == Err::<(), GameError>(
                GameError::QueueFull,
            ),
            old(self).queue().len() < old(self).max_size() ==> r is Ok,
    {
        if self.turn_queue.len() >= self.max_queue_size {
            return Err(GameError::QueueFull);
        }
        let e = if time_spent == 0 {
            (self.turn_number, self.current_time, entity)
        } else {
            let (next_turn, next_time) = self.calculate_next_turn_time(time_spent);
            (next_turn, next_time, entity)
        };
        insert_sorted(&mut self.turn_queue, e);
        proof {
            lemma_inserted_times(old(self).queue(), self.turn_queue@, e);
            assert(abs_time(e.0 as int, e.1 as int) == abs_time(
                old(self).turn() as int,
                old(self).time() as int,
            ) + time_spent);
            assert(inserted(old(self).queue(), self.queue(), e));
            assert(e.2 == entity && e.1 < TURN_TIME);
        }
        Ok(())
    }

    /// Schedules `entity` at `turn` and `time`, carrying whole turns out of
    /// `time`. Fails with `QueueFull`, changing nothing, when the queue is at
    /// capacity.
    pub fn schedule_turn(&mut self, entity: u64, turn: u32, time: u32) -> (r: Result<(), GameError>)
        requires
            old(self).wf(),
            turn + time / TURN_TIME <= u32::MAX,
        ensures
            final(self).wf(),
            final(self).same_but_queue(&*old(self)),
            old(self).queue().len() >= old(self).max_size() ==> r == Err::<(), GameError>(
                GameError::QueueFull,
            ) && final(self).queue() == old(self).queue(),
            old(self).queue().len() < old(self).max_size() ==> r is Ok && inserted(
                old(self).queue(),
                final(self).queue(),
                (
                    (turn + time / TURN_TIME) as u32,
                    (time % TURN_TIME) as u32,
                    entity,
                ),
            ),
    {
        if self.turn_queue.len() >= self.max_queue_size {
            return Err(GameError::QueueFull);
        }
        let normalized_time = time % TURN_TIME;
        let actual_turn = turn + (time / TURN_TIME);
        let e = (actual_turn, normalized_time, entity);
        insert_sorted(&mut self.turn_queue, e);
        proof {
            lemma_inserted_times(old(self).queue(), self.turn_queue@, e);
        }
        Ok(())
    }

    /// Schedules `entity` at the current turn and time.
    pub fn schedule_now(&mut self, entity: u64) -> (r: Result<(), GameError>)
        requires
            old(self).wf(),
        ensures
            final(self).wf(),
            final(self).same_but_queue(&*old(self)),
            old(self).queue().len() >= old(self).max_size() ==> r == Err::<(), GameError>(
                GameError::QueueFull,
            ) && final(self).queue() == old(self).queue(),
            old(self).queue().len() < old(self).max_size() ==> r is Ok && inserted(
                old(self).queue(),
                final(self).queue(),
                (old(self).turn(), old(self).time(), entity),
            ),
    {
        let turn = self.turn_number;
        let time = self.current_time;
        self.schedule_turn(entity, turn, time)
    }

    pub fn is_empty(&self) -> (b: bool)
        ensures
            b == (self.queue().len() == 0),
    {
        self.turn_queue.len() == 0
    }

    pub fn current_turn(&self) -> (t: u32)
        ensures
            t == self.turn(),
    {
        self.turn_number
    }

    pub fn current_time(&self) -> (t: u32)
        ensures
            t == self.time(),
    {
        self.current_time
    }

    /// Number of queued entries.
    pub fn total_action_count(&self) -> (n: usize)
        ensures
            n == self.queue().len(),
    {
        self.turn_queue.len()
    }

    /// Capacity of the queue.
    pub fn max_queue_size(&self) -> (n: usize)
        ensures
            n == self.max_size(),
    {
        self.max_queue_size
    }

    /// The earliest entry, without removing it.
    pub fn peek_next(&self) -> (r: Option<TurnEntry>)
        ensures
            self.queue().len() == 0 ==> r is None,
            self.queue().len() > 0 ==> r == Some(self.queue()[0]),
    {
        if self.turn_queue.len() == 0 {
            None
        } else {
            Some(self.turn_queue[0])
        }
    }

    /// Whether `target_entity` has an entry in the queue.
    pub fn is_scheduled(&self, target_entity: u64) -> (b: bool)
        ensures
            b == has_entity(self.queue(), target_entity),
    {
        let n = self.turn_queue.len();
        let mut i: usize = 0;
        while i < n
            invariant
                n == self.turn_queue.len(),
                i <= n,
                forall|j: int| 0 <= j < i ==> (#[trigger] self.turn_queue@[j]).2 != target_entity,
            decreases n - i,
        {
            if self.turn_queue[i].2 == target_entity {
                return true;
            }
            i = i + 1;
        }
        false
    }

    /// Time units from now until `target_turn`/`target_time`; 0 when that
    /// moment has passed.
    pub fn time_until(&self, target_turn: u32, target_time: u32) -> (r: u32)
        requires
            self.wf(),
            time_until_spec(
                self.turn() as int,
                self.time() as int,
                target_turn as int,
                target_time as int,
            ) <= u32::MAX,
        ensures
            r == time_until_spec(
                self.turn() as int,
                self.time() as int,
                target_turn as int,
                target_time as int,
            ),
    {
        if target_turn < self.turn_number || (target_turn == self.turn_number && target_time
            < self.current_time) {
            return 0;
        }
        let turn_diff = target_turn - self.turn_number;
        if target_turn == self.turn_number {
            target_time - self.current_time
        } else {
            (TURN_TIME - self.current_time) + target_time + ((turn_diff - 1) * TURN_TIME)
        }
    }

    /// The (time, entity) of every entry at `target_turn`, in queue order.
    pub fn get_entities_for_turn(&self, target_turn: u32) -> (r: Vec<(u32, u64)>)
        ensures
            r@ == self.queue().filter(|e: TurnEntry| e.0 == target_turn).map_values(
                |e: TurnEntry| (e.1, e.2),
            ),
    {
        let ghost pred = |e: TurnEntry| e.0 == target_turn;
        let ghost f = |e: TurnEntry| (e.1, e.2);
        let mut r: Vec<(u32, u64)> = Vec::new();
        let n = self.turn_queue.len();
        let mut i: usize = 0;
        while i < n
            invariant
                n == self.turn_queue.len(),
                i <= n,
                r@ == self.turn_queue@.take(i as int).filter(pred).map_values(f),
                pred == (|e: TurnEntry| e.0 == target_turn),
                f == (|e: TurnEntry| (e.1, e.2)),
            decreases n - i,
        {
            let e = self.turn_queue[i];
            let ghost prev = self.turn_queue@.take(i as int);
            proof {
                assert(self.turn_queue@.take(i + 1) == prev.push(e));
                prev.lemma_filter_push(e, pred);
            }
            if e.0 == target_turn {
                r.push((e.1, e.2));
                assert(prev.filter(pred).push(e).map_values(f) =~= prev.filter(pred).map_values(
                    f,
                ).push(f(e)));
            }
            i = i + 1;
        }
        assert(self.turn_queue@.take(n as int) == self.turn_queue@);
        r
    }

    /// The first `count` entries (all of them if there are fewer), earliest
    /// first, without removing them.
    pub fn peek_next_entities(&self, count: usize) -> (r: Vec<TurnEntry>)
        ensures
            r@ == self.queue().take(
                if count < self.queue().len() {
                    count as int
                } else {
                    self.queue().len() as int
                },
            ),
    {
        let n = if count < self.turn_queue.len() {
            count
        } else {
            self.turn_queue.len()
        };
        let mut r: Vec<TurnEntry> = Vec::new();
        let mut i: usize = 0;
        while i < n
            invariant
                n <= self.turn_queue.len(),
                i <= n,
                r@ == self.turn_queue@.take(i as int),
            decreases n - i,
        {
            r.push(self.turn_queue[i]);
            i = i + 1;
            assert(r@ == self.turn_queue@.take(i as int));
        }
        r
    }

    /// Moves the clock forward to `target_turn`/`target_time` (whole turns
    /// carried out of the time); a target not later than now changes nothing.
    pub fn advance_to(&mut self, target_turn: u32, target_time: u32)
        requires
            old(self).wf(),
            target_turn + target_time / TURN_TIME <= u32::MAX,
        ensures
            final(self).wf(),
            final(self).same_counters(&*old(self)),
            final(self).queue() == old(self).queue(),
            ({
                let t = target_turn + target_time / TURN_TIME;
                let s = target_time % TURN_TIME;
                if t > old(self).turn() || (t == old(self).turn() && s > old(self).time()) {
                    final(self).turn() == t && final(self).time() == s
                } else {
                    final(self).turn() == old(self).turn() && final(self).time() == old(self).time()
                }
            }),
    {
        let normalized_time = target_time % TURN_TIME;
        let actual_turn = target_turn + (target_time / TURN_TIME);
        if actual_turn > self.turn_number || (actual_turn == self.turn_number && normalized_time
            > self.current_time) {
            self.turn_number = actual_turn;
            self.current_time = normalized_time;
        }
    }

    /// Cleanup period for the current queue and `entity_count` world entities.
    pub fn get_cleanup_threshold(&self, entity_count: usize) -> (r: u32)
        requires
            entity_count < 100 && self.queue().len() < 50 ==> self.threshold() * 2 <= u32::MAX,
        ensures
            r == cleanup_period(
                self.threshold() as int,
                entity_count as int,
                self.queue().len() as int,
            ),
    {
        let queue_size = self.turn_queue.len();
        if entity_count > 1000 || queue_size > 500 {
            self.cleanup_threshold / 2
        } else if entity_count < 100 && queue_size < 50 {
            self.cleanup_threshold * 2
        } else {
            self.cleanup_threshold
        }
    }

    /// Counts one more operation, and once the cleanup period for the world's
    /// `entity_count` entities is reached drops every entry whose entity is
    /// not in `valid_entities` (keeping queue order) and resets the count.
    pub fn cleanup_dead_entities(&mut self, entity_count: usize, valid_entities: &Vec<u64>) -> (m:
        CleanupMetrics)
        requires
            old(self).wf(),
            entity_count < 100 && old(self).queue().len() < 50 ==> old(self).threshold() * 2
                <= u32::MAX,
            old(self).cleanups() < u64::MAX,
            old(self).entities_removed() + old(self).queue().len() <= u64::MAX,
        ensures
            final(self).wf(),
            final(self).turn() == old(self).turn(),
            final(self).time() == old(self).time(),
            final(self).max_size() == old(self).max_size(),
            final(self).threshold() == old(self).threshold(),
            final(self).turns_processed() == old(self).turns_processed(),
            ({
                let period = cleanup_period(
                    old(self).threshold() as int,
                    entity_count as int,
                    old(self).queue().len() as int,
                );
                if old(self).ops_since_cleanup() < period {
                    &&& final(self).queue() == old(self).queue()
                    &&& final(self).ops_since_cleanup() == old(self).ops_since_cleanup() + 1
                    &&& final(self).cleanups() == old(self).cleanups()
                    &&& final(self).entities_removed() == old(self).entities_removed()
                    &&& m.entities_removed == 0
                    &&& m.queue_size_before == 0
                    &&& m.queue_size_after == 0
                } else {
                    &&& final(self).queue() == live_entries(old(self).queue(), valid_entities@)
                    &&& final(self).ops_since_cleanup() == 0
                    &&& final(self).cleanups() == old(self).cleanups() + 1
                    &&& final(self).entities_removed() == old(self).entities_removed()
                        + m.entities_removed
                    &&& m.queue_size_before == old(self).queue().len()
                    &&& m.queue_size_after == final(self).queue().len()
                    &&& m.entities_removed == m.queue_size_before - m.queue_size_after
                }
            }),
    {
        let period = self.get_cleanup_threshold(entity_count);
        if self.operations_since_cleanup < period {
            self.operations_since_cleanup = self.operations_since_cleanup + 1;
            return CleanupMetrics::empty();
        }
        let start_time = instant_now();
        let queue_size_before = self.turn_queue.len();
        let ghost q = self.turn_queue@;
        let ghost p = |e: TurnEntry| valid_entities@.contains(e.2);
        let mut new_queue: Vec<TurnEntry> = Vec::new();
        let mut removed_count: usize = 0;
        let n = self.turn_queue.len();
        let mut i: usize = 0;
        while i < n
            invariant
                n == q.len(),
                self.turn_queue@ == q,
                sorted_entries(q),
                times_in_turn(q),
                i <= n,
                p == (|e: TurnEntry| valid_entities@.contains(e.2)),
                new_queue@ == q.take(i as int).filter(p),
                removed_count + new_queue@.len() == i,
                sorted_entries(new_queue@),
                times_in_turn(new_queue@),
                forall|a: int, j: int|
                    0 <= a < new_queue@.len() && i <= j < n ==> entry_le(
                        #[trigger] new_queue@[a],
                        #[trigger] q[j],
                    ),
            decreases n - i,
        {
            let e = self.turn_queue[i];
            let ghost prev = q.take(i as int);
            proof {
                assert(q.take(i + 1) == prev.push(e));
                prev.lemma_filter_push(e, p);
            }
            if contains_id(valid_entities, e.2) {
                new_queue.push(e);
                assert forall|a: int, j: int|
                    0 <= a < new_queue@.len() && i + 1 <= j < n implies entry_le(
                    #[trigger] new_queue@[a],
                    #[trigger] q[j],
                ) by {
                    if a < new_queue@.len() - 1 {
                        assert(entry_le(new_queue@[a], q[i as int]));
                    }
                }
            } else {
                removed_count = removed_count + 1;
            }
            i = i + 1;
        }
        assert(q.take(n as int) == q);
        self.turn_queue = new_queue;
        self.operations_since_cleanup = 0;
        self.total_cleanups = self.total_cleanups + 1;
        self.total_entities_removed = self.total_entities_removed + removed_count as u64;
        let processing_time = elapsed_since(&start_time);
        self.last_cleanup_duration = processing_time;
        CleanupMetrics {
            entities_removed: removed_count,
            queue_size_before,
            queue_size_after: self.turn_queue.len(),
            processing_time,
        }
    }

    /// Current counters of the manager.
    pub fn get_statistics(&self) -> (st: TurnManagerStats)
        ensures
            st.current_turn == self.turn(),
            st.current_time == self.time(),
            st.queue_size == self.queue().len(),
            st.total_cleanups == self.cleanups(),
            st.total_entities_removed == self.entities_removed(),
            st.total_turns_processed == self.turns_processed(),
            st.operations_since_cleanup == self.ops_since_cleanup(),
            st.cleanup_threshold == self.threshold(),
    {
        TurnManagerStats {
            current_turn: self.turn_number,
            current_time: self.current_time,
            queue_size: self.turn_queue.len(),
            total_cleanups: self.total_cleanups,
            total_entities_removed: self.total_entities_removed,
            total_turns_processed: self.total_turns_processed,
            last_cleanup_duration: self.last_cleanup_duration,
            operations_since_cleanup: self.operations_since_cleanup,
            cleanup_threshold: self.cleanup_threshold,
        }
    }

    pub fn set_cleanup_threshold(&mut self, threshold: u32)
        requires
            old(self).wf(),
        ensures
            final(self).wf(),
            final(self).threshold() == threshold,
            final(self).queue() == old(self).queue(),
            final(self).turn() == old(self).turn(),
            final(self).time() == old(self).time(),
            final(self).max_size() == old(self).max_size(),
            final(self).ops_since_cleanup() == old(self).ops_since_cleanup(),
            final(self).cleanups() == old(self).cleanups(),
            final(self).entities_removed() == old(self).entities_removed(),
            final(self).turns_processed() == old(self).turns_processed(),
    {
        self.cleanup_threshold = threshold;
    }

    pub fn set_max_queue_size(&mut self, max_size: usize)
        requires
            old(self).wf(),
        ensures
            final(self).wf(),
            final(self).max_size() == max_size,
            final(self).queue() == old(self).queue(),
            final(self).turn() == old(self).turn(),
            final(self).time() == old(self).time(),
            final(self).threshold() == old(self).threshold(),
            final(self).ops_since_cleanup() == old(self).ops_since_cleanup(),
            final(self).cleanups() == old(self).cleanups(),
            final(self).entities_removed() == old(self).entities_removed(),
            final(self).turns_processed() == old(self).turns_processed(),
    {
        self.max_queue_size = max_size;
    }

    /// Checks, in queue order, that no entry comes after a later one and
    /// that every time lies within a turn; one issue text per problem found.
    pub fn validate_queue_integrity(&self) -> (r: QueueValidationResult)
        ensures
            r.is_valid == queue_integrity(self.queue()),
            r.is_valid == (r.issues@.len() == 0),
            r.queue_size == self.queue().len(),
    {
        let mut issues: Vec<String> = Vec::new();
        let mut last_turn: u32 = 0;
        let mut last_time: u32 = 0;
        let mut is_first = true;
        let n = self.turn_queue.len();
        let mut i: usize = 0;
        while i < n
            invariant
                n == self.turn_queue.len(),
                i <= n,
                is_first == (i == 0),
                i > 0 ==> last_turn == self.turn_queue@[i - 1].0 && last_time
                    == self.turn_queue@[i - 1].1,
                (issues@.len() == 0) == (forall|k: int|
                    0 < k < i ==> !order_violation(
                        self.turn_queue@[k - 1],
                        #[trigger] self.turn_queue@[k],
                    )),
            decreases n - i,
        {
            let (turn, time, entity) = self.turn_queue[i];
            if !is_first && (turn < last_turn || (turn == last_turn && time < last_time)) {
                let msg = order_violation_message(turn, time, entity, last_turn, last_time);
                issues.push(msg);
            }
            last_turn = turn;
            last_time = time;
            is_first = false;
            i = i + 1;
        }
        let ghost order_ok = issues@.len() == 0;
        let mut j: usize = 0;
        while j < n
            invariant
                n == self.turn_queue.len(),
                j <= n,
                (issues@.len() == 0) == (order_ok && forall|k: int|
                    0 <= k < j ==> (#[trigger] self.turn_queue@[k]).1 < TURN_TIME),
            decreases n - j,
        {
            let (_turn, time, entity) = self.turn_queue[j];
            if time >= TURN_TIME {
                let msg = invalid_time_message(entity, time, TURN_TIME);
                issues.push(msg);
            }
            j = j + 1;
        }
        let is_valid = issues.len() == 0;
        QueueValidationResult { is_valid, issues, queue_size: self.turn_queue.len() }
    }
}

impl Default for TurnManager {
    /// A manager whose every field is zero or empty: turn 0, time 0, empty
    /// queue of capacity 0, cleanup threshold 0.
    fn default() -> (tm: TurnManager)
        ensures
            tm.wf(),
            tm.queue() == Seq::<TurnEntry>::empty(),
            tm.turn() == 0,
            tm.time() == 0,
            tm.max_size() == 0,
            tm.threshold() == 0,
            tm.ops_since_cleanup() == 0,
            tm.cleanups() == 0,
            tm.entities_removed() == 0,
            tm.turns_processed() == 0,
    {
        TurnManager {
            turn_number: 0,
            current_time: 0,
            turn_queue: Vec::new(),
            operations_since_cleanup: 0,
            cleanup_threshold: 0,
            total_cleanups: 0,
            total_entities_removed: 0,
            total_turns_processed: 0,
            last_cleanup_duration: zero_duration(),
            max_queue_size: 0,
        }
    }
}

/// A well-formed manager always passes its own integrity check: no entry
/// comes after a later one and every time lies within a turn.
pub proof fn lemma_wf_queue_integrity(tm: &TurnManager)
    requires
        tm.wf(),
    ensures
        queue_integrity(tm.queue()),
{
    let q = tm.queue();
    assert forall|i: int| 0 < i < q.len() implies !order_violation(q[i - 1], #[trigger] q[i]) by {
        assert(entry_le(q[i - 1], q[i]));
    }
}

/// The queue of a well-formed manager is sorted by (turn, time, entity),
/// earliest first, and every queued time, and the current time, lies within
/// a turn.
pub proof fn lemma_queue_sorted(tm: &TurnManager)
    requires
        tm.wf(),
    ensures
        sorted_entries(tm.queue()),
        times_in_turn(tm.queue()),
        tm.time() < TURN_TIME,
{
}

/// The entity whose turn starts next is the earliest in the queue: the
/// front entry comes no later than any other.
pub proof fn lemma_front_is_earliest(tm: &TurnManager)
    requires
        tm.wf(),
        tm.queue().len() > 0,
    ensures
        forall|i: int| 0 <= i < tm.queue().len() ==> entry_le(tm.queue()[0], #[trigger] tm.queue()[i]),
{
    let q = tm.queue();
    assert forall|i: int| 0 <= i < q.len() implies entry_le(q[0], #[trigger] q[i]) by {
        if i > 0 {
            assert(entry_le(q[0], q[i]));
        }
    }
}

/// Adding an entity that was not scheduled and then removing it gives back
/// the queue as it was: the entry removed is the one added.
pub proof fn lemma_add_then_remove(
    q1: Seq<TurnEntry>,
    q2: Seq<TurnEntry>,
    added: TurnEntry,
    i: int,
)
    requires
        !has_entity(q1, added.2),
        inserted(q1, q2, added),
        first_index_of(q2, added.2, i),
    ensures
        q2.remove(i) == q1,
{
    let k = choose|k: int| 0 <= k <= q1.len() && q2 == q1.insert(k, added);
    assert(q2[k] == added);
    if i < k {
        assert(q2[i] == q1[i]);
        assert(q1[i].2 == added.2);
    } else if i > k {
        assert(q2[k].2 == added.2);
    }
    assert(i == k);
    assert(q2.remove(i) =~= q1);
}

/// After the clock is advanced to a moment, that moment is due: no time is
/// left until it (whether the clock moved or the moment had already passed).
pub proof fn lemma_advance_then_due(
    turn: int,
    time: int,
    target_turn: int,
    target_time: int,
    new_turn: int,
    new_time: int,
)
    requires
        (if target_turn > turn || (target_turn == turn && target_time > time) {
            new_turn == target_turn && new_time == target_time
        } else {
            new_turn == turn && new_time == time
        }),
    ensures
        time_until_spec(new_turn, new_time, target_turn, target_time) == 0,
{
}

/// An entity that ends its turn is queued no earlier than the current
/// moment: its (turn, time) is at or after the clock.
pub proof fn lemma_end_turn_not_in_past(tm: &TurnManager, entity: u64, time_spent: int, e: TurnEntry)
    requires
        tm.wf(),
        time_spent >= 0,
        e.1 < TURN_TIME,
        abs_time(e.0 as int, e.1 as int) == abs_time(tm.turn() as int, tm.time() as int) + time_spent,
    ensures
        !order_violation((tm.turn(), tm.time(), entity), e),
{
    assert(tm.time() < TURN_TIME);
    if e.0 < tm.turn() {
        assert(e.0 * 100 + e.1 < tm.turn() * 100) by (nonlinear_arith)
            requires
                e.0 < tm.turn(),
                e.1 < 100,
                0 <= e.0,
        ;
    }
}

/// A cleanup pass in which every queued entity is still valid keeps the
/// queue as it was.
pub proof fn lemma_cleanup_keeps_live(q: Seq<TurnEntry>, valid: Seq<u64>)
    requires
        forall|i: int| 0 <= i < q.len() ==> valid.contains(#[trigger] q[i].2),
    ensures
        live_entries(q, valid) == q,
    decreases q.len(),
{
    let p = |e: TurnEntry| valid.contains(e.2);
    if q.len() > 0 {
        lemma_cleanup_keeps_live(q.drop_last(), valid);
        assert(q.drop_last().push(q.last()) =~= q);
        q.drop_last().lemma_filter_push(q.last(), p);
        assert(valid.contains(q[q.len() - 1].2));
    } else {
        assert(q.filter(p) =~= q);
    }
}

/// Entry `e` is at or after the moment (turn, time).
pub open spec fn not_before(e: TurnEntry, turn: int, time: int) -> bool {
    e.0 > turn || (e.0 == turn && e.1 >= time)
}

/// No queued entry lies before the manager's clock.
pub open spec fn no_past_entries(tm: &TurnManager) -> bool {
    forall|i: int|
        0 <= i < tm.queue().len() ==> not_before(#[trigger] tm.queue()[i], tm.turn() as int, tm.time() as int)
}

/// Starting the next turn never moves the clock backwards, and leaves no
/// entry in the past, when none was.
pub proof fn lemma_start_turn_keeps_time_forward(old: &TurnManager, new: &TurnManager)
    requires
        old.wf(),
        no_past_entries(old),
        old.queue().len() > 0,
        new.queue() == old.queue().drop_first(),
        new.turn() == old.queue()[0].0,
        new.time() == old.queue()[0].1,
    ensures
        not_before(old.queue()[0], old.turn() as int, old.time() as int),
        no_past_entries(new),
{
    let q = old.queue();
    assert(not_before(q[0], old.turn() as int, old.time() as int));
    assert forall|i: int| 0 <= i < new.queue().len() implies not_before(
        #[trigger] new.queue()[i],
        new.turn() as int,
        new.time() as int,
    ) by {
        assert(new.queue()[i] == q[i + 1]);
        assert(entry_le(q[0], q[i + 1]));
    }
}

/// Ending a turn after spending time leaves no entry in the past, when none
/// was.
pub proof fn lemma_end_turn_keeps_time_forward(
    old: &TurnManager,
    new: &TurnManager,
    entity: u64,
    time_spent: int,
)
    requires
        old.wf(),
        no_past_entries(old),
        time_spent >= 0,
        old.ended_turn(new, entity, time_spent),
    ensures
        no_past_entries(new),
{
    if old.queue().len() < old.max_size() {
        let e = choose|e: TurnEntry|
            {
                &&& e.2 == entity
                &&& e.1 < TURN_TIME
                &&& abs_time(e.0 as int, e.1 as int) == abs_time(old.turn() as int, old.time() as int)
                    + time_spent
                &&& #[trigger] inserted(old.queue(), new.queue(), e)
            };
        lemma_end_turn_not_in_past(old, entity, time_spent, e);
        let k = choose|k: int| 0 <= k <= old.queue().len() && new.queue() == old.queue().insert(k, e);
        assert forall|i: int| 0 <= i < new.queue().len() implies not_before(
            #[trigger] new.queue()[i],
            new.turn() as int,
            new.time() as int,
        ) by {
            if i < k {
                assert(new.queue()[i] == old.queue()[i]);
            } else if i > k {
                assert(new.queue()[i] == old.queue()[i - 1]);
            }
        }
    }
}

/// Adding an entity at the current moment leaves no entry in the past, when
/// none was.
pub proof fn lemma_add_keeps_time_forward(old: &TurnManager, new: &TurnManager, entity: u64)
    requires
        no_past_entries(old),
        new.turn() == old.turn(),
        new.time() == old.time(),
        inserted(old.queue(), new.queue(), (old.turn(), old.time(), entity)),
    ensures
        no_past_entries(new),
{
    let e = (old.turn(), old.time(), entity);
    let k = choose|k: int| 0 <= k <= old.queue().len() && new.queue() == old.queue().insert(k, e);
    assert forall|i: int| 0 <= i < new.queue().len() implies not_before(
        #[trigger] new.queue()[i],
        new.turn() as int,
        new.time() as int,
    ) by {
        if i < k {
            assert(new.queue()[i] == old.queue()[i]);
        } else if i > k {
            assert(new.queue()[i] == old.queue()[i - 1]);
        }
    }
}

} // verus!
