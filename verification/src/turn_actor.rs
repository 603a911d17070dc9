use vstd::prelude::*;

use crate::text::{bool_text, decimal, two_digits};

use std::collections::VecDeque;

use crate::action::{category_of, ActionCategory, ActionType};
use vstd::arithmetic::div_mod::{lemma_div_is_ordered, lemma_div_is_ordered_by_denominator};

verus! {

/// Default limit of the regular action queue.
pub const DEFAULT_MAX_QUEUED_ACTIONS: usize = 10;

/// Speed modifier of an unmodified actor, in hundredths (100 = normal).
pub const NORMAL_SPEED_MODIFIER: u32 = 100;

/// Smallest speed modifier, in hundredths (10 = 10% speed).
pub const MIN_SPEED_MODIFIER: u32 = 10;

/// The optional action as a sequence of zero or one action.
pub open spec fn opt_seq(o: Option<ActionType>) -> Seq<ActionType> {
    match o {
        Some(a) => seq![a],
        None => Seq::empty(),
    }
}

/// Actions of `s` that are not of category `c`, in order.
pub open spec fn without_category(s: Seq<ActionType>, c: ActionCategory) -> Seq<ActionType> {
    s.filter(|a: ActionType| category_of(a) != c)
}

/// Number of actions of `s` of category `c`.
pub open spec fn count_category(s: Seq<ActionType>, c: ActionCategory) -> nat {
    s.filter(|a: ActionType| category_of(a) == c).len()
}

/// Time units an action of base cost `base` takes at `speed` (100 = normal)
/// with modifier `modifier` (hundredths): `base / (speed/100 * modifier/100)`
/// rounded down, at least 1, capped at `u32::MAX`. A zero divisor takes
/// `u32::MAX` units, or 1 when the base cost is 0 too.
pub open spec fn action_time(base: int, speed: int, modifier: int) -> int {
    let denom = speed * modifier;
    if denom == 0 {
        if base == 0 {
            1
        } else {
            u32::MAX as int
        }
    } else {
        let q = (base * 10000) / denom;
        if q < 1 {
            1
        } else if q > u32::MAX {
            u32::MAX as int
        } else {
            q
        }
    }
}

/// Text describing an actor's state, the speed modifier given as its whole
/// part and its hundredths (two digits):
/// `TurnActor { alive: A, speed: S, modifier: W.HH, forced: F, queued: Q, preferred: P }`
/// with the numbers in decimal and the flags as `true` or `false`.
pub open spec fn turn_actor_debug_text(
    alive: bool,
    speed: u32,
    modifier_whole: u32,
    modifier_hundredths: u32,
    forced: usize,
    queued: usize,
    preferred: bool,
) -> Seq<char> {
    seq!['T', 'u', 'r', 'n', 'A', 'c', 't', 'o', 'r', ' ', '{', ' ', 'a', 'l', 'i', 'v', 'e', ':', ' '] + bool_text(alive) + seq![',', ' ', 's', 'p', 'e', 'e', 'd', ':', ' '] + decimal(speed as nat) + seq![',', ' ', 'm', 'o', 'd', 'i', 'f', 'i', 'e', 'r', ':', ' '] + decimal(modifier_whole as nat) + seq!['.']
        + two_digits(modifier_hundredths as nat) + seq![',', ' ', 'f', 'o', 'r', 'c', 'e', 'd', ':', ' '] + decimal(forced as nat) + seq![',', ' ', 'q', 'u', 'e', 'u', 'e', 'd', ':', ' '] + decimal(
        queued as nat,
    ) + seq![',', ' ', 'p', 'r', 'e', 'f', 'e', 'r', 'r', 'e', 'd', ':', ' '] + bool_text(preferred) + seq![' ', '}']
}

/// Formats the state description with `format!`, which writes integers in
/// decimal (the hundredths padded to two digits with a zero) and flags as
/// `true` or `false`: the result is `turn_actor_debug_text` of the
/// arguments.
#[verifier::external_body]
fn format_turn_actor_debug(
    alive: bool,
    speed: u32,
    modifier_whole: u32,
    modifier_hundredths: u32,
    forced: usize,
    queued: usize,
    preferred: bool,
) -> (s: String)
    ensures
        s@ == turn_actor_debug_text(
            alive,
            speed,
            modifier_whole,
            modifier_hundredths,
            forced,
            queued,
            preferred,
        ),
{
    format!(
        "TurnActor {{ alive: {}, speed: {}, modifier: {}.{:02}, forced: {}, queued: {}, preferred: {} }}",
        alive,
        speed,
        modifier_whole,
        modifier_hundredths,
        forced,
        queued,
        preferred
    )
}

/// An entity taking part in the turn system, with its pending actions.
/// Actions are taken forced first, then queued, then the preferred one.
pub struct TurnActor {
    /// Base speed (100 = normal).
    pub speed: u32,
    /// Whether the actor takes part in turns.
    pub alive: bool,
    /// Regular action queue.
    pub actions: VecDeque<ActionType>,
    /// Action suggested by the AI, taken when nothing else is pending.
    pub preferred_action: Option<ActionType>,
    /// Interrupts, knockbacks and the like: highest priority.
    pub forced_actions: VecDeque<ActionType>,
    /// Speed modifier in hundredths (100 = normal).
    pub action_speed_modifier: u32,
    /// Limit of the regular action queue.
    pub max_queued_actions: usize,
}

/// The product of two `u32` values fits in a `u64`.
proof fn lemma_u32_product_fits(a: u32, b: u32)
    ensures
        0 <= a as int * b as int <= u64::MAX,
{
    assert(0 <= a as int * b as int <= u64::MAX) by (nonlinear_arith)
        requires
            0 <= a <= u32::MAX,
            0 <= b <= u32::MAX,
    ;
}

impl TurnActor {
    /// All pending actions in the order they will be taken.
    pub open spec fn pending(&self) -> Seq<ActionType> {
        self.forced_actions@ + self.actions@ + opt_seq(self.preferred_action)
    }

    /// `self` and `other` agree on everything but the three action slots.
    pub open spec fn same_settings(&self, other: &TurnActor) -> bool {
        &&& self.speed == other.speed
        &&& self.alive == other.alive
        &&& self.action_speed_modifier == other.action_speed_modifier
        &&& self.max_queued_actions == other.max_queued_actions
    }

    /// A live actor with no actions, normal modifier and queue limit 10.
    pub fn new(speed: u32) -> (a: TurnActor)
        ensures
            a.speed == speed,
            a.alive,
            a.actions@ == Seq::<ActionType>::empty(),
            a.forced_actions@ == Seq::<ActionType>::empty(),
            a.preferred_action is None,
            a.action_speed_modifier == NORMAL_SPEED_MODIFIER,
            a.max_queued_actions == DEFAULT_MAX_QUEUED_ACTIONS,
    {
        TurnActor {
            speed,
            alive: true,
            preferred_action: None,
            actions: VecDeque::new(),
            forced_actions: VecDeque::new(),
            action_speed_modifier: NORMAL_SPEED_MODIFIER,
            max_queued_actions: DEFAULT_MAX_QUEUED_ACTIONS,
        }
    }

    /// A live actor with no actions, normal modifier and the given queue limit.
    pub fn with_queue_limit(speed: u32, max_queued_actions: usize) -> (a: TurnActor)
        ensures
            a.speed == speed,
            a.alive,
            a.actions@ == Seq::<ActionType>::empty(),
            a.forced_actions@ == Seq::<ActionType>::empty(),
            a.preferred_action is None,
            a.action_speed_modifier == NORMAL_SPEED_MODIFIER,
            a.max_queued_actions == max_queued_actions,
    {
        TurnActor {
            speed,
            alive: true,
            actions: VecDeque::new(),
            preferred_action: None,
            forced_actions: VecDeque::new(),
            action_speed_modifier: NORMAL_SPEED_MODIFIER,
            max_queued_actions,
        }
    }

    /// Takes the next pending action: the first forced one, else the first
    /// queued one, else the preferred one.
    pub fn next_action(&mut self) -> (r: Option<ActionType>)
        ensures
            final(self).same_settings(&*old(self)),
            old(self).pending().len() == 0 ==> r is None && final(self).pending()
                == old(self).pending(),
            old(self).pending().len() > 0 ==> r == Some(old(self).pending()[0])
                && final(self).pending() == old(self).pending().drop_first(),
            old(self).forced_actions@.len() > 0 ==> final(self).forced_actions@ == old(self).forced_actions@.drop_first() && final(self).actions@ == old(self).actions@
                && final(self).preferred_action == old(self).preferred_action,
            old(self).forced_actions@.len() == 0 && old(self).actions@.len() > 0 ==> final(self).forced_actions@ == old(self).forced_actions@ && final(self).actions@ == old(self).actions@.drop_first() && final(self).preferred_action == old(self).preferred_action,
            old(self).forced_actions@.len() == 0 && old(self).actions@.len() == 0 ==> final(self).forced_actions@ == old(self).forced_actions@ && final(self).actions@ == old(self).actions@ && final(self).preferred_action is None,
    {
        if let Some(forced) = self.forced_actions.pop_front() {
            assert(self.pending() == old(self).pending().drop_first());
            return Some(forced);
        }
        if let Some(action) = self.actions.pop_front() {
            assert(self.pending() == old(self).pending().drop_first());
            return Some(action);
        }
        let r = self.preferred_action.take();
        assert(self.pending() =~= old(self).pending().drop_first() || r is None);
        r
    }

    /// The action `next_action` would take, without taking it.
    pub fn peek_next_action(&self) -> (r: Option<ActionType>)
        ensures
            self.pending().len() == 0 ==> r is None,
            self.pending().len() > 0 ==> r == Some(self.pending()[0]),
    {
        if self.forced_actions.len() > 0 {
            return Some(self.forced_actions[0]);
        }
        if self.actions.len() > 0 {
            return Some(self.actions[0]);
        }
        self.preferred_action
    }

    /// Appends `action` to the regular queue unless the queue holds
    /// `max_queued_actions` or more; then hands the action back.
    pub fn queue_action(&mut self, action: ActionType) -> (r: Result<(), ActionType>)
        ensures
            final(self).same_settings(&*old(self)),
            final(self).forced_actions@ == old(self).forced_actions@,
            final(self).preferred_action == old(self).preferred_action,
            old(self).actions@.len() >= old(self).max_queued_actions ==> r == Err::<(), ActionType>(
                action,
            ) && final(self).actions@ == old(self).actions@,
            old(self).actions@.len() < old(self).max_queued_actions ==> r is Ok && final(self).actions@ == old(self).actions@.push(action),
    {
        if self.actions.len() >= self.max_queued_actions {
            return Err(action);
        }
        self.actions.push_back(action);
        Ok(())
    }

    /// Puts `action` at the front of the regular queue unless the queue holds
    /// `max_queued_actions` or more; then hands the action back.
    pub fn queue_action_priority(&mut self, action: ActionType) -> (r: Result<(), ActionType>)
        ensures
            final(self).same_settings(&*old(self)),
            final(self).forced_actions@ == old(self).forced_actions@,
            final(self).preferred_action == old(self).preferred_action,
            old(self).actions@.len() >= old(self).max_queued_actions ==> r == Err::<(), ActionType>(
                action,
            ) && final(self).actions@ == old(self).actions@,
            old(self).actions@.len() < old(self).max_queued_actions ==> r is Ok && final(self).actions@ == seq![action] + old(self).actions@,
    {
        if self.actions.len() >= self.max_queued_actions {
            return Err(action);
        }
        self.actions.push_front(action);
        Ok(())
    }

    /// Appends `action` to the regular queue whatever its length.
    pub fn force_queue_action(&mut self, action: ActionType)
        ensures
            final(self).same_settings(&*old(self)),
            final(self).forced_actions@ == old(self).forced_actions@,
            final(self).preferred_action == old(self).preferred_action,
            final(self).actions@ == old(self).actions@.push(action),
    {
        self.actions.push_back(action);
    }

    /// Sets the preferred action, replacing any previous one.
    pub fn set_preferred_action(&mut self, action: ActionType)
        ensures
            final(self).same_settings(&*old(self)),
            final(self).forced_actions@ == old(self).forced_actions@,
            final(self).actions@ == old(self).actions@,
            final(self).preferred_action == Some(action),
    {
        self.preferred_action = Some(action);
    }

    /// The preferred action, without taking it.
    pub fn get_preferred_action(&self) -> (r: Option<ActionType>)
        ensures
            r == self.preferred_action,
    {
        self.preferred_action
    }

    /// Drops the preferred action.
    pub fn clear_preferred_action(&mut self)
        ensures
            final(self).same_settings(&*old(self)),
            final(self).forced_actions@ == old(self).forced_actions@,
            final(self).actions@ == old(self).actions@,
            final(self).preferred_action is None,
    {
        self.preferred_action = None;
    }

    /// Adds a forced action: at the very front when it interrupts, else at the
    /// back of the forced queue.
    pub fn force_action(&mut self, action: ActionType)
        ensures
            final(self).same_settings(&*old(self)),
            final(self).actions@ == old(self).actions@,
            final(self).preferred_action == old(self).preferred_action,
            final(self).forced_actions@ == old(self).forced_actions@.push(action),
    {
        if action.can_interrupt() {
            self.forced_actions.push_front(action);
        } else {
            self.forced_actions.push_back(action);
        }
    }

    /// Whether any action is pending.
    pub fn has_action(&self) -> (b: bool)
        ensures
            b == (self.pending().len() > 0),
    {
        self.forced_actions.len() > 0 || self.actions.len() > 0 || self.preferred_action.is_some()
    }

    /// Whether a forced action is pending.
    pub fn has_forced_action(&self) -> (b: bool)
        ensures
            b == (self.forced_actions@.len() > 0),
    {
        self.forced_actions.len() > 0
    }

    /// Category of the next pending action.
    pub fn peek_next_action_category(&self) -> (r: Option<ActionCategory>)
        ensures
            self.pending().len() == 0 ==> r is None,
            self.pending().len() > 0 ==> r == Some(category_of(self.pending()[0])),
    {
        match self.peek_next_action() {
            Some(a) => Some(a.category()),
            None => None,
        }
    }
}

/// `d` without the actions of category `c`, in order.
fn retain_other_categories(d: &VecDeque<ActionType>, c: ActionCategory) -> (r: VecDeque<ActionType>)
    ensures
        r@ == without_category(d@, c),
{
    let ghost p = |a: ActionType| category_of(a) != c;
    let mut r: VecDeque<ActionType> = VecDeque::new();
    let n = d.len();
    let mut i: usize = 0;
    while i < n
        invariant
            n == d@.len(),
            i <= n,
            p == (|a: ActionType| category_of(a) != c),
            r@ == d@.take(i as int).filter(p),
        decreases n - i,
    {
        let a = d[i];
        let ghost prev = d@.take(i as int);
        proof {
            assert(d@.take(i + 1) == prev.push(a));
            prev.lemma_filter_push(a, p);
        }
        if a.category() != c {
            r.push_back(a);
        }
        i = i + 1;
    }
    assert(d@.take(n as int) == d@);
    r
}

/// Number of actions of category `c` in `d`.
fn count_in(d: &VecDeque<ActionType>, c: ActionCategory) -> (n: usize)
    ensures
        n == count_category(d@, c),
{
    let ghost p = |a: ActionType| category_of(a) == c;
    let mut k: usize = 0;
    let n = d.len();
    let mut i: usize = 0;
    while i < n
        invariant
            n == d@.len(),
            i <= n,
            p == (|a: ActionType| category_of(a) == c),
            k == d@.take(i as int).filter(p).len(),
            k <= i,
        decreases n - i,
    {
        let a = d[i];
        let ghost prev = d@.take(i as int);
        proof {
            assert(d@.take(i + 1) == prev.push(a));
            prev.lemma_filter_push(a, p);
        }
        if a.category() == c {
            k = k + 1;
        }
        i = i + 1;
    }
    assert(d@.take(n as int) == d@);
    k
}

impl TurnActor {
    /// Drops every pending action of category `category`, keeping the order
    /// of the others.
    pub fn clear_actions_by_category(&mut self, category: ActionCategory)
        ensures
            final(self).same_settings(&*old(self)),
            final(self).actions@ == without_category(old(self).actions@, category),
            final(self).forced_actions@ == without_category(old(self).forced_actions@, category),
            final(self).preferred_action == (match old(self).preferred_action {
                Some(a) => if category_of(a) == category {
                    None
                } else {
                    Some(a)
                },
                None => None,
            }),
    {
        self.actions = retain_other_categories(&self.actions, category);
        self.forced_actions = retain_other_categories(&self.forced_actions, category);
        if let Some(preferred) = self.preferred_action {
            if preferred.category() == category {
                self.preferred_action = None;
            }
        }
    }

    /// Drops the queued and the preferred actions; forced ones stay.
    pub fn clear_queued_actions(&mut self)
        ensures
            final(self).same_settings(&*old(self)),
            final(self).actions@ == Seq::<ActionType>::empty(),
            final(self).preferred_action is None,
            final(self).forced_actions@ == old(self).forced_actions@,
    {
        self.actions.clear();
        self.preferred_action = None;
    }

    /// Drops every pending action.
    pub fn clear_all_actions(&mut self)
        ensures
            final(self).same_settings(&*old(self)),
            final(self).actions@ == Seq::<ActionType>::empty(),
            final(self).preferred_action is None,
            final(self).forced_actions@ == Seq::<ActionType>::empty(),
    {
        self.actions.clear();
        self.preferred_action = None;
        self.forced_actions.clear();
    }

    /// Time units an action of base cost `base_time` takes this actor.
    pub fn calculate_action_time(&self, base_time: u32) -> (t: u32)
        ensures
            t == action_time(
                base_time as int,
                self.speed as int,
                self.action_speed_modifier as int,
            ),
    {
        proof {
            lemma_u32_product_fits(self.speed, self.action_speed_modifier);
        }
        let denom: u64 = self.speed as u64 * self.action_speed_modifier as u64;
        if denom == 0 {
            if base_time == 0 {
                return 1;
            } else {
                return u32::MAX;
            }
        }
        let q: u64 = (base_time as u64 * 10000) / denom;
        if q < 1 {
            1
        } else if q > u32::MAX as u64 {
            u32::MAX
        } else {
            q as u32
        }
    }

    /// Sets the speed modifier (hundredths), raising it to at least 10.
    pub fn set_speed_modifier(&mut self, modifier: u32)
        ensures
            final(self).action_speed_modifier == (if modifier < MIN_SPEED_MODIFIER {
                MIN_SPEED_MODIFIER
            } else {
                modifier
            }),
            final(self).speed == old(self).speed,
            final(self).alive == old(self).alive,
            final(self).max_queued_actions == old(self).max_queued_actions,
            final(self).pending() == old(self).pending(),
    {
        self.action_speed_modifier = if modifier < MIN_SPEED_MODIFIER {
            MIN_SPEED_MODIFIER
        } else {
            modifier
        };
    }

    /// Restores the normal speed modifier.
    pub fn reset_speed_modifier(&mut self)
        ensures
            final(self).action_speed_modifier == NORMAL_SPEED_MODIFIER,
            final(self).speed == old(self).speed,
            final(self).alive == old(self).alive,
            final(self).max_queued_actions == old(self).max_queued_actions,
            final(self).pending() == old(self).pending(),
    {
        self.action_speed_modifier = NORMAL_SPEED_MODIFIER;
    }

    /// Base speed times the modifier, rounded down.
    pub fn effective_speed(&self) -> (s: u64)
        ensures
            s == (self.speed as int * self.action_speed_modifier as int) / 100,
    {
        proof {
            lemma_u32_product_fits(self.speed, self.action_speed_modifier);
        }
        self.speed as u64 * self.action_speed_modifier as u64 / 100
    }

    /// Marks the actor dead and drops every pending action.
    pub fn kill(&mut self)
        ensures
            !final(self).alive,
            final(self).pending() == Seq::<ActionType>::empty(),
            final(self).speed == old(self).speed,
            final(self).action_speed_modifier == old(self).action_speed_modifier,
            final(self).max_queued_actions == old(self).max_queued_actions,
    {
        self.alive = false;
        self.clear_all_actions();
        assert(self.pending() =~= Seq::<ActionType>::empty());
    }

    /// Marks the actor alive again; its actions are untouched.
    pub fn revive(&mut self)
        ensures
            final(self).alive,
            final(self).pending() == old(self).pending(),
            final(self).forced_actions@ == old(self).forced_actions@,
            final(self).actions@ == old(self).actions@,
            final(self).preferred_action == old(self).preferred_action,
            final(self).speed == old(self).speed,
            final(self).action_speed_modifier == old(self).action_speed_modifier,
            final(self).max_queued_actions == old(self).max_queued_actions,
    {
        self.alive = true;
    }

    pub fn is_alive(&self) -> (b: bool)
        ensures
            b == self.alive,
    {
        self.alive
    }

    /// Sets the alive flag; a dead actor loses every pending action.
    pub fn set_alive(&mut self, alive: bool)
        ensures
            final(self).alive == alive,
            alive ==> final(self).forced_actions@ == old(self).forced_actions@ && final(self).actions@ == old(self).actions@ && final(self).preferred_action == old(self).preferred_action,
            !alive ==> final(self).pending() == Seq::<ActionType>::empty(),
            final(self).speed == old(self).speed,
            final(self).action_speed_modifier == old(self).action_speed_modifier,
            final(self).max_queued_actions == old(self).max_queued_actions,
    {
        self.alive = alive;
        if !alive {
            self.clear_all_actions();
            assert(self.pending() =~= Seq::<ActionType>::empty());
        }
    }

    pub fn speed(&self) -> (s: u32)
        ensures
            s == self.speed,
    {
        self.speed
    }

    pub fn set_speed(&mut self, speed: u32)
        ensures
            final(self).speed == speed,
            final(self).alive == old(self).alive,
            final(self).action_speed_modifier == old(self).action_speed_modifier,
            final(self).max_queued_actions == old(self).max_queued_actions,
            final(self).forced_actions@ == old(self).forced_actions@,
            final(self).actions@ == old(self).actions@,
            final(self).preferred_action == old(self).preferred_action,
    {
        self.speed = speed;
    }

    /// Number of regular queued actions.
    pub fn queued_action_count(&self) -> (n: usize)
        ensures
            n == self.actions@.len(),
    {
        self.actions.len()
    }

    /// Number of pending actions of every kind.
    pub fn total_action_count(&self) -> (n: usize)
        requires
            self.forced_actions@.len() + self.actions@.len() + 1 <= usize::MAX,
        ensures
            n == self.pending().len(),
    {
        self.forced_actions.len() + self.actions.len() + if self.preferred_action.is_some() {
            1
        } else {
            0
        }
    }

    /// Whether the regular queue has reached its limit.
    pub fn is_queue_full(&self) -> (b: bool)
        ensures
            b == (self.actions@.len() >= self.max_queued_actions),
    {
        self.actions.len() >= self.max_queued_actions
    }

    /// Room left in the regular queue (0 when full).
    pub fn queue_capacity_remaining(&self) -> (n: usize)
        ensures
            n == (if self.actions@.len() >= self.max_queued_actions {
                0
            } else {
                self.max_queued_actions - self.actions@.len()
            }),
    {
        if self.actions.len() >= self.max_queued_actions {
            0
        } else {
            self.max_queued_actions - self.actions.len()
        }
    }

    /// Sets the queue limit, dropping queued actions from the back until the
    /// queue fits.
    pub fn set_max_queued_actions(&mut self, max: usize)
        ensures
            final(self).max_queued_actions == max,
            final(self).actions@ == (if old(self).actions@.len() > max {
                old(self).actions@.take(max as int)
            } else {
                old(self).actions@
            }),
            final(self).forced_actions@ == old(self).forced_actions@,
            final(self).preferred_action == old(self).preferred_action,
            final(self).speed == old(self).speed,
            final(self).alive == old(self).alive,
            final(self).action_speed_modifier == old(self).action_speed_modifier,
    {
        self.max_queued_actions = max;
        while self.actions.len() > max
            invariant
                self.max_queued_actions == max,
                self.forced_actions@ == old(self).forced_actions@,
                self.preferred_action == old(self).preferred_action,
                self.speed == old(self).speed,
                self.alive == old(self).alive,
                self.action_speed_modifier == old(self).action_speed_modifier,
                old(self).actions@.len() > max ==> self.actions@.len() >= max,
                self.actions@.len() <= old(self).actions@.len(),
                self.actions@ == old(self).actions@.take(self.actions@.len() as int),
                old(self).actions@.len() <= max ==> self.actions@ == old(self).actions@,
            decreases self.actions@.len(),
        {
            self.actions.pop_back();
            assert(self.actions@ =~= old(self).actions@.take(self.actions@.len() as int));
        }
    }

    /// Alive and with something to do.
    pub fn is_ready_for_turn(&self) -> (b: bool)
        ensures
            b == (self.alive && self.pending().len() > 0),
    {
        self.alive && self.has_action()
    }

    /// Whether the actor may perform actions of `category`: waiting is always
    /// allowed, everything else only while alive.
    pub fn can_perform_category(&self, category: ActionCategory) -> (b: bool)
        ensures
            b == (category == ActionCategory::Wait || self.alive),
    {
        match category {
            ActionCategory::Movement => self.alive,
            ActionCategory::Attack => self.alive,
            ActionCategory::Spell => self.alive,
            ActionCategory::Item => self.alive,
            ActionCategory::Wait => true,
            ActionCategory::Interact => self.alive,
            ActionCategory::Social => self.alive,
            ActionCategory::Craft => self.alive,
        }
    }

    /// A one-line description of the actor's state; the speed modifier, kept
    /// in hundredths, is shown as its whole part and its hundredths.
    pub fn debug_info(&self) -> (s: String)
        ensures
            s@ == turn_actor_debug_text(
                self.alive,
                self.speed,
                self.action_speed_modifier / 100,
                self.action_speed_modifier % 100,
                self.forced_actions@.len() as usize,
                self.actions@.len() as usize,
                self.preferred_action is Some,
            ),
    {
        format_turn_actor_debug(
            self.alive,
            self.speed,
            self.action_speed_modifier / 100,
            self.action_speed_modifier % 100,
            self.forced_actions.len(),
            self.actions.len(),
            self.preferred_action.is_some(),
        )
    }

    /// Queues a wait of `duration` (subject to the queue limit).
    pub fn queue_wait(&mut self, duration: u64) -> (r: Result<(), ActionType>)
        ensures
            final(self).same_settings(&*old(self)),
            final(self).forced_actions@ == old(self).forced_actions@,
            final(self).preferred_action == old(self).preferred_action,
            old(self).actions@.len() >= old(self).max_queued_actions ==> r == Err::<(), ActionType>(
                ActionType::WaitFor(duration),
            ) && final(self).actions@ == old(self).actions@,
            old(self).actions@.len() < old(self).max_queued_actions ==> r is Ok && final(self).actions@ == old(self).actions@.push(ActionType::WaitFor(duration)),
    {
        self.queue_action(ActionType::WaitFor(duration))
    }

    /// Whether the next pending action is of `category`.
    pub fn next_action_is_category(&self, category: ActionCategory) -> (b: bool)
        ensures
            b == (self.pending().len() > 0 && category_of(self.pending()[0]) == category),
    {
        match self.peek_next_action_category() {
            Some(c) => c == category,
            None => false,
        }
    }

    /// Number of pending actions of `category`.
    pub fn count_actions_by_category(&self, category: ActionCategory) -> (n: usize)
        requires
            self.forced_actions@.len() + self.actions@.len() + 1 <= usize::MAX,
        ensures
            n == count_category(self.forced_actions@, category) + count_category(
                self.actions@,
                category,
            ) + count_category(opt_seq(self.preferred_action), category),
    {
        let forced_count = count_in(&self.forced_actions, category);
        let queued_count = count_in(&self.actions, category);
        let preferred_count: usize = match self.preferred_action {
            Some(a) => if a.category() == category {
                1
            } else {
                0
            },
            None => 0,
        };
        proof {
            reveal_with_fuel(Seq::<_>::filter, 2);
            let p = |a: ActionType| category_of(a) == category;
            match self.preferred_action {
                Some(a) => {
                    assert(opt_seq(self.preferred_action).drop_last() =~= Seq::<ActionType>::empty());
                },
                None => {},
            }
        }
        forced_count + queued_count + preferred_count
    }
}

impl Default for TurnActor {
    /// An actor of normal speed 100.
    fn default() -> (a: TurnActor)
        ensures
            a.speed == 100,
            a.alive,
            a.actions@ == Seq::<ActionType>::empty(),
            a.forced_actions@ == Seq::<ActionType>::empty(),
            a.preferred_action is None,
            a.action_speed_modifier == NORMAL_SPEED_MODIFIER,
            a.max_queued_actions == DEFAULT_MAX_QUEUED_ACTIONS,
    {
        TurnActor::new(100)
    }
}

/// A faster actor never needs more time for an action: with the same base
/// cost and modifier, a higher speed gives an action time no greater.
pub proof fn lemma_faster_is_quicker(base: int, slow: int, fast: int, modifier: int)
    requires
        0 <= base,
        0 < slow <= fast,
        0 < modifier,
    ensures
        action_time(base, fast, modifier) <= action_time(base, slow, modifier),
{
    assert(1 <= slow * modifier <= fast * modifier) by (nonlinear_arith)
        requires
            0 < slow <= fast,
            0 < modifier,
    ;
    assert(0 <= base * 10000) by (nonlinear_arith)
        requires
            0 <= base,
    ;
    lemma_div_is_ordered_by_denominator(base * 10000, slow * modifier, fast * modifier);
}

/// A larger base cost never takes less time for the same actor.
pub proof fn lemma_costlier_is_slower(small: int, large: int, speed: int, modifier: int)
    requires
        0 <= small <= large,
        0 < speed,
        0 < modifier,
    ensures
        action_time(small, speed, modifier) <= action_time(large, speed, modifier),
{
    assert(0 < speed * modifier) by (nonlinear_arith)
        requires
            0 < speed,
            0 < modifier,
    ;
    assert(small * 10000 <= large * 10000);
    lemma_div_is_ordered(small * 10000, large * 10000, speed * modifier);
}

/// Taking the next action until none is left yields the pending actions in
/// order: each take returns the first and leaves the rest.
pub proof fn lemma_next_action_order(before: TurnActor, after: TurnActor, taken: Option<ActionType>)
    requires
        before.pending().len() > 0,
        taken == Some(before.pending()[0]),
        after.pending() == before.pending().drop_first(),
    ensures
        seq![taken.unwrap()] + after.pending() == before.pending(),
{
    assert(seq![taken.unwrap()] + after.pending() =~= before.pending());
}

/// A dead actor is never ready for a turn.
pub proof fn lemma_dead_not_ready(actor: TurnActor)
    requires
        !actor.alive,
    ensures
        !(actor.alive && actor.pending().len() > 0),
{
}

} // verus!
