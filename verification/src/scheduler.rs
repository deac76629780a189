//! The scheduler's bookkeeping: one armed timer per authorized session,
//! indexed by session id so cancellation is a lookup, never ownership of
//! a scattered handle.
//!
//! Arming the real timer is the runtime's work; what is verified here is
//! which sessions hold a timer, for which next instant, and at which
//! period it keeps firing.

use vstd::prelude::*;

verus! {

use std::collections::HashMap;
use crate::period::period_seconds;
use crate::schedule::{Schedule, next_fire_spec, next_fire_time};
use crate::timestamp::ts_in_range;

broadcast use vstd::std_specs::hash::group_hash_axioms;

/// One armed recurring timer: its next fire instant and its period.
#[derive(Clone, Copy, PartialEq, Eq, Structural, Debug)]
pub struct TimerEntry {
    pub next_fire: i64,
    pub period: crate::period::Period,
}

/// The scheduler's registry of armed timers, one per session.
pub struct Scheduler {
    timers: HashMap<i64, TimerEntry>,
}

impl View for Scheduler {
    type V = Map<i64, TimerEntry>;

    closed spec fn view(&self) -> Map<i64, TimerEntry> {
        self.timers@
    }
}

impl Scheduler {
    /// A scheduler with no timer armed.
    pub fn new() -> (r: Scheduler)
        ensures
            r@ == Map::<i64, TimerEntry>::empty(),
    {
        Scheduler { timers: HashMap::new() }
    }

    /// Arms the recurring timer for `session_id`: first fire at the
    /// schedule's next fire instant seen from `now`, then every period.
    /// Returns that first instant.
    pub fn register(&mut self, session_id: i64, schedule: &Schedule, now: i64) -> (next: i64)
        requires
            schedule.wf(),
            ts_in_range(now),
        ensures
            next == next_fire_spec(*schedule, now as int),
            now <= next < now + 86400,
            final(self)@ == old(self)@.insert(
                session_id,
                TimerEntry { next_fire: next, period: schedule.period },
            ),
    {
        let next = next_fire_time(schedule, now);
        self.timers.insert(session_id, TimerEntry { next_fire: next, period: schedule.period });
        next
    }

    /// The timer armed for `session_id`, if any.
    pub fn get(&self, session_id: i64) -> (r: Option<TimerEntry>)
        ensures
            match r {
                Some(e) => self@.contains_key(session_id) && self@[session_id] == e,
                None => !self@.contains_key(session_id),
            },
    {
        match self.timers.get(&session_id) {
            Some(e) => Some(*e),
            None => None,
        }
    }

    /// Advances the timer of `session_id` by one period after a fire.
    /// A failed fire callback changes nothing here: the next fire still
    /// arrives, one period later.
    pub fn on_fired(&mut self, session_id: i64)
        requires
            old(self)@.contains_key(session_id),
            old(self)@[session_id].next_fire + period_seconds(old(self)@[session_id].period)
                <= i64::MAX,
        ensures
            final(self)@ == old(self)@.insert(
                session_id,
                TimerEntry {
                    next_fire: (old(self)@[session_id].next_fire + period_seconds(
                        old(self)@[session_id].period,
                    )) as i64,
                    period: old(self)@[session_id].period,
                },
            ),
    {
        let entry = match self.timers.get(&session_id) {
            Some(e) => *e,
            None => vstd::pervasive::unreached(),
        };
        let next = entry.next_fire + entry.period.seconds();
        self.timers.insert(session_id, TimerEntry { next_fire: next, period: entry.period });
    }

    /// Disarms the timer of `session_id`; a session without one is left
    /// as it is.
    pub fn cancel(&mut self, session_id: i64)
        ensures
            final(self)@ == old(self)@.remove(session_id),
    {
        self.timers.remove(&session_id);
    }
}

/// Cancelling is idempotent: disarming an already disarmed timer changes
/// nothing.
pub proof fn lemma_cancel_idempotent(m: Map<i64, TimerEntry>, session_id: i64)
    ensures
        m.remove(session_id).remove(session_id) == m.remove(session_id),
{
    assert(m.remove(session_id).remove(session_id) =~= m.remove(session_id));
}

} // verus!
