//! Recurring delivery schedules: an anchor instant fixing a time of day,
//! a period, and the computation of the next fire instant.
//!
//! The next fire lands on the anchor's time of day combined with the
//! current date; if that instant is already past, it is advanced by whole
//! periods to the first such instant not before now — so a sub-daily
//! period recovers within one period, never "same time tomorrow".

use vstd::prelude::*;

verus! {

use vstd::arithmetic::div_mod::{lemma_fundamental_div_mod, lemma_fundamental_div_mod_converse};
use crate::period::{Period, period_seconds};
use crate::timestamp::ts_in_range;

/// Seconds in one day.
pub const DAY_SECONDS: i64 = 86400;

/// A recurring delivery rule, owned by an authorized session.
#[derive(Clone, Copy, PartialEq, Eq, Structural, Debug)]
pub struct Schedule {
    /// The instant whose time of day every fire aligns to.
    pub anchor: i64,
    /// The distance between consecutive fires.
    pub period: Period,
}

impl Schedule {
    /// The anchor lies in the range of instants the library models.
    pub open spec fn wf(self) -> bool {
        ts_in_range(self.anchor)
    }
}

/// The seconds past midnight (UTC) of the instant `t`.
pub open spec fn time_of_day(t: int) -> int {
    t % 86400
}

/// Midnight (UTC) of the day holding the instant `t`.
pub open spec fn day_start(t: int) -> int {
    t - t % 86400
}

/// The anchor's time of day combined with the current date: the naive
/// first fire, before accounting for it being already past.
pub open spec fn same_day_candidate(anchor: int, now: int) -> int {
    day_start(now) + time_of_day(anchor)
}

/// The smallest instant not before `now` of the form candidate plus a
/// whole number of periods.
pub open spec fn next_fire_spec(s: Schedule, now: int) -> int {
    let c = same_day_candidate(s.anchor as int, now);
    let p = period_seconds(s.period);
    if c >= now {
        c
    } else {
        c + ((now - c + p - 1) / p) * p
    }
}

/// Bounds on the next fire: it is never before `now`, lands within a day,
/// and when the naive candidate is already past it arrives within one
/// period and still aligned a whole number of periods after the candidate.
pub proof fn lemma_next_fire_bounds(s: Schedule, now: int)
    requires
        s.anchor >= 0,
        now >= 0,
    ensures
        next_fire_spec(s, now) >= now,
        next_fire_spec(s, now) < now + 86400,
        same_day_candidate(s.anchor as int, now) >= now ==> next_fire_spec(s, now)
            == same_day_candidate(s.anchor as int, now),
        same_day_candidate(s.anchor as int, now) < now ==> next_fire_spec(s, now) < now
            + period_seconds(s.period),
        (next_fire_spec(s, now) - same_day_candidate(s.anchor as int, now)) % period_seconds(
            s.period,
        ) == 0,
{
    let c = same_day_candidate(s.anchor as int, now);
    let p = period_seconds(s.period);
    lemma_fundamental_div_mod(now, 86400);
    lemma_fundamental_div_mod(s.anchor as int, 86400);
    assert(0 <= now % 86400 < 86400);
    assert(0 <= (s.anchor as int) % 86400 < 86400);
    if c >= now {
        assert(c - now == time_of_day(s.anchor as int) - time_of_day(now));
        assert(c - now < 86400);
        assert((c - c) % p == 0);
    } else {
        let delta = now - c;
        let k = (delta + p - 1) / p;
        lemma_fundamental_div_mod(delta + p - 1, p);
        assert(0 <= (delta + p - 1) % p < p);
        assert(k * p == delta + p - 1 - ((delta + p - 1) % p));
        assert(delta <= k * p <= delta + p - 1);
        assert(next_fire_spec(s, now) == c + k * p);
        assert((c + k * p - c) % p == 0) by {
            assert((k * p) % p == 0) by {
                lemma_fundamental_div_mod_converse(k * p, p, k, 0);
            }
        }
        assert(p <= 86400);
    }
}

/// Computes the next fire instant of `s`, seen from `now`.
pub fn next_fire_time(s: &Schedule, now: i64) -> (r: i64)
    requires
        s.wf(),
        ts_in_range(now),
    ensures
        r == next_fire_spec(*s, now as int),
        now <= r < now + 86400,
{
    proof {
        lemma_next_fire_bounds(*s, now as int);
        lemma_fundamental_div_mod(now as int, 86400);
        lemma_fundamental_div_mod(s.anchor as int, 86400);
    }
    let anchor_u: u64 = s.anchor as u64;
    let now_u: u64 = now as u64;
    let tod_anchor: u64 = anchor_u % 86400;
    let ds_now: u64 = now_u - now_u % 86400;
    let c: u64 = ds_now + tod_anchor;
    assert(c as int == same_day_candidate(s.anchor as int, now as int));
    let p: u64 = s.period.seconds() as u64;
    if c >= now_u {
        c as i64
    } else {
        let delta: u64 = now_u - c;
        proof {
            lemma_fundamental_div_mod(delta as int + p as int - 1, p as int);
            assert(0 <= (delta as int + p as int - 1) % (p as int) < p as int);
        }
        let k: u64 = (delta + p - 1) / p;
        assert(k as int * p as int == delta as int + p as int - 1 - ((delta as int + p as int
            - 1) % (p as int)));
        (c + k * p) as i64
    }
}

/// A daily schedule fires at the anchor's time of day: later today when
/// that time is still ahead, at the same time tomorrow when it is past,
/// and immediately when it is exactly now.
pub proof fn lemma_day_schedule_next_fire(s: Schedule, now: int)
    requires
        s.anchor >= 0,
        now >= 0,
        s.period == Period::Day,
    ensures
        time_of_day(s.anchor as int) > time_of_day(now) ==> next_fire_spec(s, now) == day_start(
            now,
        ) + time_of_day(s.anchor as int),
        time_of_day(s.anchor as int) < time_of_day(now) ==> next_fire_spec(s, now) == day_start(
            now,
        ) + time_of_day(s.anchor as int) + 86400,
        time_of_day(s.anchor as int) == time_of_day(now) ==> next_fire_spec(s, now) == now,
{
    let c = same_day_candidate(s.anchor as int, now);
    lemma_fundamental_div_mod(now, 86400);
    lemma_fundamental_div_mod(s.anchor as int, 86400);
    assert(0 <= now % 86400 < 86400);
    assert(0 <= (s.anchor as int) % 86400 < 86400);
    assert(now == day_start(now) + time_of_day(now));
    if time_of_day(s.anchor as int) < time_of_day(now) {
        let delta = now - c;
        assert(1 <= delta < 86400);
        assert((delta + 86399) / 86400 == 1) by {
            lemma_fundamental_div_mod_converse(delta + 86399, 86400, 1, delta - 1);
        }
        assert(next_fire_spec(s, now) == c + 86400);
    }
}

/// A minute schedule whose naive candidate is already past fires within
/// the coming minute.
pub proof fn lemma_minute_schedule_fires_soon(s: Schedule, now: int)
    requires
        s.anchor >= 0,
        now >= 0,
        s.period == Period::Minute,
        same_day_candidate(s.anchor as int, now) < now,
    ensures
        now <= next_fire_spec(s, now) < now + 60,
{
    lemma_next_fire_bounds(s, now);
}

} // verus!
