//! Startup recovery: replaying the persisted records into a fresh
//! registry and scheduler, before any new inbound event is processed.
//!
//! Replay follows append order with last write winning, and arms each
//! timer exactly as a fresh registration at the recovery instant would:
//! one next future fire per session, however long the downtime, never a
//! fire per missed period.

use vstd::prelude::*;

verus! {

use crate::bytes::copy_bytes;
use crate::log::record_views;
use crate::record::{PersistedRecord, RecordView};
use crate::registry::{SessionRegistry, SessionState, StateView};
use crate::schedule::{Schedule, next_fire_spec};
use crate::scheduler::{Scheduler, TimerEntry};
use crate::timestamp::ts_in_range;

/// The authorized state a record reconstructs.
pub open spec fn authorized_of(r: RecordView) -> StateView {
    StateView::Authorized {
        credential: r.credential,
        schedule: Schedule { anchor: r.anchor, period: r.period },
    }
}

/// Replays records onto a registry map, in append order: each record
/// binds its session to its authorized state, a later record for the
/// same session overriding an earlier one.
pub open spec fn replay_onto(m: Map<i64, StateView>, rs: Seq<RecordView>) -> Map<i64, StateView>
    decreases rs.len(),
{
    if rs.len() == 0 {
        m
    } else {
        replay_onto(m, rs.drop_last()).insert(
            rs.last().session_id,
            authorized_of(rs.last()),
        )
    }
}

/// The registry a replayed log yields from empty.
pub open spec fn replay_spec(rs: Seq<RecordView>) -> Map<i64, StateView> {
    replay_onto(Map::empty(), rs)
}

/// The timer entry recovery arms for a record, seen from `now`.
pub open spec fn timer_of(r: RecordView, now: int) -> TimerEntry {
    TimerEntry {
        next_fire: next_fire_spec(Schedule { anchor: r.anchor, period: r.period }, now) as i64,
        period: r.period,
    }
}

/// The timers recovery arms for a replayed log, in append order with
/// last write winning.
pub open spec fn timers_spec(rs: Seq<RecordView>, now: int) -> Map<i64, TimerEntry>
    decreases rs.len(),
{
    if rs.len() == 0 {
        Map::empty()
    } else {
        timers_spec(rs.drop_last(), now).insert(
            rs.last().session_id,
            timer_of(rs.last(), now),
        )
    }
}

/// Rebuilds the world from the replayed records: an authorized session
/// and an armed timer for every recorded session, exactly as fresh
/// registrations at `now` would produce them.
pub fn recover(records: &Vec<PersistedRecord>, now: i64) -> (r: (SessionRegistry, Scheduler))
    requires
        ts_in_range(now),
        forall|i: int| 0 <= i < records@.len() ==> ts_in_range(#[trigger] records@[i].anchor),
    ensures
        r.0@ == replay_spec(record_views(records@)),
        r.1@ == timers_spec(record_views(records@), now as int),
{
    let ghost rv = record_views(records@);
    let mut registry = SessionRegistry::new();
    let mut scheduler = Scheduler::new();
    let mut i: usize = 0;
    proof {
        assert(rv.take(0) =~= Seq::<RecordView>::empty());
    }
    while i < records.len()
        invariant
            0 <= i <= records@.len(),
            ts_in_range(now),
            forall|j: int| 0 <= j < records@.len() ==> ts_in_range(#[trigger] records@[j].anchor),
            rv == record_views(records@),
            registry@ == replay_onto(Map::<i64, StateView>::empty(), rv.take(i as int)),
            scheduler@ == timers_spec(rv.take(i as int), now as int),
        decreases records@.len() - i,
    {
        let rec = &records[i];
        let schedule = Schedule { anchor: rec.anchor, period: rec.period };
        let credential = copy_bytes(rec.credential.as_slice());
        registry.insert(rec.session_id, SessionState::Authorized { credential, schedule });
        scheduler.register(rec.session_id, &schedule, now);
        proof {
            assert(rv.take(i as int + 1).drop_last() =~= rv.take(i as int));
            assert(rv.take(i as int + 1).last() == rv[i as int]);
            assert(rv[i as int] == records@[i as int]@);
        }
        i += 1;
    }
    proof {
        assert(rv.take(records@.len() as int) =~= rv);
    }
    (registry, scheduler)
}

/// Replay distributes over an initial registry: replaying onto `m` is
/// replaying from empty and letting the replayed bindings override `m`.
pub proof fn lemma_replay_onto_union(m: Map<i64, StateView>, rs: Seq<RecordView>)
    ensures
        replay_onto(m, rs) == m.union_prefer_right(replay_spec(rs)),
    decreases rs.len(),
{
    if rs.len() == 0 {
        assert(replay_onto(Map::<i64, StateView>::empty(), rs) =~= Map::<
            i64,
            StateView,
        >::empty());
        assert(m.union_prefer_right(Map::<i64, StateView>::empty()) =~= m);
    } else {
        let rs2 = rs.drop_last();
        let r = rs.last();
        lemma_replay_onto_union(m, rs2);
        assert(replay_onto(m, rs) == replay_onto(m, rs2).insert(r.session_id, authorized_of(r)));
        assert(replay_spec(rs) == replay_spec(rs2).insert(r.session_id, authorized_of(r)));
        assert(m.union_prefer_right(replay_spec(rs2)).insert(r.session_id, authorized_of(r))
            =~= m.union_prefer_right(replay_spec(rs)));
    }
}

/// Replaying the same log a second time changes nothing: the bindings it
/// writes are exactly the bindings it finds.
pub proof fn lemma_replay_idempotent(rs: Seq<RecordView>)
    ensures
        replay_onto(replay_spec(rs), rs) == replay_spec(rs),
{
    lemma_replay_onto_union(replay_spec(rs), rs);
    assert(replay_spec(rs).union_prefer_right(replay_spec(rs)) =~= replay_spec(rs));
}

/// With distinct session ids the order of application is immaterial:
/// the replayed registry binds each recorded session to exactly its own
/// record's authorized state, and binds no other session.
pub proof fn lemma_replay_distinct(rs: Seq<RecordView>)
    requires
        forall|i: int, j: int|
            0 <= i < j < rs.len() ==> rs[i].session_id != rs[j].session_id,
    ensures
        forall|i: int|
            0 <= i < rs.len() ==> replay_spec(rs).contains_key(#[trigger] rs[i].session_id)
                && replay_spec(rs)[rs[i].session_id] == authorized_of(rs[i]),
        forall|k: i64|
            replay_spec(rs).contains_key(k) ==> exists|i: int|
                0 <= i < rs.len() && rs[i].session_id == k,
    decreases rs.len(),
{
    if rs.len() > 0 {
        let rs2 = rs.drop_last();
        let r = rs.last();
        lemma_replay_distinct(rs2);
        assert(forall|i: int| 0 <= i < rs2.len() ==> rs2[i] == rs[i]);
        assert forall|i: int| 0 <= i < rs.len() implies replay_spec(rs).contains_key(
            #[trigger] rs[i].session_id,
        ) && replay_spec(rs)[rs[i].session_id] == authorized_of(rs[i]) by {
            if i < rs.len() - 1 {
                assert(rs[i].session_id != r.session_id);
                assert(replay_spec(rs2).contains_key(rs[i].session_id));
            } else {
                assert(rs[i] == r);
            }
        }
        assert forall|k: i64| replay_spec(rs).contains_key(k) implies exists|i: int|
            0 <= i < rs.len() && rs[i].session_id == k by {
            if k == r.session_id {
                assert(rs[rs.len() - 1].session_id == k);
            } else {
                assert(replay_spec(rs2).contains_key(k));
                let i = choose|i: int| 0 <= i < rs2.len() && rs2[i].session_id == k;
                assert(rs[i].session_id == k);
            }
        }
    }
}

} // verus!
