//! The behavioral side: next-fire computation, the session state
//! machine, the scheduler's bookkeeping, delivery choice, and recovery.

use pocket_reminder::delivery::{choose_delivery, pick_delivery, DeliveryDecision};
use pocket_reminder::machine::{
    handle, handle_at_current_time, required_call, CallOutcome, Effect, HandshakeCall, Notice,
};
use pocket_reminder::timestamp::TS_MAX;
use pocket_reminder::period::Period;
use pocket_reminder::record::PersistedRecord;
use pocket_reminder::recovery::recover;
use pocket_reminder::registry::{SessionRegistry, SessionState};
use pocket_reminder::schedule::{next_fire_time, Schedule};
use pocket_reminder::scheduler::Scheduler;

const DAY_START: i64 = 1609459200; // Fri, 01 Jan 2021 00:00:00 +0000
const TEN_OCLOCK: i64 = DAY_START + 10 * 3600;

#[test]
fn daily_schedule_before_anchor_fires_same_day() {
    let s = Schedule { anchor: TEN_OCLOCK, period: Period::Day };
    let now = DAY_START + 9 * 3600; // 09:00
    assert_eq!(next_fire_time(&s, now), TEN_OCLOCK);
}

#[test]
fn daily_schedule_past_anchor_fires_next_day() {
    let s = Schedule { anchor: TEN_OCLOCK, period: Period::Day };
    let now = DAY_START + 11 * 3600; // 11:00
    assert_eq!(next_fire_time(&s, now), TEN_OCLOCK + 86400);
}

#[test]
fn daily_schedule_at_anchor_fires_now() {
    let s = Schedule { anchor: TEN_OCLOCK, period: Period::Day };
    assert_eq!(next_fire_time(&s, TEN_OCLOCK), TEN_OCLOCK);
}

#[test]
fn minute_schedule_past_anchor_fires_within_a_minute() {
    let s = Schedule { anchor: TEN_OCLOCK, period: Period::Minute };
    let now = DAY_START + 11 * 3600 + 1; // 11:00:01
    let next = next_fire_time(&s, now);
    assert!(next >= now);
    assert!(next - now < 60);
    assert_eq!(next, now + 59);
}

#[test]
fn anchor_from_another_day_keeps_its_time_of_day() {
    let s = Schedule { anchor: TEN_OCLOCK, period: Period::Day };
    let now = DAY_START + 30 * 86400 + 9 * 3600; // a month later, 09:00
    assert_eq!(next_fire_time(&s, now), DAY_START + 30 * 86400 + 10 * 3600);
}

fn pending_code(registry: &SessionRegistry, session_id: i64) -> Option<Vec<u8>> {
    match registry.get(session_id) {
        Some(SessionState::PendingCallback { request_code }) => Some(request_code.clone()),
        _ => None,
    }
}

fn authorized_credential(registry: &SessionRegistry, session_id: i64) -> Option<Vec<u8>> {
    match registry.get(session_id) {
        Some(SessionState::Authorized { credential, .. }) => Some(credential.clone()),
        _ => None,
    }
}

#[test]
fn handshake_end_to_end() {
    let mut registry = SessionRegistry::new();
    let now = TEN_OCLOCK;

    // Unknown session: the next inbound event requires a begin call.
    assert!(matches!(required_call(&registry, 42), Some(HandshakeCall::Begin)));

    // The begin call succeeds with request code "abc".
    let effects = handle(
        &mut registry,
        42,
        CallOutcome::BeginOk { request_code: b"abc".to_vec() },
        now,
    );
    assert_eq!(effects.len(), 2);
    assert!(matches!(
        effects[0],
        Effect::Notify { session_id: 42, notice: Notice::FollowLink }
    ));
    match &effects[1] {
        Effect::SendAuthLink { session_id, request_code } => {
            assert_eq!(*session_id, 42);
            assert_eq!(request_code, &b"abc".to_vec());
        }
        other => panic!("expected the auth link, got {:?}", effect_name(other)),
    }
    assert_eq!(pending_code(&registry, 42), Some(b"abc".to_vec()));

    // Pending session: the next inbound event requires the complete call
    // with the stored request code.
    match required_call(&registry, 42) {
        Some(HandshakeCall::Complete { request_code }) => {
            assert_eq!(request_code, b"abc".to_vec())
        }
        _ => panic!("expected a complete call"),
    }

    // The confirmation succeeds with credential "tok".
    let effects = handle(
        &mut registry,
        42,
        CallOutcome::CompleteOk { credential: b"tok".to_vec() },
        now,
    );
    assert_eq!(effects.len(), 4);
    assert!(matches!(
        effects[0],
        Effect::Notify { session_id: 42, notice: Notice::FirstDelivery }
    ));
    match &effects[1] {
        Effect::AppendRecord { record } => {
            assert_eq!(record.session_id, 42);
            assert_eq!(record.credential, b"tok".to_vec());
            assert_eq!(record.anchor, now);
            assert_eq!(record.period, Period::Day);
        }
        other => panic!("expected the appended record, got {:?}", effect_name(other)),
    }
    match &effects[2] {
        Effect::RegisterSchedule { session_id, schedule } => {
            assert_eq!(*session_id, 42);
            assert_eq!(schedule.anchor, now);
            assert_eq!(schedule.period, Period::Day);
        }
        other => panic!("expected the registration, got {:?}", effect_name(other)),
    }
    match &effects[3] {
        Effect::Deliver { session_id, credential } => {
            assert_eq!(*session_id, 42);
            assert_eq!(credential, &b"tok".to_vec());
        }
        other => panic!("expected the delivery, got {:?}", effect_name(other)),
    }
    assert_eq!(authorized_credential(&registry, 42), Some(b"tok".to_vec()));
    assert!(required_call(&registry, 42).is_none());
}

fn effect_name(e: &Effect) -> &'static str {
    match e {
        Effect::Notify { .. } => "Notify",
        Effect::SendAuthLink { .. } => "SendAuthLink",
        Effect::Deliver { .. } => "Deliver",
        Effect::AppendRecord { .. } => "AppendRecord",
        Effect::RegisterSchedule { .. } => "RegisterSchedule",
    }
}

#[test]
fn failed_begin_leaves_session_unknown() {
    let mut registry = SessionRegistry::new();
    let effects = handle(&mut registry, 42, CallOutcome::BeginFailed, TEN_OCLOCK);
    assert_eq!(effects.len(), 1);
    assert!(matches!(
        effects[0],
        Effect::Notify { session_id: 42, notice: Notice::HandshakeFailed }
    ));
    assert!(registry.get(42).is_none());
    // The next inbound event retries from scratch.
    assert!(matches!(required_call(&registry, 42), Some(HandshakeCall::Begin)));
}

#[test]
fn failed_confirmation_keeps_pending_state() {
    let mut registry = SessionRegistry::new();
    handle(
        &mut registry,
        42,
        CallOutcome::BeginOk { request_code: b"abc".to_vec() },
        TEN_OCLOCK,
    );
    let effects = handle(&mut registry, 42, CallOutcome::CompleteFailed, TEN_OCLOCK);
    assert_eq!(effects.len(), 1);
    assert!(matches!(
        effects[0],
        Effect::Notify { session_id: 42, notice: Notice::HandshakeFailed }
    ));
    // No record appended, no schedule registered, state unchanged.
    assert_eq!(pending_code(&registry, 42), Some(b"abc".to_vec()));
}

#[test]
fn authorized_inbound_delivers_without_state_change() {
    let mut registry = SessionRegistry::new();
    handle(
        &mut registry,
        42,
        CallOutcome::BeginOk { request_code: b"abc".to_vec() },
        TEN_OCLOCK,
    );
    handle(
        &mut registry,
        42,
        CallOutcome::CompleteOk { credential: b"tok".to_vec() },
        TEN_OCLOCK,
    );
    let effects = handle(&mut registry, 42, CallOutcome::NoCall, TEN_OCLOCK);
    assert_eq!(effects.len(), 2);
    assert!(matches!(
        effects[0],
        Effect::Notify { session_id: 42, notice: Notice::RandomArticle }
    ));
    match &effects[1] {
        Effect::Deliver { session_id, credential } => {
            assert_eq!(*session_id, 42);
            assert_eq!(credential, &b"tok".to_vec());
        }
        other => panic!("expected the delivery, got {:?}", effect_name(other)),
    }
    assert_eq!(authorized_credential(&registry, 42), Some(b"tok".to_vec()));
}

#[test]
fn stepping_at_the_wall_clock_reads_a_sane_instant() {
    let mut registry = SessionRegistry::new();
    let (now, effects) = handle_at_current_time(
        &mut registry,
        42,
        CallOutcome::BeginOk { request_code: b"abc".to_vec() },
    )
    .expect("the wall clock lies in the modelled range");
    assert!(now >= 0 && now < TS_MAX);
    // Sanity: the clock reads an instant after 2021, not a constant.
    assert!(now > DAY_START);
    assert_eq!(effects.len(), 2);
    assert_eq!(pending_code(&registry, 42), Some(b"abc".to_vec()));
}

#[test]
fn one_state_per_session() {
    let mut registry = SessionRegistry::new();
    handle(
        &mut registry,
        42,
        CallOutcome::BeginOk { request_code: b"first".to_vec() },
        TEN_OCLOCK,
    );
    handle(
        &mut registry,
        42,
        CallOutcome::CompleteOk { credential: b"tok".to_vec() },
        TEN_OCLOCK,
    );
    // Only the latest state is recorded: the pending one is gone.
    assert_eq!(pending_code(&registry, 42), None);
    assert_eq!(authorized_credential(&registry, 42), Some(b"tok".to_vec()));
    // Another session is untouched by all of it.
    assert!(registry.get(7).is_none());
}

#[test]
fn scheduler_register_and_cancel() {
    let mut scheduler = Scheduler::new();
    let s = Schedule { anchor: TEN_OCLOCK, period: Period::Day };
    let now = DAY_START + 9 * 3600;
    let next = scheduler.register(42, &s, now);
    assert_eq!(next, TEN_OCLOCK);
    let entry = scheduler.get(42).expect("timer must be armed");
    assert_eq!(entry.next_fire, TEN_OCLOCK);
    assert_eq!(entry.period, Period::Day);
    scheduler.cancel(42);
    assert!(scheduler.get(42).is_none());
    // Cancelling again is a no-op.
    scheduler.cancel(42);
    assert!(scheduler.get(42).is_none());
}

#[test]
fn scheduler_advances_one_period_per_fire() {
    let mut scheduler = Scheduler::new();
    let s = Schedule { anchor: TEN_OCLOCK, period: Period::ThreeHours };
    scheduler.register(42, &s, TEN_OCLOCK);
    scheduler.on_fired(42);
    let entry = scheduler.get(42).expect("timer must stay armed");
    assert_eq!(entry.next_fire, TEN_OCLOCK + 3 * 3600);
    scheduler.on_fired(42);
    assert_eq!(scheduler.get(42).unwrap().next_fire, TEN_OCLOCK + 6 * 3600);
}

#[test]
fn delivery_choice_is_modular() {
    let items = vec![b"100".to_vec(), b"200".to_vec(), b"300".to_vec()];
    match choose_delivery(&items, 5) {
        DeliveryDecision::Item { item_id } => assert_eq!(item_id, b"300".to_vec()),
        DeliveryDecision::NoCandidates => panic!("three candidates were offered"),
    }
    match choose_delivery(&items, 3) {
        DeliveryDecision::Item { item_id } => assert_eq!(item_id, b"100".to_vec()),
        DeliveryDecision::NoCandidates => panic!("three candidates were offered"),
    }
}

#[test]
fn delivery_reports_empty_candidates() {
    let items: Vec<Vec<u8>> = Vec::new();
    assert!(matches!(choose_delivery(&items, 7), DeliveryDecision::NoCandidates));
    assert!(matches!(pick_delivery(&items), DeliveryDecision::NoCandidates));
}

#[test]
fn delivery_picks_a_member() {
    let items = vec![b"a".to_vec(), b"b".to_vec()];
    match pick_delivery(&items) {
        DeliveryDecision::Item { item_id } => {
            assert!(items.contains(&item_id));
        }
        DeliveryDecision::NoCandidates => panic!("two candidates were offered"),
    }
}

fn sample_records() -> Vec<PersistedRecord> {
    vec![
        PersistedRecord {
            session_id: 1,
            credential: b"one".to_vec(),
            anchor: TEN_OCLOCK,
            period: Period::Day,
        },
        PersistedRecord {
            session_id: 2,
            credential: b"two".to_vec(),
            anchor: TEN_OCLOCK + 60,
            period: Period::Minute,
        },
    ]
}

#[test]
fn recovery_rebuilds_sessions_and_timers() {
    let now = DAY_START + 9 * 3600;
    let (registry, scheduler) = recover(&sample_records(), now);
    assert_eq!(authorized_credential(&registry, 1), Some(b"one".to_vec()));
    assert_eq!(authorized_credential(&registry, 2), Some(b"two".to_vec()));
    assert!(registry.get(3).is_none());
    // Both anchors' times of day are still ahead at 09:00, so both
    // timers wait for them.
    assert_eq!(scheduler.get(1).unwrap().next_fire, TEN_OCLOCK);
    assert_eq!(scheduler.get(2).unwrap().next_fire, TEN_OCLOCK + 60);
    // Recovered past the anchors, the minute timer is due within a
    // minute, not "same time tomorrow" -- while the daily one waits a day.
    let later = DAY_START + 11 * 3600 + 1;
    let (_, scheduler) = recover(&sample_records(), later);
    let minute_next = scheduler.get(2).unwrap().next_fire;
    assert!(minute_next >= later && minute_next - later < 60);
    assert_eq!(scheduler.get(1).unwrap().next_fire, TEN_OCLOCK + 86400);
}

#[test]
fn recovery_is_idempotent() {
    let now = DAY_START + 9 * 3600;
    let records = sample_records();
    let (reg_a, sched_a) = recover(&records, now);
    let (reg_b, sched_b) = recover(&records, now);
    for id in [1i64, 2] {
        assert_eq!(
            authorized_credential(&reg_a, id),
            authorized_credential(&reg_b, id)
        );
        assert_eq!(sched_a.get(id).unwrap(), sched_b.get(id).unwrap());
    }
}

#[test]
fn recovery_last_record_wins() {
    let mut records = sample_records();
    records.push(PersistedRecord {
        session_id: 1,
        credential: b"newer".to_vec(),
        anchor: TEN_OCLOCK + 3600,
        period: Period::Hour,
    });
    let (registry, scheduler) = recover(&records, DAY_START + 9 * 3600);
    assert_eq!(authorized_credential(&registry, 1), Some(b"newer".to_vec()));
    assert_eq!(scheduler.get(1).unwrap().period, Period::Hour);
}
