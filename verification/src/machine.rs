//! The per-session state machine: one inbound conversation event, the
//! external call it requires, and the transition plus side effects its
//! outcome produces.
//!
//! The machine itself performs no call: the caller asks which call the
//! session's current state requires, performs it, and hands the outcome
//! back. The transition is then a function of state and outcome alone,
//! and holds whatever the outside world answered.

use vstd::prelude::*;

verus! {

use crate::bytes::copy_bytes;
use crate::period::Period;
use crate::record::{PersistedRecord, RecordView};
use crate::registry::{SessionRegistry, SessionState, StateView, state_of};
use crate::schedule::Schedule;
use crate::timestamp::{TS_MAX, now_seconds, ts_in_range};

/// The fixed outbound texts; their wording belongs to the transport
/// layer, their occurrence and order to the machine.
#[derive(Clone, Copy, PartialEq, Eq, Structural, Debug)]
pub enum Notice {
    /// "Follow the link, verify the access, and return": sent when a
    /// handshake begins.
    FollowLink,
    /// The generic failure text, sent whenever an external call fails.
    HandshakeFailed,
    /// The greeting before the first delivery of a fresh authorization.
    FirstDelivery,
    /// The greeting before an on-demand delivery to an authorized session.
    RandomArticle,
}

/// The external call the next inbound event requires, given the
/// session's current state.
pub enum HandshakeCall {
    /// Start the handshake: ask the service for a request code.
    Begin,
    /// Confirm the handshake with the stored request code.
    Complete { request_code: Vec<u8> },
}

/// What the external call answered. `NoCall` stands for the authorized
/// case, where no handshake call precedes the step.
pub enum CallOutcome {
    BeginOk { request_code: Vec<u8> },
    BeginFailed,
    CompleteOk { credential: Vec<u8> },
    CompleteFailed,
    NoCall,
}

/// The mathematical contents of a call outcome.
pub enum OutcomeView {
    BeginOk { request_code: Seq<u8> },
    BeginFailed,
    CompleteOk { credential: Seq<u8> },
    CompleteFailed,
    NoCall,
}

impl View for CallOutcome {
    type V = OutcomeView;

    open spec fn view(&self) -> OutcomeView {
        match self {
            CallOutcome::BeginOk { request_code } => OutcomeView::BeginOk {
                request_code: request_code@,
            },
            CallOutcome::BeginFailed => OutcomeView::BeginFailed,
            CallOutcome::CompleteOk { credential } => OutcomeView::CompleteOk {
                credential: credential@,
            },
            CallOutcome::CompleteFailed => OutcomeView::CompleteFailed,
            CallOutcome::NoCall => OutcomeView::NoCall,
        }
    }
}

/// A side effect the caller must perform after a step, in order.
pub enum Effect {
    /// Send one of the fixed texts to the session's conversation.
    Notify { session_id: i64, notice: Notice },
    /// Send the authorization link carrying the request code.
    SendAuthLink { session_id: i64, request_code: Vec<u8> },
    /// Fetch candidates with the credential and deliver one item.
    Deliver { session_id: i64, credential: Vec<u8> },
    /// Append the record to the persistence log.
    AppendRecord { record: PersistedRecord },
    /// Arm the recurring timer for the schedule.
    RegisterSchedule { session_id: i64, schedule: Schedule },
}

/// The mathematical contents of a side effect.
pub enum EffectView {
    Notify { session_id: i64, notice: Notice },
    SendAuthLink { session_id: i64, request_code: Seq<u8> },
    Deliver { session_id: i64, credential: Seq<u8> },
    AppendRecord { record: RecordView },
    RegisterSchedule { session_id: i64, schedule: Schedule },
}

impl View for Effect {
    type V = EffectView;

    open spec fn view(&self) -> EffectView {
        match self {
            Effect::Notify { session_id, notice } => EffectView::Notify {
                session_id: *session_id,
                notice: *notice,
            },
            Effect::SendAuthLink { session_id, request_code } => EffectView::SendAuthLink {
                session_id: *session_id,
                request_code: request_code@,
            },
            Effect::Deliver { session_id, credential } => EffectView::Deliver {
                session_id: *session_id,
                credential: credential@,
            },
            Effect::AppendRecord { record } => EffectView::AppendRecord { record: record@ },
            Effect::RegisterSchedule { session_id, schedule } => EffectView::RegisterSchedule {
                session_id: *session_id,
                schedule: *schedule,
            },
        }
    }
}

/// The contents of a sequence of effects.
pub open spec fn effect_views(s: Seq<Effect>) -> Seq<EffectView> {
    s.map_values(|e: Effect| e@)
}

/// The outcome is the answer to exactly the call the current state
/// requires: a begin answer for an unknown session, a complete answer
/// for a pending one, and no call for an authorized one.
pub open spec fn outcome_matches(state: Option<StateView>, o: OutcomeView) -> bool {
    match state {
        Option::None => o is BeginOk || o is BeginFailed,
        Option::Some(StateView::PendingCallback { .. }) => o is CompleteOk || o is CompleteFailed,
        Option::Some(StateView::Authorized { .. }) => o is NoCall,
    }
}

/// The default period given to a fresh authorization.
pub open spec fn default_period() -> Period {
    Period::Day
}

/// The state recorded after one step: transitions only move forward, a
/// failed call leaves the state exactly where it was, and an authorized
/// session never regresses.
pub open spec fn next_state_spec(state: Option<StateView>, o: OutcomeView, now: i64) -> Option<
    StateView,
> {
    match o {
        OutcomeView::BeginOk { request_code } => Some(StateView::PendingCallback { request_code }),
        OutcomeView::CompleteOk { credential } => Some(
            StateView::Authorized {
                credential,
                schedule: Schedule { anchor: now, period: default_period() },
            },
        ),
        _ => state,
    }
}

/// The side effects of one step, in order. A fresh authorization is not
/// delivered to before its record is appended and its timer registered.
pub open spec fn effects_spec(
    session_id: i64,
    state: Option<StateView>,
    o: OutcomeView,
    now: i64,
) -> Seq<EffectView> {
    match o {
        OutcomeView::BeginOk { request_code } => seq![
            EffectView::Notify { session_id, notice: Notice::FollowLink },
            EffectView::SendAuthLink { session_id, request_code },
        ],
        OutcomeView::BeginFailed => seq![
            EffectView::Notify { session_id, notice: Notice::HandshakeFailed },
        ],
        OutcomeView::CompleteOk { credential } => seq![
            EffectView::Notify { session_id, notice: Notice::FirstDelivery },
            EffectView::AppendRecord {
                record: RecordView {
                    session_id,
                    credential,
                    anchor: now,
                    period: default_period(),
                },
            },
            EffectView::RegisterSchedule {
                session_id,
                schedule: Schedule { anchor: now, period: default_period() },
            },
            EffectView::Deliver { session_id, credential },
        ],
        OutcomeView::CompleteFailed => seq![
            EffectView::Notify { session_id, notice: Notice::HandshakeFailed },
        ],
        OutcomeView::NoCall => match state {
            Some(StateView::Authorized { credential, .. }) => seq![
                EffectView::Notify { session_id, notice: Notice::RandomArticle },
                EffectView::Deliver { session_id, credential },
            ],
            _ => Seq::empty(),
        },
    }
}

/// Transitions only move forward: an authorized session never regresses,
/// whatever the outcome, and a pending session either stays exactly
/// where it was or becomes authorized.
pub proof fn lemma_transitions_monotonic(state: Option<StateView>, o: OutcomeView, now: i64)
    requires
        outcome_matches(state, o),
    ensures
        (state matches Some(StateView::Authorized { .. })) ==> next_state_spec(state, o, now)
            == state,
        (state matches Some(StateView::PendingCallback { .. })) ==> (next_state_spec(
            state,
            o,
            now,
        ) == state || (next_state_spec(state, o, now) matches Some(
            StateView::Authorized { .. },
        ))),
{
}

/// The external call the next inbound event from `session_id` requires:
/// begin for an unknown session, complete (with the stored request code)
/// for a pending one, none for an authorized one.
pub fn required_call(registry: &SessionRegistry, session_id: i64) -> (r: Option<HandshakeCall>)
    ensures
        match state_of(registry@, session_id) {
            Option::None => r matches Some(HandshakeCall::Begin),
            Option::Some(StateView::PendingCallback { request_code }) => r matches Some(
                HandshakeCall::Complete { request_code: c },
            ) && c@ == request_code,
            Option::Some(StateView::Authorized { .. }) => r is None,
        },
{
    match registry.get(session_id) {
        Option::None => Some(HandshakeCall::Begin),
        Option::Some(SessionState::PendingCallback { request_code }) => Some(
            HandshakeCall::Complete { request_code: copy_bytes(request_code.as_slice()) },
        ),
        Option::Some(SessionState::Authorized { .. }) => None,
    }
}

/// One step of the state machine for one inbound event: exactly one
/// transition attempt, the new state recorded under the session's id and
/// every other session untouched, and exactly the effects of
/// `effects_spec`, in order.
pub fn handle(
    registry: &mut SessionRegistry,
    session_id: i64,
    outcome: CallOutcome,
    now: i64,
) -> (effects: Vec<Effect>)
    requires
        outcome_matches(state_of(old(registry)@, session_id), outcome@),
        ts_in_range(now),
    ensures
        final(registry)@ == (match next_state_spec(
            state_of(old(registry)@, session_id),
            outcome@,
            now,
        ) {
            Some(s) => old(registry)@.insert(session_id, s),
            None => old(registry)@,
        }),
        effect_views(effects@) == effects_spec(
            session_id,
            state_of(old(registry)@, session_id),
            outcome@,
            now,
        ),
{
    let ghost st = state_of(old(registry)@, session_id);
    let mut effects: Vec<Effect> = Vec::new();
    match outcome {
        CallOutcome::BeginOk { request_code } => {
            effects.push(Effect::Notify { session_id, notice: Notice::FollowLink });
            effects.push(
                Effect::SendAuthLink {
                    session_id,
                    request_code: copy_bytes(request_code.as_slice()),
                },
            );
            registry.insert(session_id, SessionState::PendingCallback { request_code });
            assert(effect_views(effects@) =~= effects_spec(session_id, st, outcome@, now));
        },
        CallOutcome::BeginFailed => {
            effects.push(Effect::Notify { session_id, notice: Notice::HandshakeFailed });
            assert(effect_views(effects@) =~= effects_spec(session_id, st, outcome@, now));
        },
        CallOutcome::CompleteOk { credential } => {
            let schedule = Schedule { anchor: now, period: Period::Day };
            effects.push(Effect::Notify { session_id, notice: Notice::FirstDelivery });
            effects.push(
                Effect::AppendRecord {
                    record: PersistedRecord {
                        session_id,
                        credential: copy_bytes(credential.as_slice()),
                        anchor: now,
                        period: Period::Day,
                    },
                },
            );
            effects.push(Effect::RegisterSchedule { session_id, schedule });
            effects.push(
                Effect::Deliver { session_id, credential: copy_bytes(credential.as_slice()) },
            );
            registry.insert(session_id, SessionState::Authorized { credential, schedule });
            assert(effect_views(effects@) =~= effects_spec(session_id, st, outcome@, now));
        },
        CallOutcome::CompleteFailed => {
            effects.push(Effect::Notify { session_id, notice: Notice::HandshakeFailed });
            assert(effect_views(effects@) =~= effects_spec(session_id, st, outcome@, now));
        },
        CallOutcome::NoCall => {
            let credential = match registry.get(session_id) {
                Some(SessionState::Authorized { credential, .. }) => copy_bytes(
                    credential.as_slice(),
                ),
                _ => vstd::pervasive::unreached(),
            };
            effects.push(Effect::Notify { session_id, notice: Notice::RandomArticle });
            effects.push(Effect::Deliver { session_id, credential });
            assert(effect_views(effects@) =~= effects_spec(session_id, st, outcome@, now));
        },
    }
    effects
}

/// One step at the wall clock's current instant: reads the clock and,
/// when the reading lies in the modelled range, steps exactly as
/// `handle` would at that instant, returning the instant beside the
/// effects. A reading outside the range changes nothing.
pub fn handle_at_current_time(
    registry: &mut SessionRegistry,
    session_id: i64,
    outcome: CallOutcome,
) -> (r: Option<(i64, Vec<Effect>)>)
    requires
        outcome_matches(state_of(old(registry)@, session_id), outcome@),
    ensures
        match r {
            Some((now, effects)) => {
                &&& ts_in_range(now)
                &&& final(registry)@ == (match next_state_spec(
                    state_of(old(registry)@, session_id),
                    outcome@,
                    now,
                ) {
                    Some(s) => old(registry)@.insert(session_id, s),
                    None => old(registry)@,
                })
                &&& effect_views(effects@) == effects_spec(
                    session_id,
                    state_of(old(registry)@, session_id),
                    outcome@,
                    now,
                )
            },
            None => final(registry)@ == old(registry)@,
        },
{
    let now = now_seconds();
    if now >= 0 && now < TS_MAX {
        let effects = handle(registry, session_id, outcome, now);
        Some((now, effects))
    } else {
        None
    }
}

} // verus!
