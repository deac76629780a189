//! The shared mapping from session identity to current authorization
//! state, reached only through its operations — never as a raw map.

use vstd::prelude::*;

verus! {

use std::collections::HashMap;
use crate::schedule::Schedule;

broadcast use vstd::std_specs::hash::group_hash_axioms;

/// The mathematical contents of one session's state.
pub enum StateView {
    PendingCallback { request_code: Seq<u8> },
    Authorized { credential: Seq<u8>, schedule: Schedule },
}

/// One conversation's authorization state. A session with no recorded
/// state has not begun the handshake; states only move forward, from
/// pending to authorized.
pub enum SessionState {
    /// Handshake begun; the stored request code awaits external
    /// confirmation.
    PendingCallback { request_code: Vec<u8> },
    /// Handshake complete: the credential for item fetches and the
    /// session's recurring schedule.
    Authorized { credential: Vec<u8>, schedule: Schedule },
}

impl View for SessionState {
    type V = StateView;

    open spec fn view(&self) -> StateView {
        match self {
            SessionState::PendingCallback { request_code } => StateView::PendingCallback {
                request_code: request_code@,
            },
            SessionState::Authorized { credential, schedule } => StateView::Authorized {
                credential: credential@,
                schedule: *schedule,
            },
        }
    }
}

/// The registry of all sessions' current states.
pub struct SessionRegistry {
    states: HashMap<i64, SessionState>,
}

impl View for SessionRegistry {
    type V = Map<i64, StateView>;

    closed spec fn view(&self) -> Map<i64, StateView> {
        self.states@.map_values(|s: SessionState| s@)
    }
}

/// The state recorded for `session_id`, if any.
pub open spec fn state_of(m: Map<i64, StateView>, session_id: i64) -> Option<StateView> {
    if m.contains_key(session_id) {
        Some(m[session_id])
    } else {
        None
    }
}

impl SessionRegistry {
    /// An empty registry: no session has any state.
    pub fn new() -> (r: SessionRegistry)
        ensures
            r@ == Map::<i64, StateView>::empty(),
    {
        let r = SessionRegistry { states: HashMap::new() };
        proof {
            assert(r@ =~= Map::<i64, StateView>::empty());
        }
        r
    }

    /// The current state of `session_id`, or `None` when the session has
    /// not begun the handshake.
    pub fn get(&self, session_id: i64) -> (r: Option<&SessionState>)
        ensures
            match r {
                Some(s) => state_of(self@, session_id) == Some(s@),
                None => state_of(self@, session_id) is None,
            },
    {
        let r = self.states.get(&session_id);
        proof {
            match r {
                Some(s) => {
                    assert(self.states@.contains_key(session_id));
                    assert(self@.contains_key(session_id));
                    assert(self@[session_id] == s@);
                },
                None => {
                    assert(!self.states@.contains_key(session_id));
                    assert(!self@.contains_key(session_id));
                },
            }
        }
        r
    }

    /// Records `state` as the one state of `session_id`, replacing any
    /// previous one; every other session is untouched.
    pub fn insert(&mut self, session_id: i64, state: SessionState)
        ensures
            final(self)@ == old(self)@.insert(session_id, state@),
    {
        let ghost sv = state@;
        self.states.insert(session_id, state);
        proof {
            assert(final(self)@ =~= old(self)@.insert(session_id, sv));
        }
    }
}

/// At any instant at most one state is recorded per session: two states
/// both recorded for the same id are the same state.
pub proof fn lemma_single_state_per_session(reg: SessionRegistry, session_id: i64)
    ensures
        forall|s1: StateView, s2: StateView|
            reg@.contains_pair(session_id, s1) && reg@.contains_pair(session_id, s2) ==> s1 == s2,
{
}

} // verus!
