//! Core of a periodic-delivery notification service: per-conversation
//! authorization state machine, recurring schedules aligned to a wall-clock
//! anchor, an append-only textual persistence format, and the startup
//! recovery that replays that log.

pub mod bytes;
pub mod decimal;
pub mod delivery;
pub mod log;
pub mod machine;
pub mod period;
pub mod record;
pub mod recovery;
pub mod registry;
pub mod schedule;
pub mod scheduler;
pub mod timestamp;

pub use period::Period;
