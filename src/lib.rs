//! A single-tape deterministic Turing machine: a tape with a movable cursor,
//! per-state transition tables, and a run loop that drives the machine until
//! it reaches its accept or reject state.

pub mod tape;
pub mod rule;
pub mod machine;
