//! The fleet watchdog: polls the canisters it watches, keeps a bounded
//! ring buffer of health events, and gates cycle top-ups to its owner.
pub mod types;
pub mod state;
pub mod laws;
