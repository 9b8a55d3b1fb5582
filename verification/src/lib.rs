//! Simulation core of a hacking-themed game: a progression state machine
//! (level, experience, money, detection meter, stealth toggle) and an action
//! resolver that turns a chosen action, a target profile and a snapshot of the
//! progression state into a structured outcome record.

pub mod catalog;
pub mod codec;
pub mod probe;
mod random;
pub mod resolve;
pub mod state;
pub mod text;
