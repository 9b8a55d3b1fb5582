//! Catalog records: targets, programs and rewards, and the execution context
//! that bundles them with a snapshot of the progression state for one action.
//!
//! These are static input data for the resolver; nothing here is mutated by
//! an action. Mappings that the resolver never consults (a target's
//! subsystems, a program's command table) are held as association lists in
//! insertion order.

use vstd::prelude::*;
use crate::state::GameState;
use crate::state::state_wf;

verus! {

/// One subsystem of a target machine.
pub struct System {
    pub strength: u8,
    pub compromised: bool,
}

/// Reward granted by a target.
pub struct Reward {
    pub xp: u32,
    pub money: u32,
}

/// A target machine profile, read from the catalog and never mutated.
pub struct Target {
    pub name: String,
    pub ip: String,
    pub difficulty: u8,
    pub description: String,
    pub reward: Reward,
    pub systems: Vec<(String, System)>,
    pub os: String,
    pub vulnerabilities: Vec<String>,
}

/// A tool the player runs. `success_rate` is a success probability in whole
/// percent (0..=100); the resolver derives its own per-action chance and
/// never reads it. A name containing `"Pro"` marks a higher-tier variant.
pub struct Program {
    pub name: String,
    pub description: String,
    pub price: u32,
    pub level: u8,
    pub program_type: String,
    pub commands: Vec<(String, String)>,
    pub success_rate: u32,
}

/// The resolver's sole input: program, target, a snapshot of the progression
/// state, and free-form arguments. Read-only during resolution.
pub struct ExecutionContext {
    pub program: Program,
    pub target: Target,
    pub game_state: GameState,
    pub args: Vec<String>,
}

/// A context is well formed when its progression snapshot is: the detection
/// meter is clamped to 0..=100.
pub open spec fn ctx_wf(ctx: &ExecutionContext) -> bool {
    state_wf(ctx.game_state@)
}

} // verus!
