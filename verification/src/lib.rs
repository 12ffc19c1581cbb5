//! A discrete-tick simulation kernel for a small population of positioned
//! agents. The kernel tracks each agent's identity, grid position and local
//! neighbourhood, moves agents from directional input or randomized triggers,
//! recomputes spatial adjacency every tick, advances per-agent countdown
//! timers that emit production events, and projects the resulting state into
//! text for a presentation layer.

use vstd::prelude::*;

pub mod adjacency;
pub mod agent;
pub mod countdown;
pub mod kernel;
pub mod movement;
pub mod store;
pub mod view;

verus! {

/// Error taxonomy of the kernel. No condition here is fatal: consumers treat
/// each as "skip this component's work for this tick" or reject the bad
/// configuration once at construction time.
#[derive(Clone, Copy, Debug, PartialEq, Eq, Structural)]
pub enum KernelError {
    /// A handle does not resolve to a live agent.
    NotFound,
    /// No agents exist; aggregate operations degrade to an empty result.
    EmptySet,
    /// Directional movement was requested but no agent is controlled.
    NoControlledAgent,
    /// Malformed configuration rejected at construction time.
    InvalidConfig,
}

} // verus!
