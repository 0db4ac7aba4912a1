//! Errors of the swarm's agent layer.

use vstd::prelude::*;

verus! {

/// Errors raised by agents, tools and state machines.
#[derive(Debug)]
pub enum SwarmError {
    Agent(String),
    Tool(String),
    State(String),
}

} // verus!
