//! Kinds of user preference the learning components track.

use vstd::prelude::*;

verus! {

/// What a learned user preference is about.
#[derive(Debug, Clone, Copy, PartialEq, Eq, Hash, Structural)]
pub enum PreferenceCategory {
    /// Which agents the user prefers.
    AgentChoice,
    /// Detailed or concise answers.
    ResponseStyle,
    /// Fast or thorough work.
    InteractionSpeed,
    /// Casual or formal tone.
    Formality,
    /// Reactive or proactive help.
    ProactivityLevel,
}

} // verus!
