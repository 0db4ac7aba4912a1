//! The browser agent's configuration wrapper.

use vstd::prelude::*;

use crate::error::SwarmError;
use crate::types::AgentConfig;

verus! {

/// Browser-specific settings.
#[derive(Debug)]
pub struct BrowserAgentConfig {
    pub instructions: String,
}

/// The browser agent: its settings and its agent configuration.
pub struct BrowserAgentWrapper {
    pub browser_config: BrowserAgentConfig,
    pub agent_config: AgentConfig,
}

impl BrowserAgentWrapper {
    /// A browser agent whose browser instructions are those of `config`.
    pub fn new(config: AgentConfig) -> (r: Result<Self, SwarmError>)
        ensures
            r matches Ok(b) && b.agent_config == config && b.browser_config.instructions@
                == config.instructions@,
    {
        let browser_config = BrowserAgentConfig { instructions: config.instructions.clone() };
        Ok(BrowserAgentWrapper { browser_config, agent_config: config })
    }
}

} // verus!
