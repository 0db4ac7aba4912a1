//! Named sets of agent configurations and tool templates.

use vstd::prelude::*;

use crate::error::SwarmError;
use crate::named_map::NamedMap;
use crate::text::copy_str;
use crate::types::{AgentConfig, Tool, ToolParameter};

verus! {

/// A named group of agent configurations.
#[derive(Debug)]
pub struct AgentSet {
    pub name: String,
    pub description: String,
    pub agents: Vec<AgentConfig>,
}

/// `t` is the tool that hands a conversation over to another agent: named
/// "agent_transfer", with one string parameter "target_agent".
pub open spec fn is_transfer_tool(t: Tool) -> bool {
    &&& t.name@ == "agent_transfer"@
    &&& t.description@ == "Transfer control to another agent"@
    &&& t.parameters@.len() == 1
    &&& t.parameters@[0].0@ == "target_agent"@
    &&& t.parameters@[0].1.param_type@ == "string"@
    &&& t.parameters@[0].1.description matches Some(d) && d@ == "Name of the agent to transfer to"@
    &&& t.parameters@[0].1.enum_values is None
    &&& t.parameters@[0].1.pattern is None
    &&& t.parameters@[0].1.properties is None
    &&& t.parameters@[0].1.required is None
    &&& t.parameters@[0].1.additional_properties is None
    &&& t.parameters@[0].1.items is None
}

/// The tool agents use to transfer a conversation to another agent.
pub fn get_transfer_tool() -> (t: Tool)
    ensures
        is_transfer_tool(t),
{
    let p = ToolParameter {
        param_type: copy_str("string"),
        description: Some(copy_str("Name of the agent to transfer to")),
        enum_values: None,
        pattern: None,
        properties: None,
        required: None,
        additional_properties: None,
        items: None,
    };
    let mut parameters: Vec<(String, ToolParameter)> = Vec::new();
    parameters.push((copy_str("target_agent"), p));
    Tool {
        name: copy_str("agent_transfer"),
        description: copy_str("Transfer control to another agent"),
        parameters,
    }
}

/// Registry of agent sets and tool templates, each looked up by name.
pub struct ConfigManager {
    agent_sets: NamedMap<AgentSet>,
    tool_templates: NamedMap<Tool>,
}

/// Everything about an agent configuration except its tools is the same,
/// and its tools are the old ones plus, when it has downstream agents, the
/// transfer tool at the end.
pub open spec fn injected(old_agent: AgentConfig, new_agent: AgentConfig) -> bool {
    &&& new_agent.name == old_agent.name
    &&& new_agent.public_description == old_agent.public_description
    &&& new_agent.instructions == old_agent.instructions
    &&& new_agent.downstream_agents == old_agent.downstream_agents
    &&& new_agent.personality == old_agent.personality
    &&& new_agent.state_machine == old_agent.state_machine
    &&& if old_agent.downstream_agents@.len() > 0 {
        &&& new_agent.tools@.len() == old_agent.tools@.len() + 1
        &&& new_agent.tools@.drop_last() == old_agent.tools@
        &&& is_transfer_tool(new_agent.tools@.last())
    } else {
        new_agent.tools@ == old_agent.tools@
    }
}

impl ConfigManager {
    /// Registered agent sets by name.
    pub closed spec fn agent_sets(&self) -> Map<Seq<char>, AgentSet> {
        self.agent_sets.map()
    }

    /// Registered tool templates by name.
    pub closed spec fn tool_templates(&self) -> Map<Seq<char>, Tool> {
        self.tool_templates.map()
    }

    /// An empty registry.
    pub fn new() -> (m: Self)
        ensures
            m.agent_sets() == Map::<Seq<char>, AgentSet>::empty(),
            m.tool_templates() == Map::<Seq<char>, Tool>::empty(),
    {
        ConfigManager { agent_sets: NamedMap::new(), tool_templates: NamedMap::new() }
    }

    /// Registers an agent set under its own name, replacing any set of that name.
    pub fn register_agent_set(&mut self, agent_set: AgentSet)
        ensures
            final(self).agent_sets() == old(self).agent_sets().insert(agent_set.name@, agent_set),
            final(self).tool_templates() == old(self).tool_templates(),
    {
        let name = agent_set.name.clone();
        self.agent_sets.insert(name, agent_set);
    }

    /// Registers a tool template under `name`, replacing any of that name.
    pub fn register_tool_template(&mut self, name: String, tool: Tool)
        ensures
            final(self).tool_templates() == old(self).tool_templates().insert(name@, tool),
            final(self).agent_sets() == old(self).agent_sets(),
    {
        self.tool_templates.insert(name, tool);
    }

    /// The agent set registered under `name`.
    pub fn get_agent_set(&self, name: &str) -> (r: Option<&AgentSet>)
        ensures
            match r {
                Some(s) => self.agent_sets().contains_key(name@) && *s == self.agent_sets()[name@],
                None => !self.agent_sets().contains_key(name@),
            },
    {
        self.agent_sets.get(name)
    }

    /// The tool template registered under `name`.
    pub fn get_tool_template(&self, name: &str) -> (r: Option<&Tool>)
        ensures
            match r {
                Some(t) => self.tool_templates().contains_key(name@) && *t == self.tool_templates()[name@],
                None => !self.tool_templates().contains_key(name@),
            },
    {
        self.tool_templates.get(name)
    }

    /// Gives every agent of the set that has downstream agents the transfer tool.
    pub fn inject_transfer_tools(&mut self, agent_set: &mut AgentSet) -> (r: Result<(), SwarmError>)
        ensures
            r is Ok,
            final(self).agent_sets() == old(self).agent_sets(),
            final(self).tool_templates() == old(self).tool_templates(),
            final(agent_set).name == old(agent_set).name,
            final(agent_set).description == old(agent_set).description,
            final(agent_set).agents@.len() == old(agent_set).agents@.len(),
            forall|i: int|
                0 <= i < old(agent_set).agents@.len() ==> injected(
                    old(agent_set).agents@[i],
                    #[trigger] final(agent_set).agents@[i],
                ),
    {
        let ghost old_agents = agent_set.agents@;
        let mut i: usize = 0;
        while i < agent_set.agents.len()
            invariant
                i <= agent_set.agents@.len(),
                agent_set.agents@.len() == old_agents.len(),
                agent_set.name == old(agent_set).name,
                agent_set.description == old(agent_set).description,
                old_agents == old(agent_set).agents@,
                forall|k: int| 0 <= k < i ==> injected(old_agents[k], #[trigger] agent_set.agents@[k]),
                forall|k: int| i <= k < old_agents.len() ==> #[trigger] agent_set.agents@[k] == old_agents[k],
            decreases agent_set.agents@.len() - i,
        {
            if agent_set.agents[i].downstream_agents.len() > 0 {
                let ghost prev = agent_set.agents@;
                let mut a = agent_set.agents.remove(i);
                let ghost before = a;
                a.tools.push(get_transfer_tool());
                proof {
                    assert(a.tools@.drop_last() =~= before.tools@);
                    assert(before == prev[i as int]);
                }
                agent_set.agents.insert(i, a);
                proof {
                    assert forall|k: int| 0 <= k < prev.len() && k != i implies #[trigger] agent_set.agents@[k] == prev[k] by {}
                }
            }
            i += 1;
        }
        Ok(())
    }
}

} // verus!
