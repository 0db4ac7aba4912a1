//! The registry of agents and the default agent configurations.

use vstd::prelude::*;

use crate::error::SwarmError;
use crate::named_map::{entries_map, unique_keys, NamedMap};
use crate::text::{concat_str, copy_str, names};
use crate::types::AgentConfig;

verus! {

/// Name, description, instructions and downstream agents of a configuration
/// that has no tools, personality or state machine.
pub open spec fn plain_config(c: AgentConfig, name: Seq<char>, desc: Seq<char>, instr: Seq<char>, downstream: Seq<Seq<char>>) -> bool {
    &&& c.name@ == name
    &&& c.public_description@ == desc
    &&& c.instructions@ == instr
    &&& names(c.downstream_agents@) == downstream
    &&& c.tools@.len() == 0
    &&& c.personality is None
    &&& c.state_machine is None
}

/// A configuration with no tools, personality or state machine.
pub fn plain_agent_config(name: &str, desc: &str, instr: &str, downstream: Vec<String>) -> (c: AgentConfig)
    ensures
        plain_config(c, name@, desc@, instr@, names(downstream@)),
{
    AgentConfig {
        name: copy_str(name),
        public_description: copy_str(desc),
        instructions: copy_str(instr),
        tools: Vec::new(),
        downstream_agents: downstream,
        personality: None,
        state_machine: None,
    }
}

/// An empty list of agent names.
pub fn no_agents() -> (v: Vec<String>)
    ensures
        names(v@) == Seq::<Seq<char>>::empty(),
{
    let v: Vec<String> = Vec::new();
    proof {
        assert(names(v@) =~= Seq::<Seq<char>>::empty());
    }
    v
}

/// The default agents: greeter, haiku, git, project-init and browser.
pub open spec fn spec_default_agents(cs: Seq<AgentConfig>) -> bool {
    &&& cs.len() == 5
    &&& plain_config(cs[0], "greeter"@, "Agent that greets the user."@, "Greet users and make them feel welcome."@, Seq::empty())
    &&& plain_config(cs[1], "haiku"@, "Agent that creates haikus."@, "Create haikus based on user input."@, Seq::empty())
    &&& plain_config(cs[2], "git"@, "Agent that helps with git operations."@, "Help users with git operations like commit, branch, merge etc."@, Seq::empty())
    &&& plain_config(cs[3], "project-init"@, "Agent that helps initialize new projects."@, "Help users create new projects with proper structure and configuration."@, Seq::empty())
    &&& plain_config(cs[4], "browser"@, "Agent that controls browser automation."@, "Help users with browser automation tasks."@, Seq::empty())
}

/// The default agent configurations.
pub fn default_agents() -> (agents: Vec<AgentConfig>)
    ensures
        spec_default_agents(agents@),
{
    let mut agents: Vec<AgentConfig> = Vec::new();
    agents.push(plain_agent_config("greeter", "Agent that greets the user.", "Greet users and make them feel welcome.", no_agents()));
    agents.push(plain_agent_config("haiku", "Agent that creates haikus.", "Create haikus based on user input.", no_agents()));
    agents.push(plain_agent_config("git", "Agent that helps with git operations.", "Help users with git operations like commit, branch, merge etc.", no_agents()));
    agents.push(plain_agent_config("project-init", "Agent that helps initialize new projects.", "Help users create new projects with proper structure and configuration.", no_agents()));
    agents.push(plain_agent_config("browser", "Agent that controls browser automation.", "Help users with browser automation tasks.", no_agents()));
    agents
}

/// Agents by name, and the agent currently holding the conversation.
pub struct AgentRegistry<W> {
    pub agents: NamedMap<W>,
    current_agent: Option<String>,
}

impl<W> AgentRegistry<W> {
    /// The registered agents by name.
    pub closed spec fn agent_map(&self) -> Map<Seq<char>, W> {
        self.agents.map()
    }

    /// Name of the current agent.
    pub closed spec fn current(&self) -> Option<Seq<char>> {
        match self.current_agent {
            Some(c) => Some(c@),
            None => None,
        }
    }

    /// Each name is registered once.
    pub closed spec fn wf(&self) -> bool {
        self.agents.wf()
    }

    /// An empty registry with no current agent.
    pub fn new() -> (r: Self)
        ensures
            r.wf(),
            r.agent_map() == Map::<Seq<char>, W>::empty(),
            r.current() is None,
    {
        AgentRegistry { agents: NamedMap::new(), current_agent: None }
    }

    /// Registers an agent under `name`, replacing any agent of that name.
    pub fn register(&mut self, name: String, agent: W)
        ensures
            old(self).wf() ==> final(self).wf(),
            final(self).agent_map() == old(self).agent_map().insert(name@, agent),
            final(self).current() == old(self).current(),
    {
        self.agents.insert(name, agent);
    }

    /// The agent registered under `name`.
    pub fn get(&self, name: &str) -> (r: Option<&W>)
        ensures
            match r {
                Some(a) => self.agent_map().contains_key(name@) && *a == self.agent_map()[name@],
                None => !self.agent_map().contains_key(name@),
            },
    {
        self.agents.get(name)
    }

    /// The agent registered under `name`, for in-place update.
    pub fn get_mut(&mut self, name: &str) -> (r: Option<&mut W>)
        ensures
            old(self).wf() ==> final(self).wf(),
            final(self).current() == old(self).current(),
            match r {
                Some(a) => old(self).agent_map().contains_key(name@) && *a == old(self).agent_map()[name@]
                    && final(self).agent_map() == old(self).agent_map().insert(name@, *final(a)),
                None => !old(self).agent_map().contains_key(name@) && final(self).agent_map()
                    == old(self).agent_map(),
            },
    {
        self.agents.get_mut(name)
    }

    /// Whether an agent is registered under `name`.
    pub fn agent_exists(&self, name: &str) -> (b: bool)
        ensures
            b == self.agent_map().contains_key(name@),
    {
        self.agents.contains_key(name)
    }

    /// Name of the current agent, if any.
    pub fn get_current_agent(&self) -> (r: Option<&str>)
        ensures
            match r {
                Some(s) => self.current() == Some(s@),
                None => self.current() is None,
            },
    {
        match &self.current_agent {
            Some(c) => Some(c.as_str()),
            None => None,
        }
    }

    /// Makes `agent` the current agent.
    pub fn set_current_agent(&mut self, agent: String)
        ensures
            final(self).current() == Some(agent@),
            final(self).agent_map() == old(self).agent_map(),
            final(self).wf() == old(self).wf(),
    {
        self.current_agent = Some(agent);
    }

    /// The registered (name, agent) entries, in registration order; in a
    /// well-formed registry each name occurs once.
    pub fn iter(&self) -> (r: &[(String, W)])
        ensures
            entries_map(r@) == self.agent_map(),
            self.wf() ==> unique_keys(r@) && r@.len() == self.agent_map().dom().len(),
    {
        self.agents.as_slice()
    }

    /// Hands the conversation from `from` to `to`: both must be registered;
    /// on success `to` becomes the current agent.
    pub fn transfer(&mut self, from: &str, to: &str) -> (r: Result<(), SwarmError>)
        ensures
            final(self).agent_map() == old(self).agent_map(),
            final(self).wf() == old(self).wf(),
            match r {
                Ok(()) => old(self).agent_map().contains_key(from@) && old(self).agent_map().contains_key(to@)
                    && final(self).current() == Some(to@),
                Err(SwarmError::Agent(msg)) => final(self).current() == old(self).current() && if !old(self).agent_map().contains_key(from@) {
                    msg@ == "Source agent '"@ + from@ + "' not found"@
                } else {
                    !old(self).agent_map().contains_key(to@) && msg@ == "Target agent '"@ + to@ + "' not found"@
                },
                Err(_) => false,
            },
    {
        if !self.agent_exists(from) {
            let a = concat_str("Source agent '", from);
            let m = concat_str(a.as_str(), "' not found");
            return Err(SwarmError::Agent(m));
        }
        if !self.agent_exists(to) {
            let a = concat_str("Target agent '", to);
            let m = concat_str(a.as_str(), "' not found");
            return Err(SwarmError::Agent(m));
        }
        self.set_current_agent(copy_str(to));
        Ok(())
    }
}

/// Looking up a name right after registering it yields the registered agent,
/// and registering leaves every other name as it was.
pub proof fn lemma_register_then_get<W>(
    before: AgentRegistry<W>,
    after: AgentRegistry<W>,
    name: Seq<char>,
    agent: W,
    other: Seq<char>,
)
    requires
        after.agent_map() == before.agent_map().insert(name, agent),
    ensures
        after.agent_map().contains_key(name),
        after.agent_map()[name] == agent,
        other != name ==> (after.agent_map().contains_key(other) == before.agent_map().contains_key(other)
            && (before.agent_map().contains_key(other) ==> after.agent_map()[other]
            == before.agent_map()[other])),
{
}


/// The kinds of agent the swarm can create.
#[derive(Debug, Clone, Copy, PartialEq, Eq, Structural)]
pub enum AgentKind {
    Project,
    Git,
    Greeter,
    Haiku,
    Browser,
}

/// The kind of agent a configuration name asks for.
pub open spec fn spec_agent_kind(name: Seq<char>) -> Option<AgentKind> {
    if name == "project"@ {
        Some(AgentKind::Project)
    } else if name == "git"@ {
        Some(AgentKind::Git)
    } else if name == "greeter"@ {
        Some(AgentKind::Greeter)
    } else if name == "haiku"@ {
        Some(AgentKind::Haiku)
    } else if name == "browser"@ {
        Some(AgentKind::Browser)
    } else {
        None
    }
}

/// The kind of agent to create for a configuration name; other names are
/// refused.
pub fn agent_kind(name: &str) -> (r: Result<AgentKind, SwarmError>)
    ensures
        match spec_agent_kind(name@) {
            Some(k) => r == Ok::<AgentKind, SwarmError>(k),
            None => r matches Err(SwarmError::Agent(e)) && e@ == "Unknown agent type: "@ + name@,
        },
{
    if crate::text::str_eq(name, "project") {
        Ok(AgentKind::Project)
    } else if crate::text::str_eq(name, "git") {
        Ok(AgentKind::Git)
    } else if crate::text::str_eq(name, "greeter") {
        Ok(AgentKind::Greeter)
    } else if crate::text::str_eq(name, "haiku") {
        Ok(AgentKind::Haiku)
    } else if crate::text::str_eq(name, "browser") {
        Ok(AgentKind::Browser)
    } else {
        Err(SwarmError::Agent(concat_str("Unknown agent type: ", name)))
    }
}


/// An agent held by the registry, with the interval at which it looks for
/// new tasks.
#[derive(Debug)]
pub struct AgentWrapper<A> {
    pub inner: A,
}

impl<A> AgentWrapper<A> {
    /// Wraps an agent.
    pub fn new(agent: A) -> (w: Self)
        ensures
            w.inner == agent,
    {
        AgentWrapper { inner: agent }
    }

    /// Seconds between looks at the todo list: one minute.
    pub fn check_interval_seconds(&self) -> (s: u64)
        ensures
            s == 60,
    {
        60
    }
}

} // verus!
