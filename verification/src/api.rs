//! The data of the HTTP and WebSocket interface: requests, replies and the
//! agents it offers.

use vstd::prelude::*;

use crate::agents::registry::{no_agents, plain_agent_config, plain_config};
use crate::text::{copy_str, names};
use crate::types::{AgentConfig, TaskPriority};

verus! {

/// An agent as listed to clients.
#[derive(Debug)]
pub struct AgentResponse {
    pub name: String,
    pub description: String,
}

/// A message sent to an agent.
#[derive(Debug)]
pub struct MessageRequest {
    pub content: String,
}

/// A task added through the interface.
#[derive(Debug)]
pub struct AddTaskRequest {
    pub description: String,
    pub priority: TaskPriority,
    pub source_agent: Option<String>,
}

/// What the WebSocket server tells a client.
#[derive(Debug)]
pub enum ServerMessage {
    Connected { agent: String },
    Message { content: String },
    Error { message: String },
    Transferred { from: String, to: String },
    SessionUpdated,
}

/// How an agent is listed to clients: its name and public description.
pub fn agent_response(config: &AgentConfig) -> (r: AgentResponse)
    ensures
        r.name == config.name,
        r.description == config.public_description,
{
    AgentResponse { name: config.name.clone(), description: config.public_description.clone() }
}

/// The agents the interface serves: a greeter that offers haiku and hands
/// over to the haiku agent, and the haiku, git, project-init and browser
/// agents.
pub open spec fn spec_api_default_agents(cs: Seq<AgentConfig>) -> bool {
    &&& cs.len() == 5
    &&& plain_config(
        cs[0],
        "greeter"@,
        "Agent that greets the user."@,
        "Please greet the user and ask them if they'd like a Haiku. If yes, transfer them to the 'haiku' agent."@,
        seq!["haiku"@],
    )
    &&& plain_config(cs[1], "haiku"@, "Agent that creates haikus."@, "Create haikus based on user input."@, Seq::empty())
    &&& plain_config(
        cs[2],
        "git"@,
        "Agent that helps with git operations."@,
        "Help users with git operations like commit, branch, merge etc."@,
        Seq::empty(),
    )
    &&& plain_config(
        cs[3],
        "project-init"@,
        "Agent that helps initialize new projects."@,
        "Help users create new projects with proper structure and configuration."@,
        Seq::empty(),
    )
    &&& plain_config(
        cs[4],
        "browser"@,
        "Agent that controls browser automation."@,
        "Help users with browser automation tasks."@,
        Seq::empty(),
    )
}

/// The agents the interface serves.
pub fn default_agents() -> (agents: Vec<AgentConfig>)
    ensures
        spec_api_default_agents(agents@),
{
    let haiku = vec![copy_str("haiku")];
    proof {
        assert(names(haiku@) =~= seq!["haiku"@]);
    }
    let mut agents: Vec<AgentConfig> = Vec::new();
    agents.push(
        plain_agent_config(
            "greeter",
            "Agent that greets the user.",
            "Please greet the user and ask them if they'd like a Haiku. If yes, transfer them to the 'haiku' agent.",
            haiku,
        ),
    );
    agents.push(plain_agent_config("haiku", "Agent that creates haikus.", "Create haikus based on user input.", no_agents()));
    agents.push(
        plain_agent_config(
            "git",
            "Agent that helps with git operations.",
            "Help users with git operations like commit, branch, merge etc.",
            no_agents(),
        ),
    );
    agents.push(
        plain_agent_config(
            "project-init",
            "Agent that helps initialize new projects.",
            "Help users create new projects with proper structure and configuration.",
            no_agents(),
        ),
    );
    agents.push(
        plain_agent_config(
            "browser",
            "Agent that controls browser automation.",
            "Help users with browser automation tasks.",
            no_agents(),
        ),
    );
    agents
}

} // verus!
