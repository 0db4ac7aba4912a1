//! The greeter agent: welcomes users and hands them to specialist agents.

use vstd::prelude::*;

use crate::clock::now_timestamp;
use crate::error::SwarmError;
use crate::text::{concat_str, copy_str, has_substring, lowercase_of, names, str_contains, str_eq, to_lowercase};
use crate::types::{AgentConfig, AgentStateManager, Message, MessageMetadata, State, StateMachine};

verus! {

/// The greeter agent.
pub struct GreeterAgent {
    pub config: AgentConfig,
    pub state_manager: AgentStateManager,
    pub conversation_history: Vec<Message>,
}

/// Specialist a greeting message asks for: poetry goes to "haiku", version
/// control to "git", starting something to "project-init".
pub open spec fn spec_transfer_target(message: Seq<char>) -> Option<Seq<char>> {
    let m = lowercase_of(message);
    if has_substring(m, "haiku"@) || has_substring(m, "poetry"@) || has_substring(m, "nature"@) {
        Some("haiku"@)
    } else if has_substring(m, "git"@) || has_substring(m, "version"@) || has_substring(m, "repository"@) {
        Some("git"@)
    } else if has_substring(m, "project"@) || has_substring(m, "init"@) || has_substring(m, "create"@) {
        Some("project-init"@)
    } else {
        None
    }
}

/// Agent named by a message that consists of exactly one agent name.
pub open spec fn spec_should_transfer(message: Seq<char>) -> Option<Seq<char>> {
    let m = lowercase_of(message);
    if m == "project"@ {
        Some("project"@)
    } else if m == "git"@ {
        Some("git"@)
    } else if m == "haiku"@ {
        Some("haiku"@)
    } else {
        None
    }
}

/// Traits the greeter shows in its replies.
pub open spec fn greeter_traits() -> Seq<Seq<char>> {
    seq!["friendly"@, "helpful"@, "welcoming"@]
}

/// Hand-over for a message that is exactly an assistant's name: the
/// assistant, the state recorded in the reply, and the reply text.
pub open spec fn greeter_handover(content: Seq<char>) -> Option<(Seq<char>, Seq<char>, Seq<char>)> {
    if content == "project"@ {
        Some(("project"@, "project_transfer"@, "🚀 Let me connect you with the Project Assistant..."@))
    } else if content == "git"@ {
        Some(("git"@, "git_transfer"@, "🌳 Transferring you to the Git Assistant..."@))
    } else if content == "haiku"@ {
        Some(("haiku"@, "haiku_transfer"@, "🌸 Connecting you with the Haiku Assistant..."@))
    } else {
        None
    }
}

/// The instructions the greeter gives the chat model, which name it.
pub open spec fn greeter_system_prompt(name: Seq<char>) -> Seq<char> {
    "You are a friendly AI greeter assistant named "@ + name
        + ". Your role is to: 1. Welcome users and understand their needs 2. Direct them to specialized agents for specific tasks (git, haiku, or project initialization) 3. Maintain a helpful and engaging conversation 4. If the user mentions anything related to git, suggest transferring to the git agent 5. If the user mentions poetry or nature, suggest transferring to the haiku agent 6. If the user mentions creating or starting a project, suggest transferring to the project-init agent Be concise but friendly in your responses."@
}

/// Traits the greeter shows when it answers with the chat model's words.
pub open spec fn conversation_traits() -> Seq<Seq<char>> {
    seq!["friendly"@, "helpful"@]
}

/// What the greeter does with a greeting.
#[derive(Debug)]
pub enum GreetingAction {
    /// Answer with this message.
    Reply(Message),
    /// Ask the chat model with these instructions and chat entries, and
    /// answer with `GreeterAgent::model_reply` of what it says.
    AskModel { system_prompt: String, messages: Vec<ChatEntry> },
}

/// One chat entry: role and content.
pub type ChatEntry = Vec<(String, String)>;

pub open spec fn is_user_entry(e: Seq<(String, String)>, content: Seq<char>) -> bool {
    &&& e.len() == 2
    &&& e[0].0@ == "role"@
    &&& e[0].1@ == "user"@
    &&& e[1].0@ == "content"@
    &&& e[1].1@ == content
}

fn user_entry(content: &str) -> (e: ChatEntry)
    ensures
        is_user_entry(e@, content@),
{
    let mut e: ChatEntry = Vec::new();
    e.push((copy_str("role"), copy_str("user")));
    e.push((copy_str("content"), copy_str(content)));
    e
}

/// The greeter's conversation: awaiting input, from which "project", "git"
/// and "haiku" lead to a hand-over state for that assistant.
pub open spec fn is_greeter_machine(sm: StateMachine) -> bool {
    &&& sm.initial_state@ == "awaiting_input"@
    &&& sm.states@.len() == 4
    &&& sm.states@[0].0@ == "awaiting_input"@
    &&& sm.states@[1].0@ == "project_transfer"@
    &&& sm.states@[2].0@ == "git_transfer"@
    &&& sm.states@[3].0@ == "haiku_transfer"@
    &&& sm.states@[0].1.transitions matches Some(t) && t@.len() == 3 && t@[0].0@ == "project"@
        && t@[0].1@ == "project_transfer"@ && t@[1].0@ == "git"@ && t@[1].1@ == "git_transfer"@
        && t@[2].0@ == "haiku"@ && t@[2].1@ == "haiku_transfer"@
    &&& sm.states@[1].1.transitions matches Some(t) && t@.len() == 0
    &&& sm.states@[2].1.transitions matches Some(t) && t@.len() == 0
    &&& sm.states@[3].1.transitions matches Some(t) && t@.len() == 0
    &&& plain_greeter_state(sm.states@[0].1, "awaiting_input"@, "Welcome to the laboratory! Don't mind the sparks, they're mostly decorative."@)
    &&& plain_greeter_state(sm.states@[1].1, "project_transfer"@, "🚀 Let me connect you with the Project Assistant..."@)
    &&& plain_greeter_state(sm.states@[2].1, "git_transfer"@, "🌳 Transferring you to the Git Assistant..."@)
    &&& plain_greeter_state(sm.states@[3].1, "haiku_transfer"@, "🌸 Connecting you with the Haiku Assistant..."@)
}

/// A state of the greeter's machine: its name and prompt, no data, no
/// validation.
pub open spec fn plain_greeter_state(st: State, name: Seq<char>, prompt: Seq<char>) -> bool {
    &&& st.name@ == name
    &&& st.data is None
    &&& st.prompt matches Some(p) && p@ == prompt
    &&& st.validation is None
}

fn greeter_state(name: &str, prompt: &str, transitions: Vec<(String, String)>) -> (s: (String, State))
    ensures
        s.0@ == name@,
        s.1.name@ == name@,
        s.1.data is None,
        s.1.prompt matches Some(p) && p@ == prompt@,
        s.1.transitions == Some(transitions),
        s.1.validation is None,
{
    (
        copy_str(name),
        State {
            name: copy_str(name),
            data: None,
            prompt: Some(copy_str(prompt)),
            transitions: Some(transitions),
            validation: None,
        },
    )
}

/// The state machine of the greeter.
pub fn greeter_state_machine() -> (sm: StateMachine)
    ensures
        is_greeter_machine(sm),
{
    let mut t: Vec<(String, String)> = Vec::new();
    t.push((copy_str("project"), copy_str("project_transfer")));
    t.push((copy_str("git"), copy_str("git_transfer")));
    t.push((copy_str("haiku"), copy_str("haiku_transfer")));
    let mut states: Vec<(String, State)> = Vec::new();
    states.push(
        greeter_state(
            "awaiting_input",
            "Welcome to the laboratory! Don't mind the sparks, they're mostly decorative.",
            t,
        ),
    );
    states.push(greeter_state("project_transfer", "🚀 Let me connect you with the Project Assistant...", Vec::new()));
    states.push(greeter_state("git_transfer", "🌳 Transferring you to the Git Assistant...", Vec::new()));
    states.push(greeter_state("haiku_transfer", "🌸 Connecting you with the Haiku Assistant...", Vec::new()));
    StateMachine { states, initial_state: copy_str("awaiting_input") }
}

impl GreeterAgent {
    /// A greeter with the given configuration, no state machine and no history.
    pub fn new(config: AgentConfig) -> (g: Self)
        ensures
            g.config == config,
            g.state_manager.state_machine is None,
            g.state_manager.current_state is None,
            g.conversation_history@.len() == 0,
    {
        GreeterAgent {
            config,
            state_manager: AgentStateManager::new(None),
            conversation_history: Vec::new(),
        }
    }

    /// A greeter that runs its own state machine, awaiting input; the
    /// configuration records the machine too.
    pub fn with_transfer_states(config: AgentConfig) -> (g: Self)
        ensures
            g.config.name == config.name,
            g.config.public_description == config.public_description,
            g.config.instructions == config.instructions,
            g.config.tools == config.tools,
            g.config.downstream_agents == config.downstream_agents,
            g.config.personality == config.personality,
            g.config.state_machine matches Some(sm) && is_greeter_machine(sm),
            g.state_manager.state_machine matches Some(sm) && is_greeter_machine(sm),
            g.state_manager.current_state matches Some(c) && c@ == "awaiting_input"@,
            g.conversation_history@.len() == 0,
    {
        let mut config = config;
        config.state_machine = Some(greeter_state_machine());
        GreeterAgent {
            config,
            state_manager: AgentStateManager::new(Some(greeter_state_machine())),
            conversation_history: Vec::new(),
        }
    }

    /// Chat messages for the AI: every past message, then the current prompt,
    /// all as user entries.
    pub fn build_conversation_messages(&self, current_prompt: &str) -> (ms: Vec<ChatEntry>)
        ensures
            ms@.len() == self.conversation_history@.len() + 1,
            forall|i: int|
                0 <= i < self.conversation_history@.len() ==> is_user_entry(
                    #[trigger] ms@[i]@,
                    self.conversation_history@[i].content@,
                ),
            is_user_entry(ms@.last()@, current_prompt@),
    {
        let mut ms: Vec<ChatEntry> = Vec::new();
        let mut i: usize = 0;
        while i < self.conversation_history.len()
            invariant
                i <= self.conversation_history@.len(),
                ms@.len() == i,
                forall|k: int|
                    0 <= k < i ==> is_user_entry(#[trigger] ms@[k]@, self.conversation_history@[k].content@),
            decreases self.conversation_history@.len() - i,
        {
            ms.push(user_entry(self.conversation_history[i].content.as_str()));
            i += 1;
        }
        ms.push(user_entry(current_prompt));
        ms
    }

    /// Specialist that a greeting message asks for, if any.
    pub fn transfer_target(message: &str) -> (r: Option<String>)
        ensures
            match r {
                Some(t) => spec_transfer_target(message@) == Some(t@),
                None => spec_transfer_target(message@) is None,
            },
    {
        let lower = to_lowercase(message);
        let m = lower.as_str();
        if str_contains(m, "haiku") || str_contains(m, "poetry") || str_contains(m, "nature") {
            Some(copy_str("haiku"))
        } else if str_contains(m, "git") || str_contains(m, "version") || str_contains(m, "repository") {
            Some(copy_str("git"))
        } else if str_contains(m, "project") || str_contains(m, "init") || str_contains(m, "create") {
            Some(copy_str("project-init"))
        } else {
            None
        }
    }

    /// The reply announcing a transfer: "Let me transfer you to our <agent>
    /// specialist...", with metadata from "greeter" naming the target.
    pub fn transfer_reply(agent: &str) -> (m: Message)
        ensures
            m.content@ == "Let me transfer you to our "@ + agent@ + " specialist..."@,
            m.metadata is Some,
            m.metadata->0.agent@ == "greeter"@,
            m.metadata->0.transfer_target is Some,
            m.metadata->0.transfer_target->0@ == agent@,
            m.metadata->0.state is None,
            m.metadata->0.personality_traits is None,
    {
        let a = concat_str("Let me transfer you to our ", agent);
        let content = concat_str(a.as_str(), " specialist...");
        let mut m = Message::new(content);
        m.metadata = Some(MessageMetadata::new(copy_str("greeter")).with_transfer(copy_str(agent)));
        m
    }

    /// Handles a greeting: a message that asks for a specialist (see
    /// `transfer_target`) is answered with the hand-over reply, and the chat
    /// model is not asked; any other message is put to the chat model, with
    /// the greeter's instructions and the conversation so far.
    pub fn handle_greeting(&self, message: &str) -> (a: GreetingAction)
        ensures
            match spec_transfer_target(message@) {
                Some(t) => a matches GreetingAction::Reply(m) && m.content@ == "Let me transfer you to our "@ + t
                    + " specialist..."@ && m.metadata is Some && m.metadata->0.agent@ == "greeter"@
                    && m.metadata->0.transfer_target is Some && m.metadata->0.transfer_target->0@ == t,
                None => a matches GreetingAction::AskModel { system_prompt, messages }
                    && system_prompt@ == greeter_system_prompt(self.config.name@)
                    && messages@.len() == self.conversation_history@.len() + 1
                    && (forall|i: int|
                    0 <= i < self.conversation_history@.len() ==> is_user_entry(
                        #[trigger] messages@[i]@,
                        self.conversation_history@[i].content@,
                    )) && is_user_entry(messages@.last()@, message@),
            },
    {
        match Self::transfer_target(message) {
            Some(t) => GreetingAction::Reply(Self::transfer_reply(t.as_str())),
            None => {
                let a = concat_str("You are a friendly AI greeter assistant named ", self.config.name.as_str());
                let system_prompt = concat_str(
                    a.as_str(),
                    ". Your role is to: 1. Welcome users and understand their needs 2. Direct them to specialized agents for specific tasks (git, haiku, or project initialization) 3. Maintain a helpful and engaging conversation 4. If the user mentions anything related to git, suggest transferring to the git agent 5. If the user mentions poetry or nature, suggest transferring to the haiku agent 6. If the user mentions creating or starting a project, suggest transferring to the project-init agent Be concise but friendly in your responses.",
                );
                GreetingAction::AskModel { system_prompt, messages: self.build_conversation_messages(message) }
            },
        }
    }

    /// The reply carrying the chat model's answer: from "greeter", friendly
    /// and helpful, with no hand-over.
    pub fn model_reply(answer: String) -> (m: Message)
        ensures
            m.content == answer,
            m.metadata is Some,
            m.metadata->0.agent@ == "greeter"@,
            m.metadata->0.personality_traits is Some,
            names(m.metadata->0.personality_traits->0@) == conversation_traits(),
            m.metadata->0.transfer_target is None,
            m.metadata->0.state is None,
    {
        let traits = vec![copy_str("friendly"), copy_str("helpful")];
        proof {
            assert(names(traits@) =~= conversation_traits());
        }
        let mut m = Message::new(answer);
        m.metadata = Some(MessageMetadata::new(copy_str("greeter")).with_personality(traits));
        m
    }

    /// Agent named by a message that is exactly "project", "git" or "haiku"
    /// (in any case).
    pub fn should_transfer(message: &str) -> (r: Option<String>)
        ensures
            match r {
                Some(t) => spec_should_transfer(message@) == Some(t@),
                None => spec_should_transfer(message@) is None,
            },
    {
        let lower = to_lowercase(message);
        let m = lower.as_str();
        if str_eq(m, "project") {
            Some(copy_str("project"))
        } else if str_eq(m, "git") {
            Some(copy_str("git"))
        } else if str_eq(m, "haiku") {
            Some(copy_str("haiku"))
        } else {
            None
        }
    }

    /// The greeter's personality traits, as attached to its replies.
    fn greeter_traits() -> (v: Vec<String>)
        ensures
            names(v@) == greeter_traits(),
    {
        let v = vec![copy_str("friendly"), copy_str("helpful"), copy_str("welcoming")];
        proof {
            assert(names(v@) =~= greeter_traits());
        }
        v
    }

    /// The reply to a message: while awaiting input, a message that is
    /// exactly "project", "git" or "haiku" is answered with a hand-over to
    /// that assistant; anything else gets the greeting.
    pub fn process_message(&self, message: &Message) -> (m: Message)
        ensures
            m.parameters@.len() == 0,
            m.role matches Some(r) && r@ == "assistant"@,
            m.timestamp is Some,
            m.metadata is Some,
            m.metadata->0.agent == self.config.name,
            m.metadata->0.personality_traits is Some,
            names(m.metadata->0.personality_traits->0@) == greeter_traits(),
            ({
                let awaiting = self.state_manager.current_state matches Some(c) && c@ == "awaiting_input"@;
                match greeter_handover(message.content@) {
                    Some((target, state, text)) if awaiting => {
                        &&& m.content@ == text
                        &&& m.metadata->0.state matches Some(s) && s@ == state
                        &&& m.metadata->0.transfer_target matches Some(t) && t@ == target
                    },
                    _ => {
                        &&& m.content@ == "👋 Hello! I'm your friendly greeter. How can I assist you today?"@
                        &&& m.metadata->0.state matches Some(s) && s@ == (match self.state_manager.current_state {
                            Some(c) => c@,
                            None => "awaiting_input"@,
                        })
                        &&& m.metadata->0.transfer_target is None
                    },
                }
            }),
    {
        let current = self.state_manager.get_current_state_name();
        let awaiting = match current {
            Some(c) => str_eq(c, "awaiting_input"),
            None => false,
        };
        let content = message.content.as_str();
        if awaiting {
            let handover: Option<(&str, &str, &str)> = if str_eq(content, "project") {
                Some(("project", "project_transfer", "🚀 Let me connect you with the Project Assistant..."))
            } else if str_eq(content, "git") {
                Some(("git", "git_transfer", "🌳 Transferring you to the Git Assistant..."))
            } else if str_eq(content, "haiku") {
                Some(("haiku", "haiku_transfer", "🌸 Connecting you with the Haiku Assistant..."))
            } else {
                None
            };
            if let Some((target, state, text)) = handover {
                let metadata = MessageMetadata::new(self.config.name.clone()).with_state(
                    copy_str(state),
                ).with_transfer(copy_str(target)).with_personality(Self::greeter_traits());
                let mut m = Message::new(copy_str(text));
                m.metadata = Some(metadata);
                m.role = Some(copy_str("assistant"));
                m.timestamp = Some(now_timestamp());
                return m;
            }
        }
        let state = match current {
            Some(c) => copy_str(c),
            None => copy_str("awaiting_input"),
        };
        let metadata = MessageMetadata::new(self.config.name.clone()).with_state(state).with_personality(
            Self::greeter_traits(),
        );
        let mut m = Message::new(copy_str("👋 Hello! I'm your friendly greeter. How can I assist you today?"));
        m.metadata = Some(metadata);
        m.role = Some(copy_str("assistant"));
        m.timestamp = Some(now_timestamp());
        m
    }

    /// Marks `message` as transferred to `target_agent`, which must be one of
    /// the greeter's downstream agents.
    pub fn transfer_to(&self, target_agent: String, message: Message) -> (r: Result<Message, SwarmError>)
        ensures
            match r {
                Ok(m) => {
                    &&& names(self.config.downstream_agents@).contains(target_agent@)
                    &&& m.content == message.content
                    &&& m.parameters == message.parameters
                    &&& m.metadata is Some
                    &&& m.metadata->0.agent@ == "greeter"@
                    &&& m.metadata->0.transfer_target == Some(target_agent)
                },
                Err(SwarmError::Agent(e)) => !names(self.config.downstream_agents@).contains(target_agent@)
                    && e@ == "Cannot transfer to unknown agent: "@ + target_agent@,
                Err(_) => false,
            },
    {
        let mut i: usize = 0;
        let n = self.config.downstream_agents.len();
        while i < n
            invariant
                i <= n,
                n == self.config.downstream_agents@.len(),
                forall|k: int| 0 <= k < i ==> #[trigger] self.config.downstream_agents@[k]@ != target_agent@,
            decreases n - i,
        {
            if str_eq(self.config.downstream_agents[i].as_str(), target_agent.as_str()) {
                proof {
                    assert(names(self.config.downstream_agents@)[i as int] == target_agent@);
                }
                let mut response = message;
                response.metadata = Some(MessageMetadata::new(copy_str("greeter")).with_transfer(target_agent));
                return Ok(response);
            }
            i += 1;
        }
        proof {
            assert forall|k: int| 0 <= k < names(self.config.downstream_agents@).len() implies names(
                self.config.downstream_agents@,
            )[k] != target_agent@ by {
                assert(names(self.config.downstream_agents@)[k] == self.config.downstream_agents@[k]@);
            }
        }
        Err(SwarmError::Agent(concat_str("Cannot transfer to unknown agent: ", target_agent.as_str())))
    }
}

} // verus!
