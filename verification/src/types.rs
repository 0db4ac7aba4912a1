//! Shared data types: tasks, agent configurations, tools and messages.

use vstd::prelude::*;

use crate::text::str_eq;

verus! {

/// Priority of a task in the todo list.
#[derive(Debug, Clone, Copy, PartialEq, Eq, Hash, Structural)]
pub enum TaskPriority {
    Inital,
    Low,
    Medium,
    High,
    Critical,
}

/// Lifecycle status of a task.
#[derive(Debug, Clone, Copy, PartialEq, Eq, Hash, Structural)]
pub enum TaskStatus {
    Pending,
    Running,
    Completed,
    Failed,
}

/// A task in the shared todo list.
#[derive(Debug, Clone)]
pub struct TodoTask {
    pub id: String,
    pub description: String,
    pub enhanced_description: Option<String>,
    pub priority: TaskPriority,
    pub project: Option<String>,
    pub source_agent: Option<String>,
    pub target_agent: String,
    pub status: TaskStatus,
    pub created_at: i64,
    pub completed_at: Option<i64>,
    pub due_date: Option<String>,
    pub duration_minutes: Option<i32>,
    pub notes: Option<String>,
    pub ticket: Option<String>,
    pub last_modified: Option<i64>,
}

/// A parameter of a tool, in the JSON-schema style used for tool calls.
#[derive(Debug)]
pub struct ToolParameter {
    pub param_type: String,
    pub description: Option<String>,
    pub enum_values: Option<Vec<String>>,
    pub pattern: Option<String>,
    /// Named sub-parameters, in insertion order.
    pub properties: Option<Vec<(String, ToolParameter)>>,
    pub required: Option<Vec<String>>,
    pub additional_properties: Option<bool>,
    pub items: Option<Box<ToolParameter>>,
}

/// A tool an agent can call.
#[derive(Debug)]
pub struct Tool {
    pub name: String,
    pub description: String,
    /// Named parameters, in insertion order.
    pub parameters: Vec<(String, ToolParameter)>,
}

/// One state of an agent's conversation state machine.
#[derive(Debug, Clone)]
pub struct State {
    pub name: String,
    pub data: Option<String>,
    pub prompt: Option<String>,
    /// Event name and the state it leads to.
    pub transitions: Option<Vec<(String, String)>>,
    pub validation: Option<Vec<String>>,
}

/// The conversation state machine of an agent.
#[derive(Debug, Clone)]
pub struct StateMachine {
    /// States keyed by name, in insertion order.
    pub states: Vec<(String, State)>,
    pub initial_state: String,
}

/// Configuration of an agent.
#[derive(Debug)]
pub struct AgentConfig {
    pub name: String,
    pub public_description: String,
    pub instructions: String,
    pub tools: Vec<Tool>,
    pub downstream_agents: Vec<String>,
    pub personality: Option<String>,
    pub state_machine: Option<StateMachine>,
}

/// The text of an optional string.
pub open spec fn opt_text(o: Option<String>) -> Option<Seq<char>> {
    match o {
        Some(x) => Some(x@),
        None => None,
    }
}

/// The contents of an optional list.
pub open spec fn opt_seq<T>(o: Option<Vec<T>>) -> Option<Seq<T>> {
    match o {
        Some(v) => Some(v@),
        None => None,
    }
}

/// Two states with the same name, data, prompt, transitions and validation.
pub open spec fn same_state(a: State, b: State) -> bool {
    &&& a.name@ == b.name@
    &&& opt_text(a.data) == opt_text(b.data)
    &&& opt_text(a.prompt) == opt_text(b.prompt)
    &&& opt_seq(a.transitions) == opt_seq(b.transitions)
    &&& opt_seq(a.validation) == opt_seq(b.validation)
}

/// Two state machines with the same initial state and the same states, in
/// the same order.
pub open spec fn same_machine(a: StateMachine, b: StateMachine) -> bool {
    &&& a.initial_state@ == b.initial_state@
    &&& a.states@.len() == b.states@.len()
    &&& forall|i: int|
        0 <= i < a.states@.len() ==> (#[trigger] a.states@[i]).0@ == b.states@[i].0@ && same_state(
            a.states@[i].1,
            b.states@[i].1,
        )
}

/// Machines with the same states register the same state under each name.
pub proof fn lemma_same_machine_state_named(a: StateMachine, b: StateMachine, name: Seq<char>)
    requires
        same_machine(a, b),
    ensures
        match (state_named(a.states@, name), state_named(b.states@, name)) {
            (Some(x), Some(y)) => same_state(x, y),
            (None, None) => true,
            _ => false,
        },
{
    lemma_same_states_named(a.states@, b.states@, name);
}

proof fn lemma_same_states_named(a: Seq<(String, State)>, b: Seq<(String, State)>, name: Seq<char>)
    requires
        a.len() == b.len(),
        forall|i: int| 0 <= i < a.len() ==> (#[trigger] a[i]).0@ == b[i].0@ && same_state(a[i].1, b[i].1),
    ensures
        match (state_named(a, name), state_named(b, name)) {
            (Some(x), Some(y)) => same_state(x, y),
            (None, None) => true,
            _ => false,
        },
    decreases a.len(),
{
    if a.len() > 0 {
        assert(a.last() == a[a.len() - 1]);
        assert(b.last() == b[b.len() - 1]);
        assert forall|i: int| 0 <= i < a.drop_last().len() implies (#[trigger] a.drop_last()[i]).0@ == b.drop_last()[i].0@
            && same_state(a.drop_last()[i].1, b.drop_last()[i].1) by {
            assert(a.drop_last()[i] == a[i]);
            assert(b.drop_last()[i] == b[i]);
        }
        lemma_same_states_named(a.drop_last(), b.drop_last(), name);
    }
}

fn copy_opt_string(s: &Option<String>) -> (r: Option<String>)
    ensures
        r == *s,
{
    match s {
        Some(x) => Some(x.clone()),
        None => None,
    }
}

fn copy_strings(v: &Vec<String>) -> (r: Vec<String>)
    ensures
        r@ == v@,
{
    let mut r: Vec<String> = Vec::new();
    let mut i: usize = 0;
    while i < v.len()
        invariant
            i <= v@.len(),
            r@ == v@.take(i as int),
        decreases v@.len() - i,
    {
        r.push(v[i].clone());
        proof {
            assert(r@ =~= v@.take(i + 1));
        }
        i += 1;
    }
    proof {
        assert(v@.take(v@.len() as int) =~= v@);
    }
    r
}

fn copy_pairs(v: &Vec<(String, String)>) -> (r: Vec<(String, String)>)
    ensures
        r@ == v@,
{
    let mut r: Vec<(String, String)> = Vec::new();
    let mut i: usize = 0;
    while i < v.len()
        invariant
            i <= v@.len(),
            r@ == v@.take(i as int),
        decreases v@.len() - i,
    {
        r.push((v[i].0.clone(), v[i].1.clone()));
        proof {
            assert(r@ =~= v@.take(i + 1));
        }
        i += 1;
    }
    proof {
        assert(v@.take(v@.len() as int) =~= v@);
    }
    r
}

/// A copy of a state.
pub(crate) fn copy_state(s: &State) -> (r: State)
    ensures
        same_state(r, *s),
{
    State {
        name: s.name.clone(),
        data: copy_opt_string(&s.data),
        prompt: copy_opt_string(&s.prompt),
        transitions: match &s.transitions {
            Some(t) => Some(copy_pairs(t)),
            None => None,
        },
        validation: match &s.validation {
            Some(v) => Some(copy_strings(v)),
            None => None,
        },
    }
}

/// A copy of a state machine.
pub(crate) fn copy_state_machine(sm: &StateMachine) -> (r: StateMachine)
    ensures
        same_machine(r, *sm),
{
    let mut states: Vec<(String, State)> = Vec::new();
    let mut i: usize = 0;
    while i < sm.states.len()
        invariant
            i <= sm.states@.len(),
            states@.len() == i,
            forall|k: int|
                0 <= k < i ==> (#[trigger] states@[k]).0@ == sm.states@[k].0@ && same_state(
                    states@[k].1,
                    sm.states@[k].1,
                ),
        decreases sm.states@.len() - i,
    {
        states.push((sm.states[i].0.clone(), copy_state(&sm.states[i].1)));
        i += 1;
    }
    StateMachine { states, initial_state: sm.initial_state.clone() }
}

/// The state registered under `name`; a later entry of the same name
/// replaces an earlier one.
pub open spec fn state_named(states: Seq<(String, State)>, name: Seq<char>) -> Option<State>
    decreases states.len(),
{
    if states.len() == 0 {
        None
    } else if states.last().0@ == name {
        Some(states.last().1)
    } else {
        state_named(states.drop_last(), name)
    }
}

/// The state that `event` leads to; a later entry for the same event
/// replaces an earlier one.
pub open spec fn event_target(transitions: Seq<(String, String)>, event: Seq<char>) -> Option<Seq<char>>
    decreases transitions.len(),
{
    if transitions.len() == 0 {
        None
    } else if transitions.last().0@ == event {
        Some(transitions.last().1@)
    } else {
        event_target(transitions.drop_last(), event)
    }
}

/// The state that `event` leads to from the current state, if the machine
/// has the current state and that state has a transition for the event.
pub open spec fn next_state(m: AgentStateManager, event: Seq<char>) -> Option<Seq<char>> {
    match (m.state_machine, m.current_state) {
        (Some(sm), Some(cur)) => match state_named(sm.states@, cur@) {
            Some(st) => match st.transitions {
                Some(ts) => event_target(ts@, event),
                None => None,
            },
            None => None,
        },
        _ => None,
    }
}

/// Index of the last state named `name`.
fn find_state(states: &Vec<(String, State)>, name: &str) -> (r: Option<usize>)
    ensures
        match r {
            Some(i) => i < states@.len() && state_named(states@, name@) == Some(states@[i as int].1),
            None => state_named(states@, name@) is None,
        },
{
    let mut i: usize = states.len();
    proof {
        assert(states@.take(i as int) =~= states@);
    }
    while i > 0
        invariant
            i <= states@.len(),
            state_named(states@, name@) == state_named(states@.take(i as int), name@),
        decreases i,
    {
        proof {
            assert(states@.take(i - 1) =~= states@.take(i as int).drop_last());
        }
        if str_eq(states[i - 1].0.as_str(), name) {
            return Some(i - 1);
        }
        i -= 1;
    }
    None
}

/// Target of the last transition for `event`.
fn find_transition(transitions: &Vec<(String, String)>, event: &str) -> (r: Option<usize>)
    ensures
        match r {
            Some(i) => i < transitions@.len() && event_target(transitions@, event@) == Some(
                transitions@[i as int].1@,
            ),
            None => event_target(transitions@, event@) is None,
        },
{
    let mut i: usize = transitions.len();
    proof {
        assert(transitions@.take(i as int) =~= transitions@);
    }
    while i > 0
        invariant
            i <= transitions@.len(),
            event_target(transitions@, event@) == event_target(transitions@.take(i as int), event@),
        decreases i,
    {
        proof {
            assert(transitions@.take(i - 1) =~= transitions@.take(i as int).drop_last());
        }
        if str_eq(transitions[i - 1].0.as_str(), event) {
            return Some(i - 1);
        }
        i -= 1;
    }
    None
}

/// Tracks the current state of an agent's state machine.
#[derive(Debug, Clone)]
pub struct AgentStateManager {
    pub state_machine: Option<StateMachine>,
    pub current_state: Option<String>,
}

impl AgentStateManager {
    /// Starts in the machine's initial state, or in no state without a machine.
    pub fn new(state_machine: Option<StateMachine>) -> (m: Self)
        ensures
            m.state_machine == state_machine,
            match state_machine {
                Some(sm) => m.current_state matches Some(c) && c@ == sm.initial_state@,
                None => m.current_state is None,
            },
    {
        let current_state = match &state_machine {
            Some(sm) => Some(sm.initial_state.clone()),
            None => None,
        };
        AgentStateManager { state_machine, current_state }
    }

    /// The current state, if the machine has it.
    pub fn get_current_state(&self) -> (r: Option<&State>)
        ensures
            match (self.state_machine, self.current_state) {
                (Some(sm), Some(cur)) => match state_named(sm.states@, cur@) {
                    Some(st) => r matches Some(x) && *x == st,
                    None => r is None,
                },
                _ => r is None,
            },
    {
        match (&self.state_machine, &self.current_state) {
            (Some(sm), Some(cur)) => match find_state(&sm.states, cur.as_str()) {
                Some(i) => Some(&sm.states[i].1),
                None => None,
            },
            _ => None,
        }
    }

    /// Follows the transition for `event` from the current state, returning
    /// the new state's name; without such a transition nothing changes.
    pub fn transition(&mut self, event: &str) -> (r: Option<String>)
        ensures
            final(self).state_machine == old(self).state_machine,
            match next_state(*old(self), event@) {
                Some(t) => {
                    &&& r matches Some(n) && n@ == t
                    &&& final(self).current_state matches Some(c) && c@ == t
                },
                None => r is None && final(self).current_state == old(self).current_state,
            },
    {
        let target = match (&self.state_machine, &self.current_state) {
            (Some(sm), Some(cur)) => match find_state(&sm.states, cur.as_str()) {
                Some(i) => match &sm.states[i].1.transitions {
                    Some(ts) => match find_transition(ts, event) {
                        Some(j) => Some(ts[j].1.clone()),
                        None => None,
                    },
                    None => None,
                },
                None => None,
            },
            _ => None,
        };
        match target {
            Some(t) => {
                self.current_state = Some(t.clone());
                Some(t)
            },
            None => None,
        }
    }

    /// Name of the current state, if any.
    pub fn get_current_state_name(&self) -> (r: Option<&str>)
        ensures
            match self.current_state {
                Some(c) => r matches Some(s) && s@ == c@,
                None => r is None,
            },
    {
        match &self.current_state {
            Some(c) => Some(c.as_str()),
            None => None,
        }
    }
}

/// Metadata attached to a message.
#[derive(Debug, Clone)]
pub struct MessageMetadata {
    pub agent: String,
    pub state: Option<String>,
    pub personality_traits: Option<Vec<String>>,
    pub transfer_target: Option<String>,
}

impl MessageMetadata {
    /// Metadata naming the agent, with nothing else set.
    pub fn new(agent: String) -> (m: Self)
        ensures
            m.agent == agent,
            m.state is None,
            m.personality_traits is None,
            m.transfer_target is None,
    {
        MessageMetadata { agent, state: None, personality_traits: None, transfer_target: None }
    }

    /// The same metadata with a transfer target.
    pub fn with_transfer(self, target: String) -> (m: Self)
        ensures
            m.agent == self.agent,
            m.state == self.state,
            m.personality_traits == self.personality_traits,
            m.transfer_target == Some(target),
    {
        MessageMetadata { transfer_target: Some(target), ..self }
    }

    /// The same metadata with a state name.
    pub fn with_state(self, state: String) -> (m: Self)
        ensures
            m.agent == self.agent,
            m.state == Some(state),
            m.personality_traits == self.personality_traits,
            m.transfer_target == self.transfer_target,
    {
        MessageMetadata { state: Some(state), ..self }
    }

    /// The same metadata with personality traits.
    pub fn with_personality(self, traits: Vec<String>) -> (m: Self)
        ensures
            m.agent == self.agent,
            m.state == self.state,
            m.personality_traits == Some(traits),
            m.transfer_target == self.transfer_target,
    {
        MessageMetadata { personality_traits: Some(traits), ..self }
    }
}

/// A message between the user and agents.
#[derive(Debug, Clone)]
pub struct Message {
    pub content: String,
    pub metadata: Option<MessageMetadata>,
    /// Named parameters, in insertion order.
    pub parameters: Vec<(String, String)>,
    /// Who speaks ("assistant" for an agent's reply), when set.
    pub role: Option<String>,
    /// Seconds since the Unix epoch when the message was made, when set.
    pub timestamp: Option<i64>,
}

impl Message {
    /// A message with the given content and nothing else.
    pub fn new(content: String) -> (m: Self)
        ensures
            m.content == content,
            m.metadata is None,
            m.parameters@.len() == 0,
            m.role is None,
            m.timestamp is None,
    {
        Message { content, metadata: None, parameters: Vec::new(), role: None, timestamp: None }
    }
}

} // verus!
