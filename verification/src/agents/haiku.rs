//! Syllable counting for haiku lines.

use vstd::prelude::*;

use crate::error::SwarmError;
use crate::ai::{strip, trim, ws_pred};
use crate::text::{all_ascii, ascii_lowercase, chars_of, concat_str, copy_str, is_alphabetic_char, lines_of, lowercase_of, names, split_lines, str_eq, to_lowercase};
use crate::clock::now_timestamp;
use crate::types::{
    copy_state_machine, event_target, next_state, same_machine, state_named, AgentConfig, AgentStateManager, Message,
    MessageMetadata, State, StateMachine,
};

verus! {

/// One of the vowels counted as syllables: a, e, i, o, u, y.
pub open spec fn is_vowel(c: char) -> bool {
    c == 'a' || c == 'e' || c == 'i' || c == 'o' || c == 'u' || c == 'y'
}

/// Number of vowels in `s`.
pub open spec fn vowel_count(s: Seq<char>) -> nat
    decreases s.len(),
{
    if s.len() == 0 {
        0
    } else {
        vowel_count(s.drop_last()) + if is_vowel(s.last()) {
            1nat
        } else {
            0nat
        }
    }
}

/// Approximate syllable count of a line: the vowels of the words (runs of
/// letters and apostrophes) of its lower-cased form. Every vowel is a letter,
/// so this is the number of vowels of the lower-cased line.
pub fn count_syllables(line: &str) -> (n: usize)
    ensures
        n == vowel_count(lowercase_of(line@)),
{
    let lower = to_lowercase(line);
    let cs = chars_of(lower.as_str());
    let mut n: usize = 0;
    let mut i: usize = 0;
    while i < cs.len()
        invariant
            i <= cs@.len(),
            n == vowel_count(cs@.take(i as int)),
            n <= i,
        decreases cs@.len() - i,
    {
        let c = cs[i];
        proof {
            assert(cs@.take(i + 1).drop_last() =~= cs@.take(i as int));
            assert(cs@.take(i + 1).last() == c);
        }
        let in_word = is_alphabetic_char(c) || c == '\'';
        if in_word && (c == 'a' || c == 'e' || c == 'i' || c == 'o' || c == 'u' || c == 'y') {
            n += 1;
        }
        i += 1;
    }
    proof {
        assert(cs@.take(cs@.len() as int) =~= cs@);
    }
    n
}


/// The poetry agent: its configuration and conversation state.
pub struct HaikuAgent {
    pub config: AgentConfig,
    pub state_manager: AgentStateManager,
}

/// What the agent does with a message.
#[derive(Debug)]
pub enum HaikuTurn {
    /// Answer with this message.
    Reply(Message),
    /// Compose a haiku about this topic, then report it with
    /// `HaikuAgent::haiku_generated`.
    Compose(String),
}

/// Traits the poetry agent shows in its replies.
pub open spec fn haiku_traits() -> Seq<Seq<char>> {
    seq!["poetic"@, "algorithmic"@, "zen_like"@, "pattern_seeking"@, "mad_tinker_inspired"@]
}

/// The conversation of the poetry agent: awaiting a topic, generating,
/// complete (asking whether to go on), and goodbye.
pub open spec fn is_haiku_machine(sm: StateMachine) -> bool {
    &&& sm.initial_state@ == "awaiting_topic"@
    &&& sm.states@.len() == 4
    &&& sm.states@[0].0@ == "awaiting_topic"@
    &&& sm.states@[1].0@ == "generating"@
    &&& sm.states@[2].0@ == "complete"@
    &&& sm.states@[3].0@ == "goodbye"@
    &&& sm.states@[0].1.transitions matches Some(t) && t@.len() == 1 && t@[0].0@ == "topic_received"@
        && t@[0].1@ == "generating"@
    &&& sm.states@[1].1.transitions matches Some(t) && t@.len() == 1 && t@[0].0@ == "haiku_generated"@
        && t@[0].1@ == "complete"@
    &&& sm.states@[2].1.transitions matches Some(t) && t@.len() == 2 && t@[0].0@ == "yes"@
        && t@[0].1@ == "awaiting_topic"@ && t@[1].0@ == "no"@ && t@[1].1@ == "goodbye"@
    &&& sm.states@[3].1.transitions is None
    &&& plain_haiku_state(sm.states@[0].1, "awaiting_topic"@, "🌸 What shall we crystallize into algorithmic verse today?"@)
    &&& plain_haiku_state(sm.states@[1].1, "generating"@, "🎋 Weaving your thoughts into digital poetry..."@)
    &&& plain_haiku_state(sm.states@[2].1, "complete"@, "✨ Shall we compute another poetic sequence?"@)
    &&& plain_haiku_state(sm.states@[3].1, "goodbye"@, "🌟 May your algorithms flow like cherry blossoms in the digital wind..."@)
    &&& sm.states@[0].1.validation is None
    &&& sm.states@[1].1.validation is None
    &&& sm.states@[2].1.validation matches Some(v) && names(v@) == seq![
        "^(yes|no)$"@,
        "Please respond with 'yes' to continue our poetic computations, or 'no' to conclude."@,
    ]
    &&& sm.states@[3].1.validation is None
}

/// A state of the poetry agent's machine: its name, no data, and its prompt.
pub open spec fn plain_haiku_state(st: State, name: Seq<char>, prompt: Seq<char>) -> bool {
    &&& st.name@ == name
    &&& st.data is None
    &&& st.prompt matches Some(p) && p@ == prompt
}

fn one_transition(event: &str, target: &str) -> (v: Vec<(String, String)>)
    ensures
        v@.len() == 1,
        v@[0].0@ == event@,
        v@[0].1@ == target@,
{
    let mut v: Vec<(String, String)> = Vec::new();
    v.push((copy_str(event), copy_str(target)));
    v
}

fn plain_state(name: &str, prompt: &str, transitions: Option<Vec<(String, String)>>, validation: Option<
    Vec<String>,
>) -> (s: (String, State))
    ensures
        s.0@ == name@,
        s.1.name@ == name@,
        s.1.data is None,
        s.1.transitions == transitions,
        s.1.validation == validation,
        s.1.prompt matches Some(p) && p@ == prompt@,
{
    (
        copy_str(name),
        State { name: copy_str(name), data: None, prompt: Some(copy_str(prompt)), transitions, validation },
    )
}

/// The state machine of the poetry agent.
pub fn haiku_state_machine() -> (sm: StateMachine)
    ensures
        is_haiku_machine(sm),
{
    let mut complete_transitions: Vec<(String, String)> = Vec::new();
    complete_transitions.push((copy_str("yes"), copy_str("awaiting_topic")));
    complete_transitions.push((copy_str("no"), copy_str("goodbye")));
    let validation = vec![
        copy_str("^(yes|no)$"),
        copy_str("Please respond with 'yes' to continue our poetic computations, or 'no' to conclude."),
    ];
    let mut states: Vec<(String, State)> = Vec::new();
    states.push(
        plain_state(
            "awaiting_topic",
            "🌸 What shall we crystallize into algorithmic verse today?",
            Some(one_transition("topic_received", "generating")),
            None,
        ),
    );
    states.push(
        plain_state(
            "generating",
            "🎋 Weaving your thoughts into digital poetry...",
            Some(one_transition("haiku_generated", "complete")),
            None,
        ),
    );
    states.push(
        plain_state(
            "complete",
            "✨ Shall we compute another poetic sequence?",
            Some(complete_transitions),
            Some(validation),
        ),
    );
    states.push(
        plain_state(
            "goodbye",
            "🌟 May your algorithms flow like cherry blossoms in the digital wind...",
            None,
            None,
        ),
    );
    proof {
        assert(names(states@[2].1.validation->0@) =~= seq![
            "^(yes|no)$"@,
            "Please respond with 'yes' to continue our poetic computations, or 'no' to conclude."@,
        ]);
    }
    StateMachine { states, initial_state: copy_str("awaiting_topic") }
}

/// In the poetry agent's own machine, "yes" leads from "complete" back to
/// awaiting a topic and "no" leads to goodbye, and from goodbye no event
/// leads anywhere: with the per-message contract of `process_message`, once
/// the conversation has said goodbye every further message leaves it there
/// and is answered with the farewell.
pub proof fn lemma_haiku_conversation(m: AgentStateManager, event: Seq<char>)
    requires
        m.state_machine matches Some(sm) && is_haiku_machine(sm),
    ensures
        m.current_state matches Some(c) && c@ == "complete"@ ==> next_state(m, "yes"@) == Some("awaiting_topic"@)
            && next_state(m, "no"@) == Some("goodbye"@),
        m.current_state matches Some(c) && c@ == "goodbye"@ ==> next_state(m, event) is None
            && haiku_answer(Some("goodbye"@), event) == Some((None::<(Seq<char>, Seq<char>)>, "Farewell, seeker of digital poetry."@)),
{
    reveal_strlit("awaiting_topic");
    reveal_strlit("generating");
    reveal_strlit("complete");
    reveal_strlit("goodbye");
    reveal_strlit("yes");
    reveal_strlit("no");
    let sm = m.state_machine->0;
    let st = sm.states@;
    assert(st.drop_last().last() == st[2]);
    assert(st.last() == st[3]);
    if m.current_state matches Some(c) && c@ == "complete"@ {
        assert("goodbye"@.len() == 7 && "complete"@.len() == 8);
        assert(st[3].0@ != "complete"@);
        assert(state_named(st.drop_last(), "complete"@) == Some(st[2].1));
        assert(state_named(st, "complete"@) == Some(st[2].1));
        let ts = st[2].1.transitions->0@;
        assert(ts.last() == ts[1]);
        assert(ts.drop_last().last() == ts[0]);
        assert(event_target(ts, "no"@) == Some("goodbye"@));
        assert("no"@.len() == 2 && "yes"@.len() == 3);
        assert(ts[1].0@ != "yes"@);
        assert(event_target(ts.drop_last(), "yes"@) == Some("awaiting_topic"@));
        assert(event_target(ts, "yes"@) == Some("awaiting_topic"@));
    }
    if m.current_state matches Some(c) && c@ == "goodbye"@ {
        assert(state_named(st, "goodbye"@) == Some(st[3].1));
    }
}

/// Capital letters in ASCII text lower-case to small ones: "YES" reads as
/// "yes".
pub proof fn lemma_yes_in_capitals()
    ensures
        all_ascii("YES"@),
        ascii_lowercase("YES"@) == "yes"@,
{
    reveal_strlit("YES");
    reveal_strlit("yes");
    assert(ascii_lowercase("YES"@) =~= "yes"@);
}

/// The text of a reply on arriving in state `t`: the state's prompt, when
/// the machine has the state and the state has a prompt, or else `fallback`.
pub open spec fn arrival_text(m: AgentStateManager, t: Seq<char>, fallback: Seq<char>) -> Seq<char> {
    match m.state_machine {
        Some(sm) => match state_named(sm.states@, t) {
            Some(st) => match st.prompt {
                Some(p) => p@,
                None => fallback,
            },
            None => fallback,
        },
        None => fallback,
    }
}

/// For a message in a state that does not compose: the event it fires
/// (with the error raised when the event cannot be followed), or `None`,
/// and the reply text. `None` for a state the agent does not know.
pub open spec fn haiku_answer(state: Option<Seq<char>>, content: Seq<char>) -> Option<
    (Option<(Seq<char>, Seq<char>)>, Seq<char>),
> {
    match state {
        None => Some((None, "🌸 What shall we crystallize into algorithmic verse today?"@)),
        Some(s) => if s == "awaiting_topic"@ {
            Some((Some(("topic_received"@, "Failed to transition to generating state"@)), "🎋 Weaving your thoughts into digital poetry..."@))
        } else if s == "complete"@ {
            let c = lowercase_of(content);
            if c == "yes"@ {
                Some((Some(("yes"@, "Failed to transition to awaiting_topic state"@)), "🌸 What new topic shall inspire our next algorithmic verse?"@))
            } else if c == "no"@ {
                Some((Some(("no"@, "Failed to transition to goodbye state"@)), "🌟 May your path be illuminated by the glow of poetic algorithms..."@))
            } else {
                Some((None, "Please respond with 'yes' to continue or 'no' to conclude."@))
            }
        } else if s == "goodbye"@ {
            Some((None, "Farewell, seeker of digital poetry."@))
        } else {
            None
        }
    }
}

/// `r` is a reply with content `text` from the agent named `agent`.
pub open spec fn replied(r: Result<HaikuTurn, SwarmError>, text: Seq<char>, agent: String) -> bool {
    match r {
        Ok(HaikuTurn::Reply(m)) => m.content@ == text && match m.metadata {
            Some(md) => md.agent == agent,
            None => false,
        },
        _ => false,
    }
}

/// `r` is a reply whose metadata records the state `state`.
pub open spec fn reply_state_is(r: Result<HaikuTurn, SwarmError>, state: Seq<char>) -> bool {
    match r {
        Ok(HaikuTurn::Reply(m)) => match m.metadata {
            Some(md) => md.state matches Some(s) && s@ == state,
            None => false,
        },
        _ => false,
    }
}

/// `m` is from the agent named `agent`, in state `state`.
pub open spec fn message_from(m: Message, agent: String, state: Seq<char>) -> bool {
    match m.metadata {
        Some(md) => md.agent == agent && (md.state matches Some(s) && s@ == state),
        None => false,
    }
}

impl HaikuAgent {
    /// A poetry agent in the initial state of the configured state machine,
    /// or, when the configuration has none, of its own machine, waiting for
    /// a topic.
    pub fn new(config: AgentConfig) -> (a: Self)
        ensures
            a.config == config,
            match config.state_machine {
                Some(csm) => {
                    &&& a.state_manager.state_machine matches Some(sm) && same_machine(sm, csm)
                    &&& a.state_manager.current_state matches Some(c) && c@ == csm.initial_state@
                },
                None => {
                    &&& a.state_manager.state_machine matches Some(sm) && is_haiku_machine(sm)
                    &&& a.state_manager.current_state matches Some(c) && c@ == "awaiting_topic"@
                },
            },
    {
        let sm = match &config.state_machine {
            Some(csm) => copy_state_machine(csm),
            None => haiku_state_machine(),
        };
        HaikuAgent { config, state_manager: AgentStateManager::new(Some(sm)) }
    }

    /// A reply with the agent's name, its current state (or
    /// "awaiting_topic") and its traits.
    pub fn create_response(&self, content: String) -> (m: Message)
        ensures
            m.content == content,
            m.parameters@.len() == 0,
            m.metadata is Some,
            m.metadata->0.agent == self.config.name,
            m.metadata->0.state matches Some(s) && s@ == (match self.state_manager.current_state {
                Some(c) => c@,
                None => "awaiting_topic"@,
            }),
            m.metadata->0.personality_traits is Some,
            names(m.metadata->0.personality_traits->0@) == haiku_traits(),
            m.metadata->0.transfer_target is None,
            m.role matches Some(r) && r@ == "assistant"@,
            m.timestamp is Some,
    {
        let state = match self.state_manager.get_current_state_name() {
            Some(s) => copy_str(s),
            None => copy_str("awaiting_topic"),
        };
        let traits = vec![
            copy_str("poetic"),
            copy_str("algorithmic"),
            copy_str("zen_like"),
            copy_str("pattern_seeking"),
            copy_str("mad_tinker_inspired"),
        ];
        proof {
            assert(names(traits@) =~= haiku_traits());
        }
        let mut m = Message::new(content);
        m.metadata = Some(MessageMetadata::new(self.config.name.clone()).with_state(state).with_personality(traits));
        m.role = Some(copy_str("assistant"));
        m.timestamp = Some(now_timestamp());
        m
    }

    /// A reply on arriving in the current state: its prompt, when the
    /// machine has the state and the state has one, or else `fallback`.
    fn arrival_reply(&self, fallback: &str) -> (m: Message)
        ensures
            m.content@ == (match self.state_manager.current_state {
                Some(c) => arrival_text(self.state_manager, c@, fallback@),
                None => fallback@,
            }),
            m.metadata matches Some(md) && md.agent == self.config.name && (md.state matches Some(s)
                && s@ == (match self.state_manager.current_state {
                Some(c) => c@,
                None => "awaiting_topic"@,
            })),
    {
        let text = match self.state_manager.get_current_state() {
            Some(st) => match &st.prompt {
                Some(p) => p.clone(),
                None => copy_str(fallback),
            },
            None => copy_str(fallback),
        };
        self.create_response(text)
    }

    /// Fires `event`, or fails with `failure` as the error.
    fn fire(&mut self, event: &str, failure: &str) -> (r: Result<(), SwarmError>)
        ensures
            final(self).config == old(self).config,
            final(self).state_manager.state_machine == old(self).state_manager.state_machine,
            match next_state(old(self).state_manager, event@) {
                Some(t) => {
                    &&& r is Ok
                    &&& final(self).state_manager.current_state matches Some(c) && c@ == t
                },
                None => {
                    &&& r matches Err(SwarmError::State(e)) && e@ == failure@
                    &&& final(self).state_manager.current_state == old(self).state_manager.current_state
                },
            },
    {
        match self.state_manager.transition(event) {
            Some(_) => Ok(()),
            None => Err(SwarmError::State(copy_str(failure))),
        }
    }

    /// Handles a message: answers it and moves the conversation on, or asks
    /// for a haiku when generating.
    pub fn process_message(&mut self, content: &str) -> (r: Result<HaikuTurn, SwarmError>)
        ensures
            final(self).config == old(self).config,
            final(self).state_manager.state_machine == old(self).state_manager.state_machine,
            old(self).state_manager.current_state matches Some(c) && c@ == "complete"@ && all_ascii(content@)
                ==> lowercase_of(content@) == ascii_lowercase(content@),
            ({
                let cur = old(self).state_manager.current_state;
                let cur_name: Option<Seq<char>> = match cur {
                    Some(c) => Some(c@),
                    None => None,
                };
                let has_state = match (old(self).state_manager.state_machine, cur) {
                    (Some(sm), Some(c)) => state_named(sm.states@, c@) is Some,
                    _ => false,
                };
                if cur_name == Some("generating"@) {
                    &&& final(self).state_manager.current_state == cur
                    &&& if has_state {
                        let st = state_named(old(self).state_manager.state_machine->0.states@, cur->0@)->0;
                        r matches Ok(HaikuTurn::Compose(topic)) && topic@ == (match st.data {
                            Some(d) => d@,
                            None => content@,
                        })
                    } else {
                        r matches Err(SwarmError::State(e)) && e@ == "Failed to get current state"@
                    }
                } else if cur_name == Some("awaiting_topic"@) && !has_state {
                    &&& final(self).state_manager.current_state == cur
                    &&& r matches Err(SwarmError::State(e)) && e@ == "Failed to get current state"@
                } else {
                    match haiku_answer(cur_name, content@) {
                        Some((None, text)) => {
                            &&& final(self).state_manager.current_state == cur
                            &&& replied(r, text, old(self).config.name)
                        },
                        Some((Some((ev, failure)), text)) => match next_state(old(self).state_manager, ev) {
                            Some(t) => {
                                &&& final(self).state_manager.current_state matches Some(c) && c@ == t
                                &&& replied(r, arrival_text(old(self).state_manager, t, text), old(self).config.name)
                                &&& reply_state_is(r, t)
                            },
                            None => {
                                &&& final(self).state_manager.current_state == cur
                                &&& r matches Err(SwarmError::State(e)) && e@ == failure
                            },
                        },
                        None => {
                            &&& final(self).state_manager.current_state == cur
                            &&& r matches Err(SwarmError::State(e)) && e@ == "Invalid state: "@ + cur->0@
                        },
                    }
                }
            }),
    {
        let lower = to_lowercase(content);
        let state = match self.state_manager.get_current_state_name() {
            Some(s) => Some(copy_str(s)),
            None => None,
        };
        match state {
            None => Ok(
                HaikuTurn::Reply(
                    self.create_response(copy_str("🌸 What shall we crystallize into algorithmic verse today?")),
                ),
            ),
            Some(s) => {
                if str_eq(s.as_str(), "generating") {
                    match self.state_manager.get_current_state() {
                        Some(st) => {
                            let topic = match &st.data {
                                Some(d) => d.clone(),
                                None => copy_str(content),
                            };
                            Ok(HaikuTurn::Compose(topic))
                        },
                        None => Err(SwarmError::State(copy_str("Failed to get current state"))),
                    }
                } else if str_eq(s.as_str(), "awaiting_topic") {
                    if self.state_manager.get_current_state().is_none() {
                        return Err(SwarmError::State(copy_str("Failed to get current state")));
                    }
                    match self.fire("topic_received", "Failed to transition to generating state") {
                        Ok(()) => Ok(HaikuTurn::Reply(self.arrival_reply("🎋 Weaving your thoughts into digital poetry..."))),
                        Err(e) => Err(e),
                    }
                } else if str_eq(s.as_str(), "complete") {
                    if str_eq(lower.as_str(), "yes") {
                        match self.fire("yes", "Failed to transition to awaiting_topic state") {
                            Ok(()) => Ok(
                                HaikuTurn::Reply(
                                    self.arrival_reply("🌸 What new topic shall inspire our next algorithmic verse?"),
                                ),
                            ),
                            Err(e) => Err(e),
                        }
                    } else if str_eq(lower.as_str(), "no") {
                        match self.fire("no", "Failed to transition to goodbye state") {
                            Ok(()) => Ok(
                                HaikuTurn::Reply(
                                    self.arrival_reply("🌟 May your path be illuminated by the glow of poetic algorithms..."),
                                ),
                            ),
                            Err(e) => Err(e),
                        }
                    } else {
                        Ok(
                            HaikuTurn::Reply(
                                self.create_response(copy_str("Please respond with 'yes' to continue or 'no' to conclude.")),
                            ),
                        )
                    }
                } else if str_eq(s.as_str(), "goodbye") {
                    Ok(HaikuTurn::Reply(self.create_response(copy_str("Farewell, seeker of digital poetry."))))
                } else {
                    Err(SwarmError::State(concat_str("Invalid state: ", s.as_str())))
                }
            },
        }
    }

    /// Reports the haiku composed in the generating state: the conversation
    /// moves on to "complete" and the haiku is the reply.
    pub fn haiku_generated(&mut self, haiku: String) -> (r: Result<Message, SwarmError>)
        ensures
            final(self).config == old(self).config,
            final(self).state_manager.state_machine == old(self).state_manager.state_machine,
            match next_state(old(self).state_manager, "haiku_generated"@) {
                Some(t) => {
                    &&& final(self).state_manager.current_state matches Some(c) && c@ == t
                    &&& r matches Ok(m) && m.content == haiku
                    &&& message_from(r->Ok_0, old(self).config.name, t)
                },
                None => {
                    &&& final(self).state_manager.current_state == old(self).state_manager.current_state
                    &&& r matches Err(SwarmError::State(e)) && e@ == "Failed to transition to complete state"@
                },
            },
    {
        match self.fire("haiku_generated", "Failed to transition to complete state") {
            Ok(()) => Ok(self.create_response(haiku)),
            Err(e) => Err(e),
        }
    }
}


/// The lines of a generated haiku: its text trimmed, split at line feeds.
pub open spec fn haiku_lines(h: Seq<char>) -> Seq<Seq<char>> {
    lines_of(strip(h, ws_pred()))
}

/// Syllables counted on each line of a generated haiku.
pub open spec fn pattern_of(h: Seq<char>) -> Seq<int> {
    haiku_lines(h).map_values(|l: Seq<char>| vowel_count(lowercase_of(l)) as int)
}

/// Counts as integers.
pub open spec fn ints(s: Seq<usize>) -> Seq<int> {
    s.map_values(|x: usize| x as int)
}

/// The 5-7-5 form.
pub open spec fn is_575(s: Seq<int>) -> bool {
    s.len() == 3 && s[0] == 5 && s[1] == 7 && s[2] == 5
}

/// Syllables wanted on line `i` of a haiku.
pub open spec fn target_syllables(i: int) -> int {
    if i == 1 {
        7
    } else {
        5
    }
}

/// Total of the syllables by which the first `n` lines exceed the 5-7-5
/// form, taken in `usize`: `None` when a line falls short (the subtraction
/// underflows) or the total overflows.
pub open spec fn excess_upto(s: Seq<int>, n: nat) -> Option<int>
    decreases n,
{
    if n == 0 {
        Some(0)
    } else {
        match excess_upto(s, (n - 1) as nat) {
            Some(e) => {
                let d = s[n - 1] - target_syllables(n - 1);
                if d >= 0 && e + d <= usize::MAX {
                    Some(e + d)
                } else {
                    None
                }
            },
            None => None,
        }
    }
}

/// How far an attempt is from the 5-7-5 form, over its first three lines.
pub open spec fn excess(s: Seq<int>) -> Option<int> {
    excess_upto(
        s,
        if s.len() < 3 {
            s.len()
        } else {
            3
        },
    )
}

/// Once the total cannot be computed, it cannot be for more lines either.
proof fn lemma_excess_stays_none(s: Seq<int>, k: nat, n: nat)
    requires
        k <= n,
        excess_upto(s, k) is None,
    ensures
        excess_upto(s, n) is None,
    decreases n - k,
{
    if k < n {
        assert(excess_upto(s, (k + 1) as nat) is None);
        lemma_excess_stays_none(s, (k + 1) as nat, n);
    }
}

/// Syllables on each line of a generated haiku.
pub fn syllable_pattern(haiku: &str) -> (v: Vec<usize>)
    ensures
        ints(v@) == pattern_of(haiku@),
{
    let t = trim(haiku);
    let lines = split_lines(t.as_str());
    let ghost ls = haiku_lines(haiku@);
    let mut v: Vec<usize> = Vec::new();
    let mut i: usize = 0;
    while i < lines.len()
        invariant
            i <= lines@.len(),
            names(lines@) == ls,
            ls == haiku_lines(haiku@),
            v@.len() == i,
            forall|k: int| 0 <= k < i ==> v@[k] == vowel_count(lowercase_of(#[trigger] ls[k])),
        decreases lines@.len() - i,
    {
        assert(ls[i as int] == lines@[i as int]@);
        v.push(count_syllables(lines[i].as_str()));
        i += 1;
    }
    proof {
        assert(ints(v@) =~= pattern_of(haiku@));
    }
    v
}

/// How far the counts are from the 5-7-5 form; `None` where that cannot be
/// computed in `usize`.
pub fn syllable_excess(s: &Vec<usize>) -> (r: Option<usize>)
    ensures
        match excess(ints(s@)) {
            Some(e) => r matches Some(x) && x as int == e,
            None => r is None,
        },
{
    let n: usize = if s.len() < 3 {
        s.len()
    } else {
        3
    };
    let mut total: usize = 0;
    let mut i: usize = 0;
    while i < n
        invariant
            i <= n,
            n <= s@.len(),
            n == (if s@.len() < 3 {
                s@.len()
            } else {
                3
            }),
            excess_upto(ints(s@), i as nat) == Some(total as int),
        decreases n - i,
    {
        let target: usize = if i == 1 {
            7
        } else {
            5
        };
        if s[i] < target || total > usize::MAX - (s[i] - target) {
            proof {
                assert(excess_upto(ints(s@), (i + 1) as nat) is None);
                lemma_excess_stays_none(ints(s@), (i + 1) as nat, n as nat);
            }
            return None;
        }
        total = total + (s[i] - target);
        i += 1;
    }
    Some(total)
}

/// An attempt at a haiku that is not yet 5-7-5, kept while asking again.
#[derive(Debug)]
pub struct HaikuSearch {
    /// The closest attempt so far.
    pub best_attempt: String,
    /// Its syllable counts.
    pub best_syllables: Vec<usize>,
    /// Attempts made after the first.
    pub retries: usize,
}

/// Verdict on a generated haiku.
#[derive(Debug)]
pub enum HaikuCheck {
    /// The haiku to answer with.
    Accept(String),
    /// Ask for another attempt and offer it to the search.
    Retry(HaikuSearch),
}

/// Attempts allowed after the first.
pub const HAIKU_RETRY_LIMIT: usize = 5;

/// Checks the first generated haiku: it must have three lines; a 5-7-5 one
/// is accepted, any other starts a search for a closer one.
pub fn check_haiku(haiku: String) -> (r: Result<HaikuCheck, SwarmError>)
    ensures
        haiku_lines(haiku@).len() != 3 ==> (r matches Err(SwarmError::Agent(e))
            && e@ == "Generated haiku does not have 3 lines"@),
        haiku_lines(haiku@).len() == 3 && is_575(pattern_of(haiku@)) ==> (r matches Ok(HaikuCheck::Accept(h))
            && h == haiku),
        haiku_lines(haiku@).len() == 3 && !is_575(pattern_of(haiku@)) ==> (r matches Ok(
            HaikuCheck::Retry(s),
        ) && s.best_attempt == haiku && ints(s.best_syllables@) == pattern_of(haiku@) && s.retries == 0),
{
    let p = syllable_pattern(haiku.as_str());
    proof {
        assert(ints(p@).len() == p@.len());
        assert(pattern_of(haiku@).len() == haiku_lines(haiku@).len());
        assert(forall|k: int| 0 <= k < p@.len() ==> ints(p@)[k] == p@[k] as int);
    }
    if p.len() != 3 {
        return Err(SwarmError::Agent(copy_str("Generated haiku does not have 3 lines")));
    }
    if p[0] == 5 && p[1] == 7 && p[2] == 5 {
        Ok(HaikuCheck::Accept(haiku))
    } else {
        Ok(HaikuCheck::Retry(HaikuSearch { best_attempt: haiku, best_syllables: p, retries: 0 }))
    }
}

impl HaikuSearch {
    /// Offers another attempt: a 5-7-5 one is accepted; otherwise it
    /// replaces the best attempt when strictly closer, and after the last
    /// allowed attempt the best one is accepted.
    pub fn offer(self, attempt: String) -> (r: HaikuCheck)
        requires
            self.retries < HAIKU_RETRY_LIMIT,
            is_575(pattern_of(attempt@)) || (excess(pattern_of(attempt@)) is Some && excess(
                ints(self.best_syllables@),
            ) is Some),
        ensures
            is_575(pattern_of(attempt@)) ==> (r matches HaikuCheck::Accept(h) && h == attempt),
            !is_575(pattern_of(attempt@)) ==> ({
                let closer = excess(pattern_of(attempt@))->0 < excess(ints(self.best_syllables@))->0;
                let best = if closer {
                    attempt
                } else {
                    self.best_attempt
                };
                let best_counts = if closer {
                    pattern_of(attempt@)
                } else {
                    ints(self.best_syllables@)
                };
                if self.retries + 1 == HAIKU_RETRY_LIMIT {
                    r matches HaikuCheck::Accept(h) && h == best
                } else {
                    r matches HaikuCheck::Retry(s) && s.best_attempt == best && ints(s.best_syllables@)
                        == best_counts && s.retries == self.retries + 1
                }
            }),
    {
        let p = syllable_pattern(attempt.as_str());
        proof {
            assert(ints(p@).len() == p@.len());
            assert(forall|k: int| 0 <= k < p@.len() ==> ints(p@)[k] == p@[k] as int);
        }
        if p.len() == 3 && p[0] == 5 && p[1] == 7 && p[2] == 5 {
            return HaikuCheck::Accept(attempt);
        }
        let new_excess = syllable_excess(&p);
        let best_excess = syllable_excess(&self.best_syllables);
        let (best_attempt, best_syllables) = match (new_excess, best_excess) {
            (Some(a), Some(b)) => if a < b {
                (attempt, p)
            } else {
                (self.best_attempt, self.best_syllables)
            },
            _ => (self.best_attempt, self.best_syllables),
        };
        let retries = self.retries + 1;
        if retries == HAIKU_RETRY_LIMIT {
            HaikuCheck::Accept(best_attempt)
        } else {
            HaikuCheck::Retry(HaikuSearch { best_attempt, best_syllables, retries })
        }
    }
}

} // verus!
