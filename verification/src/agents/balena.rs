//! The fleet agent: turns fleet commands into `balena` invocations and
//! frames the replies.

use vstd::prelude::*;

use crate::text::{concat_str, copy_str, has_substring, lowercase_of, names, split_whitespace, str_contains, str_eq, to_lowercase, words};
use crate::types::{AgentConfig, AgentStateManager, Message, MessageMetadata, State, StateMachine};

verus! {

/// The fleet agent.
pub struct BalenaWrapperAgent {
    pub config: AgentConfig,
    pub state_manager: AgentStateManager,
}

/// What a fleet message asks for.
#[derive(Debug)]
pub enum FleetCommand {
    /// An empty message, or one whose first word is "help": show the help
    /// text.
    Help,
    /// Run `balena` with these arguments.
    Run(Vec<String>),
    /// Not a fleet command.
    Unknown,
}

/// The fleet command a message's words denote.
pub open spec fn spec_fleet_args(ws: Seq<Seq<char>>) -> Option<Seq<Seq<char>>> {
    if ws.len() == 0 {
        None
    } else if ws[0] == "devices"@ {
        Some(seq!["devices"@])
    } else if ws[0] == "push"@ && ws.len() > 1 {
        Some(seq!["push"@, ws[1]])
    } else if ws[0] == "logs"@ && ws.len() > 1 {
        Some(seq!["logs"@, ws[1]])
    } else if ws[0] == "ssh"@ && ws.len() > 1 {
        Some(seq!["ssh"@, ws[1]])
    } else if ws[0] == "status"@ {
        Some(seq!["device"@, "list"@])
    } else if ws[0] == "wifi"@ && ws.len() > 3 {
        Some(seq!["wifi"@, ws[1], ws[2], ws[3]])
    } else if ws[0] == "scan"@ {
        Some(seq!["scan"@])
    } else {
        None
    }
}

/// The message asks for the help text: it is empty or starts with "help".
pub open spec fn asks_fleet_help(ws: Seq<Seq<char>>) -> bool {
    ws.len() == 0 || ws[0] == "help"@
}

/// Prefix of a fleet reply, chosen by the first of "error", "success",
/// "push", "device" found in the lower-cased content.
pub open spec fn spec_fleet_prefix(content: Seq<char>) -> Seq<char> {
    let s = lowercase_of(content);
    if has_substring(s, "error"@) {
        "🚨 Fleet Alert: "@
    } else if has_substring(s, "success"@) {
        "✅ Operation Complete: "@
    } else if has_substring(s, "push"@) {
        "🚀 Deployment Status: "@
    } else if has_substring(s, "device"@) {
        "📱 Device Update: "@
    } else {
        "🛸 Fleet Command: "@
    }
}

fn one(a: &str) -> (v: Vec<String>)
    ensures
        names(v@) == seq![a@],
{
    let v = vec![copy_str(a)];
    proof {
        assert(names(v@) =~= seq![a@]);
    }
    v
}

fn two(a: &str, b: &str) -> (v: Vec<String>)
    ensures
        names(v@) == seq![a@, b@],
{
    let v = vec![copy_str(a), copy_str(b)];
    proof {
        assert(names(v@) =~= seq![a@, b@]);
    }
    v
}

/// Parses a fleet message into the command it denotes.
pub fn parse_fleet_command(content: &str) -> (c: FleetCommand)
    ensures
        match c {
            FleetCommand::Help => asks_fleet_help(words(content@)),
            FleetCommand::Run(args) => !asks_fleet_help(words(content@)) && spec_fleet_args(words(content@))
                == Some(names(args@)),
            FleetCommand::Unknown => !asks_fleet_help(words(content@)) && spec_fleet_args(words(content@)) is None,
        },
{
    let parts = split_whitespace(content);
    let ghost ws = words(content@);
    proof {
        assert(names(parts@) =~= ws);
    }
    if parts.len() == 0 {
        return FleetCommand::Help;
    }
    let cmd = parts[0].as_str();
    proof {
        assert(ws[0] == parts@[0]@);
        if parts@.len() > 1 {
            assert(ws[1] == parts@[1]@);
        }
        if parts@.len() > 3 {
            assert(ws[2] == parts@[2]@);
            assert(ws[3] == parts@[3]@);
        }
    }
    if str_eq(cmd, "help") {
        FleetCommand::Help
    } else if str_eq(cmd, "devices") {
        FleetCommand::Run(one("devices"))
    } else if str_eq(cmd, "push") && parts.len() > 1 {
        FleetCommand::Run(two("push", parts[1].as_str()))
    } else if str_eq(cmd, "logs") && parts.len() > 1 {
        FleetCommand::Run(two("logs", parts[1].as_str()))
    } else if str_eq(cmd, "ssh") && parts.len() > 1 {
        FleetCommand::Run(two("ssh", parts[1].as_str()))
    } else if str_eq(cmd, "status") {
        FleetCommand::Run(two("device", "list"))
    } else if str_eq(cmd, "wifi") && parts.len() > 3 {
        let v = vec![
            copy_str("wifi"),
            copy_str(parts[1].as_str()),
            copy_str(parts[2].as_str()),
            copy_str(parts[3].as_str()),
        ];
        proof {
            assert(names(v@) =~= seq!["wifi"@, ws[1], ws[2], ws[3]]);
        }
        FleetCommand::Run(v)
    } else if str_eq(cmd, "scan") {
        FleetCommand::Run(one("scan"))
    } else {
        FleetCommand::Unknown
    }
}

/// The text of a finished `balena` run: its output when it succeeded, its
/// error output after "Error: " when it failed.
pub fn command_output_text(success: bool, stdout: &str, stderr: &str) -> (s: String)
    ensures
        s@ == (if success {
            stdout@
        } else {
            "Error: "@ + stderr@
        }),
{
    if success {
        copy_str(stdout)
    } else {
        concat_str("Error: ", stderr)
    }
}

/// The reply to a message that is not a fleet command.
pub fn unknown_command_text() -> (s: String)
    ensures
        s@ == "Unknown fleet command. Use 'help' to view available operations."@,
{
    copy_str("Unknown fleet command. Use 'help' to view available operations.")
}

/// The help text listing the fleet operations.
pub open spec fn help_text() -> Seq<char> {
    "Welcome to the IoT Fleet Command Center! Available operations:\n- 'devices': Scan for connected fleet units\n- 'push <app>': Deploy updates to target application\n- 'logs <device>': Monitor quantum transmissions from device\n- 'ssh <device>': Establish secure neural link to device\n- 'status': Monitor fleet-wide operational status\n- 'wifi <device> <ssid> <psk>': Configure device network matrix\n- 'scan': Initiate fleet-wide diagnostics"@
}

/// The personality traits of the fleet agent.
pub open spec fn fleet_traits() -> Seq<Seq<char>> {
    seq!["fleet_commander"@, "precise"@, "iot_focused"@, "system_oriented"@, "deployment_expert"@]
}

impl BalenaWrapperAgent {
    /// A fleet agent whose state machine starts in "awaiting_command"; a
    /// received command leads to "executing", completion leads back.
    pub fn new(config: AgentConfig) -> (a: Self)
        ensures
            a.config == config,
            a.state_manager.current_state matches Some(s) && s@ == "awaiting_command"@,
            a.state_manager.state_machine matches Some(sm) && sm.initial_state@ == "awaiting_command"@
                && sm.states@.len() == 2 && sm.states@[0].0@ == "awaiting_command"@
                && sm.states@[1].0@ == "executing"@,
    {
        let mut t1: Vec<(String, String)> = Vec::new();
        t1.push((copy_str("command_received"), copy_str("executing")));
        let mut t2: Vec<(String, String)> = Vec::new();
        t2.push((copy_str("complete"), copy_str("awaiting_command")));
        let mut states: Vec<(String, State)> = Vec::new();
        states.push(
            (
                copy_str("awaiting_command"),
                State {
                    name: copy_str("awaiting_command"),
                    data: None,
                    prompt: Some(copy_str("🛸 Fleet Commander ready. What IoT operations shall we initiate today?")),
                    transitions: Some(t1),
                    validation: None,
                },
            ),
        );
        states.push(
            (
                copy_str("executing"),
                State {
                    name: copy_str("executing"),
                    data: None,
                    prompt: Some(copy_str("⚡ Executing fleet command... Stand by for quantum entanglement.")),
                    transitions: Some(t2),
                    validation: None,
                },
            ),
        );
        let sm = StateMachine { states, initial_state: copy_str("awaiting_command") };
        BalenaWrapperAgent { config, state_manager: AgentStateManager::new(Some(sm)) }
    }

    /// A reply with the agent's metadata: its name, the current state (or
    /// "awaiting_command"), its traits, and the style and domain parameters.
    pub fn create_response(&self, content: String) -> (m: Message)
        ensures
            m.content == content,
            m.metadata is Some,
            m.metadata->0.agent@ == self.config.name@,
            m.metadata->0.state is Some,
            m.metadata->0.state->0@ == (match self.state_manager.current_state {
                Some(c) => c@,
                None => "awaiting_command"@,
            }),
            m.metadata->0.personality_traits is Some,
            names(m.metadata->0.personality_traits->0@) == fleet_traits(),
            m.metadata->0.transfer_target is None,
            m.parameters@.len() == 2,
            m.parameters@[0].0@ == "style"@ && m.parameters@[0].1@ == "fleet_commander"@,
            m.parameters@[1].0@ == "domain"@ && m.parameters@[1].1@ == "iot_operations"@,
    {
        let state = match self.state_manager.get_current_state_name() {
            Some(s) => copy_str(s),
            None => copy_str("awaiting_command"),
        };
        let traits = vec![
            copy_str("fleet_commander"),
            copy_str("precise"),
            copy_str("iot_focused"),
            copy_str("system_oriented"),
            copy_str("deployment_expert"),
        ];
        proof {
            assert(names(traits@) =~= fleet_traits());
        }
        let metadata = MessageMetadata::new(self.config.name.clone()).with_state(state).with_personality(traits);
        let mut parameters: Vec<(String, String)> = Vec::new();
        parameters.push((copy_str("style"), copy_str("fleet_commander")));
        parameters.push((copy_str("domain"), copy_str("iot_operations")));
        Message { content, metadata: Some(metadata), parameters, role: None, timestamp: None }
    }

    /// Prefix of a fleet reply.
    pub fn fleet_prefix(content: &str) -> (p: String)
        ensures
            p@ == spec_fleet_prefix(content@),
    {
        let lower = to_lowercase(content);
        let s = lower.as_str();
        if str_contains(s, "error") {
            copy_str("🚨 Fleet Alert: ")
        } else if str_contains(s, "success") {
            copy_str("✅ Operation Complete: ")
        } else if str_contains(s, "push") {
            copy_str("🚀 Deployment Status: ")
        } else if str_contains(s, "device") {
            copy_str("📱 Device Update: ")
        } else {
            copy_str("🛸 Fleet Command: ")
        }
    }

    /// A reply whose content is the fleet prefix followed by `content`.
    pub fn format_fleet_response(&self, content: String) -> (m: Message)
        ensures
            m.content@ == spec_fleet_prefix(content@) + content@,
            m.metadata is Some,
            m.metadata->0.agent@ == self.config.name@,
    {
        let prefix = Self::fleet_prefix(content.as_str());
        let full = concat_str(prefix.as_str(), content.as_str());
        self.create_response(full)
    }

    /// The help message.
    pub fn get_help_message(&self) -> (m: Message)
        ensures
            m.content@ == spec_fleet_prefix(help_text()) + help_text(),
    {
        self.format_fleet_response(copy_str("Welcome to the IoT Fleet Command Center! Available operations:\n- 'devices': Scan for connected fleet units\n- 'push <app>': Deploy updates to target application\n- 'logs <device>': Monitor quantum transmissions from device\n- 'ssh <device>': Establish secure neural link to device\n- 'status': Monitor fleet-wide operational status\n- 'wifi <device> <ssid> <psk>': Configure device network matrix\n- 'scan': Initiate fleet-wide diagnostics"))
    }
}

} // verus!
