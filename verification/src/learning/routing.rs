//! Routing of a conversation between agents from the user's intent.

use vstd::prelude::*;

use crate::text::{copy_str, has_substring, lowercase_of, str_contains, to_lowercase};

verus! {

/// State seen by the routing policy.
#[derive(Debug)]
pub struct RoutingState {
    pub current_agent: String,
    /// Intent category of the last user message.
    pub user_intent: String,
    /// Number of turns so far.
    pub conversation_depth: i32,
    pub last_success: bool,
}

/// Intent category of a message, from words in its lower-cased form.
pub open spec fn spec_classify_intent(message: Seq<char>) -> Seq<char> {
    let m = lowercase_of(message);
    if has_substring(m, "hello"@) || has_substring(m, "hi"@) {
        "greeting"@
    } else if has_substring(m, "git"@) || has_substring(m, "commit"@) || has_substring(m, "branch"@) {
        "git_help"@
    } else if has_substring(m, "project"@) || has_substring(m, "init"@) || has_substring(m, "create"@) {
        "project_init"@
    } else if has_substring(m, "haiku"@) || has_substring(m, "poetry"@) || has_substring(m, "creative"@) {
        "creative"@
    } else {
        "general"@
    }
}

impl RoutingState {
    /// Classifies the intent of a user message: greeting, git_help,
    /// project_init, creative or general, checked in that order.
    pub fn classify_intent(message: &str) -> (intent: String)
        ensures
            intent@ == spec_classify_intent(message@),
    {
        let lower = to_lowercase(message);
        let m = lower.as_str();
        if str_contains(m, "hello") || str_contains(m, "hi") {
            copy_str("greeting")
        } else if str_contains(m, "git") || str_contains(m, "commit") || str_contains(m, "branch") {
            copy_str("git_help")
        } else if str_contains(m, "project") || str_contains(m, "init") || str_contains(m, "create") {
            copy_str("project_init")
        } else if str_contains(m, "haiku") || str_contains(m, "poetry") || str_contains(m, "creative") {
            copy_str("creative")
        } else {
            copy_str("general")
        }
    }
}

/// Routing actions: which agent handles the next turn.
#[derive(Debug, Clone, Copy, PartialEq, Eq, Hash, Structural)]
pub enum RoutingAction {
    StayWithCurrent,
    TransferToGreeter,
    TransferToGit,
    TransferToProject,
    TransferToHaiku,
}

/// Index of an action in the action space.
pub open spec fn spec_action_index(a: RoutingAction) -> nat {
    match a {
        RoutingAction::StayWithCurrent => 0,
        RoutingAction::TransferToGreeter => 1,
        RoutingAction::TransferToGit => 2,
        RoutingAction::TransferToProject => 3,
        RoutingAction::TransferToHaiku => 4,
    }
}

/// Name of the agent an action leads to.
pub open spec fn spec_agent_name(a: RoutingAction, current: Seq<char>) -> Seq<char> {
    match a {
        RoutingAction::StayWithCurrent => current,
        RoutingAction::TransferToGreeter => "greeter"@,
        RoutingAction::TransferToGit => "git"@,
        RoutingAction::TransferToProject => "project"@,
        RoutingAction::TransferToHaiku => "haiku"@,
    }
}

impl RoutingAction {
    /// Name of the agent this action leads to.
    pub fn to_agent_name(&self, current_agent: &str) -> (name: String)
        ensures
            name@ == spec_agent_name(*self, current_agent@),
    {
        match self {
            RoutingAction::StayWithCurrent => copy_str(current_agent),
            RoutingAction::TransferToGreeter => copy_str("greeter"),
            RoutingAction::TransferToGit => copy_str("git"),
            RoutingAction::TransferToProject => copy_str("project"),
            RoutingAction::TransferToHaiku => copy_str("haiku"),
        }
    }

    /// Index of this action in the action space.
    pub fn to_index(&self) -> (i: usize)
        ensures
            i == spec_action_index(*self),
    {
        match self {
            RoutingAction::StayWithCurrent => 0,
            RoutingAction::TransferToGreeter => 1,
            RoutingAction::TransferToGit => 2,
            RoutingAction::TransferToProject => 3,
            RoutingAction::TransferToHaiku => 4,
        }
    }

    /// The action with the given index, if any.
    pub fn from_index(index: usize) -> (a: Option<RoutingAction>)
        ensures
            match a {
                Some(a) => spec_action_index(a) == index,
                None => index >= 5,
            },
    {
        match index {
            0 => Some(RoutingAction::StayWithCurrent),
            1 => Some(RoutingAction::TransferToGreeter),
            2 => Some(RoutingAction::TransferToGit),
            3 => Some(RoutingAction::TransferToProject),
            4 => Some(RoutingAction::TransferToHaiku),
            _ => None,
        }
    }

    /// The action recorded for a past turn: a transfer to a known agent, or
    /// staying with the current agent otherwise.
    pub fn from_transfer(transfer_occurred: bool, target: Option<&str>) -> (a: RoutingAction)
        ensures
            a == spec_action_from_transfer(transfer_occurred, match target {
                Some(t) => Some(t@),
                None => None,
            }),
    {
        if !transfer_occurred {
            return RoutingAction::StayWithCurrent;
        }
        match target {
            Some(t) => {
                proof {
                    reveal_strlit("greeter");
                    reveal_strlit("git");
                    reveal_strlit("project");
                    reveal_strlit("haiku");
                }
                let tv = crate::text::chars_of(t);
                if text_equals(&tv, "greeter") {
                    RoutingAction::TransferToGreeter
                } else if text_equals(&tv, "git") {
                    RoutingAction::TransferToGit
                } else if text_equals(&tv, "project") {
                    RoutingAction::TransferToProject
                } else if text_equals(&tv, "haiku") {
                    RoutingAction::TransferToHaiku
                } else {
                    RoutingAction::StayWithCurrent
                }
            },
            None => RoutingAction::StayWithCurrent,
        }
    }
}

/// The action recorded for a past turn.
pub open spec fn spec_action_from_transfer(transfer_occurred: bool, target: Option<Seq<char>>) -> RoutingAction {
    if !transfer_occurred {
        RoutingAction::StayWithCurrent
    } else {
        match target {
            Some(t) => if t == "greeter"@ {
                RoutingAction::TransferToGreeter
            } else if t == "git"@ {
                RoutingAction::TransferToGit
            } else if t == "project"@ {
                RoutingAction::TransferToProject
            } else if t == "haiku"@ {
                RoutingAction::TransferToHaiku
            } else {
                RoutingAction::StayWithCurrent
            },
            None => RoutingAction::StayWithCurrent,
        }
    }
}

/// Whether the characters `a` spell `b`.
pub fn text_equals(a: &Vec<char>, b: &str) -> (r: bool)
    ensures
        r == (a@ == b@),
{
    let bv = crate::text::chars_of(b);
    if a.len() != bv.len() {
        return false;
    }
    let mut i: usize = 0;
    while i < a.len()
        invariant
            i <= a@.len(),
            a@.len() == bv@.len(),
            bv@ == b@,
            forall|k: int| 0 <= k < i ==> a@[k] == bv@[k],
        decreases a@.len() - i,
    {
        if a[i] != bv[i] {
            proof {
                assert(a@[i as int] != b@[i as int]);
            }
            return false;
        }
        i += 1;
    }
    proof {
        assert(a@ =~= bv@);
    }
    true
}

/// Agent chosen by the rule-based routing: git help goes to "git", project
/// set-up to "project", creative requests to "haiku", anything else stays.
pub open spec fn spec_rule_route(current: Seq<char>, message: Seq<char>) -> Seq<char> {
    let intent = spec_classify_intent(message);
    if intent == "git_help"@ {
        "git"@
    } else if intent == "project_init"@ {
        "project"@
    } else if intent == "creative"@ {
        "haiku"@
    } else {
        current
    }
}

/// Rule-based routing decision for a user message.
pub fn decide_routing(current_agent: &str, user_message: &str) -> (target: String)
    ensures
        target@ == spec_rule_route(current_agent@, user_message@),
{
    let intent = RoutingState::classify_intent(user_message);
    let iv = crate::text::chars_of(intent.as_str());
    proof {
        reveal_strlit("git_help");
        reveal_strlit("project_init");
        reveal_strlit("creative");
    }
    if text_equals(&iv, "git_help") {
        copy_str("git")
    } else if text_equals(&iv, "project_init") {
        copy_str("project")
    } else if text_equals(&iv, "creative") {
        copy_str("haiku")
    } else {
        copy_str(current_agent)
    }
}


impl crate::rl::action::Action for RoutingAction {
    open spec fn action_number(&self) -> nat {
        spec_action_index(*self)
    }

    fn to_index(&self) -> (i: usize) {
        RoutingAction::to_index(self)
    }

    fn from_index(index: usize) -> (a: Option<Self>)
        ensures
            match a {
                Some(x) => spec_action_index(x) == index,
                None => index >= 5,
            },
    {
        RoutingAction::from_index(index)
    }
}


/// Git help goes to "git", project set-up to "project" and creative
/// requests to "haiku", whichever agent the user is with; any other message
/// stays with the current agent.
pub proof fn lemma_routing_by_intent(current: Seq<char>, other: Seq<char>, message: Seq<char>)
    ensures
        spec_classify_intent(message) == "git_help"@ ==> spec_rule_route(current, message) == "git"@,
        spec_classify_intent(message) == "project_init"@ ==> spec_rule_route(current, message) == "project"@,
        spec_classify_intent(message) == "creative"@ ==> spec_rule_route(current, message) == "haiku"@,
        spec_classify_intent(message) != "git_help"@ && spec_classify_intent(message) != "project_init"@
            && spec_classify_intent(message) != "creative"@ ==> spec_rule_route(current, message) == current,
        spec_rule_route(current, message) != current ==> spec_rule_route(current, message) == spec_rule_route(
            other,
            message,
        ),
{
    reveal_strlit("git_help");
    reveal_strlit("project_init");
    reveal_strlit("creative");
    assert("git_help"@.len() == 8 && "project_init"@.len() == 12 && "creative"@.len() == 8);
    assert("git_help"@[0] == 'g' && "creative"@[0] == 'c');
    assert("git_help"@ != "creative"@);
    assert("git_help"@ != "project_init"@);
    assert("project_init"@ != "creative"@);
}

} // verus!
