//! The version-control agent: reads a command, names the `git` invocation
//! that carries it out, and words the reply from what `git` answered.

use vstd::prelude::*;

use crate::ai::{trim, ws_pred, strip};
use crate::text::{concat_str, copy_str, join, join_strings, lemma_names_push, lowercase_of, names, split_whitespace, str_eq, to_lowercase, words};
use crate::clock::now_timestamp;
use crate::types::{Message, MessageMetadata};

verus! {

/// A command of the version-control agent.
#[derive(Debug)]
pub enum GitCommand {
    /// "help", or an empty command.
    Help,
    Status,
    /// Stage the named files.
    Add(Vec<String>),
    /// Commit with the given message (the arguments joined by spaces).
    Commit(String),
    /// Create a branch and switch to it.
    Branch(String),
    Checkout(String),
    Merge(String),
    Push,
    Pull,
    /// Anything else; holds the whole command.
    Unknown(String),
}

/// The arguments after the command word, joined by single spaces.
pub open spec fn rest_joined(ws: Seq<Seq<char>>) -> Seq<char> {
    join(ws.drop_first(), " "@)
}

/// `c` is the command that the text `command` denotes, by its first word.
pub open spec fn denotes(c: GitCommand, command: Seq<char>) -> bool {
    let ws = words(command);
    if ws.len() == 0 || ws[0] == "help"@ {
        c is Help
    } else if ws[0] == "status"@ {
        c is Status
    } else if ws[0] == "add"@ {
        c matches GitCommand::Add(files) && names(files@) == ws.drop_first()
    } else if ws[0] == "commit"@ {
        c matches GitCommand::Commit(m) && m@ == rest_joined(ws)
    } else if ws[0] == "branch"@ {
        c matches GitCommand::Branch(b) && b@ == rest_joined(ws)
    } else if ws[0] == "checkout"@ {
        c matches GitCommand::Checkout(b) && b@ == rest_joined(ws)
    } else if ws[0] == "merge"@ {
        c matches GitCommand::Merge(b) && b@ == rest_joined(ws)
    } else if ws[0] == "push"@ {
        c is Push
    } else if ws[0] == "pull"@ {
        c is Pull
    } else {
        c matches GitCommand::Unknown(t) && t@ == command
    }
}

/// Commit message used when a commit names none.
pub open spec fn commit_message(m: Seq<char>) -> Seq<char> {
    if m.len() == 0 {
        "archival"@
    } else {
        m
    }
}

/// Arguments of the `git` run that carries out a command; none for help and
/// unknown commands.
pub open spec fn git_args(c: GitCommand) -> Option<Seq<Seq<char>>> {
    match c {
        GitCommand::Help => None,
        GitCommand::Unknown(_) => None,
        GitCommand::Status => Some(seq!["status"@]),
        GitCommand::Add(files) => Some(seq!["add"@] + names(files@)),
        GitCommand::Commit(m) => Some(seq!["commit"@, "-m"@, commit_message(m@)]),
        GitCommand::Branch(b) => Some(seq!["checkout"@, "-b"@, b@]),
        GitCommand::Checkout(b) => Some(seq!["checkout"@, b@]),
        GitCommand::Merge(b) => Some(seq!["merge"@, b@]),
        GitCommand::Push => Some(seq!["push"@]),
        GitCommand::Pull => Some(seq!["pull"@]),
    }
}

/// The list of commands the agent understands.
pub open spec fn git_help_text() -> Seq<char> {
    "🌟 Quantum Version Control Interface - Your Temporal Archive Assistant\n\nAvailable timeline manipulation commands:\n- init: Initialize a new temporal nexus (git repository)\n- status: Scan quantum state of current timeline\n- add <files>: Preserve artifacts in the temporal archive\n- commit <message>: Create a quantum state marker\n- branch <name>: Initiate a parallel timeline branch\n- checkout <branch>: Shift to an alternate timeline\n- merge <branch>: Converge timelines into unified reality\n- push: Synchronize local quantum states with the temporal nexus\n- pull: Retrieve quantum state updates from the temporal nexus"@
}

/// Reply to a repository status query when there is no repository.
pub open spec fn no_repository_text() -> Seq<char> {
    "🌌 This dimension appears to lack a temporal nexus. Initialize one with 'init'"@
}

/// The reply to a command, given what its `git` run answered: `Ok` with the
/// run's output, or `Err` when the run failed. Help and unknown commands do
/// not look at the outcome.
pub open spec fn git_reply(c: GitCommand, outcome: Result<Seq<char>, Seq<char>>) -> Seq<char> {
    match c {
        GitCommand::Help => git_help_text(),
        GitCommand::Unknown(t) => "❓ Unknown temporal operation: "@ + t@
            + ". Use 'help' to see available commands."@,
        GitCommand::Status => match outcome {
            Ok(out) => if out.len() == 0 {
                no_repository_text()
            } else {
                "🔮 Quantum State Analysis:\n"@ + out
            },
            Err(_) => no_repository_text(),
        },
        GitCommand::Add(files) => match outcome {
            Ok(_) => "🌟 Preparing to preserve the following artifacts in the temporal archive: "@
                + join(names(files@), " "@),
            Err(_) => "⚠️ Temporal preservation failed. Is this a valid timeline branch?"@,
        },
        GitCommand::Commit(m) => match outcome {
            Ok(out) => "✨ Creating quantum state marker: "@ + commit_message(m@) + "\n"@ + out,
            Err(_) => "⚠️ Failed to create quantum state marker. Are there changes to commit?"@,
        },
        GitCommand::Branch(b) => match outcome {
            Ok(_) => "🌌 Initiating parallel timeline branch: "@ + b@,
            Err(_) => "⚠️ Failed to create parallel timeline. Is this a valid temporal nexus?"@,
        },
        GitCommand::Checkout(b) => match outcome {
            Ok(_) => "🌠 Shifting to timeline: "@ + b@,
            Err(_) => "⚠️ Timeline shift failed. Does this reality branch exist?"@,
        },
        GitCommand::Merge(b) => match outcome {
            Ok(out) => "🌊 Converging timeline "@ + b@ + " with current timeline\n"@ + out,
            Err(_) => "⚠️ Timeline convergence failed. Are both realities compatible?"@,
        },
        GitCommand::Push => match outcome {
            Ok(_) => "🚀 Synchronizing local quantum states with the temporal nexus..."@,
            Err(_) => "⚠️ Temporal synchronization failed. Is the nexus reachable?"@,
        },
        GitCommand::Pull => match outcome {
            Ok(_) => "📥 Retrieving quantum state updates from the temporal nexus..."@,
            Err(_) => "⚠️ Failed to retrieve temporal updates. Is the nexus reachable?"@,
        },
    }
}

/// Traits the version-control agent shows in its replies.
pub open spec fn git_traits() -> Seq<Seq<char>> {
    seq!["git_expert"@, "precise"@, "helpful"@]
}

/// The arguments after the first word, joined by spaces.
pub(crate) fn rest_of(parts: &Vec<String>) -> (r: String)
    requires
        parts@.len() > 0,
    ensures
        r@ == rest_joined(names(parts@)),
{
    let mut rest: Vec<String> = Vec::new();
    let mut i: usize = 1;
    while i < parts.len()
        invariant
            1 <= i <= parts@.len(),
            names(rest@) == names(parts@).subrange(1, i as int),
        decreases parts@.len() - i,
    {
        let ghost before = rest@;
        rest.push(parts[i].clone());
        proof {
            lemma_names_push(before, parts@[i as int]);
            assert(names(rest@) =~= names(parts@).subrange(1, i + 1));
        }
        i += 1;
    }
    proof {
        assert(names(parts@).subrange(1, parts@.len() as int) =~= names(parts@).drop_first());
    }
    join_strings(&rest, " ")
}

/// Reads a command (already trimmed and lower-cased by the caller).
pub fn parse_git_command(command: &str) -> (c: GitCommand)
    ensures
        denotes(c, command@),
{
    let parts = split_whitespace(command);
    let ghost ws = words(command@);
    proof {
        assert(names(parts@) =~= ws);
    }
    if parts.len() == 0 {
        return GitCommand::Help;
    }
    proof {
        assert(ws[0] == parts@[0]@);
    }
    let cmd = parts[0].as_str();
    if str_eq(cmd, "help") {
        GitCommand::Help
    } else if str_eq(cmd, "status") {
        GitCommand::Status
    } else if str_eq(cmd, "add") {
        let mut files: Vec<String> = Vec::new();
        let mut i: usize = 1;
        while i < parts.len()
            invariant
                1 <= i <= parts@.len(),
                names(files@) == names(parts@).subrange(1, i as int),
            decreases parts@.len() - i,
        {
            let ghost before = files@;
            files.push(parts[i].clone());
            proof {
                lemma_names_push(before, parts@[i as int]);
                assert(names(files@) =~= names(parts@).subrange(1, i + 1));
            }
            i += 1;
        }
        proof {
            assert(names(parts@).subrange(1, parts@.len() as int) =~= ws.drop_first());
        }
        GitCommand::Add(files)
    } else if str_eq(cmd, "commit") {
        GitCommand::Commit(rest_of(&parts))
    } else if str_eq(cmd, "branch") {
        GitCommand::Branch(rest_of(&parts))
    } else if str_eq(cmd, "checkout") {
        GitCommand::Checkout(rest_of(&parts))
    } else if str_eq(cmd, "merge") {
        GitCommand::Merge(rest_of(&parts))
    } else if str_eq(cmd, "push") {
        GitCommand::Push
    } else if str_eq(cmd, "pull") {
        GitCommand::Pull
    } else {
        GitCommand::Unknown(copy_str(command))
    }
}

/// Reads a message addressed to the agent: its content, trimmed and
/// lower-cased, as a command.
pub fn parse_git_message(content: &str) -> (c: GitCommand)
    ensures
        denotes(c, lowercase_of(strip(content@, ws_pred()))),
{
    let t = trim(content);
    let lower = to_lowercase(t.as_str());
    parse_git_command(lower.as_str())
}

fn one_arg(a: &str) -> (v: Vec<String>)
    ensures
        names(v@) == seq![a@],
{
    let v = vec![copy_str(a)];
    proof {
        assert(names(v@) =~= seq![a@]);
    }
    v
}

impl GitCommand {
    /// Arguments of the `git` run that carries out the command, if any.
    pub fn git_invocation(&self) -> (r: Option<Vec<String>>)
        ensures
            match r {
                Some(v) => git_args(*self) == Some(names(v@)),
                None => git_args(*self) is None,
            },
    {
        match self {
            GitCommand::Help => None,
            GitCommand::Unknown(_) => None,
            GitCommand::Status => Some(one_arg("status")),
            GitCommand::Add(files) => {
                let mut v = one_arg("add");
                let mut i: usize = 0;
                while i < files.len()
                    invariant
                        i <= files@.len(),
                        names(v@) == seq!["add"@] + names(files@).take(i as int),
                    decreases files@.len() - i,
                {
                    let ghost before = v@;
                    v.push(files[i].clone());
                    proof {
                        lemma_names_push(before, files@[i as int]);
                        assert(names(v@) =~= seq!["add"@] + names(files@).take(i + 1));
                    }
                    i += 1;
                }
                proof {
                    assert(names(files@).take(files@.len() as int) =~= names(files@));
                }
                Some(v)
            },
            GitCommand::Commit(m) => {
                let msg = if m.as_str().is_empty() {
                    copy_str("archival")
                } else {
                    m.clone()
                };
                let v = vec![copy_str("commit"), copy_str("-m"), msg];
                proof {
                    assert(names(v@) =~= seq!["commit"@, "-m"@, commit_message(m@)]);
                }
                Some(v)
            },
            GitCommand::Branch(b) => {
                let v = vec![copy_str("checkout"), copy_str("-b"), b.clone()];
                proof {
                    assert(names(v@) =~= seq!["checkout"@, "-b"@, b@]);
                }
                Some(v)
            },
            GitCommand::Checkout(b) => {
                let v = vec![copy_str("checkout"), b.clone()];
                proof {
                    assert(names(v@) =~= seq!["checkout"@, b@]);
                }
                Some(v)
            },
            GitCommand::Merge(b) => {
                let v = vec![copy_str("merge"), b.clone()];
                proof {
                    assert(names(v@) =~= seq!["merge"@, b@]);
                }
                Some(v)
            },
            GitCommand::Push => Some(one_arg("push")),
            GitCommand::Pull => Some(one_arg("pull")),
        }
    }

    /// The reply text, given the outcome of the command's `git` run.
    pub fn reply(&self, outcome: &Result<String, String>) -> (r: String)
        ensures
            r@ == git_reply(
                *self,
                match outcome {
                    Ok(o) => Ok(o@),
                    Err(e) => Err(e@),
                },
            ),
    {
        match self {
            GitCommand::Help => copy_str(
                "🌟 Quantum Version Control Interface - Your Temporal Archive Assistant\n\nAvailable timeline manipulation commands:\n- init: Initialize a new temporal nexus (git repository)\n- status: Scan quantum state of current timeline\n- add <files>: Preserve artifacts in the temporal archive\n- commit <message>: Create a quantum state marker\n- branch <name>: Initiate a parallel timeline branch\n- checkout <branch>: Shift to an alternate timeline\n- merge <branch>: Converge timelines into unified reality\n- push: Synchronize local quantum states with the temporal nexus\n- pull: Retrieve quantum state updates from the temporal nexus",
            ),
            GitCommand::Unknown(t) => {
                let a = concat_str("❓ Unknown temporal operation: ", t.as_str());
                concat_str(a.as_str(), ". Use 'help' to see available commands.")
            },
            GitCommand::Status => match outcome {
                Ok(out) => if out.as_str().is_empty() {
                    copy_str("🌌 This dimension appears to lack a temporal nexus. Initialize one with 'init'")
                } else {
                    concat_str("🔮 Quantum State Analysis:\n", out.as_str())
                },
                Err(_) => copy_str("🌌 This dimension appears to lack a temporal nexus. Initialize one with 'init'"),
            },
            GitCommand::Add(files) => match outcome {
                Ok(_) => {
                    let joined = join_strings(files, " ");
                    concat_str(
                        "🌟 Preparing to preserve the following artifacts in the temporal archive: ",
                        joined.as_str(),
                    )
                },
                Err(_) => copy_str("⚠️ Temporal preservation failed. Is this a valid timeline branch?"),
            },
            GitCommand::Commit(m) => match outcome {
                Ok(out) => {
                    let msg = if m.as_str().is_empty() {
                        copy_str("archival")
                    } else {
                        m.clone()
                    };
                    let a = concat_str("✨ Creating quantum state marker: ", msg.as_str());
                    let b = concat_str(a.as_str(), "\n");
                    concat_str(b.as_str(), out.as_str())
                },
                Err(_) => copy_str("⚠️ Failed to create quantum state marker. Are there changes to commit?"),
            },
            GitCommand::Branch(b) => match outcome {
                Ok(_) => concat_str("🌌 Initiating parallel timeline branch: ", b.as_str()),
                Err(_) => copy_str("⚠️ Failed to create parallel timeline. Is this a valid temporal nexus?"),
            },
            GitCommand::Checkout(b) => match outcome {
                Ok(_) => concat_str("🌠 Shifting to timeline: ", b.as_str()),
                Err(_) => copy_str("⚠️ Timeline shift failed. Does this reality branch exist?"),
            },
            GitCommand::Merge(b) => match outcome {
                Ok(out) => {
                    let a = concat_str("🌊 Converging timeline ", b.as_str());
                    let c = concat_str(a.as_str(), " with current timeline\n");
                    concat_str(c.as_str(), out.as_str())
                },
                Err(_) => copy_str("⚠️ Timeline convergence failed. Are both realities compatible?"),
            },
            GitCommand::Push => match outcome {
                Ok(_) => copy_str("🚀 Synchronizing local quantum states with the temporal nexus..."),
                Err(_) => copy_str("⚠️ Temporal synchronization failed. Is the nexus reachable?"),
            },
            GitCommand::Pull => match outcome {
                Ok(_) => copy_str("📥 Retrieving quantum state updates from the temporal nexus..."),
                Err(_) => copy_str("⚠️ Failed to retrieve temporal updates. Is the nexus reachable?"),
            },
        }
    }
}

/// A reply of the version-control agent: `content`, from the assistant,
/// stamped with the current time, with metadata naming the agent and its
/// traits.
pub fn format_git_response(agent_name: &str, content: String) -> (m: Message)
    ensures
        m.content == content,
        m.role matches Some(r) && r@ == "assistant"@,
        m.timestamp is Some,
        m.parameters@.len() == 0,
        m.metadata is Some,
        m.metadata->0.agent@ == agent_name@,
        m.metadata->0.state is None,
        m.metadata->0.transfer_target is None,
        m.metadata->0.personality_traits is Some,
        names(m.metadata->0.personality_traits->0@) == git_traits(),
{
    let traits = vec![copy_str("git_expert"), copy_str("precise"), copy_str("helpful")];
    proof {
        assert(names(traits@) =~= git_traits());
    }
    let mut m = Message::new(content);
    m.metadata = Some(MessageMetadata::new(copy_str(agent_name)).with_personality(traits));
    m.role = Some(copy_str("assistant"));
    m.timestamp = Some(now_timestamp());
    m
}

} // verus!
