//! The archive wording of the version-control agent: "cd" chooses the
//! working directory, git commands are answered in archive terms, and a
//! commit without a message gets one written by a language model.

use vstd::prelude::*;

use crate::agents::git::{rest_joined, rest_of};
use crate::ai::ChatRequest;
use crate::decimal::{decimal, push_decimal};
use crate::text::{chars_of, concat_str, copy_str, names, occurs_at, occurs_at_exec, split_whitespace, str_eq, words};

verus! {

/// A command of the archive agent.
#[derive(Debug)]
pub enum ArchiveCommand {
    /// An empty message.
    Help,
    /// Move to the directory named by the arguments.
    Cd(String),
    Status,
    /// Stage the files named by the arguments (passed to git as one argument).
    Add(String),
    /// Commit with the arguments as message; an empty message is written
    /// from the diff (see `commit_plan`).
    Commit(String),
    Branch(String),
    Checkout(String),
    Merge(String),
    Push,
    Pull,
    /// Anything else (also "cd" alone); holds the first word.
    Unknown(String),
}

/// `c` is the command that a message with content `content` denotes.
pub open spec fn archive_denotes(c: ArchiveCommand, content: Seq<char>) -> bool {
    let ws = words(content);
    if ws.len() == 0 {
        c is Help
    } else if ws[0] == "cd"@ && ws.len() > 1 {
        c matches ArchiveCommand::Cd(p) && p@ == rest_joined(ws)
    } else if ws[0] == "status"@ {
        c is Status
    } else if ws[0] == "add"@ {
        c matches ArchiveCommand::Add(f) && f@ == rest_joined(ws)
    } else if ws[0] == "commit"@ {
        c matches ArchiveCommand::Commit(m) && m@ == rest_joined(ws)
    } else if ws[0] == "branch"@ {
        c matches ArchiveCommand::Branch(b) && b@ == rest_joined(ws)
    } else if ws[0] == "checkout"@ {
        c matches ArchiveCommand::Checkout(b) && b@ == rest_joined(ws)
    } else if ws[0] == "merge"@ {
        c matches ArchiveCommand::Merge(b) && b@ == rest_joined(ws)
    } else if ws[0] == "push"@ {
        c is Push
    } else if ws[0] == "pull"@ {
        c is Pull
    } else {
        c matches ArchiveCommand::Unknown(w) && w@ == ws[0]
    }
}

/// Arguments of the `git` run for a command, with `commit_message` the
/// message a commit uses; none for help, "cd" and unknown commands.
pub open spec fn archive_args(c: ArchiveCommand, commit_message: Seq<char>) -> Option<Seq<Seq<char>>> {
    match c {
        ArchiveCommand::Help => None,
        ArchiveCommand::Cd(_) => None,
        ArchiveCommand::Unknown(_) => None,
        ArchiveCommand::Status => Some(seq!["status"@, "--porcelain"@]),
        ArchiveCommand::Add(f) => Some(seq!["add"@, f@]),
        ArchiveCommand::Commit(_) => Some(seq!["commit"@, "-m"@, commit_message]),
        ArchiveCommand::Branch(b) => Some(seq!["checkout"@, "-b"@, b@]),
        ArchiveCommand::Checkout(b) => Some(seq!["checkout"@, b@]),
        ArchiveCommand::Merge(b) => Some(seq!["merge"@, b@]),
        ArchiveCommand::Push => Some(seq!["push"@]),
        ArchiveCommand::Pull => Some(seq!["pull"@]),
    }
}

/// The list of archive operations.
pub open spec fn archive_help_text() -> Seq<char> {
    "Welcome to the Temporal Version Archives! I can assist with the following quantum operations:\n- 'status': Observe the current timeline divergence\n- 'add <files>': Prepare artifacts for temporal preservation\n- 'commit [message]': Create a permanent quantum state marker\n- 'branch <name>': Split the timeline into a parallel dimension\n- 'checkout <branch>': Travel to an alternate timeline\n- 'merge <branch>': Converge parallel realities\n- 'push': Synchronize with the central timeline nexus\n- 'pull': Retrieve quantum state updates from the nexus\n- 'cd <path>': Relocate to a different archive sector"@
}

/// The reply to a command. For "cd", `outcome` is the new directory or the
/// reason it was refused; for status, the output of the run; other
/// commands do not look at it. A commit names `commit_message`.
pub open spec fn archive_reply(c: ArchiveCommand, outcome: Result<Seq<char>, Seq<char>>, commit_message: Seq<char>) -> Seq<char> {
    match c {
        ArchiveCommand::Help => archive_help_text(),
        ArchiveCommand::Cd(_) => match outcome {
            Ok(d) => "Temporal observation point relocated to: "@ + d,
            Err(e) => "Timeline sector inaccessible: "@ + e,
        },
        ArchiveCommand::Status => match outcome {
            Ok(o) => if o.len() == 0 {
                "The timeline is stable. No quantum fluctuations detected."@
            } else {
                "Temporal anomalies detected:\n"@ + o
            },
            Err(_) => Seq::empty(),
        },
        ArchiveCommand::Add(f) => "Artifacts staged for quantum preservation:\n"@ + f@,
        ArchiveCommand::Commit(_) => "Quantum state marker created: "@ + commit_message,
        ArchiveCommand::Branch(b) => "Branched into alternate timeline: "@ + b@,
        ArchiveCommand::Checkout(b) => "Quantum leaped to timeline: "@ + b@,
        ArchiveCommand::Merge(b) => "Converged quantum realities: "@ + b@ + " merged into current timeline"@,
        ArchiveCommand::Push => "Quantum state synchronized with the central timeline nexus"@,
        ArchiveCommand::Pull => "Quantum state updates retrieved from the central timeline nexus"@,
        ArchiveCommand::Unknown(w) => "Unknown temporal operation: "@ + w@ + ". Use 'help' for available commands."@,
    }
}

/// Reads a message addressed to the archive agent.
pub fn parse_archive_command(content: &str) -> (c: ArchiveCommand)
    ensures
        archive_denotes(c, content@),
{
    let parts = split_whitespace(content);
    let ghost ws = words(content@);
    proof {
        assert(names(parts@) =~= ws);
    }
    if parts.len() == 0 {
        return ArchiveCommand::Help;
    }
    proof {
        assert(ws[0] == parts@[0]@);
    }
    let cmd = parts[0].as_str();
    if str_eq(cmd, "cd") && parts.len() > 1 {
        ArchiveCommand::Cd(rest_of(&parts))
    } else if str_eq(cmd, "status") {
        ArchiveCommand::Status
    } else if str_eq(cmd, "add") {
        ArchiveCommand::Add(rest_of(&parts))
    } else if str_eq(cmd, "commit") {
        ArchiveCommand::Commit(rest_of(&parts))
    } else if str_eq(cmd, "branch") {
        ArchiveCommand::Branch(rest_of(&parts))
    } else if str_eq(cmd, "checkout") {
        ArchiveCommand::Checkout(rest_of(&parts))
    } else if str_eq(cmd, "merge") {
        ArchiveCommand::Merge(rest_of(&parts))
    } else if str_eq(cmd, "push") {
        ArchiveCommand::Push
    } else if str_eq(cmd, "pull") {
        ArchiveCommand::Pull
    } else {
        ArchiveCommand::Unknown(copy_str(cmd))
    }
}

fn strings(a: &[&str]) -> (v: Vec<String>)
    ensures
        v@.len() == a@.len(),
        forall|i: int| 0 <= i < a@.len() ==> #[trigger] v@[i]@ == a@[i]@,
{
    let mut v: Vec<String> = Vec::new();
    let mut i: usize = 0;
    while i < a.len()
        invariant
            i <= a@.len(),
            v@.len() == i,
            forall|k: int| 0 <= k < i ==> #[trigger] v@[k]@ == a@[k]@,
        decreases a@.len() - i,
    {
        v.push(copy_str(a[i]));
        i += 1;
    }
    v
}

impl ArchiveCommand {
    /// Arguments of the command's `git` run, if it has one.
    pub fn git_invocation(&self, commit_message: &str) -> (r: Option<Vec<String>>)
        ensures
            match r {
                Some(v) => archive_args(*self, commit_message@) == Some(names(v@)),
                None => archive_args(*self, commit_message@) is None,
            },
    {
        let v = match self {
            ArchiveCommand::Help => return None,
            ArchiveCommand::Cd(_) => return None,
            ArchiveCommand::Unknown(_) => return None,
            ArchiveCommand::Status => strings(&["status", "--porcelain"]),
            ArchiveCommand::Add(f) => strings(&["add", f.as_str()]),
            ArchiveCommand::Commit(_) => strings(&["commit", "-m", commit_message]),
            ArchiveCommand::Branch(b) => strings(&["checkout", "-b", b.as_str()]),
            ArchiveCommand::Checkout(b) => strings(&["checkout", b.as_str()]),
            ArchiveCommand::Merge(b) => strings(&["merge", b.as_str()]),
            ArchiveCommand::Push => strings(&["push"]),
            ArchiveCommand::Pull => strings(&["pull"]),
        };
        proof {
            assert(names(v@) =~= archive_args(*self, commit_message@)->0);
        }
        Some(v)
    }

    /// The reply to the command (see `archive_reply`). A failed `git` run
    /// is reported as an error by the caller, not answered, so only "cd"
    /// takes an `Err` outcome.
    pub fn reply(&self, outcome: &Result<String, String>, commit_message: &str) -> (r: String)
        requires
            !(*self is Cd) ==> outcome is Ok,
        ensures
            r@ == archive_reply(
                *self,
                match outcome {
                    Ok(o) => Ok(o@),
                    Err(e) => Err(e@),
                },
                commit_message@,
            ),
    {
        match self {
            ArchiveCommand::Help => copy_str("Welcome to the Temporal Version Archives! I can assist with the following quantum operations:\n- 'status': Observe the current timeline divergence\n- 'add <files>': Prepare artifacts for temporal preservation\n- 'commit [message]': Create a permanent quantum state marker\n- 'branch <name>': Split the timeline into a parallel dimension\n- 'checkout <branch>': Travel to an alternate timeline\n- 'merge <branch>': Converge parallel realities\n- 'push': Synchronize with the central timeline nexus\n- 'pull': Retrieve quantum state updates from the nexus\n- 'cd <path>': Relocate to a different archive sector"),
            ArchiveCommand::Cd(_) => match outcome {
                Ok(d) => concat_str("Temporal observation point relocated to: ", d.as_str()),
                Err(e) => concat_str("Timeline sector inaccessible: ", e.as_str()),
            },
            ArchiveCommand::Status => match outcome {
                Ok(o) => if o.as_str().is_empty() {
                    copy_str("The timeline is stable. No quantum fluctuations detected.")
                } else {
                    concat_str("Temporal anomalies detected:\n", o.as_str())
                },
                Err(_) => String::new(),
            },
            ArchiveCommand::Add(f) => concat_str("Artifacts staged for quantum preservation:\n", f.as_str()),
            ArchiveCommand::Commit(_) => concat_str("Quantum state marker created: ", commit_message),
            ArchiveCommand::Branch(b) => concat_str("Branched into alternate timeline: ", b.as_str()),
            ArchiveCommand::Checkout(b) => concat_str("Quantum leaped to timeline: ", b.as_str()),
            ArchiveCommand::Merge(b) => {
                let a = concat_str("Converged quantum realities: ", b.as_str());
                concat_str(a.as_str(), " merged into current timeline")
            },
            ArchiveCommand::Push => copy_str("Quantum state synchronized with the central timeline nexus"),
            ArchiveCommand::Pull => copy_str("Quantum state updates retrieved from the central timeline nexus"),
            ArchiveCommand::Unknown(w) => {
                let a = concat_str("Unknown temporal operation: ", w.as_str());
                concat_str(a.as_str(), ". Use 'help' for available commands.")
            },
        }
    }
}

/// Bytes that `c` takes in UTF-8.
pub open spec fn utf8_width(c: char) -> nat {
    if (c as u32) < 0x80 {
        1
    } else if (c as u32) < 0x800 {
        2
    } else if (c as u32) < 0x10000 {
        3
    } else {
        4
    }
}

/// Bytes that `s` takes in UTF-8.
pub open spec fn utf8_len(s: Seq<char>) -> nat
    decreases s.len(),
{
    if s.len() == 0 {
        0
    } else {
        utf8_len(s.drop_last()) + utf8_width(s.last())
    }
}

/// Occurrences of `p` in `s`, counted from the left without overlap.
pub open spec fn match_count(s: Seq<char>, p: Seq<char>) -> nat
    decreases s.len(),
{
    if p.len() == 0 || s.len() < p.len() {
        0
    } else if s.take(p.len() as int) == p {
        1 + match_count(s.skip(p.len() as int), p)
    } else {
        match_count(s.drop_first(), p)
    }
}

/// The instructions for writing a commit message from a diff.
pub open spec fn commit_system_prompt() -> Seq<char> {
    "You are a helpful assistant that generates clear and concise git commit messages. You analyze git diffs and create conventional commit messages that follow best practices. Focus on describing WHAT changed and WHY, being specific but concise. Use the conventional commits format: type(scope): Detailed description\n\nTypes: feat, fix, docs, style, refactor, test, chore\nExample: feat(auth): add password reset functionality"@
}

/// How a commit message is obtained for a diff: a diff of more than 4000
/// bytes gets a fixed message counting its files; a smaller one is sent to
/// the language model.
#[derive(Debug)]
pub enum CommitPlan {
    Fixed(String),
    Ask(ChatRequest),
}

/// The message of a large diff, which has `files` files.
pub open spec fn large_update_message(files: nat) -> Seq<char> {
    "feat: large update ("@ + decimal(files)
        + " files changed)\n\nLarge changeset detected. Please review the changes and provide a manual commit message."@
}

proof fn lemma_utf8_len_prefix(s: Seq<char>, i: int)
    requires
        0 <= i <= s.len(),
    ensures
        utf8_len(s.take(i)) <= utf8_len(s),
    decreases s.len() - i,
{
    if i < s.len() {
        lemma_utf8_len_prefix(s, i + 1);
        assert(s.take(i + 1).drop_last() =~= s.take(i));
    } else {
        assert(s.take(i) =~= s);
    }
}

fn byte_len_over(cs: &Vec<char>, limit: usize) -> (b: bool)
    requires
        limit < usize::MAX - 4,
    ensures
        b == (utf8_len(cs@) > limit),
{
    let mut total: usize = 0;
    let mut i: usize = 0;
    while i < cs.len() && total <= limit
        invariant
            i <= cs@.len(),
            limit < usize::MAX - 4,
            total == utf8_len(cs@.take(i as int)),
            total <= limit + 4,
        decreases cs@.len() - i,
    {
        proof {
            assert(cs@.take(i + 1).drop_last() =~= cs@.take(i as int));
        }
        let c = cs[i];
        let w: usize = if (c as u32) < 0x80 {
            1
        } else if (c as u32) < 0x800 {
            2
        } else if (c as u32) < 0x10000 {
            3
        } else {
            4
        };
        total = total + w;
        i += 1;
    }
    proof {
        lemma_utf8_len_prefix(cs@, i as int);
        if i == cs@.len() {
            assert(cs@.take(i as int) =~= cs@);
        }
    }
    total > limit
}

fn count_matches(cs: &Vec<char>, p: &Vec<char>) -> (n: usize)
    requires
        p@.len() > 0,
    ensures
        n == match_count(cs@, p@),
{
    let mut n: usize = 0;
    let mut i: usize = 0;
    proof {
        assert(cs@.skip(0) =~= cs@);
    }
    while i < cs.len() && cs.len() - i >= p.len()
        invariant
            i <= cs@.len(),
            p@.len() > 0,
            n + match_count(cs@.skip(i as int), p@) == match_count(cs@, p@),
            n <= i,
        decreases cs@.len() - i,
    {
        let ghost rest = cs@.skip(i as int);
        if occurs_at_exec(cs, p, i) {
            proof {
                assert(rest.take(p@.len() as int) =~= cs@.subrange(i as int, i + p@.len()));
                assert(rest.skip(p@.len() as int) =~= cs@.skip(i + p@.len()));
            }
            n = n + 1;
            i = i + p.len();
        } else {
            proof {
                assert(rest.take(p@.len() as int) =~= cs@.subrange(i as int, i + p@.len()));
                assert(rest.drop_first() =~= cs@.skip(i + 1));
            }
            i = i + 1;
        }
    }
    proof {
        assert(cs@.skip(i as int).len() < p@.len());
    }
    n
}

/// How to obtain the commit message for `diff`.
pub fn commit_plan(diff: &str) -> (r: CommitPlan)
    ensures
        utf8_len(diff@) > 4000 ==> (r matches CommitPlan::Fixed(m) && m@ == large_update_message(
            match_count(diff@, "diff --git"@),
        )),
        utf8_len(diff@) <= 4000 ==> (r matches CommitPlan::Ask(q) && q.system_prompt@ == commit_system_prompt()
            && q.user_content@ == "Generate a commit message for these changes. If you can't determine the changes clearly, respond with 'NEED_MORE_CONTEXT':\n\n"@ + diff@),
{
    let cs = chars_of(diff);
    if byte_len_over(&cs, 4000) {
        let p = chars_of("diff --git");
        proof {
            reveal_strlit("diff --git");
        }
        let files = count_matches(&cs, &p);
        let mut m = copy_str("feat: large update (");
        push_decimal(&mut m, files);
        let m = concat_str(
            m.as_str(),
            " files changed)\n\nLarge changeset detected. Please review the changes and provide a manual commit message.",
        );
        CommitPlan::Fixed(m)
    } else {
        CommitPlan::Ask(
            ChatRequest { system_prompt: copy_str("You are a helpful assistant that generates clear and concise git commit messages. You analyze git diffs and create conventional commit messages that follow best practices. Focus on describing WHAT changed and WHY, being specific but concise. Use the conventional commits format: type(scope): Detailed description\n\nTypes: feat, fix, docs, style, refactor, test, chore\nExample: feat(auth): add password reset functionality"), user_content: concat_str("Generate a commit message for these changes. If you can't determine the changes clearly, respond with 'NEED_MORE_CONTEXT':\n\n", diff) },
        )
    }
}

/// The commit message from the model's answer: the answer itself, unless
/// the model asked for more context.
pub fn commit_message_from_reply(answer: String) -> (m: String)
    ensures
        m@ == (if answer@ == "NEED_MORE_CONTEXT"@ {
            "Please provide a commit message. The changes are too complex for automatic generation."@
        } else {
            answer@
        }),
{
    if str_eq(answer.as_str(), "NEED_MORE_CONTEXT") {
        copy_str("Please provide a commit message. The changes are too complex for automatic generation.")
    } else {
        answer
    }
}

} // verus!
