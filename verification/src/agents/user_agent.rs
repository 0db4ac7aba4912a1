//! The user agent: a persistent todo list and the choice of agent for each item.

use vstd::prelude::*;

use crate::text::{copy_str, has_any_substring, lowercase_of, to_lowercase};
use crate::types::AgentConfig;

verus! {

/// Status of a todo item.
#[derive(Debug, Clone, Copy, PartialEq, Eq, Structural)]
pub enum TodoStatus {
    Pending,
    InProgress,
    Completed,
    Failed,
}

/// An item of the user's todo list; times are Unix timestamps in seconds.
#[derive(Debug)]
pub struct TodoItem {
    pub description: String,
    pub status: TodoStatus,
    pub assigned_agent: Option<String>,
    pub context: Option<String>,
    pub error: Option<String>,
    pub created_at: i64,
    pub updated_at: i64,
}

/// The user agent's todo list and when it last processed it.
pub struct UserAgent {
    pub config: AgentConfig,
    pub todos: Vec<TodoItem>,
    pub last_processed: Option<i64>,
    pub state_file: Option<String>,
}

pub open spec fn git_words() -> Seq<Seq<char>> {
    seq!["git"@, "commit"@, "branch"@, "repo"@]
}

pub open spec fn project_words() -> Seq<Seq<char>> {
    seq!["project"@, "init"@, "create"@, "setup"@, "new"@]
}

pub open spec fn writing_words() -> Seq<Seq<char>> {
    seq!["doc"@, "haiku"@, "poem"@, "write"@]
}

pub open spec fn browser_words() -> Seq<Seq<char>> {
    seq!["browser"@, "web"@, "page"@, "site"@]
}

pub open spec fn greeting_words() -> Seq<Seq<char>> {
    seq!["hello"@, "hi"@, "greet"@, "welcome"@]
}

/// Agent for a todo item, from words in its lower-cased description.
pub open spec fn spec_next_agent(description: Seq<char>) -> Option<Seq<char>> {
    let d = lowercase_of(description);
    if has_any_substring(d, git_words()) {
        Some("git"@)
    } else if has_any_substring(d, project_words()) {
        Some("project-init"@)
    } else if has_any_substring(d, writing_words()) {
        Some("haiku"@)
    } else if has_any_substring(d, browser_words()) {
        Some("browser"@)
    } else if has_any_substring(d, greeting_words()) {
        Some("greeter"@)
    } else {
        None
    }
}

impl UserAgent {
    /// A user agent with an empty todo list and no state file.
    pub fn new(config: AgentConfig) -> (u: Self)
        ensures
            u.config == config,
            u.todos@.len() == 0,
            u.last_processed is None,
            u.state_file is None,
    {
        UserAgent { config, todos: Vec::new(), last_processed: None, state_file: None }
    }

    /// Appends a pending, unassigned todo created at `now`.
    pub fn add_todo(&mut self, description: String, context: Option<String>, now: i64)
        ensures
            final(self).todos@ == old(self).todos@.push(
                TodoItem {
                    description,
                    status: TodoStatus::Pending,
                    assigned_agent: None,
                    context,
                    error: None,
                    created_at: now,
                    updated_at: now,
                },
            ),
            final(self).config == old(self).config,
            final(self).last_processed == old(self).last_processed,
            final(self).state_file == old(self).state_file,
    {
        self.todos.push(
            TodoItem {
                description,
                status: TodoStatus::Pending,
                assigned_agent: None,
                context,
                error: None,
                created_at: now,
                updated_at: now,
            },
        );
    }

    /// Index of the first pending todo.
    pub fn get_next_pending_todo(&self) -> (r: Option<usize>)
        ensures
            match r {
                Some(i) => i < self.todos@.len() && self.todos@[i as int].status == TodoStatus::Pending
                    && forall|k: int| 0 <= k < i ==> #[trigger] self.todos@[k].status != TodoStatus::Pending,
                None => forall|k: int| 0 <= k < self.todos@.len() ==> #[trigger] self.todos@[k].status
                    != TodoStatus::Pending,
            },
    {
        let mut i: usize = 0;
        while i < self.todos.len()
            invariant
                i <= self.todos@.len(),
                forall|k: int| 0 <= k < i ==> #[trigger] self.todos@[k].status != TodoStatus::Pending,
            decreases self.todos@.len() - i,
        {
            if self.todos[i].status == TodoStatus::Pending {
                return Some(i);
            }
            i += 1;
        }
        None
    }

    /// Marks the todo at `index` completed at `now`; no other change, and
    /// nothing happens when there is no such todo.
    pub fn mark_todo_completed(&mut self, index: usize, now: i64)
        ensures
            final(self).todos@.len() == old(self).todos@.len(),
            forall|k: int|
                0 <= k < old(self).todos@.len() && k != index ==> #[trigger] final(self).todos@[k]
                    == old(self).todos@[k],
            index < old(self).todos@.len() ==> final(self).todos@[index as int] == (TodoItem {
                status: TodoStatus::Completed,
                updated_at: now,
                ..old(self).todos@[index as int]
            }),
            final(self).config == old(self).config,
            final(self).last_processed == old(self).last_processed,
    {
        if index < self.todos.len() {
            let mut t = self.todos.remove(index);
            t.status = TodoStatus::Completed;
            t.updated_at = now;
            self.todos.insert(index, t);
        }
    }

    /// Marks the todo at `index` failed at `now`, with the given error; no
    /// other change, and nothing happens when there is no such todo.
    pub fn mark_todo_failed(&mut self, index: usize, error: Option<String>, now: i64)
        ensures
            final(self).todos@.len() == old(self).todos@.len(),
            forall|k: int|
                0 <= k < old(self).todos@.len() && k != index ==> #[trigger] final(self).todos@[k]
                    == old(self).todos@[k],
            index < old(self).todos@.len() ==> final(self).todos@[index as int] == (TodoItem {
                status: TodoStatus::Failed,
                error: error,
                updated_at: now,
                ..old(self).todos@[index as int]
            }),
            final(self).config == old(self).config,
            final(self).last_processed == old(self).last_processed,
    {
        if index < self.todos.len() {
            let mut t = self.todos.remove(index);
            t.status = TodoStatus::Failed;
            t.error = error;
            t.updated_at = now;
            self.todos.insert(index, t);
        }
    }

    /// When the list was last processed.
    pub fn get_last_processed(&self) -> (r: Option<i64>)
        ensures
            r == self.last_processed,
    {
        self.last_processed
    }

    /// Records that the list was processed at `now`.
    pub fn update_last_processed(&mut self, now: i64)
        ensures
            final(self).last_processed == Some(now),
            final(self).todos == old(self).todos,
            final(self).config == old(self).config,
    {
        self.last_processed = Some(now);
    }

    /// The agent that should handle a todo: git work, project set-up,
    /// writing, browsing or greeting, checked in that order.
    pub fn determine_next_agent(todo: &TodoItem) -> (r: Option<String>)
        ensures
            match r {
                Some(a) => spec_next_agent(todo.description@) == Some(a@),
                None => spec_next_agent(todo.description@) is None,
            },
    {
        let lower = to_lowercase(todo.description.as_str());
        let d = lower.as_str();
        let g = vec!["git", "commit", "branch", "repo"];
        let p = vec!["project", "init", "create", "setup", "new"];
        let w = vec!["doc", "haiku", "poem", "write"];
        let b = vec!["browser", "web", "page", "site"];
        let h = vec!["hello", "hi", "greet", "welcome"];
        proof {
            assert(crate::task_intelligence::features::literals(g@) =~= git_words());
            assert(crate::task_intelligence::features::literals(p@) =~= project_words());
            assert(crate::task_intelligence::features::literals(w@) =~= writing_words());
            assert(crate::task_intelligence::features::literals(b@) =~= browser_words());
            assert(crate::task_intelligence::features::literals(h@) =~= greeting_words());
        }
        if crate::text::contains_any(d, g.as_slice()) {
            Some(copy_str("git"))
        } else if crate::text::contains_any(d, p.as_slice()) {
            Some(copy_str("project-init"))
        } else if crate::text::contains_any(d, w.as_slice()) {
            Some(copy_str("haiku"))
        } else if crate::text::contains_any(d, b.as_slice()) {
            Some(copy_str("browser"))
        } else if crate::text::contains_any(d, h.as_slice()) {
            Some(copy_str("greeter"))
        } else {
            None
        }
    }
}

} // verus!
