//! How a task is enriched before it joins the todo list: a predicted
//! priority, an estimated duration and notes on its likely dependencies;
//! and the tasks made from a decomposition.

use vstd::prelude::*;

use crate::decimal::{decimal, digit_char, digit_of, push_decimal};
use crate::task_intelligence::decomposer::Subtask;
use crate::task_intelligence::dependency_rules::{dep_views, DepView, TaskDependency};
use crate::text::{concat_str, copy_str, join, join_strings, lemma_names_push, names, push_char};
use crate::types::{TaskPriority, TaskStatus, TodoTask};

verus! {

/// A confidence in parts per million, as a percentage with one decimal
/// (rounded half up).
pub open spec fn percent_text(ppm: nat) -> Seq<char> {
    let tenths = (ppm + 500) / 1000;
    decimal(tenths / 10) + "."@ + seq![digit_char((tenths % 10) as int)]
}

/// The note line for a dependency.
pub open spec fn dependency_line(d: DepView) -> Seq<char> {
    "Depends on: "@ + d.0 + " (confidence: "@ + percent_text(d.2 as nat) + "%)"@
}

/// The notes of a task after its dependencies are recorded: unchanged when
/// there are none; otherwise a "Dependencies:" section listing them, after
/// the existing notes.
pub open spec fn notes_with_dependencies(notes: Option<Seq<char>>, ds: Seq<DepView>) -> Option<Seq<char>> {
    if ds.len() == 0 {
        notes
    } else {
        let info = join(ds.map_values(|d: DepView| dependency_line(d)), "\n"@);
        match notes {
            Some(e) => Some(e + "\n\nDependencies:\n"@ + info),
            None => Some("Dependencies:\n"@ + info),
        }
    }
}

/// A percentage with one decimal.
fn percent_string(ppm: u32) -> (s: String)
    ensures
        s@ == percent_text(ppm as nat),
{
    let tenths: usize = ((ppm as u64 + 500) / 1000) as usize;
    let mut s = String::new();
    push_decimal(&mut s, tenths / 10);
    s.append(".");
    push_char(&mut s, digit_of(tenths % 10));
    s
}

/// The note line for a dependency.
fn dependency_note(d: &TaskDependency) -> (s: String)
    ensures
        s@ == dependency_line(d@),
{
    let a = concat_str("Depends on: ", d.prerequisite_description.as_str());
    let b = concat_str(a.as_str(), " (confidence: ");
    let p = percent_string(d.confidence_ppm);
    let c = concat_str(b.as_str(), p.as_str());
    concat_str(c.as_str(), "%)")
}

/// The notes with the dependencies recorded.
pub fn add_dependency_notes(notes: Option<String>, deps: &Vec<TaskDependency>) -> (r: Option<String>)
    ensures
        match notes_with_dependencies(
            match notes {
                Some(n) => Some(n@),
                None => None,
            },
            dep_views(deps@),
        ) {
            Some(t) => r matches Some(s) && s@ == t,
            None => r is None,
        },
{
    if deps.len() == 0 {
        proof {
            assert(dep_views(deps@).len() == 0);
        }
        return notes;
    }
    let ghost ds = dep_views(deps@);
    let mut lines: Vec<String> = Vec::new();
    let mut i: usize = 0;
    while i < deps.len()
        invariant
            i <= deps@.len(),
            ds == dep_views(deps@),
            names(lines@) == ds.take(i as int).map_values(|d: DepView| dependency_line(d)),
        decreases deps@.len() - i,
    {
        let ghost before = lines@;
        let line = dependency_note(&deps[i]);
        lines.push(line);
        proof {
            lemma_names_push(before, line);
            assert(ds[i as int] == deps@[i as int]@);
            assert(ds.take(i + 1).map_values(|d: DepView| dependency_line(d)) =~= ds.take(i as int).map_values(
                |d: DepView| dependency_line(d),
            ).push(dependency_line(ds[i as int])));
        }
        i += 1;
    }
    proof {
        assert(ds.take(deps@.len() as int) =~= ds);
    }
    let info = join_strings(&lines, "\n");
    match notes {
        Some(e) => {
            let a = concat_str(e.as_str(), "\n\nDependencies:\n");
            Some(concat_str(a.as_str(), info.as_str()))
        },
        None => Some(concat_str("Dependencies:\n", info.as_str())),
    }
}

/// A task enriched with what the intelligence service predicted: the
/// predicted priority replaces only the initial priority, an estimated
/// duration replaces the recorded one, and dependencies are added to the
/// notes. Everything else stays.
pub fn enrich_task(
    task: TodoTask,
    predicted_priority: Option<TaskPriority>,
    estimated_minutes: Option<i32>,
    deps: &Vec<TaskDependency>,
) -> (t: TodoTask)
    ensures
        t.priority == (match predicted_priority {
            Some(p) => if task.priority == TaskPriority::Inital {
                p
            } else {
                task.priority
            },
            None => task.priority,
        }),
        t.duration_minutes == (match estimated_minutes {
            Some(m) => Some(m),
            None => task.duration_minutes,
        }),
        match notes_with_dependencies(
            match task.notes {
                Some(n) => Some(n@),
                None => None,
            },
            dep_views(deps@),
        ) {
            Some(n) => t.notes matches Some(s) && s@ == n,
            None => t.notes is None,
        },
        t.id == task.id,
        t.description == task.description,
        t.enhanced_description == task.enhanced_description,
        t.project == task.project,
        t.source_agent == task.source_agent,
        t.target_agent == task.target_agent,
        t.status == task.status,
        t.created_at == task.created_at,
        t.completed_at == task.completed_at,
        t.due_date == task.due_date,
        t.ticket == task.ticket,
        t.last_modified == task.last_modified,
{
    let mut task = task;
    if let Some(p) = predicted_priority {
        if task.priority == TaskPriority::Inital {
            task.priority = p;
        }
    }
    if let Some(m) = estimated_minutes {
        task.duration_minutes = Some(m);
    }
    let notes = task.notes;
    task.notes = add_dependency_notes(notes, deps);
    task
}

/// The todo task made from a subtask of `parent`: it inherits the parent's
/// project, agents and ticket, is pending, and its notes say which subtask
/// of which task it is. `id` and `now` come from the caller.
pub fn subtask_todo(parent: &TodoTask, subtask: &Subtask, id: String, now: i64) -> (t: TodoTask)
    requires
        subtask.order < usize::MAX,
    ensures
        t.id == id,
        t.description == subtask.description,
        t.enhanced_description is None,
        t.priority == subtask.estimated_priority,
        t.project == parent.project,
        t.source_agent == parent.source_agent,
        t.target_agent == parent.target_agent,
        t.status == TaskStatus::Pending,
        t.created_at == now,
        t.completed_at is None,
        t.due_date is None,
        t.duration_minutes == subtask.estimated_duration_minutes,
        t.notes matches Some(n) && n@ == "Subtask "@ + decimal((subtask.order + 1) as nat) + " of: "@
            + parent.description@,
        t.ticket == parent.ticket,
        t.last_modified == Some(now),
{
    let mut n = copy_str("Subtask ");
    push_decimal(&mut n, subtask.order + 1);
    n.append(" of: ");
    n.append(parent.description.as_str());
    TodoTask {
        id,
        description: subtask.description.clone(),
        enhanced_description: None,
        priority: subtask.estimated_priority,
        project: parent.project.clone(),
        source_agent: parent.source_agent.clone(),
        target_agent: parent.target_agent.clone(),
        status: TaskStatus::Pending,
        created_at: now,
        completed_at: None,
        due_date: None,
        duration_minutes: subtask.estimated_duration_minutes,
        notes: Some(n),
        ticket: parent.ticket.clone(),
        last_modified: Some(now),
    }
}

} // verus!
