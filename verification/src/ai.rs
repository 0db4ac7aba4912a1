//! AI clients' settings, the prompts they send, and the reading of the
//! answers used to enhance todo items.

use vstd::prelude::*;

use crate::named_map::entries_map;
use crate::text::{chars_of, concat_str, copy_str, is_ws, lowercase_of, names, str_eq, string_from_chars, to_lowercase, is_whitespace_char};
use crate::types::TaskPriority;

verus! {

/// One chat message as (key, value) entries such as ("role", ..) and ("content", ..);
/// a later entry of the same key overrides an earlier one.
pub type ChatMessage = Vec<(String, String)>;

/// Client for the `goose` command-line assistant.
#[derive(Debug)]
pub struct GooseClient {
    pub model: String,
}

/// Client for a local model served by `ollama`.
#[derive(Debug)]
pub struct LocalAiClient {
    pub model: String,
}

/// Value of `key` in a chat message, if present.
fn lookup<'a>(m: &'a ChatMessage, key: &str) -> (r: Option<&'a String>)
    ensures
        match r {
            Some(v) => entries_map(m@).contains_key(key@) && *v == entries_map(m@)[key@],
            None => !entries_map(m@).contains_key(key@),
        },
{
    let mut i: usize = m.len();
    while i > 0
        invariant
            i <= m@.len(),
            forall|k: int| i <= k < m@.len() ==> (#[trigger] m@[k]).0@ != key@,
        decreases i,
    {
        if str_eq(m[i - 1].0.as_str(), key) {
            proof {
                lemma_lookup_last(m@, (i - 1) as int);
            }
            return Some(&m[i - 1].1);
        }
        i -= 1;
    }
    proof {
        lemma_lookup_absent(m@, key@);
    }
    None
}

proof fn lemma_lookup_last(s: Seq<(String, String)>, i: int)
    requires
        0 <= i < s.len(),
        forall|j: int| i < j < s.len() ==> (#[trigger] s[j]).0@ != s[i].0@,
    ensures
        entries_map(s).contains_key(s[i].0@),
        entries_map(s)[s[i].0@] == s[i].1,
    decreases s.len(),
{
    if i < s.len() - 1 {
        assert(s.last() == s[s.len() - 1]);
        lemma_lookup_last(s.drop_last(), i);
    }
}

proof fn lemma_lookup_absent(s: Seq<(String, String)>, k: Seq<char>)
    requires
        forall|i: int| 0 <= i < s.len() ==> (#[trigger] s[i]).0@ != k,
    ensures
        !entries_map(s).contains_key(k),
    decreases s.len(),
{
    if s.len() > 0 {
        lemma_lookup_absent(s.drop_last(), k);
    }
}

/// The section of a local-model prompt for one message: "### role:\ncontent\n\n",
/// or nothing when the message lacks a role or a content.
pub open spec fn local_section(m: Seq<(String, String)>) -> Seq<char> {
    let e = entries_map(m);
    if e.contains_key("role"@) && e.contains_key("content"@) {
        "### "@ + e["role"@]@ + ":\n"@ + e["content"@]@ + "\n\n"@
    } else {
        Seq::empty()
    }
}

/// The section of a goose prompt for one message: "role: content\n".
pub open spec fn goose_section(m: Seq<(String, String)>) -> Seq<char> {
    let e = entries_map(m);
    if e.contains_key("role"@) && e.contains_key("content"@) {
        e["role"@]@ + ": "@ + e["content"@]@ + "\n"@
    } else {
        Seq::empty()
    }
}

pub open spec fn local_sections(ms: Seq<ChatMessage>) -> Seq<char>
    decreases ms.len(),
{
    if ms.len() == 0 {
        Seq::empty()
    } else {
        local_sections(ms.drop_last()) + local_section(ms.last()@)
    }
}

pub open spec fn goose_sections(ms: Seq<ChatMessage>) -> Seq<char>
    decreases ms.len(),
{
    if ms.len() == 0 {
        Seq::empty()
    } else {
        goose_sections(ms.drop_last()) + goose_section(ms.last()@)
    }
}

/// Appends the pieces `a`, `b`, `c`, `d`, `e` to `s`.
fn append5(s: &mut String, a: &str, b: &str, c: &str, d: &str, e: &str)
    ensures
        final(s)@ == old(s)@ + a@ + b@ + c@ + d@ + e@,
{
    s.append(a);
    s.append(b);
    s.append(c);
    s.append(d);
    s.append(e);
}

impl GooseClient {
    /// A client for the default model, "qwen2.5-7b-instruct".
    pub fn new() -> (c: Self)
        ensures
            c.model@ == "qwen2.5-7b-instruct"@,
    {
        GooseClient { model: copy_str("qwen2.5-7b-instruct") }
    }

    /// The same client, for another model.
    pub fn with_model(self, model: String) -> (c: Self)
        ensures
            c.model == model,
    {
        GooseClient { model }
    }

    /// The prompt sent to goose: "System: <system>\n\n", then "role: content\n"
    /// for each message that has both.
    pub fn format_prompt(&self, system_prompt: &str, messages: &Vec<ChatMessage>) -> (p: String)
        ensures
            p@ == "System: "@ + system_prompt@ + "\n\n"@ + goose_sections(messages@),
    {
        let mut p = concat_str("System: ", system_prompt);
        p.append("\n\n");
        let ghost head = p@;
        let mut i: usize = 0;
        while i < messages.len()
            invariant
                i <= messages@.len(),
                p@ == head + goose_sections(messages@.take(i as int)),
            decreases messages@.len() - i,
        {
            let m = &messages[i];
            proof {
                assert(messages@.take(i + 1).drop_last() =~= messages@.take(i as int));
                assert(messages@.take(i + 1).last() == *m);
            }
            match (lookup(m, "role"), lookup(m, "content")) {
                (Some(role), Some(content)) => {
                    p.append(role.as_str());
                    p.append(": ");
                    p.append(content.as_str());
                    p.append("\n");
                    proof {
                        assert(p@ =~= head + goose_sections(messages@.take(i + 1)));
                    }
                },
                _ => {
                    proof {
                        assert(goose_section(m@) =~= Seq::<char>::empty());
                        assert(p@ =~= head + goose_sections(messages@.take(i + 1)));
                    }
                },
            }
            i += 1;
        }
        proof {
            assert(messages@.take(messages@.len() as int) =~= messages@);
        }
        p
    }
}

impl LocalAiClient {
    /// A client for the default model, "qwen2.5".
    pub fn new() -> (c: Self)
        ensures
            c.model@ == "qwen2.5"@,
    {
        LocalAiClient { model: copy_str("qwen2.5") }
    }

    /// The same client, for another model.
    pub fn with_model(self, model: String) -> (c: Self)
        ensures
            c.model == model,
    {
        LocalAiClient { model }
    }

    /// The prompt sent to the local model: "### System:\n<system>\n\n", then
    /// "### role:\ncontent\n\n" for each message that has both.
    pub fn format_prompt(&self, system_prompt: &str, messages: &Vec<ChatMessage>) -> (p: String)
        ensures
            p@ == "### System:\n"@ + system_prompt@ + "\n\n"@ + local_sections(messages@),
    {
        let mut p = concat_str("### System:\n", system_prompt);
        p.append("\n\n");
        let ghost head = p@;
        let mut i: usize = 0;
        while i < messages.len()
            invariant
                i <= messages@.len(),
                p@ == head + local_sections(messages@.take(i as int)),
            decreases messages@.len() - i,
        {
            let m = &messages[i];
            proof {
                assert(messages@.take(i + 1).drop_last() =~= messages@.take(i as int));
                assert(messages@.take(i + 1).last() == *m);
            }
            match (lookup(m, "role"), lookup(m, "content")) {
                (Some(role), Some(content)) => {
                    append5(&mut p, "### ", role.as_str(), ":\n", content.as_str(), "\n\n");
                    proof {
                        assert(p@ =~= head + local_sections(messages@.take(i + 1)));
                    }
                },
                _ => {
                    proof {
                        assert(local_section(m@) =~= Seq::<char>::empty());
                        assert(p@ =~= head + local_sections(messages@.take(i + 1)));
                    }
                },
            }
            i += 1;
        }
        proof {
            assert(messages@.take(messages@.len() as int) =~= messages@);
        }
        p
    }
}

/// The default AI client.
pub fn new_ai_client() -> (c: LocalAiClient)
    ensures
        c.model@ == "qwen2.5"@,
{
    LocalAiClient::new()
}

/// `s` without the leading characters that satisfy `p`.
pub open spec fn strip_start(s: Seq<char>, p: spec_fn(char) -> bool) -> Seq<char>
    decreases s.len(),
{
    if s.len() > 0 && p(s[0]) {
        strip_start(s.drop_first(), p)
    } else {
        s
    }
}

/// `s` without the trailing characters that satisfy `p`.
pub open spec fn strip_end(s: Seq<char>, p: spec_fn(char) -> bool) -> Seq<char>
    decreases s.len(),
{
    if s.len() > 0 && p(s.last()) {
        strip_end(s.drop_last(), p)
    } else {
        s
    }
}

/// `s` without the leading and trailing characters that satisfy `p`.
pub open spec fn strip(s: Seq<char>, p: spec_fn(char) -> bool) -> Seq<char> {
    strip_end(strip_start(s, p), p)
}

pub open spec fn ws_pred() -> spec_fn(char) -> bool {
    |c: char| is_ws(c)
}

pub open spec fn char_pred(x: char) -> spec_fn(char) -> bool {
    |c: char| c == x
}

proof fn lemma_strip_start_skip(s: Seq<char>, p: spec_fn(char) -> bool, i: int)
    requires
        0 <= i <= s.len(),
        forall|k: int| 0 <= k < i ==> p(#[trigger] s[k]),
    ensures
        strip_start(s, p) == strip_start(s.skip(i), p),
    decreases i,
{
    if i > 0 {
        assert(s.skip(1) =~= s.drop_first());
        assert(s.drop_first().skip(i - 1) =~= s.skip(i));
        lemma_strip_start_skip(s.drop_first(), p, i - 1);
    } else {
        assert(s.skip(0) =~= s);
    }
}

proof fn lemma_strip_end_take(s: Seq<char>, p: spec_fn(char) -> bool, j: int)
    requires
        0 <= j <= s.len(),
        forall|k: int| j <= k < s.len() ==> p(#[trigger] s[k]),
    ensures
        strip_end(s, p) == strip_end(s.take(j), p),
    decreases s.len() - j,
{
    if j < s.len() {
        assert(s.drop_last().take(j) =~= s.take(j));
        lemma_strip_end_take(s.drop_last(), p, j);
    } else {
        assert(s.take(j) =~= s);
    }
}

/// Whether `c` is stripped: whitespace when `white`, else `x`.
fn strip_hit(c: char, white: bool, x: char) -> (r: bool)
    ensures
        r == (if white { ws_pred() } else { char_pred(x) })(c),
{
    if white {
        is_whitespace_char(c)
    } else {
        c == x
    }
}

/// `cs` without leading and trailing whitespace (`white` true) or without
/// leading and trailing `x` (`white` false).
fn strip_exec(cs: &Vec<char>, white: bool, x: char) -> (r: Vec<char>)
    ensures
        r@ == strip(cs@, if white { ws_pred() } else { char_pred(x) }),
{
    let ghost p = if white { ws_pred() } else { char_pred(x) };
    let n = cs.len();
    let mut a: usize = 0;
    while a < n && strip_hit(cs[a], white, x)
        invariant
            a <= n,
            n == cs@.len(),
            p == (if white { ws_pred() } else { char_pred(x) }),
            forall|k: int| 0 <= k < a ==> p(#[trigger] cs@[k]),
        decreases n - a,
    {
        a += 1;
    }
    let mut b: usize = n;
    while b > a && strip_hit(cs[b - 1], white, x)
        invariant
            a <= b <= n,
            n == cs@.len(),
            p == (if white { ws_pred() } else { char_pred(x) }),
            forall|k: int| b <= k < n ==> p(#[trigger] cs@[k]),
        decreases b - a,
    {
        b -= 1;
    }
    let mut r: Vec<char> = Vec::new();
    let mut k: usize = a;
    while k < b
        invariant
            a <= k <= b,
            b <= n,
            n == cs@.len(),
            r@ == cs@.subrange(a as int, k as int),
        decreases b - k,
    {
        r.push(cs[k]);
        k += 1;
        proof {
            assert(r@ =~= cs@.subrange(a as int, k as int));
        }
    }
    proof {
        lemma_strip_start_skip(cs@, p, a as int);
        let t = cs@.skip(a as int);
        if a < n {
            assert(!p(t[0]));
        }
        assert(strip_start(t, p) == t);
        assert forall|k2: int| b - a <= k2 < t.len() implies p(#[trigger] t[k2]) by {
            assert(t[k2] == cs@[a + k2]);
        }
        lemma_strip_end_take(t, p, b - a);
        let u = t.take(b - a);
        assert(u =~= cs@.subrange(a as int, b as int));
        if b > a {
            assert(u.last() == cs@[b - 1]);
            assert(!p(u.last()));
        }
        assert(strip_end(u, p) == u);
    }
    r
}

/// The text of an answer: whitespace trimmed.
pub fn trim(s: &str) -> (r: String)
    ensures
        r@ == strip(s@, ws_pred()),
{
    let cs = chars_of(s);
    let t = strip_exec(&cs, true, ' ');
    string_from_chars(&t)
}

/// Priority named by the classifier's answer: the trimmed, lower-cased answer
/// "inital", "high", "medium" or "low"; anything else counts as medium.
pub open spec fn spec_parse_priority(answer: Seq<char>) -> TaskPriority {
    let a = lowercase_of(strip(answer, ws_pred()));
    if a == "inital"@ {
        TaskPriority::Inital
    } else if a == "high"@ {
        TaskPriority::High
    } else if a == "medium"@ {
        TaskPriority::Medium
    } else if a == "low"@ {
        TaskPriority::Low
    } else {
        TaskPriority::Medium
    }
}

/// Reads the priority classifier's answer.
pub fn parse_priority(answer: &str) -> (p: TaskPriority)
    ensures
        p == spec_parse_priority(answer@),
{
    let t = trim(answer);
    let l = to_lowercase(t.as_str());
    let a = l.as_str();
    if str_eq(a, "inital") {
        TaskPriority::Inital
    } else if str_eq(a, "high") {
        TaskPriority::High
    } else if str_eq(a, "medium") {
        TaskPriority::Medium
    } else if str_eq(a, "low") {
        TaskPriority::Low
    } else {
        TaskPriority::Medium
    }
}

/// The projects a task can belong to.
pub open spec fn valid_projects() -> Seq<Seq<char>> {
    seq![
        "madness_interactive"@,
        "regressiontestkit"@,
        "omnispindle"@,
        "todomill_projectorium"@,
        "swarmonomicon"@,
        "hammerspoon"@,
        "lab_management"@,
        "cogwyrm"@,
        "docker_implementation"@,
        "documentation"@,
        "eventghost"@,
        "hammerghost"@,
        "quality_assurance"@,
        "spindlewrit"@,
        "inventorium"@,
    ]
}

/// The project answer cleaned up: trimmed, stripped of surrounding double
/// then single quotes, lower-cased.
pub open spec fn cleaned_project(answer: Seq<char>) -> Seq<char> {
    lowercase_of(strip(strip(strip(answer, ws_pred()), char_pred('"')), char_pred('\'')))
}

/// Project named by the classifier's answer: the cleaned answer when it is
/// a known project, "madness_interactive" otherwise.
pub open spec fn spec_verify_project(answer: Seq<char>) -> Seq<char> {
    let p = cleaned_project(answer);
    if valid_projects().contains(p) {
        p
    } else {
        "madness_interactive"@
    }
}

/// Reads the project classifier's answer.
pub fn verify_project(answer: &str) -> (p: String)
    ensures
        p@ == spec_verify_project(answer@),
{
    let c0 = chars_of(answer);
    let c1 = strip_exec(&c0, true, ' ');
    let c2 = strip_exec(&c1, false, '"');
    let c3 = strip_exec(&c2, false, '\'');
    let s3 = string_from_chars(&c3);
    let lower = to_lowercase(s3.as_str());
    let valid = vec![
        "madness_interactive",
        "regressiontestkit",
        "omnispindle",
        "todomill_projectorium",
        "swarmonomicon",
        "hammerspoon",
        "lab_management",
        "cogwyrm",
        "docker_implementation",
        "documentation",
        "eventghost",
        "hammerghost",
        "quality_assurance",
        "spindlewrit",
        "inventorium",
    ];
    let ghost vs = crate::task_intelligence::features::literals(valid@);
    proof {
        assert(vs =~= valid_projects());
    }
    let mut i: usize = 0;
    while i < valid.len()
        invariant
            i <= valid@.len(),
            vs == crate::task_intelligence::features::literals(valid@),
            vs == valid_projects(),
            lower@ == cleaned_project(answer@),
            forall|k: int| 0 <= k < i ==> #[trigger] vs[k] != lower@,
        decreases valid@.len() - i,
    {
        if str_eq(valid[i], lower.as_str()) {
            proof {
                assert(vs[i as int] == lower@);
            }
            return lower;
        }
        i += 1;
    }
    proof {
        assert(!vs.contains(lower@));
    }
    copy_str("madness_interactive")
}


/// The projects the project agent knows: those of the classifier and the
/// Node-RED file template package.
pub open spec fn project_agent_projects_spec() -> Seq<Seq<char>> {
    seq![
        "madness_interactive"@,
        "regressiontestkit"@,
        "omnispindle"@,
        "todomill_projectorium"@,
        "swarmonomicon"@,
        "hammerspoon"@,
        "lab_management"@,
        "cogwyrm"@,
        "docker_implementation"@,
        "documentation"@,
        "eventghost"@,
        "hammerghost"@,
        "quality_assurance"@,
        "spindlewrit"@,
        "node_red_contrib_file_template"@,
        "inventorium"@,
    ]
}

/// The projects the project agent knows.
pub fn project_agent_projects() -> (v: Vec<String>)
    ensures
        names(v@) == project_agent_projects_spec(),
{
    let v = vec![
        copy_str("madness_interactive"),
        copy_str("regressiontestkit"),
        copy_str("omnispindle"),
        copy_str("todomill_projectorium"),
        copy_str("swarmonomicon"),
        copy_str("hammerspoon"),
        copy_str("lab_management"),
        copy_str("cogwyrm"),
        copy_str("docker_implementation"),
        copy_str("documentation"),
        copy_str("eventghost"),
        copy_str("hammerghost"),
        copy_str("quality_assurance"),
        copy_str("spindlewrit"),
        copy_str("node_red_contrib_file_template"),
        copy_str("inventorium"),
    ];
    proof {
        assert(names(v@) =~= project_agent_projects_spec());
    }
    v
}

/// The project a classifier answer names among `valid`: the cleaned answer
/// when it is one of them, "madness_interactive" otherwise.
pub fn verified_project_in(answer: &str, valid: &Vec<String>) -> (p: String)
    ensures
        p@ == (if names(valid@).contains(cleaned_project(answer@)) {
            cleaned_project(answer@)
        } else {
            "madness_interactive"@
        }),
{
    let c0 = chars_of(answer);
    let c1 = strip_exec(&c0, true, ' ');
    let c2 = strip_exec(&c1, false, '"');
    let c3 = strip_exec(&c2, false, '\'');
    let s3 = string_from_chars(&c3);
    let lower = to_lowercase(s3.as_str());
    let mut i: usize = 0;
    while i < valid.len()
        invariant
            i <= valid@.len(),
            lower@ == cleaned_project(answer@),
            forall|k: int| 0 <= k < i ==> #[trigger] valid@[k]@ != lower@,
        decreases valid@.len() - i,
    {
        if str_eq(valid[i].as_str(), lower.as_str()) {
            proof {
                assert(names(valid@)[i as int] == lower@);
            }
            return lower;
        }
        i += 1;
    }
    proof {
        if names(valid@).contains(lower@) {
            let k = choose|k: int| 0 <= k < names(valid@).len() && names(valid@)[k] == lower@;
            assert(valid@[k]@ == lower@);
        }
    }
    copy_str("madness_interactive")
}


/// A request to the chat model: its instructions and the content of the one
/// user message it is sent.
#[derive(Debug)]
pub struct ChatRequest {
    pub system_prompt: String,
    pub user_content: String,
}

/// Instructions for enhancing a task description.
pub open spec fn enhance_system_prompt() -> Seq<char> {
    "You are a task enhancement and planning system. Imagine you are creating a prompt for an ai agent to complete the Task given:\n1. Adding specific technical steps to complete the task\n2. Explaining impact and scope, along with file locations and dependencies\n3. Including relevant components/systems that are involved\n4. Break up tasks into smaller steps to control context length\n5. Keeping it concise\n6. Use markdown formatting for the output\n\nOutput ONLY the enhanced description, no other text."@
}

/// Instructions for classifying a task's priority.
pub open spec fn priority_system_prompt() -> Seq<char> {
    "You are a task priority classifier. Analyze the task and determine its priority level.\nOutput ONLY one of these priority levels, with no other text: \"inital\", \"high\", \"medium\", or \"low\".\nUse these guidelines:\n- Inital: Tasks that are new and not yet able to be compared to other tasks\n- High: Important tasks that significantly impact functionality or performance\n- Medium: Standard development work or minor improvements\n- Low: Nice to have features, documentation, or cosmetic issues"@
}

/// Instructions for classifying a task's project, when enhancing a task.
pub open spec fn project_system_prompt() -> Seq<char> {
    "You are a project classifier. Your task is to determine which project a given task belongs to. \nYour output should be ONLY the project name, nothing else. Options are: \n\"madness_interactive - Parent Project of chaos\", \n\"regressiontestkit - Parent repo for Work projects. Balena device testing in python\", \n\"omnispindle - MCP server for Managing AI todo list in python\", \n\"Todomill_projectorium - Todo list management Dashbaord on Node-red\",\n\"swarmonomicon - Todo worker and generation project in rust\", \n\"hammerspoon - MacOS automation and workspace management\", \n\"lab_management - Lab management general project\", \n\"cogwyrm - Mobile app for Tasker infacing with madness network\", \n\"docker_implementation - Tasks todo with docker and deployment\", \n\"documentation - Documentation for all projects\", \n\"eventghost - Event handling and monitoring automation. Being rewritten in Rust\", \n\"hammerghost - MacOS automation menu in hammerspoon based on eventghost\",  \n\"quality_assurance - Quality assurance tasks\",\n\"spindlewrit - Writing and documentation project\",\n\"inventorium - Madnessinteractice.cc website and Todo Dashboard - React\",\n\nIf you're unsure, default to \"madness_interactive\"."@
}

/// Instructions of the project agent's classifier.
pub open spec fn project_agent_system_prompt() -> Seq<char> {
    "You are a project classifier. Your task is to determine which project a given task belongs to. \nYour output should be ONLY the project name, nothing else. Options are: \n\"madness_interactive - Parent Project of chaos\", \n\"regressiontestkit - Parent repo for Work projects. Balena device testing in python\", \n\"omnispindle - MCP server for Managing AI todo list in python\", \n\"todomill_projectorium - Todo list management Dashboard on Node-red\",\n\"swarmonomicon - Todo worker and generation project in rust\", \n\"hammerspoon - MacOS automation and workspace management\", \n\"lab_management - Lab management general project\", \n\"cogwyrm - Mobile app for Tasker interfacing with madness network\", \n\"docker_implementation - Tasks todo with docker and deployment\", \n\"documentation - Documentation for all projects\", \n\"eventghost - Event handling and monitoring automation. Being rewritten in Rust\", \n\"hammerghost - MacOS automation menu in hammerspoon based on eventghost\",  \n\"quality_assurance - Quality assurance tasks\",\n\"spindlewrit - Writing and documentation project\",\n\"node_red_contrib_file_template - Node-red contrib for file management replacement of the HTML template node\",\n\"inventorium - Madnessinteractive.cc website and Todo Dashboard - React\",\n\nIf you're unsure, default to \"madness_interactive\"."@
}

/// The three requests that enhance a task description, in the order they
/// are sent: the enhancement, then the priority, then the project.
pub fn enhancement_requests(description: &str) -> (r: Vec<ChatRequest>)
    ensures
        r@.len() == 3,
        r@[0].system_prompt@ == enhance_system_prompt(),
        r@[0].user_content@ == "Enhance this "@ + "task: "@ + description@,
        r@[1].system_prompt@ == priority_system_prompt(),
        r@[1].user_content@ == "Classify priority: "@ + description@,
        r@[2].system_prompt@ == project_system_prompt(),
        r@[2].user_content@ == "Which project does this "@ + "task belong to? "@ + description@,
{
    let mut r: Vec<ChatRequest> = Vec::new();
    r.push(
        ChatRequest {
            system_prompt: copy_str("You are a task enhancement and planning system. Imagine you are creating a prompt for an ai agent to complete the Task given:\n1. Adding specific technical steps to complete the task\n2. Explaining impact and scope, along with file locations and dependencies\n3. Including relevant components/systems that are involved\n4. Break up tasks into smaller steps to control context length\n5. Keeping it concise\n6. Use markdown formatting for the output\n\nOutput ONLY the enhanced description, no other text."),
            user_content: concat_str(concat_str("Enhance this ", "task: ").as_str(), description),
        },
    );
    r.push(
        ChatRequest {
            system_prompt: copy_str("You are a task priority classifier. Analyze the task and determine its priority level.\nOutput ONLY one of these priority levels, with no other text: \"inital\", \"high\", \"medium\", or \"low\".\nUse these guidelines:\n- Inital: Tasks that are new and not yet able to be compared to other tasks\n- High: Important tasks that significantly impact functionality or performance\n- Medium: Standard development work or minor improvements\n- Low: Nice to have features, documentation, or cosmetic issues"),
            user_content: concat_str("Classify priority: ", description),
        },
    );
    r.push(
        ChatRequest {
            system_prompt: copy_str("You are a project classifier. Your task is to determine which project a given task belongs to. \nYour output should be ONLY the project name, nothing else. Options are: \n\"madness_interactive - Parent Project of chaos\", \n\"regressiontestkit - Parent repo for Work projects. Balena device testing in python\", \n\"omnispindle - MCP server for Managing AI todo list in python\", \n\"Todomill_projectorium - Todo list management Dashbaord on Node-red\",\n\"swarmonomicon - Todo worker and generation project in rust\", \n\"hammerspoon - MacOS automation and workspace management\", \n\"lab_management - Lab management general project\", \n\"cogwyrm - Mobile app for Tasker infacing with madness network\", \n\"docker_implementation - Tasks todo with docker and deployment\", \n\"documentation - Documentation for all projects\", \n\"eventghost - Event handling and monitoring automation. Being rewritten in Rust\", \n\"hammerghost - MacOS automation menu in hammerspoon based on eventghost\",  \n\"quality_assurance - Quality assurance tasks\",\n\"spindlewrit - Writing and documentation project\",\n\"inventorium - Madnessinteractice.cc website and Todo Dashboard - React\",\n\nIf you're unsure, default to \"madness_interactive\"."),
            user_content: concat_str(concat_str("Which project does this ", "task belong to? ").as_str(), description),
        },
    );
    r
}

/// The enhanced task from the three answers, in the order of
/// `enhancement_requests`: the enhanced description as answered, the
/// priority read from the second answer, the project read from the third.
pub fn enhancement_result(enhanced: String, priority_answer: &str, project_answer: &str) -> (r: (
    String,
    TaskPriority,
    String,
))
    ensures
        r.0 == enhanced,
        r.1 == spec_parse_priority(priority_answer@),
        r.2@ == spec_verify_project(project_answer@),
{
    (enhanced, parse_priority(priority_answer), verify_project(project_answer))
}

/// The project agent's request to classify a task description.
pub fn project_classification_request(description: &str) -> (r: ChatRequest)
    ensures
        r.system_prompt@ == project_agent_system_prompt(),
        r.user_content@ == "Which project does this "@ + "task belong to? "@ + description@,
{
    ChatRequest {
        system_prompt: copy_str("You are a project classifier. Your task is to determine which project a given task belongs to. \nYour output should be ONLY the project name, nothing else. Options are: \n\"madness_interactive - Parent Project of chaos\", \n\"regressiontestkit - Parent repo for Work projects. Balena device testing in python\", \n\"omnispindle - MCP server for Managing AI todo list in python\", \n\"todomill_projectorium - Todo list management Dashboard on Node-red\",\n\"swarmonomicon - Todo worker and generation project in rust\", \n\"hammerspoon - MacOS automation and workspace management\", \n\"lab_management - Lab management general project\", \n\"cogwyrm - Mobile app for Tasker interfacing with madness network\", \n\"docker_implementation - Tasks todo with docker and deployment\", \n\"documentation - Documentation for all projects\", \n\"eventghost - Event handling and monitoring automation. Being rewritten in Rust\", \n\"hammerghost - MacOS automation menu in hammerspoon based on eventghost\",  \n\"quality_assurance - Quality assurance tasks\",\n\"spindlewrit - Writing and documentation project\",\n\"node_red_contrib_file_template - Node-red contrib for file management replacement of the HTML template node\",\n\"inventorium - Madnessinteractive.cc website and Todo Dashboard - React\",\n\nIf you're unsure, default to \"madness_interactive\"."),
        user_content: concat_str(concat_str("Which project does this ", "task belong to? ").as_str(), description),
    }
}


/// Each of the four words the classifier is told to answer with, trimmed
/// and in any case, names its own priority, and the four priorities are
/// distinct.
pub proof fn lemma_priority_words(a: Seq<char>)
    ensures
        lowercase_of(strip(a, ws_pred())) == "inital"@ ==> spec_parse_priority(a) == TaskPriority::Inital,
        lowercase_of(strip(a, ws_pred())) == "high"@ ==> spec_parse_priority(a) == TaskPriority::High,
        lowercase_of(strip(a, ws_pred())) == "medium"@ ==> spec_parse_priority(a) == TaskPriority::Medium,
        lowercase_of(strip(a, ws_pred())) == "low"@ ==> spec_parse_priority(a) == TaskPriority::Low,
        !priority_word(lowercase_of(strip(a, ws_pred()))) ==> spec_parse_priority(a) == TaskPriority::Medium,
{
    reveal_strlit("inital");
    reveal_strlit("high");
    reveal_strlit("medium");
    reveal_strlit("low");
    assert("inital"@.len() == 6 && "high"@.len() == 4 && "medium"@.len() == 6 && "low"@.len() == 3);
    assert("inital"@[0] == 'i' && "medium"@[0] == 'm');
}

/// Answers that name different priority words get different priorities.
pub proof fn lemma_priority_words_distinct(a: Seq<char>, b: Seq<char>)
    requires
        priority_word(lowercase_of(strip(a, ws_pred()))),
        priority_word(lowercase_of(strip(b, ws_pred()))),
        lowercase_of(strip(a, ws_pred())) != lowercase_of(strip(b, ws_pred())),
    ensures
        spec_parse_priority(a) != spec_parse_priority(b),
{
    lemma_priority_words(a);
    lemma_priority_words(b);
}

/// One of the four words the classifier is told to answer with.
pub open spec fn priority_word(w: Seq<char>) -> bool {
    w == "inital"@ || w == "high"@ || w == "medium"@ || w == "low"@
}

} // verus!
