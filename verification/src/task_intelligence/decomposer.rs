//! Breaking a task into ordered subtasks, following decomposition patterns.

use vstd::prelude::*;

use crate::task_intelligence::features::{keywords_of, ComplexityBand, TaskFeatures};
use crate::text::{
    concat_str, copy_str, has_any_substring, is_uppercase_char, lowercase_of, names,
    split_whitespace, to_lowercase, uppercase, words, contains_any, occurs_at, has_substring, all_ascii,
    ascii_lowercase,
};
use crate::types::{TaskPriority, TodoTask};

verus! {

/// A subtask produced by decomposition.
#[derive(Debug)]
pub struct Subtask {
    pub description: String,
    pub estimated_priority: TaskPriority,
    pub estimated_duration_minutes: Option<i32>,
    /// Indices of the subtasks this one depends on.
    pub depends_on: Vec<usize>,
    /// Suggested execution order.
    pub order: usize,
}

/// Description, priority, duration, dependencies and order of a subtask.
pub type SubtaskView = (Seq<char>, TaskPriority, Option<i32>, Seq<usize>, usize);

impl View for Subtask {
    type V = SubtaskView;

    open spec fn view(&self) -> SubtaskView {
        (
            self.description@,
            self.estimated_priority,
            self.estimated_duration_minutes,
            self.depends_on@,
            self.order,
        )
    }
}

pub open spec fn subtask_views(v: Seq<Subtask>) -> Seq<SubtaskView> {
    v.map_values(|s: Subtask| s@)
}

/// Every subtask sits at the position given by its order and depends only on
/// earlier subtasks, so the dependencies are acyclic and the order respects them.
pub open spec fn is_well_ordered(p: Seq<SubtaskView>) -> bool {
    forall|i: int|
        0 <= i < p.len() ==> (#[trigger] p[i]).4 == i && forall|k: int|
            0 <= k < p[i].3.len() ==> (p[i].3[k] as int) < i
}

/// Strategy for task decomposition.
#[derive(Debug, Clone, Copy, PartialEq, Eq, Structural)]
pub enum DecompositionStrategy {
    /// By implementation phases (design, implement, test, document).
    ByPhase,
    /// By components named in the description.
    ByComponent,
    /// By feature increments (MVP, enhancement, polish).
    ByIncrement,
    /// By technical layers (data, backend, frontend, testing).
    ByLayer,
    /// No decomposition.
    NoDecomposition,
}

/// A decomposition pattern: keywords that select it and how it splits a task.
#[derive(Debug)]
pub struct DecompositionPattern {
    pub pattern_name: String,
    pub keywords: Vec<String>,
    pub strategy: DecompositionStrategy,
    pub typical_subtask_count: usize,
    pub example_subtasks: Vec<String>,
    /// Historical success rate, in percent.
    pub success_rate_percent: u32,
}

/// Name, keywords, strategy, subtask count, examples and success rate of a pattern.
pub type PatternView = (Seq<char>, Seq<Seq<char>>, DecompositionStrategy, usize, Seq<Seq<char>>, u32);

impl View for DecompositionPattern {
    type V = PatternView;

    open spec fn view(&self) -> PatternView {
        (
            self.pattern_name@,
            names(self.keywords@),
            self.strategy,
            self.typical_subtask_count,
            names(self.example_subtasks@),
            self.success_rate_percent,
        )
    }
}

pub open spec fn pattern_views(v: Seq<DecompositionPattern>) -> Seq<PatternView> {
    v.map_values(|p: DecompositionPattern| p@)
}

/// The built-in patterns.
pub open spec fn default_pattern_views() -> Seq<PatternView> {
    seq![
        (
            "Feature Implementation"@,
            seq!["implement"@, "feature"@, "add"@],
            DecompositionStrategy::ByPhase,
            4usize,
            seq![
                "Design feature architecture"@,
                "Implement core functionality"@,
                "Add tests"@,
                "Update documentation"@,
            ],
            85u32,
        ),
        (
            "Bug Fix"@,
            seq!["fix"@, "bug"@, "issue"@],
            DecompositionStrategy::ByPhase,
            3usize,
            seq!["Reproduce and diagnose bug"@, "Implement fix"@, "Verify fix with tests"@],
            90u32,
        ),
        (
            "Refactoring"@,
            seq!["refactor"@, "restructure"@, "improve"@],
            DecompositionStrategy::ByComponent,
            4usize,
            seq![
                "Identify refactoring scope"@,
                "Create tests for existing behavior"@,
                "Perform refactoring"@,
                "Verify all tests pass"@,
            ],
            80u32,
        ),
        (
            "Integration"@,
            seq!["integrate"@, "connect"@, "api"@],
            DecompositionStrategy::ByLayer,
            5usize,
            seq![
                "Design integration interface"@,
                "Implement API client"@,
                "Add error handling"@,
                "Write integration tests"@,
                "Update documentation"@,
            ],
            75u32,
        ),
    ]
}

/// Number of the pattern keywords `pk` that are among the task keywords `tk`.
pub open spec fn matched_count(pk: Seq<Seq<char>>, tk: Seq<Seq<char>>) -> nat
    decreases pk.len(),
{
    if pk.len() == 0 {
        0
    } else {
        matched_count(pk.drop_last(), tk) + if tk.contains(pk.last()) {
            1nat
        } else {
            0nat
        }
    }
}

/// Score of a pattern for a task, in thousandths: half a point per matching
/// keyword plus three tenths of the success rate.
pub open spec fn pattern_score(p: PatternView, tk: Seq<Seq<char>>) -> int {
    500 * matched_count(p.1, tk) + 3 * p.5
}

/// `k` is the first pattern with the highest score.
pub open spec fn is_first_best(pats: Seq<PatternView>, tk: Seq<Seq<char>>, k: int) -> bool {
    &&& 0 <= k < pats.len()
    &&& forall|j: int| 0 <= j < pats.len() ==> pattern_score(#[trigger] pats[j], tk) <= pattern_score(pats[k], tk)
    &&& forall|j: int| 0 <= j < k ==> pattern_score(#[trigger] pats[j], tk) < pattern_score(pats[k], tk)
}

/// `s` prefixed by `p`.
pub open spec fn pre(p: Seq<char>, s: Seq<char>) -> Seq<char> {
    p + s
}

pub open spec fn phase_plan(desc: Seq<char>, prio: TaskPriority, feature: bool) -> Seq<SubtaskView> {
    seq![
        (pre("Design and plan: "@, desc), prio, Some(30i32), Seq::<usize>::empty(), 0usize),
        (pre("Implement: "@, desc), prio, Some(120i32), seq![0usize], 1usize),
        (pre("Test: "@, desc), prio, Some(60i32), seq![1usize], 2usize),
    ] + if feature {
        seq![(pre("Document: "@, desc), TaskPriority::Low, Some(30i32), seq![2usize], 3usize)]
    } else {
        Seq::empty()
    }
}

/// Words of the description that start with an upper-case letter, or
/// "core" and "integration" when there are none.
pub open spec fn components_of(desc: Seq<char>) -> Seq<Seq<char>> {
    let c = words(desc).filter(|w: Seq<char>| w.len() > 0 && uppercase(w[0]));
    if c.len() == 0 {
        seq!["core"@, "integration"@]
    } else {
        c
    }
}

pub open spec fn component_step(desc: Seq<char>, prio: TaskPriority, comps: Seq<Seq<char>>, i: int) -> SubtaskView {
    (
        "Work on "@ + comps[i] + " component: "@ + desc,
        prio,
        Some(90i32),
        if i > 0 { seq![(i - 1) as usize] } else { Seq::empty() },
        i as usize,
    )
}

pub open spec fn component_plan(desc: Seq<char>, prio: TaskPriority, comps: Seq<Seq<char>>) -> Seq<SubtaskView> {
    Seq::new(comps.len(), |i: int| component_step(desc, prio, comps, i)) + if comps.len() > 1 {
        seq![
            (
                pre("Integrate all components: "@, desc),
                prio,
                Some(60i32),
                Seq::new(comps.len(), |i: int| i as usize),
                comps.len() as usize,
            ),
        ]
    } else {
        Seq::empty()
    }
}

pub open spec fn increment_plan(desc: Seq<char>, prio: TaskPriority) -> Seq<SubtaskView> {
    seq![
        (pre("MVP: "@, desc), prio, Some(180i32), Seq::<usize>::empty(), 0usize),
        (pre("Enhance: "@, desc), TaskPriority::Medium, Some(120i32), seq![0usize], 1usize),
        (pre("Polish and optimize: "@, desc), TaskPriority::Low, Some(60i32), seq![1usize], 2usize),
    ]
}

pub open spec fn layer_plan(desc: Seq<char>, prio: TaskPriority) -> Seq<SubtaskView> {
    seq![
        (pre("Database/Data layer: "@, desc), prio, Some(90i32), Seq::<usize>::empty(), 0usize),
        (pre("Backend/API layer: "@, desc), prio, Some(120i32), seq![0usize], 1usize),
        (pre("Frontend/UI layer: "@, desc), prio, Some(90i32), seq![1usize], 2usize),
        (pre("End-to-end testing: "@, desc), prio, Some(60i32), seq![0usize, 1usize, 2usize], 3usize),
    ]
}

/// The subtasks that `strategy` produces for a task.
pub open spec fn plan_for(
    strategy: DecompositionStrategy,
    desc: Seq<char>,
    prio: TaskPriority,
    feature: bool,
) -> Seq<SubtaskView> {
    match strategy {
        DecompositionStrategy::ByPhase => phase_plan(desc, prio, feature),
        DecompositionStrategy::ByComponent => component_plan(desc, prio, components_of(desc)),
        DecompositionStrategy::ByIncrement => increment_plan(desc, prio),
        DecompositionStrategy::ByLayer => layer_plan(desc, prio),
        DecompositionStrategy::NoDecomposition => Seq::empty(),
    }
}

pub open spec fn decomposition_words() -> Seq<Seq<char>> {
    seq![
        "implement"@,
        "integrate"@,
        "refactor"@,
        "migrate"@,
        "system"@,
        "architecture"@,
        "multiple"@,
        "complete"@,
        "full"@,
    ]
}

/// Whether a task is worth decomposing: not when it has fewer than five
/// words; yes when its complexity is above 0.6; otherwise when it names one
/// of the decomposition words.
pub open spec fn spec_should_decompose(desc: Seq<char>, band: ComplexityBand) -> bool {
    if words(desc).len() < 5 {
        false
    } else if band != ComplexityBand::Low {
        true
    } else {
        has_any_substring(lowercase_of(desc), decomposition_words())
    }
}

fn make_subtask(
    prefix: &str,
    desc: &str,
    prio: TaskPriority,
    minutes: i32,
    depends_on: Vec<usize>,
    order: usize,
) -> (s: Subtask)
    ensures
        s@ == (prefix@ + desc@, prio, Some(minutes), depends_on@, order),
{
    Subtask {
        description: concat_str(prefix, desc),
        estimated_priority: prio,
        estimated_duration_minutes: Some(minutes),
        depends_on,
        order,
    }
}

proof fn lemma_push_views(v: Seq<Subtask>, s: Subtask)
    ensures
        subtask_views(v.push(s)) == subtask_views(v).push(s@),
{
    assert(subtask_views(v.push(s)) =~= subtask_views(v).push(s@));
}

/// Subtasks by implementation phase.
pub fn decompose_by_phase(task: &TodoTask, features: &TaskFeatures) -> (r: Vec<Subtask>)
    ensures
        subtask_views(r@) == phase_plan(
            task.description@,
            task.priority,
            features.has_feature_keywords,
        ),
{
    let d = task.description.as_str();
    let p = task.priority;
    let s0 = make_subtask("Design and plan: ", d, p, 30, Vec::new(), 0);
    let s1 = make_subtask("Implement: ", d, p, 120, vec![0], 1);
    let s2 = make_subtask("Test: ", d, p, 60, vec![1], 2);
    let ghost base = seq![s0@, s1@, s2@];
    proof {
        assert(s0@.3 =~= Seq::<usize>::empty());
        assert(s1@.3 =~= seq![0usize]);
        assert(s2@.3 =~= seq![1usize]);
    }
    let mut r: Vec<Subtask> = Vec::new();
    r.push(s0);
    r.push(s1);
    r.push(s2);
    proof {
        assert(subtask_views(r@) =~= base);
    }
    if features.has_feature_keywords {
        let s3 = make_subtask("Document: ", d, TaskPriority::Low, 30, vec![2], 3);
        proof {
            assert(s3@.3 =~= seq![2usize]);
            lemma_push_views(r@, s3);
        }
        r.push(s3);
    }
    proof {
        assert(subtask_views(r@) =~= phase_plan(
            task.description@,
            task.priority,
            features.has_feature_keywords,
        ));
    }
    r
}

pub open spec fn component_pred() -> spec_fn(Seq<char>) -> bool {
    |w: Seq<char>| w.len() > 0 && uppercase(w[0])
}

/// Component names in a description: words that start with an upper-case
/// letter, or "core" and "integration" when there are none.
pub fn extract_components(description: &str) -> (cs: Vec<String>)
    ensures
        names(cs@) == components_of(description@),
{
    let ws = split_whitespace(description);
    let ghost all = words(description@);
    let mut cs: Vec<String> = Vec::new();
    let mut i: usize = 0;
    while i < ws.len()
        invariant
            i <= ws@.len(),
            ws@.len() == all.len(),
            forall|k: int| 0 <= k < ws@.len() ==> #[trigger] ws@[k]@ == all[k],
            names(cs@) == all.take(i as int).filter(component_pred()),
        decreases ws@.len() - i,
    {
        let w = &ws[i];
        let ghost before = cs@;
        proof {
            reveal_with_fuel(Seq::filter, 1);
            assert(all.take(i + 1).drop_last() =~= all.take(i as int));
            assert(all.take(i + 1).last() == w@);
        }
        let n = w.as_str().unicode_len();
        if n > 0 && is_uppercase_char(w.as_str().get_char(0)) {
            cs.push(w.clone());
            proof {
                assert(names(cs@) =~= names(before).push(w@));
            }
        }
        i += 1;
    }
    proof {
        assert(all.take(ws@.len() as int) =~= all);
        assert(components_of(description@) == if all.filter(component_pred()).len() == 0 {
            seq!["core"@, "integration"@]
        } else {
            all.filter(component_pred())
        });
    }
    if cs.len() == 0 {
        let mut d: Vec<String> = Vec::new();
        d.push(copy_str("core"));
        d.push(copy_str("integration"));
        proof {
            assert(names(d@) =~= seq!["core"@, "integration"@]);
        }
        return d;
    }
    cs
}

/// Subtasks by component, chained one after another, plus an integration
/// step that depends on all of them when there is more than one component.
pub fn decompose_by_component(task: &TodoTask) -> (r: Vec<Subtask>)
    ensures
        subtask_views(r@) == component_plan(
            task.description@,
            task.priority,
            components_of(task.description@),
        ),
{
    let d = task.description.as_str();
    let p = task.priority;
    let comps = extract_components(d);
    let ghost cv = names(comps@);
    let n = comps.len();
    let mut r: Vec<Subtask> = Vec::new();
    let mut i: usize = 0;
    while i < n
        invariant
            i <= n,
            n == comps@.len(),
            cv == names(comps@),
            d@ == task.description@,
            p == task.priority,
            subtask_views(r@) =~= Seq::new(i as nat, |k: int| component_step(d@, p, cv, k)),
        decreases n - i,
    {
        let first = concat_str("Work on ", comps[i].as_str());
        let second = concat_str(first.as_str(), " component: ");
        let desc = concat_str(second.as_str(), d);
        let deps: Vec<usize> = if i > 0 {
            vec![i - 1]
        } else {
            Vec::new()
        };
        let s = Subtask {
            description: desc,
            estimated_priority: p,
            estimated_duration_minutes: Some(90),
            depends_on: deps,
            order: i,
        };
        proof {
            assert(cv[i as int] == comps@[i as int]@);
            assert(s@ == component_step(d@, p, cv, i as int)) by {
                if i > 0 {
                    assert(deps@ =~= seq![(i - 1) as usize]);
                }
            }
            lemma_push_views(r@, s);
        }
        r.push(s);
        i += 1;
    }
    if n > 1 {
        let mut all: Vec<usize> = Vec::new();
        let mut k: usize = 0;
        while k < n
            invariant
                k <= n,
                all@ =~= Seq::new(k as nat, |j: int| j as usize),
            decreases n - k,
        {
            all.push(k);
            k += 1;
        }
        let s = make_subtask("Integrate all components: ", d, p, 60, all, n);
        proof {
            lemma_push_views(r@, s);
        }
        r.push(s);
    }
    proof {
        assert(subtask_views(r@) =~= component_plan(d@, p, cv));
    }
    r
}

/// Subtasks by increment: MVP, enhancement, polish.
pub fn decompose_by_increment(task: &TodoTask) -> (r: Vec<Subtask>)
    ensures
        subtask_views(r@) == increment_plan(task.description@, task.priority),
{
    let d = task.description.as_str();
    let p = task.priority;
    let mut r: Vec<Subtask> = Vec::new();
    let s0 = make_subtask("MVP: ", d, p, 180, Vec::new(), 0);
    let s1 = make_subtask("Enhance: ", d, TaskPriority::Medium, 120, vec![0], 1);
    let s2 = make_subtask("Polish and optimize: ", d, TaskPriority::Low, 60, vec![1], 2);
    proof {
        assert(s0@.3 =~= Seq::<usize>::empty());
        assert(s1@.3 =~= seq![0usize]);
        assert(s2@.3 =~= seq![1usize]);
    }
    r.push(s0);
    r.push(s1);
    r.push(s2);
    proof {
        assert(subtask_views(r@) =~= increment_plan(task.description@, task.priority));
    }
    r
}

/// Subtasks by technical layer, ending with end-to-end testing.
pub fn decompose_by_layer(task: &TodoTask) -> (r: Vec<Subtask>)
    ensures
        subtask_views(r@) == layer_plan(task.description@, task.priority),
{
    let d = task.description.as_str();
    let p = task.priority;
    let mut r: Vec<Subtask> = Vec::new();
    let s0 = make_subtask("Database/Data layer: ", d, p, 90, Vec::new(), 0);
    let s1 = make_subtask("Backend/API layer: ", d, p, 120, vec![0], 1);
    let s2 = make_subtask("Frontend/UI layer: ", d, p, 90, vec![1], 2);
    let s3 = make_subtask("End-to-end testing: ", d, p, 60, vec![0, 1, 2], 3);
    proof {
        assert(s0@.3 =~= Seq::<usize>::empty());
        assert(s1@.3 =~= seq![0usize]);
        assert(s2@.3 =~= seq![1usize]);
        assert(s3@.3 =~= seq![0usize, 1usize, 2usize]);
    }
    r.push(s0);
    r.push(s1);
    r.push(s2);
    r.push(s3);
    proof {
        assert(subtask_views(r@) =~= layer_plan(task.description@, task.priority));
    }
    r
}

/// Every plan that a strategy produces is well ordered.
pub proof fn lemma_plans_well_ordered(
    strategy: DecompositionStrategy,
    desc: Seq<char>,
    prio: TaskPriority,
    feature: bool,
)
    requires
        plan_for(strategy, desc, prio, feature).len() <= usize::MAX,
    ensures
        is_well_ordered(plan_for(strategy, desc, prio, feature)),
{
    let p = plan_for(strategy, desc, prio, feature);
    match strategy {
        DecompositionStrategy::ByComponent => {
            let comps = components_of(desc);
            let n = comps.len();
            assert forall|i: int| 0 <= i < p.len() implies (#[trigger] p[i]).4 == i && forall|k: int|
                0 <= k < p[i].3.len() ==> (p[i].3[k] as int) < i by {
                let steps = Seq::new(n, |j: int| component_step(desc, prio, comps, j));
                if i < n {
                    assert(p[i] == steps[i]);
                    assert(p[i] == component_step(desc, prio, comps, i));
                    if i > 0 {
                        assert(p[i].3 == seq![(i - 1) as usize]);
                    }
                } else {
                    assert(i == n);
                    assert(n > 1);
                    let all = Seq::new(n, |j: int| j as usize);
                    assert(p[i] == (
                        pre("Integrate all components: "@, desc),
                        prio,
                        Some(60i32),
                        all,
                        n as usize,
                    ));
                    assert forall|k: int| 0 <= k < p[i].3.len() implies (p[i].3[k] as int) < i by {
                        assert(all[k] == k as usize);
                    }
                }
            }
        },
        DecompositionStrategy::ByPhase => {
            let base = seq![
                (pre("Design and plan: "@, desc), prio, Some(30i32), Seq::<usize>::empty(), 0usize),
                (pre("Implement: "@, desc), prio, Some(120i32), seq![0usize], 1usize),
                (pre("Test: "@, desc), prio, Some(60i32), seq![1usize], 2usize),
            ];
            let extra: Seq<SubtaskView> = if feature {
                seq![(pre("Document: "@, desc), TaskPriority::Low, Some(30i32), seq![2usize], 3usize)]
            } else {
                Seq::empty()
            };
            assert(p == base + extra);
            assert forall|i: int| 0 <= i < p.len() implies (#[trigger] p[i]).4 == i && forall|k: int|
                0 <= k < p[i].3.len() ==> (p[i].3[k] as int) < i by {
                if i < 3 {
                    assert(p[i] == base[i]);
                } else {
                    assert(p[i] == extra[i - 3]);
                }
            }
        },
        DecompositionStrategy::ByIncrement => {
            assert forall|i: int| 0 <= i < p.len() implies (#[trigger] p[i]).4 == i && forall|k: int|
                0 <= k < p[i].3.len() ==> (p[i].3[k] as int) < i by {
                assert(p.len() == 3);
                assert(p[0].3.len() == 0);
                assert(p[1].3 == seq![0usize]);
                assert(p[2].3 == seq![1usize]);
            }
        },
        DecompositionStrategy::ByLayer => {
            assert forall|i: int| 0 <= i < p.len() implies (#[trigger] p[i]).4 == i && forall|k: int|
                0 <= k < p[i].3.len() ==> (p[i].3[k] as int) < i by {
                assert(p.len() == 4);
                assert(p[0].3.len() == 0);
                assert(p[1].3 == seq![0usize]);
                assert(p[2].3 == seq![1usize]);
                assert(p[3].3 == seq![0usize, 1usize, 2usize]);
            }
        },
        DecompositionStrategy::NoDecomposition => {},
    }
}

/// Builds the built-in decomposition patterns.
fn default_patterns() -> (ps: Vec<DecompositionPattern>)
    ensures
        pattern_views(ps@) == default_pattern_views(),
{
    let mut ps: Vec<DecompositionPattern> = Vec::new();
    let p0 = DecompositionPattern {
        pattern_name: copy_str("Feature Implementation"),
        keywords: vec![copy_str("implement"), copy_str("feature"), copy_str("add")],
        strategy: DecompositionStrategy::ByPhase,
        typical_subtask_count: 4,
        example_subtasks: vec![
            copy_str("Design feature architecture"),
            copy_str("Implement core functionality"),
            copy_str("Add tests"),
            copy_str("Update documentation"),
        ],
        success_rate_percent: 85,
    };
    let p1 = DecompositionPattern {
        pattern_name: copy_str("Bug Fix"),
        keywords: vec![copy_str("fix"), copy_str("bug"), copy_str("issue")],
        strategy: DecompositionStrategy::ByPhase,
        typical_subtask_count: 3,
        example_subtasks: vec![
            copy_str("Reproduce and diagnose bug"),
            copy_str("Implement fix"),
            copy_str("Verify fix with tests"),
        ],
        success_rate_percent: 90,
    };
    let p2 = DecompositionPattern {
        pattern_name: copy_str("Refactoring"),
        keywords: vec![copy_str("refactor"), copy_str("restructure"), copy_str("improve")],
        strategy: DecompositionStrategy::ByComponent,
        typical_subtask_count: 4,
        example_subtasks: vec![
            copy_str("Identify refactoring scope"),
            copy_str("Create tests for existing behavior"),
            copy_str("Perform refactoring"),
            copy_str("Verify all tests pass"),
        ],
        success_rate_percent: 80,
    };
    let p3 = DecompositionPattern {
        pattern_name: copy_str("Integration"),
        keywords: vec![copy_str("integrate"), copy_str("connect"), copy_str("api")],
        strategy: DecompositionStrategy::ByLayer,
        typical_subtask_count: 5,
        example_subtasks: vec![
            copy_str("Design integration interface"),
            copy_str("Implement API client"),
            copy_str("Add error handling"),
            copy_str("Write integration tests"),
            copy_str("Update documentation"),
        ],
        success_rate_percent: 75,
    };
    proof {
        assert(names(p0.keywords@) =~= seq!["implement"@, "feature"@, "add"@]);
        assert(names(p0.example_subtasks@) =~= default_pattern_views()[0].4);
        assert(names(p1.keywords@) =~= seq!["fix"@, "bug"@, "issue"@]);
        assert(names(p1.example_subtasks@) =~= default_pattern_views()[1].4);
        assert(names(p2.keywords@) =~= seq!["refactor"@, "restructure"@, "improve"@]);
        assert(names(p2.example_subtasks@) =~= default_pattern_views()[2].4);
        assert(names(p3.keywords@) =~= seq!["integrate"@, "connect"@, "api"@]);
        assert(names(p3.example_subtasks@) =~= default_pattern_views()[3].4);
    }
    ps.push(p0);
    ps.push(p1);
    ps.push(p2);
    ps.push(p3);
    proof {
        assert(pattern_views(ps@) =~= default_pattern_views());
    }
    ps
}

/// Whether `ks` holds a string equal to `k`.
fn contains_string(ks: &Vec<String>, k: &String) -> (b: bool)
    ensures
        b == names(ks@).contains(k@),
{
    let mut i: usize = 0;
    while i < ks.len()
        invariant
            i <= ks@.len(),
            forall|j: int| 0 <= j < i ==> #[trigger] ks@[j]@ != k@,
        decreases ks@.len() - i,
    {
        if ks[i] == *k {
            proof {
                assert(names(ks@)[i as int] == k@);
            }
            return true;
        }
        i += 1;
    }
    proof {
        assert forall|j: int| 0 <= j < names(ks@).len() implies names(ks@)[j] != k@ by {
            assert(names(ks@)[j] == ks@[j]@);
        }
    }
    false
}

/// Score of a pattern for the given task keywords.
fn score_pattern(p: &DecompositionPattern, task_keywords: &Vec<String>) -> (s: u64)
    requires
        p.keywords@.len() < 1000,
        p.success_rate_percent <= 100,
    ensures
        s == pattern_score(p@, names(task_keywords@)),
{
    let ghost pk = names(p.keywords@);
    let ghost tk = names(task_keywords@);
    let mut matched: u64 = 0;
    let mut i: usize = 0;
    while i < p.keywords.len()
        invariant
            i <= p.keywords@.len(),
            p.keywords@.len() < 1000,
            pk == names(p.keywords@),
            tk == names(task_keywords@),
            matched == matched_count(pk.take(i as int), tk),
            matched <= i,
        decreases p.keywords@.len() - i,
    {
        proof {
            assert(pk.take(i + 1).drop_last() =~= pk.take(i as int));
            assert(pk.take(i + 1).last() == p.keywords@[i as int]@);
        }
        if contains_string(task_keywords, &p.keywords[i]) {
            matched += 1;
        }
        i += 1;
    }
    proof {
        assert(pk.take(p.keywords@.len() as int) =~= pk);
    }
    500 * matched + 3 * (p.success_rate_percent as u64)
}

/// Decomposes tasks into subtasks using the best matching pattern.
pub struct TaskDecomposer {
    patterns: Vec<DecompositionPattern>,
    decomposition_count: usize,
}

impl TaskDecomposer {
    /// The patterns in use.
    pub closed spec fn patterns(&self) -> Seq<PatternView> {
        pattern_views(self.patterns@)
    }

    /// Number of decompositions performed.
    pub closed spec fn count(&self) -> nat {
        self.decomposition_count as nat
    }

    #[verifier::type_invariant]
    closed spec fn inv(&self) -> bool {
        &&& self.patterns@.len() > 0
        &&& forall|i: int|
            0 <= i < self.patterns@.len() ==> (#[trigger] self.patterns@[i]).keywords@.len() < 1000
                && self.patterns@[i].success_rate_percent <= 100
    }

    /// A decomposer with the built-in patterns.
    pub fn new() -> (d: Self)
        ensures
            d.patterns() == default_pattern_views(),
            d.count() == 0,
    {
        let patterns = default_patterns();
        proof {
            assert forall|i: int| 0 <= i < patterns@.len() implies (#[trigger] patterns@[i]).keywords@.len() < 1000
                && patterns@[i].success_rate_percent <= 100 by {
                assert(pattern_views(patterns@)[i] == patterns@[i]@);
                assert(names(patterns@[i].keywords@).len() == patterns@[i].keywords@.len());
                let dv = default_pattern_views();
                assert(dv[0].1.len() == 3 && dv[0].5 <= 100);
                assert(dv[1].1.len() == 3 && dv[1].5 <= 100);
                assert(dv[2].1.len() == 3 && dv[2].5 <= 100);
                assert(dv[3].1.len() == 3 && dv[3].5 <= 100);
                assert(pattern_views(patterns@).len() == patterns@.len());
                assert(dv.len() == 4);
            }
        }
        proof {
            assert(pattern_views(patterns@).len() == patterns@.len());
            assert(patterns@.len() > 0);
        }
        TaskDecomposer { patterns, decomposition_count: 0 }
    }

    /// Index of the first pattern with the highest score for the task keywords.
    fn best_pattern_index(&self, features: &TaskFeatures) -> (k: usize)
        ensures
            is_first_best(self.patterns(), names(features.keywords@), k as int),
    {
        proof {
            use_type_invariant(self);
        }
        let ghost pats = self.patterns();
        let ghost tk = names(features.keywords@);
        let mut best: usize = 0;
        let mut best_score: u64 = 0;
        let mut i: usize = 0;
        while i < self.patterns.len()
            invariant
                i <= self.patterns@.len(),
                self.patterns@.len() > 0,
                forall|j: int|
                    0 <= j < self.patterns@.len() ==> (#[trigger] self.patterns@[j]).keywords@.len() < 1000
                        && self.patterns@[j].success_rate_percent <= 100,
                pats == self.patterns(),
                tk == names(features.keywords@),
                best < self.patterns@.len(),
                best_score == 0 || best_score == pattern_score(pats[best as int], tk),
                best_score == 0 ==> best == 0,
                i > 0 ==> best < i,
                forall|j: int| 0 <= j < i ==> pattern_score(#[trigger] pats[j], tk) <= best_score,
                forall|j: int| 0 <= j < best ==> pattern_score(#[trigger] pats[j], tk) < best_score,
                best_score > 0 ==> best < i,
            decreases self.patterns@.len() - i,
        {
            proof {
                assert(pats[i as int] == self.patterns@[i as int]@);
            }
            let s = score_pattern(&self.patterns[i], &features.keywords);
            if s > best_score {
                best_score = s;
                best = i;
            }
            i += 1;
        }
        proof {
            if best_score == 0 {
                assert forall|j: int| 0 <= j < pats.len() implies pattern_score(#[trigger] pats[j], tk)
                    <= pattern_score(pats[0], tk) by {}
            }
        }
        best
    }

    /// The pattern whose keywords best match the task's keywords, weighing
    /// in its success rate; the first of equally good ones.
    pub fn find_best_pattern(&self, features: &TaskFeatures) -> (p: &DecompositionPattern)
        ensures
            exists|k: int| is_first_best(self.patterns(), names(features.keywords@), k) && p@ == self.patterns()[k],
    {
        let k = self.best_pattern_index(features);
        proof {
            use_type_invariant(self);
            assert(self.patterns()[k as int] == self.patterns@[k as int]@);
        }
        &self.patterns[k]
    }

    /// Decomposes a task with the strategy of its best matching pattern.
    pub fn decompose(&mut self, task: &TodoTask) -> (r: Vec<Subtask>)
        requires
            old(self).count() < usize::MAX,
        ensures
            final(self).patterns() == old(self).patterns(),
            final(self).count() == old(self).count() + 1,
            exists|k: int|
                is_first_best(old(self).patterns(), keywords_of(task.description@), k)
                    && subtask_views(r@) == plan_for(
                    old(self).patterns()[k].2,
                    task.description@,
                    task.priority,
                    has_any_substring(
                        lowercase_of(task.description@),
                        crate::task_intelligence::features::feature_words(),
                    ),
                ),
            is_well_ordered(subtask_views(r@)),
    {
        proof {
            use_type_invariant(&*self);
        }
        let features = TaskFeatures::extract(task.description.as_str());
        let k = self.best_pattern_index(&features);
        let strategy = self.patterns[k].strategy;
        proof {
            assert(self.patterns()[k as int] == self.patterns@[k as int]@);
        }
        let r: Vec<Subtask> = match strategy {
            DecompositionStrategy::ByPhase => decompose_by_phase(task, &features),
            DecompositionStrategy::ByComponent => decompose_by_component(task),
            DecompositionStrategy::ByIncrement => decompose_by_increment(task),
            DecompositionStrategy::ByLayer => decompose_by_layer(task),
            DecompositionStrategy::NoDecomposition => Vec::new(),
        };
        let produced = r.len();
        proof {
            assert(produced == r@.len());
            if strategy == DecompositionStrategy::NoDecomposition {
                assert(subtask_views(r@) =~= Seq::<SubtaskView>::empty());
            }
            assert(subtask_views(r@).len() == r@.len());
            lemma_plans_well_ordered(
                strategy,
                task.description@,
                task.priority,
                features.has_feature_keywords,
            );
        }
        self.decomposition_count = self.decomposition_count + 1;
        r
    }

    /// Number of decompositions performed so far.
    pub fn get_decomposition_count(&self) -> (n: usize)
        ensures
            n == self.count(),
    {
        self.decomposition_count
    }
}

/// Whether a task is worth decomposing.
pub fn should_decompose(task: &TodoTask, band: ComplexityBand) -> (b: bool)
    ensures
        b == spec_should_decompose(task.description@, band),
        all_ascii(task.description@) ==> b == (words(task.description@).len() >= 5 && (band
            != ComplexityBand::Low || has_any_substring(ascii_lowercase(task.description@), decomposition_words()))),
{
    let d = task.description.as_str();
    if split_whitespace(d).len() < 5 {
        return false;
    }
    if band != ComplexityBand::Low {
        return true;
    }
    let indicators = vec![
        "implement",
        "integrate",
        "refactor",
        "migrate",
        "system",
        "architecture",
        "multiple",
        "complete",
        "full",
    ];
    proof {
        assert(crate::task_intelligence::features::literals(indicators@) =~= decomposition_words());
    }
    let lower = to_lowercase(d);
    contains_any(lower.as_str(), indicators.as_slice())
}


/// The decision does not depend on letter case: two descriptions with the
/// same lower-cased text and the same number of words get the same answer.
pub proof fn lemma_should_decompose_ignores_case(d1: Seq<char>, d2: Seq<char>, band: ComplexityBand)
    requires
        lowercase_of(d1) == lowercase_of(d2),
        words(d1).len() == words(d2).len(),
    ensures
        spec_should_decompose(d1, band) == spec_should_decompose(d2, band),
{
}

/// Short descriptions (under five words) are never decomposed; longer ones
/// always are when the task is more than simple, and a simple one is
/// exactly when its lower-cased text contains one of the decomposition
/// words.
pub proof fn lemma_should_decompose_rule(desc: Seq<char>, band: ComplexityBand)
    ensures
        words(desc).len() < 5 ==> !spec_should_decompose(desc, band),
        words(desc).len() >= 5 && band != ComplexityBand::Low ==> spec_should_decompose(desc, band),
        words(desc).len() >= 5 && band == ComplexityBand::Low ==> (spec_should_decompose(desc, band) <==> exists|
            i: int,
            k: int,
        |
            0 <= i < decomposition_words().len() && #[trigger] occurs_at(lowercase_of(desc), decomposition_words()[i], k)),
{
}

/// A description of five or more words that mentions, in any case, one of
/// "implement", "integrate", "refactor", "migrate", "system",
/// "architecture", "multiple", "complete" or "full" is decomposed.
pub proof fn lemma_decomposition_words_decompose(desc: Seq<char>, band: ComplexityBand, w: Seq<char>, k: int)
    requires
        words(desc).len() >= 5,
        seq![
            "implement"@,
            "integrate"@,
            "refactor"@,
            "migrate"@,
            "system"@,
            "architecture"@,
            "multiple"@,
            "complete"@,
            "full"@,
        ].contains(w),
        occurs_at(lowercase_of(desc), w, k),
    ensures
        spec_should_decompose(desc, band),
{
    let ws = seq![
        "implement"@,
        "integrate"@,
        "refactor"@,
        "migrate"@,
        "system"@,
        "architecture"@,
        "multiple"@,
        "complete"@,
        "full"@,
    ];
    let i = choose|i: int| 0 <= i < ws.len() && ws[i] == w;
    assert(decomposition_words() =~= ws);
    assert(decomposition_words()[i] == w);
    assert(has_substring(lowercase_of(desc), decomposition_words()[i]));
}

} // verus!
