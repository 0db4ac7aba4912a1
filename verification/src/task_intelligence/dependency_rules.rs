//! Keyword rules that say which kinds of task usually come before others,
//! the dependencies they suggest for a task, and the graph they induce over
//! a set of tasks.

use vstd::prelude::*;

use crate::task_intelligence::dependency_graph::{with_name, DependencyGraph};
use crate::task_intelligence::features::{extract_keywords, keywords_of};
use crate::text::{concat_str, copy_str, join, join_strings, names};
use crate::types::TodoTask;

verus! {

/// A rule: tasks naming a dependent keyword usually wait for a task naming
/// a prerequisite keyword.
#[derive(Debug)]
pub struct DependencyRule {
    pub name: String,
    pub prerequisite_keywords: Vec<String>,
    pub dependent_keywords: Vec<String>,
    /// Confidence in parts per million (1.0 is 1_000_000).
    pub confidence_ppm: u32,
    pub occurrence_count: usize,
}

/// Name, prerequisite keywords, dependent keywords, confidence, occurrences.
pub type RuleView = (Seq<char>, Seq<Seq<char>>, Seq<Seq<char>>, u32, usize);

impl View for DependencyRule {
    type V = RuleView;

    open spec fn view(&self) -> RuleView {
        (
            self.name@,
            names(self.prerequisite_keywords@),
            names(self.dependent_keywords@),
            self.confidence_ppm,
            self.occurrence_count,
        )
    }
}

pub open spec fn rule_views(v: Seq<DependencyRule>) -> Seq<RuleView> {
    v.map_values(|r: DependencyRule| r@)
}

/// A dependency suggested for a task.
#[derive(Debug)]
pub struct TaskDependency {
    pub prerequisite_description: String,
    pub prerequisite_keywords: Vec<String>,
    /// Confidence in parts per million.
    pub confidence_ppm: u32,
    /// Typical time between prerequisite and dependent task.
    pub typical_gap_hours: u32,
}

/// Description, keywords, confidence and gap of a dependency.
pub type DepView = (Seq<char>, Seq<Seq<char>>, u32, u32);

impl View for TaskDependency {
    type V = DepView;

    open spec fn view(&self) -> DepView {
        (
            self.prerequisite_description@,
            names(self.prerequisite_keywords@),
            self.confidence_ppm,
            self.typical_gap_hours,
        )
    }
}

pub open spec fn dep_views(v: Seq<TaskDependency>) -> Seq<DepView> {
    v.map_values(|d: TaskDependency| d@)
}

/// The built-in rules.
pub open spec fn default_rule_views() -> Seq<RuleView> {
    seq![
        (
            "Design before Implementation"@,
            seq!["design"@, "plan"@, "architecture"@],
            seq!["implement"@, "code"@, "build"@],
            900_000u32,
            0usize,
        ),
        (
            "Implementation before Testing"@,
            seq!["implement"@, "code"@, "build"@],
            seq!["test"@, "verify"@, "validate"@],
            950_000u32,
            0usize,
        ),
        (
            "Testing before Deployment"@,
            seq!["test"@, "verify"@],
            seq!["deploy"@, "release"@, "publish"@],
            950_000u32,
            0usize,
        ),
        (
            "Fix Bug before Feature"@,
            seq!["fix"@, "bug"@, "issue"@],
            seq!["feature"@, "implement"@, "add"@],
            700_000u32,
            0usize,
        ),
        (
            "API before Frontend"@,
            seq!["api"@, "backend"@, "endpoint"@],
            seq!["frontend"@, "ui"@, "interface"@],
            850_000u32,
            0usize,
        ),
        (
            "Database before API"@,
            seq!["database"@, "schema"@, "model"@],
            seq!["api"@, "endpoint"@, "service"@],
            800_000u32,
            0usize,
        ),
    ]
}

/// Some word of `a` is among `b`.
pub open spec fn shares_keyword(a: Seq<Seq<char>>, b: Seq<Seq<char>>) -> bool {
    exists|k: int| 0 <= k < a.len() && b.contains(#[trigger] a[k])
}

/// The dependency that a rule suggests.
pub open spec fn rule_dep(r: RuleView) -> DepView {
    ("Task involving: "@ + join(r.1, ", "@), r.1, r.3, 24u32)
}

/// The dependency suggested by a prerequisite of a similar past task.
pub open spec fn history_dep(id: Seq<char>) -> DepView {
    ("Similar to task: "@ + id, Seq::empty(), 600_000u32, 12u32)
}

/// Rules whose dependent keywords meet the task keywords.
pub open spec fn rule_applies_pred(kws: Seq<Seq<char>>) -> spec_fn(RuleView) -> bool {
    |r: RuleView| shares_keyword(r.2, kws)
}

/// Candidate dependencies: one per applicable rule, in rule order, then one
/// per prerequisite of the first five similar past tasks.
pub open spec fn candidate_deps(
    rules: Seq<RuleView>,
    kws: Seq<Seq<char>>,
    similar: Seq<Seq<Seq<char>>>,
) -> Seq<DepView> {
    rules.filter(rule_applies_pred(kws)).map_values(|r: RuleView| rule_dep(r))
        + similar.take(if similar.len() < 5 { similar.len() as int } else { 5 }).flatten_alt().map_values(
        |id: Seq<char>| history_dep(id),
    )
}

pub open spec fn conf_pred(c: u32) -> spec_fn(DepView) -> bool {
    |d: DepView| d.2 == c
}

/// `out` is `input` sorted by decreasing confidence, keeping the input order
/// among dependencies of equal confidence.
pub open spec fn is_stable_desc_sort(out: Seq<DepView>, input: Seq<DepView>) -> bool {
    &&& forall|a: int, b: int| 0 <= a < b < out.len() ==> out[a].2 >= out[b].2
    &&& forall|c: u32| #[trigger] out.filter(conf_pred(c)) == input.filter(conf_pred(c))
}

/// `s` without the entries whose keywords equal those of the entry kept
/// just before them.
pub open spec fn dedup_keywords(s: Seq<DepView>) -> Seq<DepView>
    decreases s.len(),
{
    if s.len() == 0 {
        s
    } else {
        let d = dedup_keywords(s.drop_last());
        if d.len() > 0 && d.last().1 == s.last().1 {
            d
        } else {
            d.push(s.last())
        }
    }
}

/// A copy of a vector of strings.
fn clone_strings(v: &Vec<String>) -> (r: Vec<String>)
    ensures
        names(r@) == names(v@),
{
    let mut r: Vec<String> = Vec::new();
    let mut i: usize = 0;
    while i < v.len()
        invariant
            i <= v@.len(),
            names(r@) =~= names(v@).take(i as int),
        decreases v@.len() - i,
    {
        let ghost before = r@;
        r.push(v[i].clone());
        proof {
            assert(names(r@) =~= names(before).push(v@[i as int]@));
        }
        i += 1;
    }
    proof {
        assert(names(v@).take(v@.len() as int) =~= names(v@));
    }
    r
}

/// Whether two vectors hold the same strings in the same order.
fn strings_equal(a: &Vec<String>, b: &Vec<String>) -> (r: bool)
    ensures
        r == (names(a@) == names(b@)),
{
    if a.len() != b.len() {
        proof {
            assert(names(a@).len() != names(b@).len());
        }
        return false;
    }
    let mut i: usize = 0;
    while i < a.len()
        invariant
            i <= a@.len(),
            a@.len() == b@.len(),
            forall|k: int| 0 <= k < i ==> #[trigger] a@[k]@ == b@[k]@,
        decreases a@.len() - i,
    {
        if a[i] != b[i] {
            proof {
                assert(names(a@)[i as int] != names(b@)[i as int]);
            }
            return false;
        }
        i += 1;
    }
    proof {
        assert(names(a@) =~= names(b@));
    }
    true
}

fn make_rule(
    name: &str,
    pre: Vec<String>,
    dep: Vec<String>,
    confidence_ppm: u32,
) -> (r: DependencyRule)
    ensures
        r@ == (name@, names(pre@), names(dep@), confidence_ppm, 0usize),
{
    DependencyRule {
        name: copy_str(name),
        prerequisite_keywords: pre,
        dependent_keywords: dep,
        confidence_ppm,
        occurrence_count: 0,
    }
}

fn words3(a: &str, b: &str, c: &str) -> (v: Vec<String>)
    ensures
        names(v@) == seq![a@, b@, c@],
{
    let v = vec![copy_str(a), copy_str(b), copy_str(c)];
    proof {
        assert(names(v@) =~= seq![a@, b@, c@]);
    }
    v
}

/// The built-in dependency rules.
pub fn default_rules() -> (rules: Vec<DependencyRule>)
    ensures
        rule_views(rules@) == default_rule_views(),
{
    let mut rules: Vec<DependencyRule> = Vec::new();
    rules.push(
        make_rule(
            "Design before Implementation",
            words3("design", "plan", "architecture"),
            words3("implement", "code", "build"),
            900_000,
        ),
    );
    rules.push(
        make_rule(
            "Implementation before Testing",
            words3("implement", "code", "build"),
            words3("test", "verify", "validate"),
            950_000,
        ),
    );
    let tv = vec![copy_str("test"), copy_str("verify")];
    proof {
        assert(names(tv@) =~= seq!["test"@, "verify"@]);
    }
    rules.push(
        make_rule(
            "Testing before Deployment",
            tv,
            words3("deploy", "release", "publish"),
            950_000,
        ),
    );
    rules.push(
        make_rule(
            "Fix Bug before Feature",
            words3("fix", "bug", "issue"),
            words3("feature", "implement", "add"),
            700_000,
        ),
    );
    rules.push(
        make_rule(
            "API before Frontend",
            words3("api", "backend", "endpoint"),
            words3("frontend", "ui", "interface"),
            850_000,
        ),
    );
    rules.push(
        make_rule(
            "Database before API",
            words3("database", "schema", "model"),
            words3("api", "endpoint", "service"),
            800_000,
        ),
    );
    proof {
        assert(rule_views(rules@) =~= default_rule_views());
    }
    rules
}

/// Whether some string of `a` occurs in `b`.
fn shares_keyword_exec(a: &Vec<String>, b: &Vec<String>) -> (r: bool)
    ensures
        r == shares_keyword(names(a@), names(b@)),
{
    let mut i: usize = 0;
    while i < a.len()
        invariant
            i <= a@.len(),
            forall|k: int| 0 <= k < i ==> !names(b@).contains(#[trigger] names(a@)[k]),
        decreases a@.len() - i,
    {
        let mut j: usize = 0;
        while j < b.len()
            invariant
                i < a@.len(),
                j <= b@.len(),
                forall|l: int| 0 <= l < j ==> #[trigger] b@[l]@ != a@[i as int]@,
            decreases b@.len() - j,
        {
            if b[j] == a[i] {
                proof {
                    assert(names(b@)[j as int] == names(a@)[i as int]);
                }
                return true;
            }
            j += 1;
        }
        proof {
            assert forall|l: int| 0 <= l < names(b@).len() implies names(b@)[l] != names(a@)[i as int] by {
                assert(names(b@)[l] == b@[l]@);
            }
        }
        i += 1;
    }
    false
}

proof fn lemma_filter_none(s: Seq<DepView>, pred: spec_fn(DepView) -> bool)
    requires
        forall|k: int| 0 <= k < s.len() ==> !pred(#[trigger] s[k]),
    ensures
        s.filter(pred) == Seq::<DepView>::empty(),
    decreases s.len(),
{
    reveal_with_fuel(Seq::filter, 1);
    if s.len() > 0 {
        assert forall|k: int| 0 <= k < s.drop_last().len() implies !pred(#[trigger] s.drop_last()[k]) by {
            assert(s.drop_last()[k] == s[k]);
        }
        lemma_filter_none(s.drop_last(), pred);
        assert(!pred(s[s.len() - 1]));
    }
    assert(s.filter(pred) =~= Seq::<DepView>::empty());
}

/// Inserts `x` into `out`, after every entry of at least its confidence.
fn insert_by_confidence(out: &mut Vec<TaskDependency>, x: TaskDependency)
    requires
        forall|a: int, b: int|
            0 <= a < b < old(out)@.len() ==> old(out)@[a].confidence_ppm >= old(out)@[b].confidence_ppm,
    ensures
        forall|a: int, b: int|
            0 <= a < b < final(out)@.len() ==> final(out)@[a].confidence_ppm
                >= final(out)@[b].confidence_ppm,
        forall|c: u32|
            #[trigger] dep_views(final(out)@).filter(conf_pred(c)) == if x@.2 == c {
                dep_views(old(out)@).filter(conf_pred(c)).push(x@)
            } else {
                dep_views(old(out)@).filter(conf_pred(c))
            },
{
    let ghost v = dep_views(out@);
    let mut p: usize = 0;
    while p < out.len() && out[p].confidence_ppm >= x.confidence_ppm
        invariant
            p <= out@.len(),
            forall|k: int| 0 <= k < p ==> #[trigger] out@[k].confidence_ppm >= x.confidence_ppm,
        decreases out@.len() - p,
    {
        p += 1;
    }
    let ghost xv = x@;
    out.insert(p, x);
    proof {
        let w = dep_views(out@);
        assert(w =~= v.subrange(0, p as int) + seq![xv] + v.subrange(p as int, v.len() as int));
        assert(v =~= v.subrange(0, p as int) + v.subrange(p as int, v.len() as int));
        assert forall|k: int| p <= k < v.len() implies v[k].2 < xv.2 by {
            if p < k {
                assert(old(out)@[p as int].confidence_ppm >= old(out)@[k].confidence_ppm);
            }
        }
        assert forall|c: u32| #[trigger] w.filter(conf_pred(c)) == if xv.2 == c {
            v.filter(conf_pred(c)).push(xv)
        } else {
            v.filter(conf_pred(c))
        } by {
            let lo = v.subrange(0, p as int);
            let hi = v.subrange(p as int, v.len() as int);
            Seq::filter_distributes_over_add(lo + seq![xv], hi, conf_pred(c));
            Seq::filter_distributes_over_add(lo, seq![xv], conf_pred(c));
            Seq::filter_distributes_over_add(lo, hi, conf_pred(c));
            reveal_with_fuel(Seq::filter, 2);
            assert(seq![xv].drop_last() =~= Seq::<DepView>::empty());
            if xv.2 == c {
                assert forall|k: int| 0 <= k < hi.len() implies !conf_pred(c)(#[trigger] hi[k]) by {
                    assert(hi[k] == v[p + k]);
                }
                lemma_filter_none(hi, conf_pred(c));
                assert(seq![xv].filter(conf_pred(c)) =~= seq![xv]);
            } else {
                assert(seq![xv].filter(conf_pred(c)) =~= Seq::<DepView>::empty());
            }
        }
        assert forall|a: int, b: int|
            0 <= a < b < out@.len() implies out@[a].confidence_ppm >= out@[b].confidence_ppm by {
            assert(out@[a]@ == w[a]);
            assert(out@[b]@ == w[b]);
            if b < p {
                assert(old(out)@[a].confidence_ppm >= old(out)@[b].confidence_ppm);
            } else if a > p {
                assert(old(out)@[a - 1].confidence_ppm >= old(out)@[b - 1].confidence_ppm);
            } else if a == p {
                assert(w[b] == v[b - 1]);
            } else if b == p {
                assert(w[a] == v[a]);
            } else {
                assert(w[a] == v[a]);
                assert(w[b] == v[b - 1]);
            }
        }
    }
}

/// Sorts by decreasing confidence, keeping the input order among equals.
pub fn sort_by_confidence(input: Vec<TaskDependency>) -> (out: Vec<TaskDependency>)
    ensures
        is_stable_desc_sort(dep_views(out@), dep_views(input@)),
{
    let ghost iv = dep_views(input@);
    let mut rest = input;
    let mut out: Vec<TaskDependency> = Vec::new();
    let ghost mut i: int = 0;
    while rest.len() > 0
        invariant
            0 <= i <= iv.len(),
            dep_views(rest@) == iv.subrange(i, iv.len() as int),
            forall|a: int, b: int|
                0 <= a < b < out@.len() ==> out@[a].confidence_ppm >= out@[b].confidence_ppm,
            forall|c: u32| #[trigger] dep_views(out@).filter(conf_pred(c)) == iv.take(i).filter(conf_pred(c)),
        decreases rest@.len(),
    {
        let ghost old_rest = rest@;
        proof {
            assert(dep_views(old_rest).len() == old_rest.len());
            assert(dep_views(old_rest)[0] == old_rest[0]@);
        }
        let x = rest.remove(0);
        proof {
            assert(x@ == iv[i]);
            assert forall|k: int| 0 <= k < rest@.len() implies dep_views(rest@)[k] == iv[i + 1 + k] by {
                assert(rest@[k] == old_rest[k + 1]);
                assert(dep_views(old_rest)[k + 1] == old_rest[k + 1]@);
            }
            assert(dep_views(rest@) =~= iv.subrange(i + 1, iv.len() as int));
            assert(iv.take(i + 1).drop_last() =~= iv.take(i));
            assert(iv.take(i + 1).last() == x@);
            reveal_with_fuel(Seq::filter, 1);
        }
        insert_by_confidence(&mut out, x);
        proof {
            i = i + 1;
        }
    }
    proof {
        assert(iv.take(i) =~= iv);
        assert forall|a: int, b: int| 0 <= a < b < dep_views(out@).len() implies dep_views(out@)[a].2
            >= dep_views(out@)[b].2 by {
            assert(dep_views(out@)[a] == out@[a]@);
            assert(dep_views(out@)[b] == out@[b]@);
        }
    }
    out
}

/// Drops each dependency whose keywords equal those of the one kept before it.
pub fn dedup_by_keywords(input: Vec<TaskDependency>) -> (out: Vec<TaskDependency>)
    ensures
        dep_views(out@) == dedup_keywords(dep_views(input@)),
{
    let ghost iv = dep_views(input@);
    let mut rest = input;
    let mut out: Vec<TaskDependency> = Vec::new();
    let ghost mut i: int = 0;
    while rest.len() > 0
        invariant
            0 <= i <= iv.len(),
            dep_views(rest@) == iv.subrange(i, iv.len() as int),
            dep_views(out@) == dedup_keywords(iv.take(i)),
        decreases rest@.len(),
    {
        let ghost old_rest = rest@;
        proof {
            assert(dep_views(old_rest).len() == old_rest.len());
            assert(dep_views(old_rest)[0] == old_rest[0]@);
        }
        let x = rest.remove(0);
        proof {
            assert(x@ == iv[i]);
            assert forall|k: int| 0 <= k < rest@.len() implies dep_views(rest@)[k] == iv[i + 1 + k] by {
                assert(rest@[k] == old_rest[k + 1]);
                assert(dep_views(old_rest)[k + 1] == old_rest[k + 1]@);
            }
            assert(dep_views(rest@) =~= iv.subrange(i + 1, iv.len() as int));
            assert(iv.take(i + 1).drop_last() =~= iv.take(i));
            assert(iv.take(i + 1).last() == x@);
        }
        let n = out.len();
        let keep = n == 0 || !strings_equal(&out[n - 1].prerequisite_keywords, &x.prerequisite_keywords);
        proof {
            if n > 0 {
                assert(dep_views(out@).last() == out@[n - 1]@);
            }
        }
        if keep {
            let ghost before = out@;
            out.push(x);
            proof {
                assert(dep_views(out@) =~= dep_views(before).push(x@));
            }
        }
        proof {
            i = i + 1;
        }
    }
    proof {
        assert(iv.take(i) =~= iv);
    }
    out
}

/// Candidate dependencies from the rules that apply and from similar past tasks.
fn candidate_dependencies(
    rules: &Vec<DependencyRule>,
    keywords: &Vec<String>,
    similar: &Vec<Vec<String>>,
) -> (c: Vec<TaskDependency>)
    ensures
        dep_views(c@) == candidate_deps(
            rule_views(rules@),
            names(keywords@),
            similar@.map_values(|s: Vec<String>| names(s@)),
        ),
{
    let ghost rv = rule_views(rules@);
    let ghost kws = names(keywords@);
    let mut c: Vec<TaskDependency> = Vec::new();
    let mut i: usize = 0;
    while i < rules.len()
        invariant
            i <= rules@.len(),
            rv == rule_views(rules@),
            kws == names(keywords@),
            dep_views(c@) == rv.take(i as int).filter(rule_applies_pred(kws)).map_values(
                |r: RuleView| rule_dep(r),
            ),
        decreases rules@.len() - i,
    {
        let r = &rules[i];
        proof {
            reveal_with_fuel(Seq::filter, 1);
            assert(rv.take(i + 1).drop_last() =~= rv.take(i as int));
            assert(rv.take(i + 1).last() == r@);
        }
        if shares_keyword_exec(&r.dependent_keywords, keywords) {
            let joined = join_strings(&r.prerequisite_keywords, ", ");
            let d = TaskDependency {
                prerequisite_description: concat_str("Task involving: ", joined.as_str()),
                prerequisite_keywords: clone_strings(&r.prerequisite_keywords),
                confidence_ppm: r.confidence_ppm,
                typical_gap_hours: 24,
            };
            let ghost before = c@;
            c.push(d);
            proof {
                assert(dep_views(c@) =~= dep_views(before).push(rule_dep(r@)));
                let f = rv.take(i + 1).filter(rule_applies_pred(kws));
                assert(f == rv.take(i as int).filter(rule_applies_pred(kws)).push(r@));
                assert(f.map_values(|r: RuleView| rule_dep(r)) =~= rv.take(i as int).filter(
                    rule_applies_pred(kws),
                ).map_values(|r: RuleView| rule_dep(r)).push(rule_dep(r@)));
            }
        }
        i += 1;
    }
    proof {
        assert(rv.take(rules@.len() as int) =~= rv);
    }
    let ghost sv = similar@.map_values(|s: Vec<String>| names(s@));
    let ghost rule_part = dep_views(c@);
    let limit: usize = if similar.len() < 5 {
        similar.len()
    } else {
        5
    };
    let mut k: usize = 0;
    while k < limit
        invariant
            k <= limit,
            limit <= similar@.len(),
            sv == similar@.map_values(|s: Vec<String>| names(s@)),
            dep_views(c@) == rule_part + sv.take(k as int).flatten_alt().map_values(
                |id: Seq<char>| history_dep(id),
            ),
        decreases limit - k,
    {
        let ids = &similar[k];
        let ghost base = dep_views(c@);
        let mut j: usize = 0;
        while j < ids.len()
            invariant
                j <= ids@.len(),
                dep_views(c@) == base + names(ids@).take(j as int).map_values(
                    |id: Seq<char>| history_dep(id),
                ),
            decreases ids@.len() - j,
        {
            let d = TaskDependency {
                prerequisite_description: concat_str("Similar to task: ", ids[j].as_str()),
                prerequisite_keywords: Vec::new(),
                confidence_ppm: 600_000,
                typical_gap_hours: 12,
            };
            let ghost before = c@;
            c.push(d);
            proof {
                assert(names(d.prerequisite_keywords@) =~= Seq::<Seq<char>>::empty());
                assert(dep_views(c@) =~= dep_views(before).push(history_dep(ids@[j as int]@)));
                assert(names(ids@).take(j + 1) =~= names(ids@).take(j as int).push(ids@[j as int]@));
                assert(dep_views(c@) =~= base + names(ids@).take(j + 1).map_values(
                    |id: Seq<char>| history_dep(id),
                ));
            }
            j += 1;
        }
        proof {
            assert(names(ids@).take(ids@.len() as int) =~= names(ids@));
            assert(sv.take(k + 1).drop_last() =~= sv.take(k as int));
            assert(sv.take(k + 1).last() == names(ids@));
            let fa = sv.take(k as int).flatten_alt();
            assert(sv.take(k + 1).flatten_alt() == fa + names(ids@));
            assert((fa + names(ids@)).map_values(|id: Seq<char>| history_dep(id)) =~= fa.map_values(
                |id: Seq<char>| history_dep(id),
            ) + names(ids@).map_values(|id: Seq<char>| history_dep(id)));
        }
        k += 1;
    }
    c
}

/// Dependencies suggested for a task: one per rule whose dependent keywords
/// occur among the task keywords, one per prerequisite of the first five
/// similar past tasks (`similar` lists each similar task's prerequisites),
/// sorted by decreasing confidence (stable), with consecutive entries of
/// equal keywords merged.
pub fn find_dependencies(
    rules: &Vec<DependencyRule>,
    description: &str,
    similar: &Vec<Vec<String>>,
) -> (deps: Vec<TaskDependency>)
    ensures
        exists|sorted: Seq<DepView>|
            is_stable_desc_sort(
                sorted,
                candidate_deps(
                    rule_views(rules@),
                    keywords_of(description@),
                    similar@.map_values(|s: Vec<String>| names(s@)),
                ),
            ) && dep_views(deps@) == dedup_keywords(sorted),
{
    let keywords = extract_keywords(description);
    let candidates = candidate_dependencies(rules, &keywords, similar);
    let sorted = sort_by_confidence(candidates);
    dedup_by_keywords(sorted)
}

/// Whether some rule dependency found for a task with keywords `dk`
/// points at a task with keywords `pk`.
pub open spec fn rule_links(rules: Seq<RuleView>, dk: Seq<Seq<char>>, pk: Seq<Seq<char>>) -> bool {
    exists|r: int|
        0 <= r < rules.len() && shares_keyword(#[trigger] rules[r].2, dk) && shares_keyword(
            rules[r].1,
            pk,
        )
}

/// `ds` is what `find_dependencies` returns for a task described by `desc`
/// with no similar past tasks.
pub open spec fn is_rule_dependency_result(rules: Seq<RuleView>, desc: Seq<char>, ds: Seq<DepView>) -> bool {
    exists|sorted: Seq<DepView>|
        is_stable_desc_sort(sorted, candidate_deps(rules, keywords_of(desc), Seq::empty()))
            && ds == dedup_keywords(sorted)
}

/// Task ids added one after another, each only once.
pub open spec fn names_added(ids: Seq<Seq<char>>) -> Seq<Seq<char>>
    decreases ids.len(),
{
    if ids.len() == 0 {
        Seq::empty()
    } else {
        with_name(names_added(ids.drop_last()), ids.last())
    }
}

proof fn lemma_names_added_contains(ids: Seq<Seq<char>>, k: int)
    requires
        0 <= k < ids.len(),
    ensures
        names_added(ids).contains(ids[k]),
    decreases ids.len(),
{
    let prev = names_added(ids.drop_last());
    if k < ids.len() - 1 {
        lemma_names_added_contains(ids.drop_last(), k);
        let x = prev.index_of(ids[k]);
        assert(names_added(ids)[x] == ids[k]);
    } else if !prev.contains(ids.last()) {
        assert(names_added(ids)[prev.len() as int] == ids.last());
    }
}

pub open spec fn task_ids(tasks: Seq<TodoTask>) -> Seq<Seq<char>> {
    tasks.map_values(|t: TodoTask| t.id@)
}

/// Dependency `k` of task `i` points at task `j`.
pub open spec fn links(
    tasks: Seq<TodoTask>,
    ds: Seq<Seq<DepView>>,
    i: int,
    k: int,
    j: int,
) -> bool {
    &&& 0 <= i < tasks.len()
    &&& 0 <= i < ds.len()
    &&& 0 <= j < tasks.len()
    &&& i != j
    &&& 0 <= k < ds[i].len()
    &&& shares_keyword(ds[i][k].1, keywords_of(tasks[j].description@))
}

/// `ds` lists the dependencies found for each task, and `edges` holds exactly
/// the links from those dependencies to the tasks whose keywords they name.
pub open spec fn graph_explained_by(
    rules: Seq<DependencyRule>,
    tasks: Seq<TodoTask>,
    edges: Seq<(Seq<char>, Seq<char>)>,
    ds: Seq<Seq<DepView>>,
) -> bool {
    &&& ds.len() == tasks.len()
    &&& forall|i: int|
        0 <= i < tasks.len() ==> is_rule_dependency_result(
            rule_views(rules),
            tasks[i].description@,
            #[trigger] ds[i],
        )
    &&& forall|a: Seq<char>, b: Seq<char>|
        edges.contains((a, b)) <==> exists|i: int, k: int, j: int|
            #[trigger] links(tasks, ds, i, k, j) && a == tasks[j].id@ && b == tasks[i].id@
}

/// The graph of rule-based dependencies among `tasks`: one node per task id,
/// and an edge from task `j` to task `i` whenever a dependency found for task
/// `i` names a keyword of task `j`. (Dependencies taken from similar past
/// tasks carry no keywords, so they never add an edge.)
pub fn build_dependency_graph(rules: &Vec<DependencyRule>, tasks: &Vec<TodoTask>) -> (g: DependencyGraph)
    ensures
        g.wf(),
        g.node_names() == names_added(task_ids(tasks@)),
        exists|ds: Seq<Seq<DepView>>| #[trigger] graph_explained_by(rules@, tasks@, g.edge_names(), ds),
{
    let n = tasks.len();
    let ghost ids = task_ids(tasks@);
    let mut graph = DependencyGraph::new();
    let mut t: usize = 0;
    while t < n
        invariant
            t <= n,
            n == tasks@.len(),
            ids == task_ids(tasks@),
            graph.wf(),
            graph.node_names() == names_added(ids.take(t as int)),
            graph.edges@.len() == 0,
        decreases n - t,
    {
        proof {
            assert(ids.take(t + 1).drop_last() =~= ids.take(t as int));
            assert(ids.take(t + 1).last() == tasks@[t as int].id@);
        }
        graph.add_node(tasks[t].id.clone());
        t += 1;
    }
    proof {
        assert(ids.take(n as int) =~= ids);
    }
    // Keywords of every task.
    let mut kw: Vec<Vec<String>> = Vec::new();
    let mut t: usize = 0;
    while t < n
        invariant
            t <= n,
            n == tasks@.len(),
            kw@.len() == t,
            forall|j: int| 0 <= j < t ==> names(#[trigger] kw@[j]@) == keywords_of(tasks@[j].description@),
        decreases n - t,
    {
        kw.push(extract_keywords(tasks[t].description.as_str()));
        t += 1;
    }
    let no_history: Vec<Vec<String>> = Vec::new();
    proof {
        assert(no_history@.map_values(|s: Vec<String>| names(s@)) =~= Seq::<Seq<Seq<char>>>::empty());
    }
    let ghost mut ds: Seq<Seq<DepView>> = Seq::empty();
    let mut i: usize = 0;
    while i < n
        invariant
            i <= n,
            n == tasks@.len(),
            ids == task_ids(tasks@),
            graph.wf(),
            graph.node_names() == names_added(ids),
            kw@.len() == n,
            forall|j: int| 0 <= j < n ==> names(#[trigger] kw@[j]@) == keywords_of(tasks@[j].description@),
            no_history@.map_values(|s: Vec<String>| names(s@)) == Seq::<Seq<Seq<char>>>::empty(),
            ds.len() == i,
            forall|x: int|
                0 <= x < i ==> is_rule_dependency_result(
                    rule_views(rules@),
                    tasks@[x].description@,
                    #[trigger] ds[x],
                ),
            forall|a: Seq<char>, b: Seq<char>|
                graph.edge_names().contains((a, b)) <==> exists|i2: int, k2: int, j2: int|
                    #[trigger] links(tasks@, ds, i2, k2, j2) && a == tasks@[j2].id@ && b == tasks@[i2].id@,
        decreases n - i,
    {
        let deps = find_dependencies(rules, tasks[i].description.as_str(), &no_history);
        let ghost dsi = dep_views(deps@);
        let ghost ds_next = ds.push(dsi);
        proof {
            assert(is_rule_dependency_result(rule_views(rules@), tasks@[i as int].description@, dsi));
            // Dependencies found so far keep their links.
            assert forall|i2: int, k2: int, j2: int| links(tasks@, ds, i2, k2, j2) implies #[trigger] links(tasks@, ds_next, i2, k2, j2) by {
                assert(ds_next[i2] == ds[i2]);
            }
            assert forall|i2: int, k2: int, j2: int| #[trigger] links(tasks@, ds_next, i2, k2, j2) && i2 < i implies links(tasks@, ds, i2, k2, j2) by {
                assert(ds_next[i2] == ds[i2]);
            }
            let ge = graph.edge_names();
            assert forall|a: Seq<char>, b: Seq<char>|
                ge.contains((a, b)) <==> exists|i2: int, k2: int, j2: int|
                    #[trigger] links(tasks@, ds_next, i2, k2, j2) && a == tasks@[j2].id@ && b
                        == tasks@[i2].id@ && (i2 < i || k2 < 0) by {
                if ge.contains((a, b)) {
                    let (i2, k2, j2) = choose|i2: int, k2: int, j2: int|
                        #[trigger] links(tasks@, ds, i2, k2, j2) && a == tasks@[j2].id@ && b == tasks@[i2].id@;
                    assert(links(tasks@, ds_next, i2, k2, j2));
                }
                if exists|i2: int, k2: int, j2: int|
                    #[trigger] links(tasks@, ds_next, i2, k2, j2) && a == tasks@[j2].id@ && b
                        == tasks@[i2].id@ && (i2 < i || k2 < 0) {
                    let (i2, k2, j2) = choose|i2: int, k2: int, j2: int|
                        #[trigger] links(tasks@, ds_next, i2, k2, j2) && a == tasks@[j2].id@ && b
                            == tasks@[i2].id@ && (i2 < i || k2 < 0);
                    assert(links(tasks@, ds, i2, k2, j2));
                }
            }
        }
        let mut k: usize = 0;
        while k < deps.len()
            invariant
                i < n,
                n == tasks@.len(),
                k <= deps@.len(),
                dsi == dep_views(deps@),
                ds_next == ds.push(dsi),
                ds.len() == i,
                ids == task_ids(tasks@),
                graph.wf(),
                graph.node_names() == names_added(ids),
                kw@.len() == n,
                forall|j: int| 0 <= j < n ==> names(#[trigger] kw@[j]@) == keywords_of(tasks@[j].description@),
                forall|a: Seq<char>, b: Seq<char>|
                    graph.edge_names().contains((a, b)) <==> exists|i2: int, k2: int, j2: int|
                        #[trigger] links(tasks@, ds_next, i2, k2, j2) && a == tasks@[j2].id@ && b
                            == tasks@[i2].id@ && (i2 < i || k2 < k),
            decreases deps@.len() - k,
        {
            let mut j: usize = 0;
            while j < n
                invariant
                    i < n,
                    n == tasks@.len(),
                    k < deps@.len(),
                    j <= n,
                    dsi == dep_views(deps@),
                    ds_next == ds.push(dsi),
                    ds.len() == i,
                    ids == task_ids(tasks@),
                    graph.wf(),
                    graph.node_names() == names_added(ids),
                    kw@.len() == n,
                    forall|j3: int| 0 <= j3 < n ==> names(#[trigger] kw@[j3]@) == keywords_of(tasks@[j3].description@),
                    forall|a: Seq<char>, b: Seq<char>|
                        graph.edge_names().contains((a, b)) <==> exists|i2: int, k2: int, j2: int|
                            #[trigger] links(tasks@, ds_next, i2, k2, j2) && a == tasks@[j2].id@ && b
                                == tasks@[i2].id@ && (i2 < i || k2 < k || (k2 == k && j2 < j)),
                decreases n - j,
            {
                let ghost old_edges = graph.edge_names();
                proof {
                    assert(forall|a: Seq<char>, b: Seq<char>|
                        old_edges.contains((a, b)) <==> exists|i2: int, k2: int, j2: int|
                            #[trigger] links(tasks@, ds_next, i2, k2, j2) && a == tasks@[j2].id@ && b
                                == tasks@[i2].id@ && (i2 < i || k2 < k || (k2 == k && j2 < j)));
                }
                let m = i != j && shares_keyword_exec(&deps[k].prerequisite_keywords, &kw[j]);
                proof {
                    assert(dsi[k as int] == deps@[k as int]@);
                    assert(ds_next[i as int] == dsi);
                    assert(m == links(tasks@, ds_next, i as int, k as int, j as int));
                }
                if m {
                    let ghost from = tasks@[j as int].id@;
                    let ghost to = tasks@[i as int].id@;
                    proof {
                        lemma_names_added_contains(ids, j as int);
                        lemma_names_added_contains(ids, i as int);
                        assert(ids[j as int] == from);
                        assert(ids[i as int] == to);
                    }
                    graph.add_edge(tasks[j].id.clone(), tasks[i].id.clone());
                    proof {
                        assert(graph.edge_names() =~= old_edges.push((from, to)));
                    }
                }
                proof {
                    let ne = graph.edge_names();
                    assert forall|a: Seq<char>, b: Seq<char>|
                        ne.contains((a, b)) <==> exists|i2: int, k2: int, j2: int|
                            #[trigger] links(tasks@, ds_next, i2, k2, j2) && a == tasks@[j2].id@ && b
                                == tasks@[i2].id@ && (i2 < i || k2 < k || (k2 == k && j2 < j + 1)) by {
                        if ne.contains((a, b)) {
                            let x = ne.index_of((a, b));
                            if x < old_edges.len() {
                                assert(old_edges[x] == (a, b));
                                assert(old_edges.contains((a, b)));
                            } else {
                                assert(m);
                                assert(a == tasks@[j as int].id@ && b == tasks@[i as int].id@);
                                assert(links(tasks@, ds_next, i as int, k as int, j as int));
                            }
                        }
                        if exists|i2: int, k2: int, j2: int|
                            #[trigger] links(tasks@, ds_next, i2, k2, j2) && a == tasks@[j2].id@ && b
                                == tasks@[i2].id@ && (i2 < i || k2 < k || (k2 == k && j2 < j + 1)) {
                            let (i2, k2, j2) = choose|i2: int, k2: int, j2: int|
                                #[trigger] links(tasks@, ds_next, i2, k2, j2) && a == tasks@[j2].id@ && b
                                    == tasks@[i2].id@ && (i2 < i || k2 < k || (k2 == k && j2 < j + 1));
                            if i2 < i || k2 < k || (k2 == k && j2 < j) {
                                assert(old_edges.contains((a, b)));
                                let x = old_edges.index_of((a, b));
                                if m {
                                    assert(ne[x] == (a, b));
                                }
                            } else {
                                assert(i2 == i && k2 == k && j2 == j);
                                assert(m);
                                assert(ne[old_edges.len() as int] == (a, b));
                            }
                        }
                    }
                }
                j += 1;
            }
            k += 1;
        }
        proof {
            ds = ds_next;
            assert forall|x: int|
                0 <= x < i + 1 implies is_rule_dependency_result(
                    rule_views(rules@),
                    tasks@[x].description@,
                    #[trigger] ds[x],
                ) by {
                if x < i {
                    assert(ds[x] == ds_next[x]);
                }
            }
        }
        i += 1;
    }
    proof {
        assert(graph_explained_by(rules@, tasks@, graph.edge_names(), ds));
    }
    graph
}

} // verus!
