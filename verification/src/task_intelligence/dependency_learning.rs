//! Learning dependency rules from the order in which past tasks ran: when a
//! task naming one keyword often starts within a week after a task naming
//! another finished, the second keyword is learned to come before the first.

use vstd::prelude::*;

use crate::task_intelligence::dependency_rules::{default_rule_views, default_rules, rule_views, DependencyRule, RuleView};
use crate::task_intelligence::features::{extract_keywords, keywords_of};
use crate::text::{concat_str, names, str_eq};

verus! {

/// How an execution of a task ended.
#[derive(Debug, Clone, Copy, PartialEq, Eq, Hash, Structural)]
pub enum TaskOutcome {
    Success,
    Failure,
    Timeout,
    Cancelled,
}

/// A past (successful) execution as the learner sees it: its description and, in
/// seconds since the epoch, when it started and when it finished.
#[derive(Debug)]
pub struct ExecutionRecord {
    pub description: String,
    pub started_at: i64,
    pub completed_at: Option<i64>,
}

/// Seconds in a week.
pub const WEEK_SECONDS: i64 = 604800;

/// A task that started `later_start` falls within a week after one that
/// finished `earlier_end`: the whole hours between them (truncated toward
/// zero) are at least 0 and fewer than 168.
pub open spec fn within_week(earlier_end: int, later_start: int) -> bool {
    -3600 < later_start - earlier_end < 604800
}

/// Keywords of an execution's description.
pub open spec fn kw(e: ExecutionRecord) -> Seq<Seq<char>> {
    keywords_of(e.description@)
}

/// A keyword pair: prerequisite, dependent.
pub type KeywordPair = (Seq<char>, Seq<char>);

/// The pairs of `a` with each of `kb`.
pub open spec fn pairs_with(a: Seq<char>, kb: Seq<Seq<char>>) -> Seq<KeywordPair> {
    Seq::new(kb.len(), |t: int| (a, kb[t]))
}

/// The pairs of the first `m` of `ka` with each of `kb`, in order.
pub open spec fn pairs_upto(ka: Seq<Seq<char>>, kb: Seq<Seq<char>>, m: int) -> Seq<KeywordPair>
    decreases m,
{
    if m <= 0 {
        Seq::empty()
    } else {
        pairs_upto(ka, kb, m - 1) + pairs_with(ka[m - 1], kb)
    }
}

/// Observations of execution `i` followed by executions `i + 1` up to
/// (not including) `j`.
pub open spec fn observed_after(es: Seq<ExecutionRecord>, i: int, j: int) -> Seq<KeywordPair>
    decreases j - i,
{
    if j <= i + 1 {
        Seq::empty()
    } else {
        let prev = observed_after(es, i, j - 1);
        let e = es[i];
        let f = es[j - 1];
        match e.completed_at {
            Some(end) => if within_week(end as int, f.started_at as int) {
                prev + pairs_upto(kw(e), kw(f), kw(e).len() as int)
            } else {
                prev
            },
            None => prev,
        }
    }
}

/// All keyword pairs observed among the first `i` executions and those
/// after them, in the order of the executions.
pub open spec fn observed_upto(es: Seq<ExecutionRecord>, i: int) -> Seq<KeywordPair>
    decreases i,
{
    if i <= 0 {
        Seq::empty()
    } else {
        observed_upto(es, i - 1) + observed_after(es, i - 1, es.len() as int)
    }
}

/// All keyword pairs observed in the history.
pub open spec fn observations(es: Seq<ExecutionRecord>) -> Seq<KeywordPair> {
    observed_upto(es, es.len() as int)
}

/// Occurrences of `x` in `s`.
pub open spec fn pair_count(s: Seq<KeywordPair>, x: KeywordPair) -> nat
    decreases s.len(),
{
    if s.len() == 0 {
        0
    } else {
        pair_count(s.drop_last(), x) + if s.last() == x {
            1nat
        } else {
            0nat
        }
    }
}

/// The characters of a pair of strings.
pub open spec fn pair_views(s: Seq<(String, String)>) -> Seq<KeywordPair> {
    s.map_values(|p: (String, String)| (p.0@, p.1@))
}

/// A keyword pair seen at least three times, with its count.
#[derive(Debug)]
pub struct TemporalPattern {
    pub prerequisite: String,
    pub dependent: String,
    pub occurrences: usize,
}

proof fn lemma_pair_count_append(s: Seq<KeywordPair>, t: Seq<KeywordPair>, x: KeywordPair)
    ensures
        pair_count(s + t, x) == pair_count(s, x) + pair_count(t, x),
    decreases t.len(),
{
    if t.len() == 0 {
        assert(s + t =~= s);
    } else {
        assert((s + t).drop_last() =~= s + t.drop_last());
        lemma_pair_count_append(s, t.drop_last(), x);
    }
}

proof fn lemma_pair_count_absent(s: Seq<KeywordPair>, x: KeywordPair)
    requires
        !s.contains(x),
    ensures
        pair_count(s, x) == 0,
    decreases s.len(),
{
    if s.len() > 0 {
        assert(!s.drop_last().contains(x)) by {
            if s.drop_last().contains(x) {
                let w = choose|w: int| 0 <= w < s.drop_last().len() && s.drop_last()[w] == x;
                assert(s[w] == x);
            }
        }
        lemma_pair_count_absent(s.drop_last(), x);
    }
}

/// The keyword pairs observed in the history, in order.
pub fn collect_observations(es: &Vec<ExecutionRecord>) -> (obs: Vec<(String, String)>)
    ensures
        pair_views(obs@) == observations(es@),
{
    let n = es.len();
    let mut keywords: Vec<Vec<String>> = Vec::new();
    let mut k: usize = 0;
    while k < n
        invariant
            k <= n,
            n == es@.len(),
            keywords@.len() == k,
            forall|q: int| 0 <= q < k ==> names(#[trigger] keywords@[q]@) == kw(es@[q]),
        decreases n - k,
    {
        keywords.push(extract_keywords(es[k].description.as_str()));
        k += 1;
    }
    let mut obs: Vec<(String, String)> = Vec::new();
    let mut i: usize = 0;
    while i < n
        invariant
            i <= n,
            n == es@.len(),
            keywords@.len() == n,
            forall|q: int| 0 <= q < n ==> names(#[trigger] keywords@[q]@) == kw(es@[q]),
            pair_views(obs@) == observed_upto(es@, i as int),
        decreases n - i,
    {
        let ghost base = observed_upto(es@, i as int);
        let mut j: usize = i + 1;
        while j < n
            invariant
                i < n,
                i + 1 <= j <= n,
                n == es@.len(),
                keywords@.len() == n,
                forall|q: int| 0 <= q < n ==> names(#[trigger] keywords@[q]@) == kw(es@[q]),
                base == observed_upto(es@, i as int),
                pair_views(obs@) == base + observed_after(es@, i as int, j as int),
            decreases n - j,
        {
            let ghost mid = base + observed_after(es@, i as int, j as int);
            let within = match es[i].completed_at {
                Some(end) => {
                    let d = es[j].started_at as i128 - end as i128;
                    -3600 < d && d < 604800
                },
                None => false,
            };
            if within {
                let ka = &keywords[i];
                let kb = &keywords[j];
                proof {
                    assert(names(ka@) == kw(es@[i as int]));
                    assert(names(kb@) == kw(es@[j as int]));
                }
                let mut a: usize = 0;
                while a < ka.len()
                    invariant
                        a <= ka@.len(),
                        names(ka@) == kw(es@[i as int]),
                        names(kb@) == kw(es@[j as int]),
                        pair_views(obs@) == mid + pairs_upto(names(ka@), names(kb@), a as int),
                    decreases ka@.len() - a,
                {
                    let ghost row_base = pair_views(obs@);
                    let mut b: usize = 0;
                    while b < kb.len()
                        invariant
                            a < ka@.len(),
                            b <= kb@.len(),
                            pair_views(obs@) == row_base + pairs_with(names(ka@)[a as int], names(kb@)).take(
                                b as int,
                            ),
                        decreases kb@.len() - b,
                    {
                        let ghost before = obs@;
                        obs.push((ka[a].clone(), kb[b].clone()));
                        proof {
                            assert(obs@ == before.push((ka@[a as int], kb@[b as int])));
                            assert(pair_views(obs@) =~= pair_views(before).push(
                                (ka@[a as int]@, kb@[b as int]@),
                            ));
                            assert(names(ka@)[a as int] == ka@[a as int]@);
                            assert(names(kb@)[b as int] == kb@[b as int]@);
                            assert(row_base + pairs_with(names(ka@)[a as int], names(kb@)).take(b + 1) =~= (row_base
                                + pairs_with(names(ka@)[a as int], names(kb@)).take(b as int)).push(
                                (ka@[a as int]@, kb@[b as int]@),
                            ));
                        }
                        b += 1;
                    }
                    proof {
                        assert(pairs_with(names(ka@)[a as int], names(kb@)).take(kb@.len() as int) =~= pairs_with(
                            names(ka@)[a as int],
                            names(kb@),
                        ));
                        assert(mid + pairs_upto(names(ka@), names(kb@), a + 1) =~= mid + pairs_upto(
                            names(ka@),
                            names(kb@),
                            a as int,
                        ) + pairs_with(names(ka@)[a as int], names(kb@)));
                    }
                    a += 1;
                }
                proof {
                    assert(base + observed_after(es@, i as int, j + 1) =~= mid + pairs_upto(
                        kw(es@[i as int]),
                        kw(es@[j as int]),
                        kw(es@[i as int]).len() as int,
                    ));
                }
            } else {
                proof {
                    assert(observed_after(es@, i as int, j + 1) == observed_after(es@, i as int, j as int));
                }
            }
            j += 1;
        }
        proof {
            assert(observed_upto(es@, i + 1) =~= base + observed_after(es@, i as int, n as int));
        }
        i += 1;
    }
    obs
}


/// Rules of confidence `c`.
pub open spec fn rule_conf_pred(c: u32) -> spec_fn(RuleView) -> bool {
    |r: RuleView| r.3 == c
}

/// `out` is `input` sorted by decreasing confidence, keeping the input order
/// among rules of equal confidence.
pub open spec fn is_stable_rule_sort(out: Seq<RuleView>, input: Seq<RuleView>) -> bool {
    &&& forall|a: int, b: int| 0 <= a < b < out.len() ==> out[a].3 >= out[b].3
    &&& forall|c: u32| #[trigger] out.filter(rule_conf_pred(c)) == input.filter(rule_conf_pred(c))
}

proof fn lemma_no_rule_matches(s: Seq<RuleView>, pred: spec_fn(RuleView) -> bool)
    requires
        forall|k: int| 0 <= k < s.len() ==> !pred(#[trigger] s[k]),
    ensures
        s.filter(pred) == Seq::<RuleView>::empty(),
    decreases s.len(),
{
    reveal_with_fuel(Seq::filter, 1);
    if s.len() > 0 {
        assert forall|k: int| 0 <= k < s.drop_last().len() implies !pred(#[trigger] s.drop_last()[k]) by {
            assert(s.drop_last()[k] == s[k]);
        }
        lemma_no_rule_matches(s.drop_last(), pred);
        assert(!pred(s[s.len() - 1]));
    }
    assert(s.filter(pred) =~= Seq::<RuleView>::empty());
}

/// Inserts `x` into `out`, after every entry of at least its confidence.
fn insert_rule_by_confidence(out: &mut Vec<DependencyRule>, x: DependencyRule)
    requires
        forall|a: int, b: int|
            0 <= a < b < old(out)@.len() ==> old(out)@[a].confidence_ppm >= old(out)@[b].confidence_ppm,
    ensures
        forall|a: int, b: int|
            0 <= a < b < final(out)@.len() ==> final(out)@[a].confidence_ppm
                >= final(out)@[b].confidence_ppm,
        forall|c: u32|
            #[trigger] rule_views(final(out)@).filter(rule_conf_pred(c)) == if x@.3 == c {
                rule_views(old(out)@).filter(rule_conf_pred(c)).push(x@)
            } else {
                rule_views(old(out)@).filter(rule_conf_pred(c))
            },
{
    let ghost v = rule_views(out@);
    let mut p: usize = 0;
    while p < out.len() && out[p].confidence_ppm >= x.confidence_ppm
        invariant
            p <= out@.len(),
            forall|k: int| 0 <= k < p ==> #[trigger] out@[k].confidence_ppm >= x.confidence_ppm,
        decreases out@.len() - p,
    {
        p += 1;
    }
    let ghost xv = x@;
    out.insert(p, x);
    proof {
        let w = rule_views(out@);
        assert(w =~= v.subrange(0, p as int) + seq![xv] + v.subrange(p as int, v.len() as int));
        assert(v =~= v.subrange(0, p as int) + v.subrange(p as int, v.len() as int));
        assert forall|k: int| p <= k < v.len() implies v[k].3 < xv.3 by {
            if p < k {
                assert(old(out)@[p as int].confidence_ppm >= old(out)@[k].confidence_ppm);
            }
        }
        assert forall|c: u32| #[trigger] w.filter(rule_conf_pred(c)) == if xv.3 == c {
            v.filter(rule_conf_pred(c)).push(xv)
        } else {
            v.filter(rule_conf_pred(c))
        } by {
            let lo = v.subrange(0, p as int);
            let hi = v.subrange(p as int, v.len() as int);
            Seq::filter_distributes_over_add(lo + seq![xv], hi, rule_conf_pred(c));
            Seq::filter_distributes_over_add(lo, seq![xv], rule_conf_pred(c));
            Seq::filter_distributes_over_add(lo, hi, rule_conf_pred(c));
            reveal_with_fuel(Seq::filter, 2);
            assert(seq![xv].drop_last() =~= Seq::<RuleView>::empty());
            if xv.3 == c {
                assert forall|k: int| 0 <= k < hi.len() implies !rule_conf_pred(c)(#[trigger] hi[k]) by {
                    assert(hi[k] == v[p + k]);
                }
                lemma_no_rule_matches(hi, rule_conf_pred(c));
                assert(seq![xv].filter(rule_conf_pred(c)) =~= seq![xv]);
            } else {
                assert(seq![xv].filter(rule_conf_pred(c)) =~= Seq::<RuleView>::empty());
            }
        }
        assert forall|a: int, b: int|
            0 <= a < b < out@.len() implies out@[a].confidence_ppm >= out@[b].confidence_ppm by {
            assert(out@[a]@ == w[a]);
            assert(out@[b]@ == w[b]);
            if b < p {
                assert(old(out)@[a].confidence_ppm >= old(out)@[b].confidence_ppm);
            } else if a > p {
                assert(old(out)@[a - 1].confidence_ppm >= old(out)@[b - 1].confidence_ppm);
            } else if a == p {
                assert(w[b] == v[b - 1]);
            } else if b == p {
                assert(w[a] == v[a]);
            } else {
                assert(w[a] == v[a]);
                assert(w[b] == v[b - 1]);
            }
        }
    }
}

/// Sorts by decreasing confidence, keeping the input order among equals.
pub fn sort_rules_by_confidence(input: Vec<DependencyRule>) -> (out: Vec<DependencyRule>)
    ensures
        is_stable_rule_sort(rule_views(out@), rule_views(input@)),
{
    let ghost iv = rule_views(input@);
    let mut rest = input;
    let mut out: Vec<DependencyRule> = Vec::new();
    let ghost mut i: int = 0;
    while rest.len() > 0
        invariant
            0 <= i <= iv.len(),
            rule_views(rest@) == iv.subrange(i, iv.len() as int),
            forall|a: int, b: int|
                0 <= a < b < out@.len() ==> out@[a].confidence_ppm >= out@[b].confidence_ppm,
            forall|c: u32| #[trigger] rule_views(out@).filter(rule_conf_pred(c)) == iv.take(i).filter(rule_conf_pred(c)),
        decreases rest@.len(),
    {
        let ghost old_rest = rest@;
        proof {
            assert(rule_views(old_rest).len() == old_rest.len());
            assert(rule_views(old_rest)[0] == old_rest[0]@);
        }
        let x = rest.remove(0);
        proof {
            assert(x@ == iv[i]);
            assert forall|k: int| 0 <= k < rest@.len() implies rule_views(rest@)[k] == iv[i + 1 + k] by {
                assert(rest@[k] == old_rest[k + 1]);
                assert(rule_views(old_rest)[k + 1] == old_rest[k + 1]@);
            }
            assert(rule_views(rest@) =~= iv.subrange(i + 1, iv.len() as int));
            assert(iv.take(i + 1).drop_last() =~= iv.take(i));
            assert(iv.take(i + 1).last() == x@);
            reveal_with_fuel(Seq::filter, 1);
        }
        insert_rule_by_confidence(&mut out, x);
        proof {
            i = i + 1;
        }
    }
    proof {
        assert(iv.take(i) =~= iv);
        assert forall|a: int, b: int| 0 <= a < b < rule_views(out@).len() implies rule_views(out@)[a].3
            >= rule_views(out@)[b].3 by {
            assert(rule_views(out@)[a] == out@[a]@);
            assert(rule_views(out@)[b] == out@[b]@);
        }
    }
    out
}



/// The pairs of `s`, each once, in order of first appearance.
pub open spec fn distinct_pairs(s: Seq<KeywordPair>) -> Seq<KeywordPair>
    decreases s.len(),
{
    if s.len() == 0 {
        Seq::empty()
    } else {
        let prev = distinct_pairs(s.drop_last());
        if prev.contains(s.last()) {
            prev
        } else {
            prev.push(s.last())
        }
    }
}

/// Pairs observed at least three times.
pub open spec fn frequent_pred(s: Seq<KeywordPair>) -> spec_fn(KeywordPair) -> bool {
    |x: KeywordPair| pair_count(s, x) >= 3
}

/// The frequent pairs of the observations, in order of first appearance.
pub open spec fn frequent_pairs(s: Seq<KeywordPair>) -> Seq<KeywordPair> {
    distinct_pairs(s).filter(frequent_pred(s))
}

proof fn lemma_pair_count_bound(s: Seq<KeywordPair>, x: KeywordPair)
    ensures
        pair_count(s, x) <= s.len(),
    decreases s.len(),
{
    if s.len() > 0 {
        lemma_pair_count_bound(s.drop_last(), x);
    }
}

proof fn lemma_contains_push(s: Seq<KeywordPair>, y: KeywordPair, x: KeywordPair)
    ensures
        s.push(y).contains(x) == (s.contains(x) || y == x),
{
    if s.push(y).contains(x) {
        let w = choose|w: int| 0 <= w < s.push(y).len() && s.push(y)[w] == x;
        if w < s.len() {
            assert(s[w] == x);
        }
    }
    if s.contains(x) {
        let w = choose|w: int| 0 <= w < s.len() && s[w] == x;
        assert(s.push(y)[w] == x);
    }
    if y == x {
        assert(s.push(y)[s.len() as int] == x);
    }
}

proof fn lemma_distinct_pairs_contains(s: Seq<KeywordPair>, x: KeywordPair)
    ensures
        distinct_pairs(s).contains(x) == s.contains(x),
    decreases s.len(),
{
    if s.len() > 0 {
        let prev = distinct_pairs(s.drop_last());
        lemma_distinct_pairs_contains(s.drop_last(), x);
        assert(s =~= s.drop_last().push(s.last()));
        lemma_contains_push(s.drop_last(), s.last(), x);
        if !prev.contains(s.last()) {
            lemma_contains_push(prev, s.last(), x);
        }
    } else {
        assert(!s.contains(x));
        assert(!distinct_pairs(s).contains(x));
    }
}

proof fn lemma_distinct_pairs_unique(s: Seq<KeywordPair>)
    ensures
        distinct_pairs(s).no_duplicates(),
    decreases s.len(),
{
    if s.len() > 0 {
        lemma_distinct_pairs_unique(s.drop_last());
    }
}

/// Index of the pair `(a, b)` among `entries`, if present.
fn find_pair(entries: &Vec<(String, String, usize)>, a: &String, b: &String) -> (r: Option<usize>)
    ensures
        match r {
            Some(k) => k < entries@.len() && entries@[k as int].0@ == a@ && entries@[k as int].1@ == b@,
            None => forall|k: int| 0 <= k < entries@.len() ==> !(#[trigger] entries@[k].0@ == a@ && entries@[k].1@ == b@),
        },
{
    let mut k: usize = 0;
    while k < entries.len()
        invariant
            k <= entries@.len(),
            forall|q: int| 0 <= q < k ==> !(#[trigger] entries@[q].0@ == a@ && entries@[q].1@ == b@),
        decreases entries@.len() - k,
    {
        if str_eq(entries[k].0.as_str(), a.as_str()) && str_eq(entries[k].1.as_str(), b.as_str()) {
            return Some(k);
        }
        k += 1;
    }
    None
}

/// The characters of each tallied pair.
pub open spec fn tally_pairs(e: Seq<(String, String, usize)>) -> Seq<KeywordPair> {
    e.map_values(|t: (String, String, usize)| (t.0@, t.1@))
}

/// The pairs observed at least three times, in order of first appearance,
/// with their counts.
pub fn frequent_patterns(obs: &Vec<(String, String)>) -> (r: Vec<TemporalPattern>)
    ensures
        r@.len() == frequent_pairs(pair_views(obs@)).len(),
        forall|k: int|
            0 <= k < r@.len() ==> {
                &&& (#[trigger] r@[k]).prerequisite@ == frequent_pairs(pair_views(obs@))[k].0
                &&& r@[k].dependent@ == frequent_pairs(pair_views(obs@))[k].1
                &&& r@[k].occurrences == pair_count(pair_views(obs@), frequent_pairs(pair_views(obs@))[k])
            },
{
    let ghost pv = pair_views(obs@);
    let mut entries: Vec<(String, String, usize)> = Vec::new();
    let mut i: usize = 0;
    while i < obs.len()
        invariant
            i <= obs@.len(),
            pv == pair_views(obs@),
            tally_pairs(entries@) == distinct_pairs(pv.take(i as int)),
            forall|k: int| 0 <= k < entries@.len() ==> (#[trigger] entries@[k]).2 == pair_count(
                pv.take(i as int),
                tally_pairs(entries@)[k],
            ),
        decreases obs@.len() - i,
    {
        let ghost pre = pv.take(i as int);
        let ghost next = pv.take(i + 1);
        let ghost x = pv[i as int];
        proof {
            assert(next.drop_last() =~= pre);
            assert(next.last() == x);
            assert(x == (obs@[i as int].0@, obs@[i as int].1@));
        }
        let ghost old_entries = entries@;
        match find_pair(&entries, &obs[i].0, &obs[i].1) {
            Some(k) => {
                proof {
                    lemma_pair_count_bound(pre, x);
                    assert(tally_pairs(entries@)[k as int] == x);
                    lemma_distinct_pairs_unique(pre);
                }
                let (a, b, c) = (entries[k].0.clone(), entries[k].1.clone(), entries[k].2);
                entries.set(k, (a, b, c + 1));
                proof {
                    assert(tally_pairs(entries@) =~= tally_pairs(old_entries));
                    assert(distinct_pairs(pre).contains(x)) by {
                        assert(tally_pairs(old_entries)[k as int] == x);
                    }
                    assert forall|q: int| 0 <= q < entries@.len() implies (#[trigger] entries@[q]).2
                        == pair_count(next, tally_pairs(entries@)[q]) by {
                        assert(tally_pairs(entries@)[q] == tally_pairs(old_entries)[q]);
                        if q != k {
                            assert(entries@[q] == old_entries[q]);
                            assert(distinct_pairs(pre)[q] != distinct_pairs(pre)[k as int]);
                        }
                    }
                }
            },
            None => {
                proof {
                    assert(!distinct_pairs(pre).contains(x)) by {
                        if distinct_pairs(pre).contains(x) {
                            let w = choose|w: int| 0 <= w < distinct_pairs(pre).len() && distinct_pairs(pre)[w] == x;
                            assert(tally_pairs(entries@)[w] == x);
                            assert(entries@[w].0@ == x.0 && entries@[w].1@ == x.1);
                        }
                    }
                    lemma_distinct_pairs_contains(pre, x);
                    lemma_pair_count_absent(pre, x);
                }
                entries.push((obs[i].0.clone(), obs[i].1.clone(), 1));
                proof {
                    assert(tally_pairs(entries@) =~= tally_pairs(old_entries).push(x));
                    assert forall|q: int| 0 <= q < entries@.len() implies (#[trigger] entries@[q]).2
                        == pair_count(next, tally_pairs(entries@)[q]) by {
                        if q < old_entries.len() {
                            assert(entries@[q] == old_entries[q]);
                            assert(tally_pairs(entries@)[q] == tally_pairs(old_entries)[q]);
                            assert(tally_pairs(old_entries)[q] != x) by {
                                assert(distinct_pairs(pre)[q] == tally_pairs(old_entries)[q]);
                            }
                        }
                    }
                }
            },
        }
        i += 1;
    }
    proof {
        assert(pv.take(obs@.len() as int) =~= pv);
    }
    let ghost all = distinct_pairs(pv);
    let mut r: Vec<TemporalPattern> = Vec::new();
    let mut k: usize = 0;
    while k < entries.len()
        invariant
            k <= entries@.len(),
            tally_pairs(entries@) == all,
            all == distinct_pairs(pv),
            forall|q: int| 0 <= q < entries@.len() ==> (#[trigger] entries@[q]).2 == pair_count(pv, all[q]),
            r@.len() == all.take(k as int).filter(frequent_pred(pv)).len(),
            forall|q: int|
                0 <= q < r@.len() ==> {
                    &&& (#[trigger] r@[q]).prerequisite@ == all.take(k as int).filter(frequent_pred(pv))[q].0
                    &&& r@[q].dependent@ == all.take(k as int).filter(frequent_pred(pv))[q].1
                    &&& r@[q].occurrences == pair_count(pv, all.take(k as int).filter(frequent_pred(pv))[q])
                },
        decreases entries@.len() - k,
    {
        let ghost before = r@;
        proof {
            reveal_with_fuel(Seq::filter, 1);
            assert(all.take(k + 1).drop_last() =~= all.take(k as int));
            assert(all.take(k + 1).last() == all[k as int]);
            assert(all[k as int] == tally_pairs(entries@)[k as int]);
        }
        if entries[k].2 >= 3 {
            r.push(
                TemporalPattern {
                    prerequisite: entries[k].0.clone(),
                    dependent: entries[k].1.clone(),
                    occurrences: entries[k].2,
                },
            );
        }
        k += 1;
    }
    proof {
        assert(all.take(entries@.len() as int) =~= all);
    }
    r
}


/// Confidence, in parts per million, of a pair seen `count` times among
/// `executions` executions: their ratio, at most 0.9.
pub open spec fn learned_confidence(count: nat, executions: nat) -> u32 {
    let ppm = count * 1_000_000 / executions;
    if ppm < 900_000 {
        ppm as u32
    } else {
        900_000u32
    }
}

/// The rule learned from a frequent pair: "<prerequisite> before
/// <dependent>".
pub open spec fn learned_rule(x: KeywordPair, count: nat, executions: nat) -> RuleView {
    (x.0 + " before "@ + x.1, seq![x.0], seq![x.1], learned_confidence(count, executions), count as usize)
}

/// Index of the first rule named `name`.
pub open spec fn first_named(rules: Seq<RuleView>, name: Seq<char>) -> Option<int>
    decreases rules.len(),
{
    if rules.len() == 0 {
        None
    } else {
        match first_named(rules.drop_last(), name) {
            Some(k) => Some(k),
            None => if rules.last().0 == name {
                Some(rules.len() - 1)
            } else {
                None
            },
        }
    }
}

/// A learned rule joins the rules: it replaces the first rule of its name
/// when more confident than it, is dropped when not, and is added when no
/// rule has its name.
pub open spec fn merge_rule(rules: Seq<RuleView>, r: RuleView) -> Seq<RuleView> {
    match first_named(rules, r.0) {
        Some(k) => if r.3 > rules[k].3 {
            rules.update(k, r)
        } else {
            rules
        },
        None => rules.push(r),
    }
}

/// The learned rules joined one after another.
pub open spec fn merge_all(rules: Seq<RuleView>, learned: Seq<RuleView>) -> Seq<RuleView>
    decreases learned.len(),
{
    if learned.len() == 0 {
        rules
    } else {
        merge_rule(merge_all(rules, learned.drop_last()), learned.last())
    }
}

proof fn lemma_first_named(rules: Seq<RuleView>, name: Seq<char>, p: int)
    requires
        0 <= p <= rules.len(),
        forall|k: int| 0 <= k < p ==> (#[trigger] rules[k]).0 != name,
    ensures
        p < rules.len() && rules[p].0 == name ==> first_named(rules, name) == Some(p),
        p == rules.len() ==> first_named(rules, name) is None,
    decreases rules.len(),
{
    if rules.len() > 0 {
        let d = rules.drop_last();
        if p < rules.len() {
            if p < d.len() {
                assert forall|k: int| 0 <= k < p implies (#[trigger] d[k]).0 != name by {
                    assert(d[k] == rules[k]);
                }
                lemma_first_named(d, name, p);
                assert(d[p] == rules[p]);
            } else {
                assert forall|k: int| 0 <= k < d.len() implies (#[trigger] d[k]).0 != name by {
                    assert(d[k] == rules[k]);
                }
                lemma_first_named(d, name, d.len() as int);
            }
        } else {
            assert forall|k: int| 0 <= k < d.len() implies (#[trigger] d[k]).0 != name by {
                assert(d[k] == rules[k]);
            }
            lemma_first_named(d, name, d.len() as int);
        }
    }
}

/// Joins a learned rule to the rules, as `merge_rule` says.
fn merge_into(rules: &mut Vec<DependencyRule>, r: DependencyRule)
    ensures
        rule_views(final(rules)@) == merge_rule(rule_views(old(rules)@), r@),
{
    let ghost v = rule_views(rules@);
    let mut p: usize = 0;
    while p < rules.len()
        invariant
            p <= rules@.len(),
            v == rule_views(rules@),
            v == rule_views(old(rules)@),
            forall|k: int| 0 <= k < p ==> (#[trigger] v[k]).0 != r@.0,
        decreases rules@.len() - p,
    {
        proof {
            assert(v[p as int] == rules@[p as int]@);
        }
        if str_eq(rules[p].name.as_str(), r.name.as_str()) {
            proof {
                lemma_first_named(v, r@.0, p as int);
            }
            if r.confidence_ppm > rules[p].confidence_ppm {
                let ghost rv = r@;
                rules.set(p, r);
                proof {
                    assert(rule_views(rules@) =~= v.update(p as int, rv));
                }
            }
            return;
        }
        p += 1;
    }
    proof {
        lemma_first_named(v, r@.0, p as int);
    }
    let ghost rv = r@;
    rules.push(r);
    proof {
        assert(rule_views(rules@) =~= v.push(rv));
    }
}

/// The rule learned from a frequent pattern.
fn rule_from_pattern(p: &TemporalPattern, executions: usize) -> (r: DependencyRule)
    requires
        executions > 0,
    ensures
        r@ == learned_rule((p.prerequisite@, p.dependent@), p.occurrences as nat, executions as nat),
{
    let a = concat_str(p.prerequisite.as_str(), " before ");
    let name = concat_str(a.as_str(), p.dependent.as_str());
    let pre = vec![p.prerequisite.clone()];
    let dep = vec![p.dependent.clone()];
    let ppm: u128 = (p.occurrences as u128) * 1_000_000 / (executions as u128);
    let confidence_ppm: u32 = if ppm < 900_000 {
        ppm as u32
    } else {
        900_000
    };
    proof {
        assert(names(pre@) =~= seq![p.prerequisite@]);
        assert(names(dep@) =~= seq![p.dependent@]);
    }
    DependencyRule {
        name,
        prerequisite_keywords: pre,
        dependent_keywords: dep,
        confidence_ppm,
        occurrence_count: p.occurrences,
    }
}

/// The rules learned from the frequent pairs of the observations.
pub open spec fn learned_rules(obs: Seq<KeywordPair>, executions: nat) -> Seq<RuleView> {
    frequent_pairs(obs).map_values(|x: KeywordPair| learned_rule(x, pair_count(obs, x), executions))
}

/// The rules after learning from a history: with fewer than ten executions
/// the rules stay as they are; otherwise the rules learned from keyword
/// pairs seen at least three times (a task naming the first finishing
/// within a week before one naming the second starts) are joined to them,
/// and all are sorted by decreasing confidence, equals keeping their order.
pub open spec fn is_trained(out: Seq<RuleView>, rules: Seq<RuleView>, es: Seq<ExecutionRecord>) -> bool {
    if es.len() < 10 {
        out == rules
    } else {
        is_stable_rule_sort(out, merge_all(rules, learned_rules(observations(es), es.len() as nat)))
    }
}

/// Learns dependency rules from a history of executions, as `is_trained`
/// describes.
pub fn train_rules(rules: Vec<DependencyRule>, es: &Vec<ExecutionRecord>) -> (out: Vec<DependencyRule>)
    ensures
        is_trained(rule_views(out@), rule_views(rules@), es@),
{
    if es.len() < 10 {
        return rules;
    }
    let obs = collect_observations(es);
    let patterns = frequent_patterns(&obs);
    let ghost pv = pair_views(obs@);
    let ghost fp = frequent_pairs(pv);
    let ghost learned = learned_rules(pv, es@.len() as nat);
    let ghost base = rule_views(rules@);
    let mut merged = rules;
    let mut k: usize = 0;
    while k < patterns.len()
        invariant
            k <= patterns@.len(),
            es@.len() >= 10,
            patterns@.len() == fp.len(),
            fp == frequent_pairs(pv),
            learned == learned_rules(pv, es@.len() as nat),
            forall|q: int|
                0 <= q < patterns@.len() ==> {
                    &&& (#[trigger] patterns@[q]).prerequisite@ == fp[q].0
                    &&& patterns@[q].dependent@ == fp[q].1
                    &&& patterns@[q].occurrences == pair_count(pv, fp[q])
                },
            rule_views(merged@) == merge_all(base, learned.take(k as int)),
        decreases patterns@.len() - k,
    {
        let r = rule_from_pattern(&patterns[k], es.len());
        proof {
            assert(learned.take(k + 1).drop_last() =~= learned.take(k as int));
            assert(learned.take(k + 1).last() == learned[k as int]);
            assert(learned[k as int] == learned_rule(fp[k as int], pair_count(pv, fp[k as int]), es@.len() as nat));
            assert((patterns@[k as int].prerequisite@, patterns@[k as int].dependent@) == fp[k as int]);
        }
        merge_into(&mut merged, r);
        k += 1;
    }
    proof {
        assert(learned.take(patterns@.len() as int) =~= learned);
    }
    sort_rules_by_confidence(merged)
}


/// Dependency rules, starting from the built-in ones and refined by
/// training on execution history.
pub struct DependencyLearner {
    rules: Vec<DependencyRule>,
}

impl DependencyLearner {
    /// The current rules.
    pub closed spec fn rule_list(&self) -> Seq<RuleView> {
        rule_views(self.rules@)
    }

    /// A learner holding the built-in rules.
    pub fn new() -> (l: Self)
        ensures
            l.rule_list() == default_rule_views(),
    {
        DependencyLearner { rules: default_rules() }
    }

    /// Refines the rules from a history of executions.
    pub fn train(&mut self, es: &Vec<ExecutionRecord>)
        ensures
            is_trained(final(self).rule_list(), old(self).rule_list(), es@),
    {
        let mut current: Vec<DependencyRule> = Vec::new();
        std::mem::swap(&mut current, &mut self.rules);
        self.rules = train_rules(current, es);
    }

    /// Number of rules.
    pub fn get_rule_count(&self) -> (n: usize)
        ensures
            n == self.rule_list().len(),
    {
        self.rules.len()
    }

    /// The rules, for finding dependencies and building graphs.
    pub fn rules(&self) -> (r: &Vec<DependencyRule>)
        ensures
            rule_views(r@) == self.rule_list(),
    {
        &self.rules
    }
}

} // verus!
