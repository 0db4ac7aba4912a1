//! Detection of emergent behaviour in a window of recent agent interactions
//! ("agent:task" records): agents settling into roles, recurring pairs of
//! interactions, and the work becoming more uniform over time.

use vstd::prelude::*;

use crate::text::{concat_str, lemma_names_push, names, split_on, split_on_char, str_eq};

verus! {

/// The agent and task named by an interaction record: the first two
/// pieces between colons, when there are at least two.
pub open spec fn parse_interaction(s: Seq<char>) -> Option<(Seq<char>, Seq<char>)> {
    let parts = split_on(s, ':');
    if parts.len() >= 2 {
        Some((parts[0], parts[1]))
    } else {
        None
    }
}

/// Tasks handled by `agent`, in the order of the records.
pub open spec fn tasks_of(h: Seq<Seq<char>>, agent: Seq<char>) -> Seq<Seq<char>>
    decreases h.len(),
{
    if h.len() == 0 {
        Seq::empty()
    } else {
        let prev = tasks_of(h.drop_last(), agent);
        match parse_interaction(h.last()) {
            Some((a, t)) => if a == agent {
                prev.push(t)
            } else {
                prev
            },
            None => prev,
        }
    }
}

/// Agents named by the records, each once, in order of first appearance.
pub open spec fn agents_in_order(h: Seq<Seq<char>>) -> Seq<Seq<char>>
    decreases h.len(),
{
    if h.len() == 0 {
        Seq::empty()
    } else {
        let prev = agents_in_order(h.drop_last());
        match parse_interaction(h.last()) {
            Some((a, _)) => if prev.contains(a) {
                prev
            } else {
                prev.push(a)
            },
            None => prev,
        }
    }
}

/// Occurrences of `x` in `s`.
pub open spec fn count_of(s: Seq<Seq<char>>, x: Seq<char>) -> nat
    decreases s.len(),
{
    if s.len() == 0 {
        0
    } else {
        count_of(s.drop_last(), x) + if s.last() == x {
            1nat
        } else {
            0nat
        }
    }
}

/// An agent is specialised when it handled at least three tasks and more
/// than half of them are the same as its first.
pub open spec fn is_specialized(tasks: Seq<Seq<char>>) -> bool {
    tasks.len() >= 3 && count_of(tasks, tasks[0]) > tasks.len() / 2
}

/// The specialised agents, in order of first appearance.
pub open spec fn specialized_agents(h: Seq<Seq<char>>) -> Seq<Seq<char>> {
    agents_in_order(h).filter(|a: Seq<char>| is_specialized(tasks_of(h, a)))
}

/// Number of consecutive pairs looked at: all but the last two records
/// form the first element of a pair.
pub open spec fn pair_count(h: Seq<Seq<char>>) -> int {
    if h.len() >= 2 {
        h.len() - 2
    } else {
        0
    }
}

/// The pattern "first->second" of the records at `i` and `i + 1`.
pub open spec fn pair_pattern(h: Seq<Seq<char>>, i: int) -> Seq<char> {
    h[i] + "->"@ + h[i + 1]
}

/// The patterns of the consecutive pairs looked at.
pub open spec fn pair_patterns(h: Seq<Seq<char>>) -> Seq<Seq<char>> {
    Seq::new(pair_count(h) as nat, |i: int| pair_pattern(h, i))
}

/// The values of `s`, each once, in order of first appearance.
pub open spec fn distinct(s: Seq<Seq<char>>) -> Seq<Seq<char>>
    decreases s.len(),
{
    if s.len() == 0 {
        Seq::empty()
    } else {
        let prev = distinct(s.drop_last());
        if prev.contains(s.last()) {
            prev
        } else {
            prev.push(s.last())
        }
    }
}

/// The last `window` records of `h`.
pub open spec fn recent(h: Seq<Seq<char>>, window: nat) -> Seq<Seq<char>> {
    if h.len() > window {
        h.skip(h.len() - window)
    } else {
        h
    }
}

/// What one analysis found.
#[derive(Debug)]
pub struct EmergenceReport {
    /// Agents that settled into roles, when at least two did.
    pub roles: Option<Vec<String>>,
    /// The most frequent pair pattern and how often it occurred, when some
    /// pattern occurred at least three times.
    pub coordination: Option<(String, usize)>,
    /// Distinct records in the later and the earlier half of the window,
    /// when the later half is more uniform (its efficiency score is one
    /// minus their ratio).
    pub organization: Option<(usize, usize)>,
}

/// The detector: a bounded window of recent interaction records.
pub struct EmergencDetector {
    window_size: usize,
    detected: Option<EmergenceReport>,
    history: Vec<String>,
}

proof fn lemma_count_bound(s: Seq<Seq<char>>, x: Seq<char>)
    ensures
        count_of(s, x) <= s.len(),
    decreases s.len(),
{
    if s.len() > 0 {
        lemma_count_bound(s.drop_last(), x);
    }
}

proof fn lemma_distinct_bound(s: Seq<Seq<char>>)
    ensures
        distinct(s).len() <= s.len(),
    decreases s.len(),
{
    if s.len() > 0 {
        lemma_distinct_bound(s.drop_last());
    }
}

proof fn lemma_agents_bound(h: Seq<Seq<char>>)
    ensures
        agents_in_order(h).len() <= h.len(),
    decreases h.len(),
{
    if h.len() > 0 {
        lemma_agents_bound(h.drop_last());
    }
}

/// Index of `x` among `v`, if present.
fn position(v: &Vec<String>, x: &str) -> (r: Option<usize>)
    ensures
        match r {
            Some(i) => i < v@.len() && v@[i as int]@ == x@,
            None => !names(v@).contains(x@),
        },
{
    let mut i: usize = 0;
    while i < v.len()
        invariant
            i <= v@.len(),
            forall|k: int| 0 <= k < i ==> v@[k]@ != x@,
        decreases v@.len() - i,
    {
        if str_eq(v[i].as_str(), x) {
            return Some(i);
        }
        i += 1;
    }
    proof {
        if names(v@).contains(x@) {
            let k = choose|k: int| 0 <= k < names(v@).len() && names(v@)[k] == x@;
            assert(v@[k]@ == x@);
        }
    }
    None
}

/// Occurrences of `x` in `v`.
fn count_in(v: &Vec<String>, x: &str) -> (n: usize)
    ensures
        n == count_of(names(v@), x@),
{
    let ghost s = names(v@);
    let mut n: usize = 0;
    let mut i: usize = 0;
    while i < v.len()
        invariant
            i <= v@.len(),
            s == names(v@),
            n == count_of(s.take(i as int), x@),
            n <= i,
        decreases v@.len() - i,
    {
        proof {
            assert(s.take(i + 1).drop_last() =~= s.take(i as int));
            assert(s.take(i + 1).last() == v@[i as int]@);
        }
        if str_eq(v[i].as_str(), x) {
            n += 1;
        }
        i += 1;
    }
    proof {
        assert(s.take(v@.len() as int) =~= s);
    }
    n
}

/// The agent and task of a record, when it names both.
pub fn parse_interaction_record(record: &str) -> (r: Option<(String, String)>)
    ensures
        match parse_interaction(record@) {
            Some((a, t)) => r matches Some(p) && p.0@ == a && p.1@ == t,
            None => r is None,
        },
{
    let parts = split_on_char(record, ':');
    if parts.len() >= 2 {
        proof {
            assert(names(parts@)[0] == parts@[0]@);
            assert(names(parts@)[1] == parts@[1]@);
        }
        Some((parts[0].clone(), parts[1].clone()))
    } else {
        None
    }
}

/// The specialised agents of the records, in order of first appearance.
pub fn find_specialized_agents(h: &Vec<String>) -> (r: Vec<String>)
    ensures
        names(r@) == specialized_agents(names(h@)),
{
    let ghost hs = names(h@);
    let mut agents: Vec<String> = Vec::new();
    let mut tasks: Vec<Vec<String>> = Vec::new();
    let mut i: usize = 0;
    while i < h.len()
        invariant
            i <= h@.len(),
            hs == names(h@),
            agents@.len() == tasks@.len(),
            names(agents@) == agents_in_order(hs.take(i as int)),
            forall|k: int|
                0 <= k < agents@.len() ==> names(#[trigger] tasks@[k]@) == tasks_of(
                    hs.take(i as int),
                    agents@[k]@,
                ),
        decreases h@.len() - i,
    {
        let ghost pre = hs.take(i as int);
        let ghost next = hs.take(i + 1);
        proof {
            assert(next.drop_last() =~= pre);
            assert(next.last() == h@[i as int]@);
        }
        match parse_interaction_record(h[i].as_str()) {
            Some((a, t)) => {
                match position(&agents, a.as_str()) {
                    Some(k) => {
                        let ghost old_tasks = tasks@;
                        let mut tk = tasks[k].clone();
                        let ghost before = tk@;
                        tk.push(t);
                        proof {
                            lemma_names_push(before, t);
                        }
                        tasks.set(k, tk);
                        proof {
                            assert(names(agents@)[k as int] == a@);
                            assert(names(agents@).contains(a@));
                            lemma_agents_distinct(pre);
                            assert(tasks@[k as int] == tk);
                            assert forall|j: int| 0 <= j < agents@.len() implies names(
                                #[trigger] tasks@[j]@,
                            ) == tasks_of(next, agents@[j]@) by {
                                if j != k {
                                    assert(tasks@[j] == old_tasks[j]);
                                    assert(names(agents@)[j] == agents@[j]@);
                                    assert(names(agents@)[j] != names(agents@)[k as int]);
                                }
                            }
                        }
                    },
                    None => {
                        let ghost before_agents = agents@;
                        let ghost old_tasks = tasks@;
                        agents.push(a.clone());
                        let mut one: Vec<String> = Vec::new();
                        one.push(t);
                        tasks.push(one);
                        proof {
                            lemma_names_push(before_agents, a);
                            lemma_tasks_absent(pre, a@);
                            assert(names(one@) =~= seq![t@]);
                            assert(tasks_of(pre, a@) =~= Seq::<Seq<char>>::empty());
                            assert forall|j: int| 0 <= j < agents@.len() implies names(
                                #[trigger] tasks@[j]@,
                            ) == tasks_of(next, agents@[j]@) by {
                                if j < before_agents.len() {
                                    assert(tasks@[j] == old_tasks[j]);
                                    assert(names(before_agents)[j] == before_agents[j]@);
                                }
                            }
                        }
                    },
                }
            },
            None => {},
        }
        i += 1;
    }
    proof {
        assert(hs.take(h@.len() as int) =~= hs);
    }
    let ghost all = agents_in_order(hs);
    let mut r: Vec<String> = Vec::new();
    let mut k: usize = 0;
    while k < agents.len()
        invariant
            k <= agents@.len(),
            agents@.len() == tasks@.len(),
            names(agents@) == all,
            all == agents_in_order(hs),
            forall|j: int| 0 <= j < agents@.len() ==> names(#[trigger] tasks@[j]@) == tasks_of(hs, agents@[j]@),
            names(r@) == all.take(k as int).filter(|a: Seq<char>| is_specialized(tasks_of(hs, a))),
        decreases agents@.len() - k,
    {
        let ghost before = r@;
        proof {
            reveal_with_fuel(Seq::filter, 1);
            assert(all.take(k + 1).drop_last() =~= all.take(k as int));
            assert(all.take(k + 1).last() == agents@[k as int]@);
            assert(names(tasks@[k as int]@) == tasks_of(hs, agents@[k as int]@));
        }
        let n = tasks[k].len();
        if n >= 3 {
            let c = count_in(&tasks[k], tasks[k][0].as_str());
            proof {
                assert(names(tasks@[k as int]@)[0] == tasks@[k as int]@[0]@);
            }
            if c > n / 2 {
                r.push(agents[k].clone());
                proof {
                    lemma_names_push(before, agents@[k as int]);
                }
            }
        }
        k += 1;
    }
    proof {
        assert(all.take(agents@.len() as int) =~= all);
    }
    r
}

/// Each agent appears once.
proof fn lemma_agents_distinct(h: Seq<Seq<char>>)
    ensures
        agents_in_order(h).no_duplicates(),
    decreases h.len(),
{
    if h.len() > 0 {
        lemma_agents_distinct(h.drop_last());
    }
}

/// An agent that has not appeared yet has no tasks.
proof fn lemma_tasks_absent(h: Seq<Seq<char>>, a: Seq<char>)
    requires
        !agents_in_order(h).contains(a),
    ensures
        tasks_of(h, a) == Seq::<Seq<char>>::empty(),
    decreases h.len(),
{
    if h.len() > 0 {
        let prev = agents_in_order(h.drop_last());
        match parse_interaction(h.last()) {
            Some((b, _)) => {
                if prev.contains(b) {
                } else {
                    assert(agents_in_order(h)[prev.len() as int] == b);
                }
                assert(!prev.contains(a)) by {
                    if prev.contains(a) {
                        let w = choose|w: int| 0 <= w < prev.len() && prev[w] == a;
                        assert(agents_in_order(h)[w] == a);
                    }
                }
            },
            None => {},
        }
        lemma_tasks_absent(h.drop_last(), a);
    }
}


/// The most frequent pair pattern of the records with its count, when the
/// window holds at least five records and some pattern occurs at least
/// three times. Among equally frequent patterns any may be reported; this
/// one reports the first.
pub open spec fn coordination_found(h: Seq<Seq<char>>, r: Option<(Seq<char>, nat)>) -> bool {
    let pp = pair_patterns(h);
    match r {
        Some((p, c)) => {
            &&& h.len() >= 5
            &&& c >= 3
            &&& pp.contains(p)
            &&& c == count_of(pp, p)
            &&& forall|i: int| 0 <= i < pp.len() ==> count_of(pp, #[trigger] pp[i]) <= c
        },
        None => h.len() < 5 || forall|i: int| 0 <= i < pp.len() ==> count_of(pp, #[trigger] pp[i]) < 3,
    }
}

/// Distinct records in the earlier and the later half of the window.
pub open spec fn halves_distinct(h: Seq<Seq<char>>) -> (nat, nat) {
    let mid = h.len() / 2;
    (distinct(h.subrange(0, mid as int)).len(), distinct(h.subrange(mid as int, h.len() as int)).len())
}

/// `r` reports the behaviour found in the records `h`.
pub open spec fn reports(r: EmergenceReport, h: Seq<Seq<char>>) -> bool {
    &&& match r.roles {
        Some(v) => specialized_agents(h).len() >= 2 && names(v@) == specialized_agents(h),
        None => specialized_agents(h).len() < 2,
    }
    &&& coordination_found(
        h,
        match r.coordination {
            Some((p, c)) => Some((p@, c as nat)),
            None => None,
        },
    )
    &&& match r.organization {
        Some((later, earlier)) => {
            &&& h.len() >= 10
            &&& earlier == halves_distinct(h).0
            &&& later == halves_distinct(h).1
            &&& later < earlier
        },
        None => h.len() < 10 || halves_distinct(h).1 >= halves_distinct(h).0,
    }
}

/// The pair patterns of the records.
fn build_pair_patterns(h: &Vec<String>) -> (pats: Vec<String>)
    ensures
        names(pats@) == pair_patterns(names(h@)),
{
    let ghost hs = names(h@);
    let n: usize = if h.len() >= 2 {
        h.len() - 2
    } else {
        0
    };
    let mut pats: Vec<String> = Vec::new();
    let mut i: usize = 0;
    while i < n
        invariant
            i <= n,
            n == pair_count(hs),
            hs == names(h@),
            names(pats@) == pair_patterns(hs).take(i as int),
        decreases n - i,
    {
        let ghost before = pats@;
        let a = concat_str(h[i].as_str(), "->");
        let p = concat_str(a.as_str(), h[i + 1].as_str());
        pats.push(p);
        proof {
            lemma_names_push(before, p);
            assert(hs[i as int] == h@[i as int]@);
            assert(hs[i + 1] == h@[i + 1]@);
            assert(names(pats@) =~= pair_patterns(hs).take(i + 1));
        }
        i += 1;
    }
    proof {
        assert(pair_patterns(hs).take(n as int) =~= pair_patterns(hs));
    }
    pats
}

/// The most frequent pair pattern, as `coordination_found` describes.
pub fn detect_coordination(h: &Vec<String>) -> (r: Option<(String, usize)>)
    ensures
        coordination_found(
            names(h@),
            match r {
                Some((p, c)) => Some((p@, c as nat)),
                None => None,
            },
        ),
{
    if h.len() < 5 {
        return None;
    }
    let pats = build_pair_patterns(h);
    let ghost pp = names(pats@);
    let mut best: Option<(usize, usize)> = None;
    let mut i: usize = 0;
    while i < pats.len()
        invariant
            i <= pats@.len(),
            pp == names(pats@),
            pp == pair_patterns(names(h@)),
            match best {
                Some((k, c)) => k < i && c >= 3 && c == count_of(pp, pp[k as int]) && forall|j: int|
                    0 <= j < i ==> count_of(pp, #[trigger] pp[j]) <= c,
                None => forall|j: int| 0 <= j < i ==> count_of(pp, #[trigger] pp[j]) < 3,
            },
        decreases pats@.len() - i,
    {
        let c = count_in(&pats, pats[i].as_str());
        proof {
            assert(pp[i as int] == pats@[i as int]@);
        }
        match best {
            Some((_, bc)) => {
                if c > bc {
                    best = Some((i, c));
                }
            },
            None => {
                if c >= 3 {
                    best = Some((i, c));
                }
            },
        }
        i += 1;
    }
    match best {
        Some((k, c)) => {
            proof {
                assert(pp[k as int] == pats@[k as int]@);
                assert(pp.contains(pp[k as int]));
            }
            Some((pats[k].clone(), c))
        },
        None => None,
    }
}

/// Number of distinct records among `h[lo..hi]`.
fn count_distinct(h: &Vec<String>, lo: usize, hi: usize) -> (n: usize)
    requires
        lo <= hi <= h@.len(),
    ensures
        n == distinct(names(h@).subrange(lo as int, hi as int)).len(),
{
    let ghost sub = names(h@).subrange(lo as int, hi as int);
    let mut seen: Vec<String> = Vec::new();
    let mut i: usize = lo;
    while i < hi
        invariant
            lo <= i <= hi <= h@.len(),
            sub == names(h@).subrange(lo as int, hi as int),
            names(seen@) == distinct(sub.take(i - lo)),
        decreases hi - i,
    {
        proof {
            assert(sub.take(i - lo + 1).drop_last() =~= sub.take(i - lo));
            assert(sub.take(i - lo + 1).last() == h@[i as int]@);
        }
        match position(&seen, h[i].as_str()) {
            Some(k) => {
                proof {
                    assert(names(seen@)[k as int] == h@[i as int]@);
                }
            },
            None => {
                let ghost before = seen@;
                seen.push(h[i].clone());
                proof {
                    lemma_names_push(before, h@[i as int]);
                }
            },
        }
        i += 1;
    }
    proof {
        assert(sub.take(hi - lo) =~= sub);
        assert(names(seen@).len() == seen@.len());
    }
    seen.len()
}

/// Distinct records in the later and the earlier half, when the later
/// half has fewer and the window holds at least ten records.
pub fn detect_self_organization(h: &Vec<String>) -> (r: Option<(usize, usize)>)
    ensures
        match r {
            Some((later, earlier)) => {
                &&& h@.len() >= 10
                &&& earlier == halves_distinct(names(h@)).0
                &&& later == halves_distinct(names(h@)).1
                &&& later < earlier
            },
            None => h@.len() < 10 || halves_distinct(names(h@)).1 >= halves_distinct(names(h@)).0,
        },
{
    if h.len() < 10 {
        return None;
    }
    let mid = h.len() / 2;
    let earlier = count_distinct(h, 0, mid);
    let later = count_distinct(h, mid, h.len());
    if later < earlier {
        Some((later, earlier))
    } else {
        None
    }
}

/// Everything one analysis of the records finds.
pub fn analyze(h: &Vec<String>) -> (r: EmergenceReport)
    ensures
        reports(r, names(h@)),
{
    let specialized = find_specialized_agents(h);
    let roles = if specialized.len() >= 2 {
        Some(specialized)
    } else {
        None
    };
    EmergenceReport { roles, coordination: detect_coordination(h), organization: detect_self_organization(h) }
}

impl EmergencDetector {
    /// Records in the window, oldest first.
    pub closed spec fn history(&self) -> Seq<Seq<char>> {
        names(self.history@)
    }

    /// Size of the window.
    pub closed spec fn window(&self) -> nat {
        self.window_size as nat
    }

    /// What the last analysis found, if there was one.
    pub closed spec fn last_report(&self) -> Option<EmergenceReport> {
        self.detected
    }

    /// A detector with an empty window of the given size.
    pub fn new(window_size: usize) -> (d: Self)
        ensures
            d.history() == Seq::<Seq<char>>::empty(),
            d.window() == window_size,
            d.last_report() is None,
    {
        let d = EmergencDetector { window_size, detected: None, history: Vec::new() };
        proof {
            assert(names(d.history@) =~= Seq::<Seq<char>>::empty());
        }
        d
    }

    /// Adds the records to the window, keeps its last `window` records, and
    /// reports what they show; the report is also kept.
    pub fn analyze_interactions(&mut self, interactions: &Vec<String>) -> (r: EmergenceReport)
        ensures
            final(self).window() == old(self).window(),
            final(self).history() == recent(old(self).history() + names(interactions@), old(self).window()),
            final(self).history().len() <= final(self).window(),
            reports(r, final(self).history()),
            final(self).last_report() matches Some(k) && reports(k, final(self).history()),
    {
        let ghost all = names(self.history@) + names(interactions@);
        let mut i: usize = 0;
        while i < interactions.len()
            invariant
                i <= interactions@.len(),
                all == old(self).history() + names(interactions@),
                names(self.history@) == old(self).history() + names(interactions@).take(i as int),
                self.window_size == old(self).window_size,
            decreases interactions@.len() - i,
        {
            let ghost before = self.history@;
            self.history.push(interactions[i].clone());
            proof {
                lemma_names_push(before, interactions@[i as int]);
                assert(names(interactions@).take(i + 1) =~= names(interactions@).take(i as int).push(
                    interactions@[i as int]@,
                ));
                assert(names(self.history@) =~= old(self).history() + names(interactions@).take(i + 1));
            }
            i += 1;
        }
        proof {
            assert(names(interactions@).take(interactions@.len() as int) =~= names(interactions@));
        }
        if self.history.len() > self.window_size {
            let start = self.history.len() - self.window_size;
            let mut kept: Vec<String> = Vec::new();
            let mut j: usize = start;
            while j < self.history.len()
                invariant
                    start <= j <= self.history@.len(),
                    start == self.history@.len() - self.window_size,
                    names(kept@) == names(self.history@).subrange(start as int, j as int),
                decreases self.history@.len() - j,
            {
                let ghost before = kept@;
                kept.push(self.history[j].clone());
                proof {
                    lemma_names_push(before, self.history@[j as int]);
                    assert(names(kept@) =~= names(self.history@).subrange(start as int, j + 1));
                }
                j += 1;
            }
            proof {
                assert(names(self.history@).subrange(start as int, self.history@.len() as int) =~= names(
                    self.history@,
                ).skip(start as int));
            }
            self.history = kept;
        }
        let report = analyze(&self.history);
        let kept_report = analyze(&self.history);
        self.detected = Some(kept_report);
        report
    }
}

} // verus!
