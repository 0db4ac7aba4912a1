//! Counters of swarm activity and of each agent's contribution.

use vstd::prelude::*;

use crate::named_map::NamedMap;

verus! {

/// What an agent contributed: tasks, successful tasks, collaborations,
/// consensus votes, and the number of tasks it had completed before each
/// decision it led (its leadership score is folded from these).
#[derive(Debug)]
pub struct AgentContribution {
    pub tasks_completed: usize,
    pub successes: usize,
    pub collaboration_events: usize,
    pub consensus_participation: usize,
    pub leadership_updates: Vec<usize>,
}

/// Counts of swarm decisions, consensus, delegations and emergent
/// behaviours, and the contributions of the agents by name.
#[derive(Debug)]
pub struct SwarmPerformance {
    pub total_decisions: usize,
    pub consensus_count: usize,
    pub delegation_count: usize,
    pub emergence_count: usize,
    pub contributions: NamedMap<AgentContribution>,
}

impl SwarmPerformance {
    /// Contributions by agent name.
    pub open spec fn contributions(&self) -> Map<Seq<char>, AgentContribution> {
        self.contributions.map()
    }

    /// The contribution map keeps one entry per agent.
    pub open spec fn wf(&self) -> bool {
        self.contributions.wf()
    }

    /// All counts at zero, no contributions.
    pub fn new() -> (p: Self)
        ensures
            p.wf(),
            p.total_decisions == 0,
            p.consensus_count == 0,
            p.delegation_count == 0,
            p.emergence_count == 0,
            p.contributions() == Map::<Seq<char>, AgentContribution>::empty(),
    {
        SwarmPerformance {
            total_decisions: 0,
            consensus_count: 0,
            delegation_count: 0,
            emergence_count: 0,
            contributions: NamedMap::new(),
        }
    }

    /// Counts a decision, and a consensus when one was reached.
    pub fn record_swarm_decision(&mut self, consensus_reached: bool)
        requires
            old(self).total_decisions < usize::MAX,
            old(self).consensus_count < usize::MAX,
        ensures
            final(self).total_decisions == old(self).total_decisions + 1,
            final(self).consensus_count == old(self).consensus_count + if consensus_reached {
                1int
            } else {
                0int
            },
            final(self).delegation_count == old(self).delegation_count,
            final(self).emergence_count == old(self).emergence_count,
            final(self).contributions() == old(self).contributions(),
            final(self).wf() == old(self).wf(),
    {
        self.total_decisions = self.total_decisions + 1;
        if consensus_reached {
            self.consensus_count = self.consensus_count + 1;
        }
    }

    /// Counts a delegation.
    pub fn record_delegation(&mut self)
        requires
            old(self).delegation_count < usize::MAX,
        ensures
            final(self).delegation_count == old(self).delegation_count + 1,
            final(self).total_decisions == old(self).total_decisions,
            final(self).consensus_count == old(self).consensus_count,
            final(self).emergence_count == old(self).emergence_count,
            final(self).contributions() == old(self).contributions(),
            final(self).wf() == old(self).wf(),
    {
        self.delegation_count = self.delegation_count + 1;
    }

    /// Counts detected emergent behaviours.
    pub fn record_emergent_behaviors(&mut self, count: usize)
        requires
            old(self).emergence_count + count <= usize::MAX,
        ensures
            final(self).emergence_count == old(self).emergence_count + count,
            final(self).total_decisions == old(self).total_decisions,
            final(self).consensus_count == old(self).consensus_count,
            final(self).delegation_count == old(self).delegation_count,
            final(self).contributions() == old(self).contributions(),
            final(self).wf() == old(self).wf(),
    {
        self.emergence_count = self.emergence_count + count;
    }

    /// The counters of `agent` can take one more task.
    pub open spec fn can_record(&self, agent: Seq<char>) -> bool {
        self.contributions().contains_key(agent) ==> {
            let c = self.contributions()[agent];
            &&& c.tasks_completed < usize::MAX
            &&& c.successes < usize::MAX
            &&& c.collaboration_events < usize::MAX
        }
    }

    /// Records a task done by `agent`: one more task, one more success when it
    /// succeeded, one more collaboration when it collaborated, and, when it
    /// led the decision, a leadership update at its task count before this
    /// task. A new agent starts from zero.
    pub fn update_agent_contribution(&mut self, agent_id: &str, task_success: bool, collaborated: bool, led_decision: bool)
        requires
            old(self).wf(),
            old(self).can_record(agent_id@),
        ensures
            final(self).wf(),
            final(self).total_decisions == old(self).total_decisions,
            final(self).consensus_count == old(self).consensus_count,
            final(self).delegation_count == old(self).delegation_count,
            final(self).emergence_count == old(self).emergence_count,
            final(self).contributions().dom() == old(self).contributions().dom().insert(agent_id@),
            forall|a: Seq<char>|
                a != agent_id@ && #[trigger] old(self).contributions().contains_key(a) ==> final(self).contributions()[a]
                    == old(self).contributions()[a],
            ({
                let c = final(self).contributions()[agent_id@];
                let (tasks, successes, collabs, votes, leads) = if old(self).contributions().contains_key(agent_id@) {
                    let o = old(self).contributions()[agent_id@];
                    (
                        o.tasks_completed as int,
                        o.successes as int,
                        o.collaboration_events as int,
                        o.consensus_participation as int,
                        o.leadership_updates@,
                    )
                } else {
                    (0int, 0int, 0int, 0int, Seq::<usize>::empty())
                };
                &&& c.tasks_completed == tasks + 1
                &&& c.successes == successes + if task_success {
                    1int
                } else {
                    0int
                }
                &&& c.collaboration_events == collabs + if collaborated {
                    1int
                } else {
                    0int
                }
                &&& c.consensus_participation == votes
                &&& c.leadership_updates@ == if led_decision {
                    leads.push(tasks as usize)
                } else {
                    leads
                }
            }),
    {
        match self.contributions.get_mut(agent_id) {
            Some(c) => {
                let before = c.tasks_completed;
                c.tasks_completed = c.tasks_completed + 1;
                if task_success {
                    c.successes = c.successes + 1;
                }
                if collaborated {
                    c.collaboration_events = c.collaboration_events + 1;
                }
                if led_decision {
                    c.leadership_updates.push(before);
                }
            },
            None => {
                let mut leads: Vec<usize> = Vec::new();
                if led_decision {
                    leads.push(0);
                }
                let c = AgentContribution {
                    tasks_completed: 1,
                    successes: if task_success {
                        1
                    } else {
                        0
                    },
                    collaboration_events: if collaborated {
                        1
                    } else {
                        0
                    },
                    consensus_participation: 0,
                    leadership_updates: leads,
                };
                self.contributions.insert(crate::text::copy_str(agent_id), c);
            },
        }
        proof {
            assert(self.contributions().dom() =~= old(self).contributions().dom().insert(agent_id@));
        }
    }

    /// Number of agents that contributed.
    pub fn active_agent_count(&self) -> (n: usize)
        requires
            self.wf(),
        ensures
            n == self.contributions().dom().len(),
    {
        self.contributions.len()
    }

    /// The contribution of `agent_id`, if it has one.
    pub fn contribution(&self, agent_id: &str) -> (r: Option<&AgentContribution>)
        ensures
            match r {
                Some(c) => self.contributions().contains_key(agent_id@) && *c == self.contributions()[agent_id@],
                None => !self.contributions().contains_key(agent_id@),
            },
    {
        self.contributions.get(agent_id)
    }

    /// All contributions, each with its agent's name.
    pub fn all_contributions(&self) -> (r: &[(String, AgentContribution)])
        ensures
            self.wf() ==> forall|i: int|
                0 <= i < r@.len() ==> self.contributions().contains_key(#[trigger] r@[i].0@)
                    && self.contributions()[r@[i].0@] == r@[i].1,
    {
        self.contributions.as_slice()
    }
}

/// `a` ranks above `b`: more tasks completed, or as many tasks and more of
/// them successful (with equal task counts, more successes is a higher
/// success rate).
pub open spec fn ranks_above(a: AgentContribution, b: AgentContribution) -> bool {
    a.tasks_completed > b.tasks_completed || (a.tasks_completed == b.tasks_completed && a.successes > b.successes)
}

/// Entry `i` comes before entry `j` in the ranking: it ranks above, or the two
/// tie and `i` was recorded first.
pub open spec fn precedes(es: Seq<(String, AgentContribution)>, i: int, j: int) -> bool {
    ranks_above(es[i].1, es[j].1) || (!ranks_above(es[j].1, es[i].1) && i < j)
}

/// `p` lists, best first, the positions of the first `n` entries of the
/// ranking (all of them when there are fewer): each comes before the next,
/// and before every position that `p` leaves out.
pub open spec fn is_top_ranking(es: Seq<(String, AgentContribution)>, n: nat, p: Seq<usize>) -> bool {
    &&& p.len() == if n < es.len() {
        n
    } else {
        es.len()
    }
    &&& forall|k: int| 0 <= k < p.len() ==> #[trigger] p[k] < es.len()
    &&& forall|k: int, l: int| 0 <= k < l < p.len() ==> precedes(es, #[trigger] p[k] as int, #[trigger] p[l] as int)
    &&& forall|k: int, j: usize|
        0 <= k < p.len() && j < es.len() && !#[trigger] p.contains(j) ==> precedes(es, #[trigger] p[k] as int, j as int)
}

/// Collaboration events summed over the entries.
pub open spec fn sum_collaborations(es: Seq<(String, AgentContribution)>) -> int
    decreases es.len(),
{
    if es.len() == 0 {
        0
    } else {
        sum_collaborations(es.drop_last()) + es.last().1.collaboration_events
    }
}

/// Completed tasks summed over the entries.
pub open spec fn sum_tasks(es: Seq<(String, AgentContribution)>) -> int
    decreases es.len(),
{
    if es.len() == 0 {
        0
    } else {
        sum_tasks(es.drop_last()) + es.last().1.tasks_completed
    }
}

proof fn lemma_precedes_transitive(es: Seq<(String, AgentContribution)>, a: int, b: int, c: int)
    requires
        precedes(es, a, b),
        precedes(es, b, c),
    ensures
        precedes(es, a, c),
{
}

impl SwarmPerformance {
    fn top_positions(es: &[(String, AgentContribution)], n: usize) -> (p: Vec<usize>)
        ensures
            is_top_ranking(es@, n as nat, p@),
    {
        let len = es.len();
        let mut rest: Vec<usize> = Vec::new();
        let mut i: usize = 0;
        while i < len
            invariant
                i <= len,
                len == es@.len(),
                rest@.len() == i,
                forall|q: int| 0 <= q < i ==> #[trigger] rest@[q] == q,
            decreases len - i,
        {
            rest.push(i);
            i += 1;
        }
        proof {
            assert forall|j: usize| j < len implies #[trigger] rest@.contains(j) by {
                assert(rest@[j as int] == j);
            }
        }
        let mut p: Vec<usize> = Vec::new();
        while p.len() < n && rest.len() > 0
            invariant
                len == es@.len(),
                p@.len() + rest@.len() == len,
                p@.len() <= n,
                forall|q: int| 0 <= q < rest@.len() ==> #[trigger] rest@[q] < len,
                forall|k: int| 0 <= k < p@.len() ==> #[trigger] p@[k] < len,
                forall|q: int, r: int| 0 <= q < r < rest@.len() ==> #[trigger] rest@[q] != #[trigger] rest@[r],
                forall|j: usize| j < len ==> #[trigger] p@.contains(j) || rest@.contains(j),
                forall|k: int, l: int| 0 <= k < l < p@.len() ==> precedes(es@, #[trigger] p@[k] as int, #[trigger] p@[l] as int),
                forall|k: int, q: int|
                    0 <= k < p@.len() && 0 <= q < rest@.len() ==> precedes(es@, #[trigger] p@[k] as int, #[trigger] rest@[q] as int),
            decreases rest@.len(),
        {
            let mut best: usize = 0;
            let mut q: usize = 1;
            while q < rest.len()
                invariant
                    len == es@.len(),
                    0 <= best < q <= rest@.len(),
                    forall|x: int| 0 <= x < rest@.len() ==> #[trigger] rest@[x] < len,
                    forall|x: int, y: int| 0 <= x < y < rest@.len() ==> #[trigger] rest@[x] != #[trigger] rest@[y],
                    forall|x: int| 0 <= x < q && x != best ==> precedes(es@, rest@[best as int] as int, #[trigger] rest@[x] as int),
                decreases rest@.len() - q,
            {
                let j = rest[q];
                let b = rest[best];
                let cj = &es[j].1;
                let cb = &es[b].1;
                let above = cj.tasks_completed > cb.tasks_completed || (cj.tasks_completed == cb.tasks_completed
                    && cj.successes > cb.successes);
                let below = cb.tasks_completed > cj.tasks_completed || (cb.tasks_completed == cj.tasks_completed
                    && cb.successes > cj.successes);
                if above || (!below && j < b) {
                    proof {
                        assert forall|x: int| 0 <= x < q + 1 && x != q implies precedes(es@, rest@[q as int] as int, #[trigger] rest@[x] as int) by {
                            if x != best {
                                lemma_precedes_transitive(es@, j as int, b as int, rest@[x] as int);
                            }
                        }
                    }
                    best = q;
                } else {
                    proof {
                        assert(rest@[q as int] != rest@[best as int]);
                    }
                }
                q += 1;
            }
            let ghost old_rest = rest@;
            let ghost old_p = p@;
            let chosen = rest.remove(best);
            p.push(chosen);
            proof {
                assert forall|j: usize| j < len implies #[trigger] p@.contains(j) || rest@.contains(j) by {
                    if old_p.contains(j) {
                        let k = choose|k: int| 0 <= k < old_p.len() && old_p[k] == j;
                        assert(p@[k] == j);
                    } else {
                        assert(old_rest.contains(j));
                        let x = choose|x: int| 0 <= x < old_rest.len() && old_rest[x] == j;
                        if x == best {
                            assert(p@[old_p.len() as int] == j);
                        } else if x < best {
                            assert(rest@[x] == j);
                        } else {
                            assert(rest@[x - 1] == j);
                        }
                    }
                }
                assert forall|k: int, l: int| 0 <= k < l < p@.len() implies precedes(es@, #[trigger] p@[k] as int, #[trigger] p@[l] as int) by {
                    if l == old_p.len() {
                        assert(old_rest[best as int] == chosen);
                    }
                }
                assert forall|k: int, x: int|
                    0 <= k < p@.len() && 0 <= x < rest@.len() implies precedes(es@, #[trigger] p@[k] as int, #[trigger] rest@[x] as int) by {
                    let y = if x < best { x } else { x + 1 };
                    assert(rest@[x] == old_rest[y]);
                    if k == old_p.len() {
                        assert(y != best);
                    }
                }
                assert forall|x: int, y: int| 0 <= x < y < rest@.len() implies #[trigger] rest@[x] != #[trigger] rest@[y] by {
                    let x0 = if x < best { x } else { x + 1 };
                    let y0 = if y < best { y } else { y + 1 };
                    assert(rest@[x] == old_rest[x0]);
                    assert(rest@[y] == old_rest[y0]);
                }
            }
        }
        proof {
            assert forall|k: int, j: usize|
                0 <= k < p@.len() && j < es@.len() && !#[trigger] p@.contains(j) implies precedes(es@, #[trigger] p@[k] as int, j as int) by {
                assert(rest@.contains(j));
                let x = choose|x: int| 0 <= x < rest@.len() && rest@[x] == j;
                assert(precedes(es@, p@[k] as int, rest@[x] as int));
            }
        }
        p
    }

    /// Collaboration events and completed tasks, each summed over all agents
    /// (their ratio is the swarm's collaboration score).
    pub fn collaboration_totals(&self) -> (r: (u128, u128))
        ensures
            r.0 == sum_collaborations(self.contributions.entries()),
            r.1 == sum_tasks(self.contributions.entries()),
    {
        let es = self.contributions.as_slice();
        let mut collab: u128 = 0;
        let mut tasks: u128 = 0;
        let mut i: usize = 0;
        while i < es.len()
            invariant
                es@ == self.contributions.entries(),
                i <= es@.len(),
                collab == sum_collaborations(es@.subrange(0, i as int)),
                tasks == sum_tasks(es@.subrange(0, i as int)),
                collab <= i * (usize::MAX as int),
                tasks <= i * (usize::MAX as int),
            decreases es@.len() - i,
        {
            proof {
                let pre = es@.subrange(0, i as int + 1);
                assert(pre.drop_last() =~= es@.subrange(0, i as int));
                let bound = usize::MAX as int;
                assert((i + 1) * bound <= bound * bound + bound) by (nonlinear_arith)
                    requires
                        i < bound,
                        bound > 0,
                ;
                assert(bound * bound + bound < 0x1_0000_0000_0000_0000_0000_0000_0000_0000) by (nonlinear_arith)
                    requires
                        bound <= 0xffff_ffff_ffff_ffff,
                        bound > 0,
                ;
                assert(i * bound + bound == (i + 1) * bound) by (nonlinear_arith);
            }
            collab = collab + es[i].1.collaboration_events as u128;
            tasks = tasks + es[i].1.tasks_completed as u128;
            i += 1;
        }
        proof {
            assert(es@.subrange(0, es@.len() as int) =~= es@);
        }
        (collab, tasks)
    }

    /// The names of the `n` agents that contributed most, best first: more
    /// tasks completed first, then more successful tasks; agents that tie
    /// come in the order in which they were first recorded.
    pub fn top_contributors(&self, n: usize) -> (r: Vec<String>)
        ensures
            exists|p: Seq<usize>|
                #[trigger] is_top_ranking(self.contributions.entries(), n as nat, p) && r@.len() == p.len()
                    && forall|k: int| 0 <= k < p.len() ==> (#[trigger] r@[k])@ == self.contributions.entries()[p[k] as int].0@,
    {
        let es = self.contributions.as_slice();
        let p = Self::top_positions(es, n);
        let mut r: Vec<String> = Vec::new();
        let mut k: usize = 0;
        while k < p.len()
            invariant
                es@ == self.contributions.entries(),
                is_top_ranking(es@, n as nat, p@),
                k <= p@.len(),
                r@.len() == k,
                forall|x: int| 0 <= x < k ==> (#[trigger] r@[x])@ == es@[p@[x] as int].0@,
            decreases p@.len() - k,
        {
            r.push(crate::text::copy_str(es[p[k]].0.as_str()));
            k += 1;
        }
        r
    }
}

/// Recording decisions never lets the consensus count pass the decision count.
pub proof fn lemma_consensus_within_decisions(before_total: nat, before_consensus: nat, after_total: nat, after_consensus: nat, reached: bool)
    requires
        before_consensus <= before_total,
        after_total == before_total + 1,
        after_consensus == before_consensus + if reached {
            1int
        } else {
            0int
        },
    ensures
        after_consensus <= after_total,
{
}

} // verus!
