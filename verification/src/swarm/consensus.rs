//! Voting among agents.

use vstd::prelude::*;

use crate::error::SwarmError;
use crate::random::random_below;
use crate::text::{copy_str, names, str_eq};

verus! {

/// How votes are turned into a decision.
#[derive(Debug, Clone, Copy, PartialEq, Eq, Structural)]
pub enum VotingStrategy {
    /// More than half of the votes.
    Majority,
    /// The most votes wins.
    Plurality,
    /// Every vote.
    Unanimous,
    /// A share of the votes at least the protocol's threshold.
    Weighted,
}

/// Number of votes in `votes` for action `a`.
pub open spec fn votes_for(votes: Seq<usize>, a: int) -> nat
    decreases votes.len(),
{
    if votes.len() == 0 {
        0
    } else {
        votes_for(votes.drop_last(), a) + if votes.last() == a {
            1nat
        } else {
            0nat
        }
    }
}

proof fn lemma_votes_for_bound(votes: Seq<usize>, a: int)
    ensures
        votes_for(votes, a) <= votes.len(),
    decreases votes.len(),
{
    if votes.len() > 0 {
        lemma_votes_for_bound(votes.drop_last(), a);
    }
}

/// A random vote from each of `num_agents` agents among `num_actions` actions.
pub fn simulate_votes(num_agents: usize, num_actions: usize) -> (votes: Vec<usize>)
    requires
        num_actions > 0,
    ensures
        votes@.len() == num_agents,
        forall|i: int| 0 <= i < num_agents ==> #[trigger] votes@[i] < num_actions,
{
    let mut votes: Vec<usize> = Vec::new();
    let mut i: usize = 0;
    while i < num_agents
        invariant
            i <= num_agents,
            num_actions > 0,
            votes@.len() == i,
            forall|k: int| 0 <= k < i ==> #[trigger] votes@[k] < num_actions,
        decreases num_agents - i,
    {
        votes.push(random_below(num_actions));
        i += 1;
    }
    votes
}

/// Votes per action.
pub fn count_votes(votes: &Vec<usize>, num_actions: usize) -> (counts: Vec<usize>)
    ensures
        counts@.len() == num_actions,
        forall|a: int| 0 <= a < num_actions ==> #[trigger] counts@[a] == votes_for(votes@, a),
{
    let mut counts: Vec<usize> = Vec::new();
    let mut a: usize = 0;
    while a < num_actions
        invariant
            a <= num_actions,
            counts@.len() == a,
            forall|k: int| 0 <= k < a ==> #[trigger] counts@[k] == 0,
        decreases num_actions - a,
    {
        counts.push(0);
        a += 1;
    }
    let mut i: usize = 0;
    while i < votes.len()
        invariant
            i <= votes@.len(),
            counts@.len() == num_actions,
            forall|k: int| 0 <= k < num_actions ==> #[trigger] counts@[k] == votes_for(votes@.take(i as int), k),
        decreases votes@.len() - i,
    {
        let v = votes[i];
        proof {
            assert(votes@.take(i + 1).drop_last() =~= votes@.take(i as int));
            lemma_votes_for_bound(votes@.take(i as int), v as int);
        }
        if v < num_actions {
            counts.set(v, counts[v] + 1);
        }
        i += 1;
    }
    proof {
        assert(votes@.take(votes@.len() as int) =~= votes@);
    }
    counts
}

/// The first action with the most votes and its vote count, or `None` when
/// no vote was cast.
pub fn winning_action(counts: &Vec<usize>) -> (w: Option<(usize, usize)>)
    ensures
        match w {
            Some((a, c)) => a < counts@.len() && c == counts@[a as int] && c > 0 && (forall|k: int|
                0 <= k < counts@.len() ==> #[trigger] counts@[k] <= c) && (forall|k: int|
                0 <= k < a ==> #[trigger] counts@[k] < c),
            None => forall|k: int| 0 <= k < counts@.len() ==> #[trigger] counts@[k] == 0,
        },
{
    let mut best: usize = 0;
    let mut best_count: usize = 0;
    let mut i: usize = 0;
    while i < counts.len()
        invariant
            i <= counts@.len(),
            best_count == 0 || (best < i && counts@[best as int] == best_count),
            forall|k: int| 0 <= k < i ==> #[trigger] counts@[k] <= best_count,
            forall|k: int| 0 <= k < best ==> #[trigger] counts@[k] < best_count,
        decreases counts@.len() - i,
    {
        if counts[i] > best_count {
            best = i;
            best_count = counts[i];
        }
        i += 1;
    }
    if best_count == 0 {
        None
    } else {
        Some((best, best_count))
    }
}

/// Whether `winner` votes out of `total` decide under `strategy`;
/// `weighted_ok` says whether the winner's share reaches the weighted
/// threshold (a fraction that the caller compares).
pub open spec fn spec_consensus_reached(
    strategy: VotingStrategy,
    winner: nat,
    total: nat,
    weighted_ok: bool,
) -> bool {
    match strategy {
        VotingStrategy::Majority => 2 * winner > total,
        VotingStrategy::Plurality => true,
        VotingStrategy::Unanimous => winner == total,
        VotingStrategy::Weighted => weighted_ok,
    }
}

/// Whether the vote decides under the strategy.
pub fn consensus_reached(strategy: VotingStrategy, winner: usize, total: usize, weighted_ok: bool) -> (b: bool)
    requires
        winner <= total,
    ensures
        b == spec_consensus_reached(strategy, winner as nat, total as nat, weighted_ok),
{
    match strategy {
        VotingStrategy::Majority => winner > total - winner,
        VotingStrategy::Plurality => true,
        VotingStrategy::Unanimous => winner == total,
        VotingStrategy::Weighted => weighted_ok,
    }
}

/// Whether every vote names a valid action.
pub open spec fn valid_votes(votes: Seq<usize>, num_actions: nat) -> bool {
    forall|i: int| 0 <= i < votes.len() ==> #[trigger] votes[i] < num_actions
}

/// Votes for all actions add up to the number of votes.
pub proof fn lemma_votes_add_up(votes: Seq<usize>, num_actions: nat)
    requires
        valid_votes(votes, num_actions),
    ensures
        sum_votes(votes, num_actions as int) == votes.len(),
    decreases votes.len(),
{
    if votes.len() > 0 {
        assert(valid_votes(votes.drop_last(), num_actions)) by {
            assert forall|i: int| 0 <= i < votes.drop_last().len() implies #[trigger] votes.drop_last()[i] < num_actions by {
                assert(votes.drop_last()[i] == votes[i]);
            }
        }
        lemma_votes_add_up(votes.drop_last(), num_actions);
        lemma_sum_votes_step(votes, num_actions as int);
        assert(votes.last() < num_actions);
    } else {
        lemma_sum_votes_empty(votes, num_actions as int);
    }
}

proof fn lemma_sum_votes_empty(votes: Seq<usize>, n: int)
    requires
        votes.len() == 0,
    ensures
        sum_votes(votes, n) == 0,
    decreases n,
{
    if n > 0 {
        lemma_sum_votes_empty(votes, n - 1);
    }
}

/// Total of the votes for actions `0..n`.
pub open spec fn sum_votes(votes: Seq<usize>, n: int) -> nat
    decreases n,
{
    if n <= 0 {
        0
    } else {
        sum_votes(votes, n - 1) + votes_for(votes, n - 1)
    }
}

proof fn lemma_sum_votes_step(votes: Seq<usize>, n: int)
    requires
        votes.len() > 0,
        0 <= n,
    ensures
        sum_votes(votes, n) == sum_votes(votes.drop_last(), n) + if votes.last() < n {
            1nat
        } else {
            0nat
        },
    decreases n,
{
    if n > 0 {
        lemma_sum_votes_step(votes, n - 1);
    }
}


/// Agent `i` casts its ballot there: no later position names the same agent
/// (an agent that votes twice is counted once, with its last vote).
pub open spec fn is_last_ballot(agents: Seq<Seq<char>>, i: int) -> bool {
    forall|j: int| i < j < agents.len() ==> agents[j] != agents[i]
}

/// Ballots for action `a` among the first `n` positions.
pub open spec fn ballots_for(agents: Seq<Seq<char>>, votes: Seq<usize>, a: int, n: int) -> nat
    decreases n,
{
    if n <= 0 {
        0
    } else {
        ballots_for(agents, votes, a, n - 1) + if is_last_ballot(agents, n - 1) && votes[n - 1] == a {
            1nat
        } else {
            0nat
        }
    }
}

/// The ballots among the first `n` positions, as (agent, vote), in order.
pub open spec fn last_ballots(agents: Seq<Seq<char>>, votes: Seq<usize>, n: int) -> Seq<(Seq<char>, usize)>
    decreases n,
{
    if n <= 0 {
        Seq::empty()
    } else if is_last_ballot(agents, n - 1) {
        last_ballots(agents, votes, n - 1).push((agents[n - 1], votes[n - 1]))
    } else {
        last_ballots(agents, votes, n - 1)
    }
}

/// The most ballots any of the actions `0..k` received.
pub open spec fn most_ballots(agents: Seq<Seq<char>>, votes: Seq<usize>, k: int) -> nat
    decreases k,
{
    if k <= 0 {
        0
    } else {
        let m = most_ballots(agents, votes, k - 1);
        let c = ballots_for(agents, votes, k - 1, agents.len() as int);
        if c > m {
            c
        } else {
            m
        }
    }
}

/// Whether `winner` ballots out of `total` agents decide under `strategy`,
/// the weighted strategy needing a share of at least `threshold_permille`
/// thousandths.
pub open spec fn decides(strategy: VotingStrategy, threshold_permille: nat, winner: nat, total: nat) -> bool {
    match strategy {
        VotingStrategy::Weighted => 1000 * winner >= threshold_permille * total,
        _ => spec_consensus_reached(strategy, winner, total, false),
    }
}

/// A decision reached by the swarm.
#[derive(Debug)]
pub struct ConsensusDecision {
    /// The winning action.
    pub action: usize,
    /// Ballots for the winning action (its share of `total_votes` is the
    /// agreement score).
    pub winner_votes: usize,
    /// Number of agents asked.
    pub total_votes: usize,
    /// Each agent's ballot, as (agent, action).
    pub votes: Vec<(String, usize)>,
    pub strategy_used: VotingStrategy,
}

/// How the swarm decides: a strategy, and the share of ballots (in
/// thousandths) that the weighted strategy asks for.
#[derive(Debug)]
pub struct ConsensusProtocol {
    pub threshold_permille: u32,
    pub strategy: VotingStrategy,
}

/// `r` is the outcome of deciding among `agents`, whose votes are `votes`:
/// no agents is an error; otherwise the first action with the most ballots
/// wins if its ballots decide, over the number of agents asked.
pub open spec fn is_decision(
    p: ConsensusProtocol,
    agents: Seq<Seq<char>>,
    votes: Seq<usize>,
    num_actions: nat,
    r: Result<Option<ConsensusDecision>, SwarmError>,
) -> bool {
    let n = agents.len() as int;
    let best = most_ballots(agents, votes, num_actions as int);
    match r {
        Err(SwarmError::Agent(m)) => n == 0 && m@ == "No votes cast"@,
        Err(_) => false,
        Ok(None) => n > 0 && !decides(p.strategy, p.threshold_permille as nat, best, n as nat),
        Ok(Some(d)) => {
            &&& n > 0
            &&& decides(p.strategy, p.threshold_permille as nat, best, n as nat)
            &&& d.action < num_actions
            &&& ballots_for(agents, votes, d.action as int, n) == best
            &&& forall|k: int| 0 <= k < d.action ==> #[trigger] ballots_for(agents, votes, k, n) < best
            &&& d.winner_votes == best
            &&& d.total_votes == n
            &&& d.strategy_used == p.strategy
            &&& d.votes@.map_values(|b: (String, usize)| (b.0@, b.1)) == last_ballots(agents, votes, n)
        },
    }
}

proof fn lemma_ballots_bound(agents: Seq<Seq<char>>, votes: Seq<usize>, a: int, n: int)
    requires
        0 <= n,
    ensures
        ballots_for(agents, votes, a, n) <= n,
    decreases n,
{
    if n > 0 {
        lemma_ballots_bound(agents, votes, a, n - 1);
    }
}

proof fn lemma_most_ballots(agents: Seq<Seq<char>>, votes: Seq<usize>, k: int, c: nat)
    requires
        0 <= k,
        forall|a: int| 0 <= a < k ==> #[trigger] ballots_for(agents, votes, a, agents.len() as int) <= c,
    ensures
        most_ballots(agents, votes, k) <= c,
        forall|a: int| 0 <= a < k ==> #[trigger] ballots_for(agents, votes, a, agents.len() as int) <= most_ballots(
            agents,
            votes,
            k,
        ),
    decreases k,
{
    if k > 0 {
        lemma_most_ballots(agents, votes, k - 1, c);
    }
}

impl ConsensusProtocol {
    /// Majority voting, with the given weighted threshold.
    pub fn new(threshold_permille: u32) -> (p: Self)
        ensures
            p.threshold_permille == threshold_permille,
            p.strategy == VotingStrategy::Majority,
    {
        ConsensusProtocol { threshold_permille, strategy: VotingStrategy::Majority }
    }

    /// Changes the voting strategy.
    pub fn set_strategy(&mut self, strategy: VotingStrategy)
        ensures
            final(self).strategy == strategy,
            final(self).threshold_permille == old(self).threshold_permille,
    {
        self.strategy = strategy;
    }

    /// Decides among `agents` given their votes (one per position).
    pub fn decide(&self, agents: &Vec<String>, votes: &Vec<usize>, num_actions: usize) -> (r: Result<
        Option<ConsensusDecision>,
        SwarmError,
    >)
        requires
            votes@.len() == agents@.len(),
            valid_votes(votes@, num_actions as nat),
        ensures
            is_decision(*self, names(agents@), votes@, num_actions as nat, r),
    {
        let n = agents.len();
        let ghost ag = names(agents@);
        if n == 0 {
            return Err(SwarmError::Agent(copy_str("No votes cast")));
        }
        let mut counts: Vec<usize> = Vec::new();
        let mut a: usize = 0;
        while a < num_actions
            invariant
                a <= num_actions,
                counts@.len() == a,
                forall|k: int| 0 <= k < a ==> #[trigger] counts@[k] == 0,
            decreases num_actions - a,
        {
            counts.push(0);
            a += 1;
        }
        let mut ballots: Vec<(String, usize)> = Vec::new();
        let mut i: usize = 0;
        while i < n
            invariant
                i <= n,
                n == agents@.len(),
                n == votes@.len(),
                ag == names(agents@),
                valid_votes(votes@, num_actions as nat),
                counts@.len() == num_actions,
                forall|k: int| 0 <= k < num_actions ==> #[trigger] counts@[k] == ballots_for(ag, votes@, k, i as int),
                ballots@.map_values(|b: (String, usize)| (b.0@, b.1)) == last_ballots(ag, votes@, i as int),
            decreases n - i,
        {
            let mut last = true;
            let mut j: usize = i + 1;
            while j < n
                invariant
                    i < n,
                    i + 1 <= j <= n,
                    n == agents@.len(),
                    ag == names(agents@),
                    last ==> forall|q: int| i < q < j ==> ag[q] != ag[i as int],
                    !last ==> !is_last_ballot(ag, i as int),
                decreases n - j,
            {
                if str_eq(agents[j].as_str(), agents[i].as_str()) {
                    proof {
                        assert(ag[j as int] == ag[i as int]);
                    }
                    last = false;
                }
                j += 1;
            }
            let v = votes[i];
            proof {
                assert(v < num_actions);
                lemma_ballots_bound(ag, votes@, v as int, i as int);
                assert(last == is_last_ballot(ag, i as int));
            }
            let ghost before = ballots@;
            if last {
                counts.set(v, counts[v] + 1);
                ballots.push((copy_str(agents[i].as_str()), v));
                proof {
                    assert(ballots@.map_values(|b: (String, usize)| (b.0@, b.1)) =~= before.map_values(
                        |b: (String, usize)| (b.0@, b.1),
                    ).push((ag[i as int], v)));
                }
            }
            i += 1;
        }
        let w = winning_action(&counts);
        proof {
            let l = (n - 1) as int;
            assert(is_last_ballot(ag, l));
            assert(ballots_for(ag, votes@, votes@[l] as int, n as int) >= 1);
            assert(counts@[votes@[l] as int] >= 1);
        }
        match w {
            Some((action, count)) => {
                proof {
                    assert(ag.len() == n as int);
                    assert forall|k: int| 0 <= k < num_actions implies #[trigger] ballots_for(ag, votes@, k, ag.len() as int) <= count by {
                        assert(counts@[k] <= count);
                    }
                    lemma_most_ballots(ag, votes@, num_actions as int, count as nat);
                    assert(ballots_for(ag, votes@, action as int, ag.len() as int) == count);
                    assert forall|k: int| 0 <= k < action implies #[trigger] ballots_for(ag, votes@, k, n as int) < count by {
                        assert(counts@[k] < count);
                    }
                    assert(count == most_ballots(ag, votes@, num_actions as int));
                    lemma_ballots_bound(ag, votes@, action as int, n as int);
                }
                let ok = match self.strategy {
                    VotingStrategy::Weighted => {
                        let lhs: u128 = 1000u128 * (count as u128);
                        let t: u128 = self.threshold_permille as u128;
                        let m: u128 = n as u128;
                        assert(t * m <= 0xffff_ffff * 0xffff_ffff_ffff_ffffu128) by (nonlinear_arith)
                            requires
                                t <= 0xffff_ffff,
                                m <= 0xffff_ffff_ffff_ffff,
                        ;
                        let rhs: u128 = t * m;
                        lhs >= rhs
                    },
                    _ => consensus_reached(self.strategy, count, n, false),
                };
                if ok {
                    Ok(
                        Some(
                            ConsensusDecision {
                                action,
                                winner_votes: count,
                                total_votes: n,
                                votes: ballots,
                                strategy_used: self.strategy,
                            },
                        ),
                    )
                } else {
                    Ok(None)
                }
            },
            None => {
                proof {
                    assert(false);
                }
                Ok(None)
            },
        }
    }

    /// Polls `agents` (each casts a random vote among `num_actions`
    /// actions) and decides: whatever the votes, the outcome is the decision
    /// for some valid vote of each agent.
    pub fn reach_consensus(&self, agents: &Vec<String>, num_actions: usize) -> (r: Result<
        Option<ConsensusDecision>,
        SwarmError,
    >)
        requires
            num_actions > 0,
        ensures
            exists|votes: Seq<usize>|
                votes.len() == agents@.len() && valid_votes(votes, num_actions as nat) && #[trigger] is_decision(
                    *self,
                    names(agents@),
                    votes,
                    num_actions as nat,
                    r,
                ),
    {
        let votes = simulate_votes(agents.len(), num_actions);
        let r = self.decide(agents, &votes, num_actions);
        proof {
            assert(is_decision(*self, names(agents@), votes@, num_actions as nat, r));
        }
        r
    }
}

} // verus!
