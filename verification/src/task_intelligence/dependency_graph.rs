//! A graph of task dependencies and its execution order.

use vstd::prelude::*;

use crate::text::names;

verus! {

/// Error returned when a dependency graph admits no execution order.
#[derive(Debug, Clone, Copy, PartialEq, Eq)]
pub enum GraphError {
    /// Some tasks depend on each other in a cycle.
    CycleDetected,
}

impl GraphError {
    /// The error's message.
    pub fn message(&self) -> (s: String)
        ensures
            s@ == "Dependency graph contains cycles"@,
    {
        match self {
            GraphError::CycleDetected => String::from_str("Dependency graph contains cycles"),
        }
    }
}

/// `s` with `n` appended unless it is already there.
pub open spec fn with_name(s: Seq<Seq<char>>, n: Seq<char>) -> Seq<Seq<char>> {
    if s.contains(n) {
        s
    } else {
        s.push(n)
    }
}

/// A graph of task dependencies: nodes are task ids, and an edge
/// `(prerequisite, dependent)` says that the prerequisite runs first.
#[derive(Debug, Clone)]
pub struct DependencyGraph {
    pub nodes: Vec<String>,
    /// Edges `(prerequisite, dependent)` in the order they were added.
    pub edges: Vec<(String, String)>,
}

/// Index of `name` in `nodes`, if present.
fn position_of(nodes: &Vec<String>, name: &String) -> (r: Option<usize>)
    ensures
        match r {
            Some(i) => i < nodes@.len() && nodes@[i as int]@ == name@,
            None => !names(nodes@).contains(name@),
        },
{
    let mut i: usize = 0;
    while i < nodes.len()
        invariant
            i <= nodes@.len(),
            forall|k: int| 0 <= k < i ==> #[trigger] nodes@[k]@ != name@,
        decreases nodes@.len() - i,
    {
        if nodes[i] == *name {
            return Some(i);
        }
        i += 1;
    }
    proof {
        assert forall|k: int| 0 <= k < names(nodes@).len() implies names(nodes@)[k] != name@ by {
            assert(names(nodes@)[k] == nodes@[k]@);
        }
    }
    None
}

/// Number of edges among the first `k` of `es` that enter `v` from a node
/// that is not yet done.
pub open spec fn in_count(es: Seq<(usize, usize)>, v: int, done: Seq<bool>, k: int) -> nat
    decreases k,
{
    if k <= 0 {
        0
    } else {
        in_count(es, v, done, k - 1) + if es[k - 1].1 == v && !done[es[k - 1].0 as int] {
            1nat
        } else {
            0nat
        }
    }
}

/// Number of edges among the first `k` of `es` that go from `u` to `v`.
pub open spec fn pair_count(es: Seq<(usize, usize)>, u: int, v: int, k: int) -> nat
    decreases k,
{
    if k <= 0 {
        0
    } else {
        pair_count(es, u, v, k - 1) + if es[k - 1].0 == u && es[k - 1].1 == v {
            1nat
        } else {
            0nat
        }
    }
}

/// Number of entries of `done` that are still false.
pub open spec fn pending_count(done: Seq<bool>) -> nat
    decreases done.len(),
{
    if done.len() == 0 {
        0
    } else {
        pending_count(done.drop_last()) + if done.last() {
            0nat
        } else {
            1nat
        }
    }
}

proof fn lemma_pending_count_mark(done: Seq<bool>, u: int)
    requires
        0 <= u < done.len(),
        !done[u],
    ensures
        pending_count(done.update(u, true)) + 1 == pending_count(done),
    decreases done.len(),
{
    let d2 = done.update(u, true);
    if u == done.len() - 1 {
        assert(d2.drop_last() =~= done.drop_last());
    } else {
        assert(d2.drop_last() =~= done.drop_last().update(u, true));
        lemma_pending_count_mark(done.drop_last(), u);
    }
}

proof fn lemma_in_count_bound(es: Seq<(usize, usize)>, v: int, done: Seq<bool>, k: int)
    requires
        0 <= k,
    ensures
        in_count(es, v, done, k) <= k,
    decreases k,
{
    if k > 0 {
        lemma_in_count_bound(es, v, done, k - 1);
    }
}

/// A zero count means every counted edge into `v` starts at a done node.
proof fn lemma_in_count_zero(es: Seq<(usize, usize)>, v: int, done: Seq<bool>, k: int)
    requires
        0 <= k <= es.len(),
        in_count(es, v, done, k) == 0,
    ensures
        forall|e: int| 0 <= e < k && #[trigger] es[e].1 == v ==> done[es[e].0 as int],
    decreases k,
{
    if k > 0 {
        lemma_in_count_zero(es, v, done, k - 1);
    }
}

/// A positive count has a witness edge from a node that is not done.
proof fn lemma_in_count_pos(es: Seq<(usize, usize)>, v: int, done: Seq<bool>, k: int) -> (e: int)
    requires
        0 <= k <= es.len(),
        in_count(es, v, done, k) > 0,
    ensures
        0 <= e < k,
        es[e].1 == v,
        !done[es[e].0 as int],
    decreases k,
{
    if es[k - 1].1 == v && !done[es[k - 1].0 as int] {
        k - 1
    } else {
        lemma_in_count_pos(es, v, done, k - 1)
    }
}

/// Marking `u` done removes exactly the edges from `u` from the count.
proof fn lemma_in_count_mark(es: Seq<(usize, usize)>, v: int, done: Seq<bool>, u: int, k: int)
    requires
        0 <= k <= es.len(),
        forall|j: int| 0 <= j < es.len() ==> ((#[trigger] es[j]).0 as int) < done.len(),
        0 <= u < done.len(),
        !done[u],
    ensures
        in_count(es, v, done.update(u, true), k) + pair_count(es, u, v, k) == in_count(
            es,
            v,
            done,
            k,
        ),
    decreases k,
{
    if k > 0 {
        lemma_in_count_mark(es, v, done, u, k - 1);
    }
}

proof fn lemma_pair_count_mono(es: Seq<(usize, usize)>, u: int, v: int, k: int, j: int)
    requires
        0 <= k <= j,
    ensures
        pair_count(es, u, v, k) <= pair_count(es, u, v, j),
    decreases j,
{
    if j > k {
        lemma_pair_count_mono(es, u, v, k, j - 1);
    }
}

impl DependencyGraph {
    /// Task ids of the nodes, as character sequences.
    pub open spec fn node_names(&self) -> Seq<Seq<char>> {
        names(self.nodes@)
    }

    /// Edges as pairs of character sequences.
    pub open spec fn edge_names(&self) -> Seq<(Seq<char>, Seq<char>)> {
        self.edges@.map_values(|e: (String, String)| (e.0@, e.1@))
    }

    /// Node ids are distinct and every edge joins two nodes.
    pub open spec fn wf(&self) -> bool {
        &&& self.node_names().no_duplicates()
        &&& forall|e: int|
            0 <= e < self.edges@.len() ==> self.node_names().contains(#[trigger] self.edges@[e].0@)
                && self.node_names().contains(self.edges@[e].1@)
    }

    /// `o` lists every node exactly once, and each prerequisite before its dependents.
    pub open spec fn is_topological_order(&self, o: Seq<Seq<char>>) -> bool {
        &&& o.no_duplicates()
        &&& forall|i: int| 0 <= i < o.len() ==> self.node_names().contains(#[trigger] o[i])
        &&& forall|k: int| 0 <= k < self.nodes@.len() ==> o.contains(#[trigger] self.nodes@[k]@)
        &&& forall|e: int, i: int, j: int|
            #![trigger self.edges@[e], o[i], o[j]]
            0 <= e < self.edges@.len() && 0 <= i < o.len() && 0 <= j < o.len() && o[i]
                == self.edges@[e].0@ && o[j] == self.edges@[e].1@ ==> i < j
    }

    /// An empty graph.
    pub fn new() -> (g: Self)
        ensures
            g.wf(),
            g.nodes@.len() == 0,
            g.edges@.len() == 0,
    {
        DependencyGraph { nodes: Vec::new(), edges: Vec::new() }
    }

    /// Adds a node unless a node with the same id is already present.
    pub fn add_node(&mut self, task_id: String)
        ensures
            old(self).wf() ==> final(self).wf(),
            final(self).node_names() == with_name(old(self).node_names(), task_id@),
            final(self).edges@ == old(self).edges@,
    {
        let ghost old_names = self.node_names();
        let pos = position_of(&self.nodes, &task_id);
        if let Some(i) = pos {
            proof {
                assert(old_names[i as int] == task_id@);
            }
        } else {
            self.nodes.push(task_id);
            proof {
                assert(self.node_names() =~= old_names.push(task_id@));
                assert forall|e: int| old(self).wf() && 0 <= e < self.edges@.len() implies self.node_names().contains(
                    #[trigger] self.edges@[e].0@,
                ) && self.node_names().contains(self.edges@[e].1@) by {
                    let a = old_names.index_of(self.edges@[e].0@);
                    let b = old_names.index_of(self.edges@[e].1@);
                    assert(self.node_names()[a] == self.edges@[e].0@);
                    assert(self.node_names()[b] == self.edges@[e].1@);
                }
            }
        }
    }

    /// Adds the edge `from -> to`, adding either node if it is missing.
    pub fn add_edge(&mut self, from: String, to: String)
        ensures
            old(self).wf() ==> final(self).wf(),
            final(self).node_names() == with_name(
                with_name(old(self).node_names(), from@),
                to@,
            ),
            final(self).edges@ == old(self).edges@.push((from, to)),
    {
        self.add_node(from.clone());
        self.add_node(to.clone());
        let ghost mid = self.node_names();
        proof {
            assert(mid.contains(from@)) by {
                let w = with_name(old(self).node_names(), from@);
                if !old(self).node_names().contains(from@) {
                    assert(w[w.len() - 1] == from@);
                }
                let i = w.index_of(from@);
                if !w.contains(to@) {
                    assert(mid[i] == from@);
                }
            }
            assert(mid.contains(to@)) by {
                let w = with_name(old(self).node_names(), from@);
                if !w.contains(to@) {
                    assert(mid[mid.len() - 1] == to@);
                }
            }
        }
        self.edges.push((from, to));
    }

    /// Orders the tasks so that every prerequisite comes before its
    /// dependents; fails exactly when no such order exists.
    pub fn topological_sort(&self) -> (r: Result<Vec<String>, GraphError>)
        requires
            self.wf(),
        ensures
            match r {
                Ok(order) => self.is_topological_order(names(order@)),
                Err(_) => forall|o: Seq<Seq<char>>| !self.is_topological_order(o),
            },
    {
        let n = self.nodes.len();
        let m = self.edges.len();
        let ghost nn = self.node_names();

        // Edges as pairs of node indices.
        let mut es: Vec<(usize, usize)> = Vec::new();
        let mut e: usize = 0;
        while e < m
            invariant
                e <= m,
                m == self.edges@.len(),
                n == self.nodes@.len(),
                self.wf(),
                nn == self.node_names(),
                es@.len() == e,
                forall|k: int|
                    0 <= k < e ==> (#[trigger] es@[k]).0 < n && es@[k].1 < n
                        && self.nodes@[es@[k].0 as int]@ == self.edges@[k].0@
                        && self.nodes@[es@[k].1 as int]@ == self.edges@[k].1@,
            decreases m - e,
        {
            let a = position_of(&self.nodes, &self.edges[e].0);
            let b = position_of(&self.nodes, &self.edges[e].1);
            proof {
                assert(self.node_names().contains(self.edges@[e as int].0@));
            }
            match (a, b) {
                (Some(a), Some(b)) => {
                    es.push((a, b));
                },
                _ => {
                    proof {
                        assert(false);
                    }
                },
            }
            e += 1;
        }

        // In-degrees with nothing done yet.
        let ghost none_done = Seq::new(n as nat, |i: int| false);
        let mut indeg: Vec<usize> = Vec::new();
        let mut v: usize = 0;
        while v < n
            invariant
                v <= n,
                indeg@.len() == v,
                forall|w: int| 0 <= w < v ==> #[trigger] indeg@[w] == 0,
            decreases n - v,
        {
            indeg.push(0);
            v += 1;
        }
        let mut e: usize = 0;
        while e < m
            invariant
                e <= m,
                m == es@.len(),
                indeg@.len() == n,
                none_done.len() == n,
                forall|w: int| 0 <= w < n ==> !none_done[w],
                forall|k: int| 0 <= k < m ==> (#[trigger] es@[k]).0 < n && es@[k].1 < n,
                forall|w: int| 0 <= w < n ==> #[trigger] indeg@[w] == in_count(es@, w, none_done, e as int),
            decreases m - e,
        {
            let b = es[e].1;
            proof {
                lemma_in_count_bound(es@, b as int, none_done, e as int);
                assert forall|w: int| 0 <= w < n implies #[trigger] in_count(es@, w, none_done, e + 1)
                    == in_count(es@, w, none_done, e as int) + if w == b { 1nat } else { 0nat } by {}
            }
            indeg.set(b, indeg[b] + 1);
            e += 1;
        }

        let mut done: Vec<bool> = Vec::new();
        let mut v: usize = 0;
        while v < n
            invariant
                v <= n,
                done@.len() == v,
                forall|w: int| 0 <= w < v ==> !(#[trigger] done@[w]),
            decreases n - v,
        {
            done.push(false);
            v += 1;
        }
        proof {
            assert(done@ =~= none_done);
        }

        // Nodes with no pending prerequisites.
        let mut queue: Vec<usize> = Vec::new();
        let mut v: usize = 0;
        while v < n
            invariant
                v <= n,
                indeg@.len() == n,
                queue@.no_duplicates(),
                forall|i: int| 0 <= i < queue@.len() ==> #[trigger] queue@[i] < v && indeg@[queue@[i] as int] == 0,
                forall|w: int| 0 <= w < v && #[trigger] indeg@[w] == 0 ==> queue@.contains(w as usize),
            decreases n - v,
        {
            let ghost before = queue@;
            if indeg[v] == 0 {
                queue.push(v);
                proof {
                    assert(queue@[queue@.len() - 1] == v);
                    assert forall|w: int| 0 <= w < v && #[trigger] indeg@[w] == 0 implies queue@.contains(w as usize) by {
                        let qi = before.index_of(w as usize);
                        assert(queue@[qi] == w as usize);
                    }
                }
            }
            v += 1;
        }

        let mut result: Vec<usize> = Vec::new();
        while queue.len() > 0
            invariant
                n == self.nodes@.len(),
                m == es@.len(),
                m == self.edges@.len(),
                self.wf(),
                nn == self.node_names(),
                forall|k: int|
                    0 <= k < m ==> (#[trigger] es@[k]).0 < n && es@[k].1 < n
                        && self.nodes@[es@[k].0 as int]@ == self.edges@[k].0@
                        && self.nodes@[es@[k].1 as int]@ == self.edges@[k].1@,
                done@.len() == n,
                indeg@.len() == n,
                forall|w: int| 0 <= w < n ==> #[trigger] indeg@[w] == in_count(es@, w, done@, m as int),
                queue@.no_duplicates(),
                forall|i: int|
                    0 <= i < queue@.len() ==> #[trigger] queue@[i] < n && !done@[queue@[i] as int]
                        && indeg@[queue@[i] as int] == 0,
                forall|w: int|
                    0 <= w < n && !done@[w] && #[trigger] indeg@[w] == 0 ==> queue@.contains(
                        w as usize,
                    ),
                result@.no_duplicates(),
                forall|i: int|
                    0 <= i < result@.len() ==> #[trigger] result@[i] < n && done@[result@[i] as int],
                forall|w: int| 0 <= w < n && #[trigger] done@[w] ==> result@.contains(w as usize),
                forall|k: int|
                    0 <= k < m && #[trigger] done@[es@[k].1 as int] ==> done@[es@[k].0 as int],
                forall|k: int, i: int, j: int|
                    #![trigger es@[k], result@[i], result@[j]]
                    0 <= k < m && 0 <= i < result@.len() && 0 <= j < result@.len() && result@[i]
                        == es@[k].0 && result@[j] == es@[k].1 ==> i < j,
            decreases pending_count(done@),
        {
            let ghost old_queue = queue@;
            let ghost old_done = done@;
            let ghost old_result = result@;
            let ghost old_indeg = indeg@;
            let u = queue.pop().unwrap();
            proof {
                assert(old_queue[old_queue.len() - 1] == u);
                assert(queue@ =~= old_queue.drop_last());
                lemma_pending_count_mark(old_done, u as int);
                lemma_in_count_zero(es@, u as int, old_done, m as int);
            }
            done.set(u, true);
            result.push(u);
            proof {
                assert(done@ == old_done.update(u as int, true));
                assert forall|w: int| 0 <= w < n && !done@[w] && #[trigger] indeg@[w] == 0 implies queue@.contains(w as usize) by {
                    assert(old_queue.contains(w as usize));
                    let qi = old_queue.index_of(w as usize);
                    assert(qi != old_queue.len() - 1);
                    assert(queue@[qi] == w as usize);
                }
                assert forall|w: int| 0 <= w < n implies #[trigger] in_count(es@, w, done@, m as int) + pair_count(es@, u as int, w, m as int)
                    == in_count(es@, w, old_done, m as int) by {
                    lemma_in_count_mark(es@, w, old_done, u as int, m as int);
                }
            }

            let mut e: usize = 0;
            while e < m
                invariant
                    e <= m,
                    n == self.nodes@.len(),
                    m == es@.len(),
                    u < n,
                    !old_done[u as int],
                    old_done.len() == n,
                    done@ == old_done.update(u as int, true),
                    forall|k: int| 0 <= k < m ==> (#[trigger] es@[k]).0 < n && es@[k].1 < n,
                    forall|k: int|
                        0 <= k < m && #[trigger] old_done[es@[k].1 as int] ==> old_done[es@[k].0 as int],
                    forall|k: int| 0 <= k < m && #[trigger] es@[k].1 == u ==> old_done[es@[k].0 as int],
                    indeg@.len() == n,
                    forall|w: int|
                        0 <= w < n ==> #[trigger] indeg@[w] + pair_count(es@, u as int, w, e as int)
                            == in_count(es@, w, old_done, m as int),
                    forall|w: int|
                        0 <= w < n ==> #[trigger] in_count(es@, w, done@, m as int) + pair_count(es@, u as int, w, m as int)
                            == in_count(es@, w, old_done, m as int),
                    queue@.no_duplicates(),
                    forall|i: int|
                        0 <= i < queue@.len() ==> #[trigger] queue@[i] < n && !done@[queue@[i] as int]
                            && indeg@[queue@[i] as int] == 0,
                    forall|w: int|
                        0 <= w < n && !done@[w] && #[trigger] indeg@[w] == 0 ==> queue@.contains(
                            w as usize,
                        ),
                decreases m - e,
            {
                let (a, b) = es[e];
                proof {
                    assert forall|w: int| 0 <= w < n implies #[trigger] pair_count(es@, u as int, w, e + 1)
                        == pair_count(es@, u as int, w, e as int) + if a == u && b == w { 1nat } else { 0nat } by {}
                }
                if a == u {
                    proof {
                        lemma_pair_count_mono(es@, u as int, b as int, (e + 1) as int, m as int);
                        // b is neither u (no self-loop on a ready node) nor done.
                        assert(b != u);
                        assert(!old_done[b as int]);
                        assert(indeg@[b as int] + pair_count(es@, u as int, b as int, e as int)
                            == in_count(es@, b as int, old_done, m as int));
                        assert(in_count(es@, b as int, done@, m as int) + pair_count(es@, u as int, b as int, m as int)
                            == in_count(es@, b as int, old_done, m as int));
                        assert(pair_count(es@, u as int, b as int, e + 1) == pair_count(es@, u as int, b as int, e as int) + 1);
                        assert(indeg@[b as int] >= 1);
                        if queue@.contains(b) {
                            let qi = queue@.index_of(b);
                            assert(queue@[qi] == b);
                        }
                    }
                    let ghost before = queue@;
                    indeg.set(b, indeg[b] - 1);
                    if indeg[b] == 0 {
                        queue.push(b);
                        proof {
                            assert(queue@[queue@.len() - 1] == b);
                            assert forall|w: int| 0 <= w < n && !done@[w] && #[trigger] indeg@[w] == 0 implies queue@.contains(
                                w as usize,
                            ) by {
                                if w != b {
                                    let qi = before.index_of(w as usize);
                                    assert(queue@[qi] == w as usize);
                                }
                            }
                        }
                    }
                }
                e += 1;
            }
            proof {
                assert forall|w: int| 0 <= w < n implies #[trigger] indeg@[w] == in_count(es@, w, done@, m as int) by {}
                assert(result@ == old_result.push(u));
                assert(!old_result.contains(u)) by {
                    if old_result.contains(u) {
                        let i = old_result.index_of(u);
                        assert(old_done[old_result[i] as int]);
                    }
                }
                assert forall|w: int| 0 <= w < n && #[trigger] done@[w] implies result@.contains(w as usize) by {
                    if w == u {
                        assert(result@[result@.len() - 1] == u);
                    } else {
                        let i = old_result.index_of(w as usize);
                        assert(result@[i] == w as usize);
                    }
                }
                assert forall|k: int, i: int, j: int|
                    #![trigger es@[k], result@[i], result@[j]]
                    0 <= k < m && 0 <= i < result@.len() && 0 <= j < result@.len() && result@[i]
                        == es@[k].0 && result@[j] == es@[k].1 implies i < j by {
                    let last = old_result.len() as int;
                    if j == last {
                        // es[k] enters u, so its source was already done.
                        assert(old_done[es@[k].0 as int]);
                        let i0 = old_result.index_of(es@[k].0);
                        assert(old_result[i0] == es@[k].0);
                        assert(result@[i0] == es@[k].0);
                        if i == last {
                            assert(false);
                        }
                        assert(i < last);
                    } else if i == last {
                        assert(old_done[result@[j] as int]);
                        assert(old_done[es@[k].0 as int]);
                        assert(false);
                    } else {
                        assert(old_result[i] == es@[k].0);
                        assert(old_result[j] == es@[k].1);
                    }
                }
            }
        }

        // Every node must have been scheduled.
        proof {
            assert forall|w: int| 0 <= w < n && !done@[w] implies #[trigger] in_count(es@, w, done@, m as int) > 0 by {
                if indeg@[w] == 0 {
                    let qi = queue@.index_of(w as usize);
                }
            }
        }
        let mut v: usize = 0;
        while v < n
            invariant
                v <= n,
                done@.len() == n,
                n == self.nodes@.len(),
                m == es@.len(),
                m == self.edges@.len(),
                self.wf(),
                nn == self.node_names(),
                forall|k: int|
                    0 <= k < m ==> (#[trigger] es@[k]).0 < n && es@[k].1 < n
                        && self.nodes@[es@[k].0 as int]@ == self.edges@[k].0@
                        && self.nodes@[es@[k].1 as int]@ == self.edges@[k].1@,
                forall|w: int| 0 <= w < n && !done@[w] ==> #[trigger] in_count(es@, w, done@, m as int) > 0,
                forall|w: int| 0 <= w < v ==> #[trigger] done@[w],
            decreases n - v,
        {
            if !done[v] {
                proof {
                    assert forall|o: Seq<Seq<char>>| !self.is_topological_order(o) by {
                        if self.is_topological_order(o) {
                            assert(o.contains(self.nodes@[v as int]@));
                            let p = o.index_of(self.nodes@[v as int]@);
                            assert(o[p] == self.nodes@[v as int]@);
                            self.lemma_order_reaches_done(es@, done@, o, p);
                            assert(nn[v as int] == self.nodes@[v as int]@);
                        }
                    }
                }
                return Err(GraphError::CycleDetected);
            }
            v += 1;
        }

        let mut out: Vec<String> = Vec::new();
        let mut i: usize = 0;
        while i < result.len()
            invariant
                i <= result@.len(),
                n == self.nodes@.len(),
                out@.len() == i,
                forall|j: int| 0 <= j < result@.len() ==> #[trigger] result@[j] < n,
                forall|j: int| 0 <= j < i ==> #[trigger] out@[j]@ == self.nodes@[result@[j] as int]@,
            decreases result@.len() - i,
        {
            out.push(self.nodes[result[i]].clone());
            i += 1;
        }
        proof {
            let o = names(out@);
            assert forall|j: int| 0 <= j < o.len() implies o[j] == self.nodes@[result@[j] as int]@ by {}
            assert forall|x: int, y: int| 0 <= x < y < result@.len() implies result@[x] != result@[y] by {}
            assert(o.no_duplicates()) by {
                assert forall|x: int, y: int| 0 <= x < o.len() && 0 <= y < o.len() && x != y implies o[x] != o[y] by {
                    assert(nn[result@[x] as int] == o[x]);
                    assert(nn[result@[y] as int] == o[y]);
                }
            }
            assert forall|j: int| 0 <= j < o.len() implies self.node_names().contains(#[trigger] o[j]) by {
                assert(nn[result@[j] as int] == o[j]);
            }
            assert forall|k: int| 0 <= k < self.nodes@.len() implies o.contains(#[trigger] self.nodes@[k]@) by {
                assert(done@[k]);
                let j = result@.index_of(k as usize);
                assert(o[j] == self.nodes@[k]@);
            }
            assert forall|k: int, x: int, y: int|
                #![trigger self.edges@[k], o[x], o[y]]
                0 <= k < self.edges@.len() && 0 <= x < o.len() && 0 <= y < o.len() && o[x]
                    == self.edges@[k].0@ && o[y] == self.edges@[k].1@ implies x < y by {
                assert(es@[k].0 < n);
                assert(nn[result@[x] as int] == nn[es@[k].0 as int]);
                assert(nn[result@[y] as int] == nn[es@[k].1 as int]);
                assert(result@[x] == es@[k].0);
                assert(result@[y] == es@[k].1);
            }
        }
        Ok(out)
    }

    /// In any execution order, the node at position `p` has been scheduled,
    /// provided every unscheduled node waits on an unscheduled prerequisite.
    proof fn lemma_order_reaches_done(
        &self,
        es: Seq<(usize, usize)>,
        done: Seq<bool>,
        o: Seq<Seq<char>>,
        p: int,
    )
        requires
            self.wf(),
            self.is_topological_order(o),
            0 <= p < o.len(),
            es.len() == self.edges@.len(),
            done.len() == self.nodes@.len(),
            forall|k: int|
                0 <= k < es.len() ==> (#[trigger] es[k]).0 < self.nodes@.len() && es[k].1
                    < self.nodes@.len() && self.nodes@[es[k].0 as int]@ == self.edges@[k].0@
                    && self.nodes@[es[k].1 as int]@ == self.edges@[k].1@,
            forall|w: int|
                0 <= w < done.len() && !done[w] ==> #[trigger] in_count(es, w, done, es.len() as int)
                    > 0,
        ensures
            forall|x: int| 0 <= x < self.nodes@.len() && self.nodes@[x]@ == o[p] ==> #[trigger] done[x],
        decreases p,
    {
        let nn = self.node_names();
        assert forall|x: int| 0 <= x < self.nodes@.len() && self.nodes@[x]@ == o[p] implies #[trigger] done[x] by {
            if !done[x] {
                let e = lemma_in_count_pos(es, x, done, es.len() as int);
                let a = es[e].0 as int;
                let q = o.index_of(self.nodes@[a]@);
                assert(o[q] == self.nodes@[a]@);
                assert(o[q] == self.edges@[e].0@);
                assert(o[p] == self.edges@[e].1@);
                assert(q < p);
                self.lemma_order_reaches_done(es, done, o, q);
            }
        }
    }
}

} // verus!
