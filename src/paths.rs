//! Paths along input edges. A graph is given as the input slots of each node:
//! `g[a][k]` is the node whose output feeds slot `k` of node `a`, so an edge leads
//! from a node to the node upstream of it.
use vstd::prelude::*;

verus! {

pub open spec fn is_edge(g: Seq<Seq<usize>>, a: int, b: int) -> bool {
    0 <= a < g.len() && exists|k: int| 0 <= k < g[a].len() && g[a][k] == b
}

pub open spec fn is_path(g: Seq<Seq<usize>>, p: Seq<int>) -> bool {
    &&& p.len() >= 1
    &&& forall|i: int| 0 <= i < p.len() ==> 0 <= #[trigger] p[i] < g.len()
    &&& forall|i: int| 0 <= i < p.len() - 1 ==> is_edge(g, #[trigger] p[i], p[i + 1])
}

/// `b` is upstream of `a`, or is `a`.
pub open spec fn reaches(g: Seq<Seq<usize>>, a: int, b: int) -> bool {
    exists|p: Seq<int>| #[trigger] is_path(g, p) && p[0] == a && p[p.len() - 1] == b
}

/// No path of one edge or more leads from a node back to itself.
pub open spec fn is_acyclic(g: Seq<Seq<usize>>) -> bool {
    forall|p: Seq<int>| #[trigger] is_path(g, p) && p.len() >= 2 ==> p[0] != p[p.len() - 1]
}

/// Every slot holds a node of the graph, ranked below the node that holds the slot.
pub open spec fn is_ranked(g: Seq<Seq<usize>>, rank: Seq<nat>) -> bool {
    &&& rank.len() == g.len()
    &&& forall|a: int, k: int|
        0 <= a < g.len() && 0 <= k < g[a].len() ==> #[trigger] g[a][k] < g.len() && rank[g[a][k] as int]
            < rank[a]
}

/// The ranks after an edge from `u` to `d` is put in: every node that reaches `u`
/// is lifted above `d`.
pub open spec fn lifted_rank(g: Seq<Seq<usize>>, rank: Seq<nat>, u: int, d: int) -> Seq<nat> {
    Seq::new(
        rank.len(),
        |x: int|
            if reaches(g, x, u) {
                rank[x] + rank[d] + 1
            } else {
                rank[x]
            },
    )
}

pub proof fn lemma_reaches_self(g: Seq<Seq<usize>>, a: int)
    requires
        0 <= a < g.len(),
    ensures
        reaches(g, a, a),
{
    let p = seq![a];
    assert(is_path(g, p));
}

/// A path prefixed by the edge through slot `k` of `a`.
pub proof fn lemma_reaches_through_slot(g: Seq<Seq<usize>>, a: int, k: int, b: int)
    requires
        0 <= a < g.len(),
        0 <= k < g[a].len(),
        reaches(g, g[a][k] as int, b),
    ensures
        reaches(g, a, b),
{
    let p = choose|p: Seq<int>| #[trigger] is_path(g, p) && p[0] == g[a][k] as int && p[p.len() - 1] == b;
    let q = seq![a] + p;
    assert forall|i: int| 0 <= i < q.len() - 1 implies is_edge(g, #[trigger] q[i], q[i + 1]) by {
        if i == 0 {
            assert(q[1] == p[0]);
        } else {
            assert(q[i] == p[i - 1]);
            assert(q[i + 1] == p[i]);
        }
    }
    assert(is_path(g, q));
    assert(q[q.len() - 1] == p[p.len() - 1]);
}

/// A path of one edge or more leaves through one of the slots of its first node.
pub proof fn lemma_reaches_first_slot(g: Seq<Seq<usize>>, a: int, b: int)
    requires
        reaches(g, a, b),
        a != b,
    ensures
        exists|k: int| 0 <= k < g[a].len() && reaches(g, #[trigger] g[a][k] as int, b),
{
    let p = choose|p: Seq<int>| #[trigger] is_path(g, p) && p[0] == a && p[p.len() - 1] == b;
    assert(p.len() >= 2);
    assert(is_edge(g, p[0], p[1]));
    let k = choose|k: int| 0 <= k < g[a].len() && g[a][k] == p[1];
    let q = p.subrange(1, p.len() as int);
    assert forall|i: int| 0 <= i < q.len() - 1 implies is_edge(g, #[trigger] q[i], q[i + 1]) by {
        assert(q[i] == p[i + 1]);
        assert(q[i + 1] == p[i + 2]);
    }
    assert forall|i: int| 0 <= i < q.len() implies 0 <= #[trigger] q[i] < g.len() by {
        assert(q[i] == p[i + 1]);
    }
    assert(is_path(g, q));
    assert(reaches(g, g[a][k] as int, b));
}

/// Ranks fall along every edge, so the last node of a path is ranked no higher than
/// its first, and lower when the path has an edge.
pub proof fn lemma_rank_falls_along_path(g: Seq<Seq<usize>>, rank: Seq<nat>, p: Seq<int>)
    requires
        is_ranked(g, rank),
        is_path(g, p),
    ensures
        rank[p[p.len() - 1]] <= rank[p[0]],
        p.len() >= 2 ==> rank[p[p.len() - 1]] < rank[p[0]],
    decreases p.len(),
{
    if p.len() >= 2 {
        let q = p.subrange(1, p.len() as int);
        assert forall|i: int| 0 <= i < q.len() - 1 implies is_edge(g, #[trigger] q[i], q[i + 1]) by {
            assert(q[i] == p[i + 1]);
            assert(q[i + 1] == p[i + 2]);
        }
        assert forall|i: int| 0 <= i < q.len() implies 0 <= #[trigger] q[i] < g.len() by {
            assert(q[i] == p[i + 1]);
        }
        assert(is_path(g, q));
        lemma_rank_falls_along_path(g, rank, q);
        assert(is_edge(g, p[0], p[1]));
        let k = choose|k: int| 0 <= k < g[p[0]].len() && g[p[0]][k] == p[1];
        assert(rank[g[p[0]][k] as int] < rank[p[0]]);
        assert(q[q.len() - 1] == p[p.len() - 1]);
    }
}

/// A ranked graph has no cycle.
pub proof fn lemma_ranked_is_acyclic(g: Seq<Seq<usize>>, rank: Seq<nat>)
    requires
        is_ranked(g, rank),
    ensures
        is_acyclic(g),
{
    assert forall|p: Seq<int>| #[trigger] is_path(g, p) && p.len() >= 2 implies p[0] != p[p.len()
        - 1] by {
        lemma_rank_falls_along_path(g, rank, p);
    }
}

/// Pointing slot `slot` of `u` at `d` keeps a graph ranked, under the lifted ranks,
/// when `u` is not upstream of `d`.
pub proof fn lemma_new_edge_keeps_ranked(
    g: Seq<Seq<usize>>,
    rank: Seq<nat>,
    u: int,
    slot: int,
    d: usize,
)
    requires
        is_ranked(g, rank),
        0 <= u < g.len(),
        d < g.len(),
        0 <= slot < g[u].len(),
        !reaches(g, d as int, u),
    ensures
        is_ranked(g.update(u, g[u].update(slot, d)), lifted_rank(g, rank, u, d as int)),
{
    let g2 = g.update(u, g[u].update(slot, d));
    let r2 = lifted_rank(g, rank, u, d as int);
    lemma_reaches_self(g, u);
    assert forall|a: int, k: int| 0 <= a < g2.len() && 0 <= k < g2[a].len() implies #[trigger] g2[a][k]
        < g2.len() && r2[g2[a][k] as int] < r2[a] by {
        if a == u && k == slot {
            assert(g2[a][k] == d);
        } else {
            assert(g2[a][k] == g[a][k]);
            let b = g[a][k] as int;
            assert(rank[b] < rank[a]);
            if reaches(g, b, u) {
                lemma_reaches_through_slot(g, a, k, u);
            }
        }
    }
}

/// A node appended with slots that hold earlier nodes, ranked above them all,
/// keeps a graph ranked.
pub proof fn lemma_new_node_keeps_ranked(
    g: Seq<Seq<usize>>,
    rank: Seq<nat>,
    ins: Seq<usize>,
    m: nat,
)
    requires
        is_ranked(g, rank),
        forall|k: int| 0 <= k < ins.len() ==> #[trigger] ins[k] < g.len() && rank[ins[k] as int] < m,
    ensures
        is_ranked(g.push(ins), rank.push(m)),
{
    let g2 = g.push(ins);
    let r2 = rank.push(m);
    assert forall|a: int, k: int| 0 <= a < g2.len() && 0 <= k < g2[a].len() implies #[trigger] g2[a][k]
        < g2.len() && r2[g2[a][k] as int] < r2[a] by {
        if a < g.len() {
            assert(g2[a] == g[a]);
            assert(g[a][k] < g.len());
        } else {
            assert(g2[a] == ins);
            assert(ins[k] < g.len());
        }
    }
}

} // verus!
