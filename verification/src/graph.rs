//! Whether every walk along the edges of a graph ends.
use vstd::prelude::*;

verus! {

/// `rank` shrinks along every edge.
pub open spec fn ranked(edges: Seq<Vec<usize>>, rank: spec_fn(int) -> nat) -> bool {
    forall|i: int, k: int|
        0 <= i < edges.len() && 0 <= k < edges[i]@.len() ==> rank(
            (#[trigger] edges[i]@[k]) as int,
        ) < rank(i)
}

/// Every edge leads to a node of the graph.
pub open spec fn within_bounds(edges: Seq<Vec<usize>>) -> bool {
    forall|i: int, k: int|
        0 <= i < edges.len() && 0 <= k < edges[i]@.len() ==> (#[trigger] edges[i]@[k])
            < edges.len()
}

/// The node leads only to nodes that are marked.
spec fn ready(edges: Seq<Vec<usize>>, marked: Seq<bool>, i: int) -> bool {
    forall|k: int| 0 <= k < edges[i]@.len() ==> marked[(#[trigger] edges[i]@[k]) as int]
}

fn is_ready(edges: &Vec<Vec<usize>>, marked: &Vec<bool>, i: usize) -> (r: bool)
    requires
        within_bounds(edges@),
        marked@.len() == edges@.len(),
        i < edges@.len(),
    ensures
        r == ready(edges@, marked@, i as int),
{
    let mut k: usize = 0;
    while k < edges[i].len()
        invariant
            within_bounds(edges@),
            marked@.len() == edges@.len(),
            i < edges@.len(),
            k <= edges@[i as int]@.len(),
            forall|m: int| 0 <= m < k ==> marked@[(#[trigger] edges@[i as int]@[m]) as int],
        decreases edges@[i as int]@.len() - k,
    {
        let to: usize = edges[i][k];
        assert(edges@[i as int]@[k as int] < edges@.len());
        if !marked[to] {
            return false;
        }
        k = k + 1;
    }
    true
}

proof fn lemma_stuck(
    edges: Seq<Vec<usize>>,
    marked: Seq<bool>,
    rank: spec_fn(int) -> nat,
    i: int,
)
    requires
        within_bounds(edges),
        marked.len() == edges.len(),
        forall|j: int| 0 <= j < marked.len() && !#[trigger] marked[j] ==> !ready(edges, marked, j),
        0 <= i < marked.len(),
        !marked[i],
    ensures
        !ranked(edges, rank),
    decreases rank(i),
{
    if ranked(edges, rank) {
        assert(!ready(edges, marked, i));
        let k = choose|k: int|
            0 <= k < edges[i]@.len() && !marked[(#[trigger] edges[i]@[k]) as int];
        assert(edges[i]@[k] < edges.len());
        lemma_stuck(edges, marked, rank, edges[i]@[k] as int);
    }
}

/// How many of the first `n` places are not marked.
spec fn unmarked(marked: Seq<bool>, n: int) -> nat
    decreases n,
{
    if n <= 0 {
        0
    } else {
        unmarked(marked, n - 1) + if marked[n - 1] {
            0nat
        } else {
            1nat
        }
    }
}

proof fn lemma_some_unmarked(marked: Seq<bool>, n: int) -> (i: int)
    requires
        0 <= n <= marked.len(),
        unmarked(marked, n) > 0,
    ensures
        0 <= i < n,
        !marked[i],
    decreases n,
{
    if marked[n - 1] {
        lemma_some_unmarked(marked, n - 1)
    } else {
        n - 1
    }
}

proof fn lemma_mark(marked: Seq<bool>, n: int, at: int)
    requires
        0 <= n <= marked.len(),
        0 <= at < marked.len(),
        !marked[at],
    ensures
        unmarked(marked.update(at, true), n) == unmarked(marked, n) - if at < n {
            1int
        } else {
            0int
        },
    decreases n,
{
    if n > 0 {
        lemma_mark(marked, n - 1, at);
    }
}

proof fn lemma_none_marked(marked: Seq<bool>, n: int)
    requires
        0 <= n <= marked.len(),
        forall|i: int| 0 <= i < n ==> !#[trigger] marked[i],
    ensures
        unmarked(marked, n) == n,
    decreases n,
{
    if n > 0 {
        lemma_none_marked(marked, n - 1);
    }
}

proof fn lemma_all_marked(marked: Seq<bool>, n: int)
    requires
        0 <= n <= marked.len(),
        unmarked(marked, n) == 0,
    ensures
        forall|i: int| 0 <= i < n ==> #[trigger] marked[i],
    decreases n,
{
    if n > 0 {
        lemma_all_marked(marked, n - 1);
    }
}

/// Whether every walk along the edges ends.
pub fn walks_end(edges: &Vec<Vec<usize>>) -> (r: bool)
    requires
        within_bounds(edges@),
    ensures
        r == exists|rank: spec_fn(int) -> nat| #[trigger] ranked(edges@, rank),
{
    let n: usize = edges.len();
    let mut marked: Vec<bool> = Vec::new();
    let mut i: usize = 0;
    while i < n
        invariant
            i <= n,
            marked@.len() == i,
            forall|j: int| 0 <= j < i ==> !#[trigger] marked@[j],
        decreases n - i,
    {
        marked.push(false);
        i = i + 1;
    }
    let mut left: usize = n;
    let ghost mut order: Seq<nat> = Seq::new(n as nat, |j: int| 0);
    proof {
        lemma_none_marked(marked@, n as int);
    }
    while left > 0
        invariant
            within_bounds(edges@),
            n == edges@.len(),
            marked@.len() == n,
            order.len() == n,
            left <= n,
            left == unmarked(marked@, n as int),
            forall|j: int| 0 <= j < n && #[trigger] marked@[j] ==> order[j] < n - left,
            forall|j: int, k: int|
                0 <= j < n && marked@[j] && 0 <= k < edges@[j]@.len() ==> marked@[(
                #[trigger] edges@[j]@[k]) as int] && order[edges@[j]@[k] as int] < order[j],
        decreases left,
    {
        let mut at: usize = 0;
        while at < n && (marked[at] || !is_ready(edges, &marked, at))
            invariant
                within_bounds(edges@),
                n == edges@.len(),
                marked@.len() == n,
                at <= n,
                forall|j: int| 0 <= j < at && !#[trigger] marked@[j] ==> !ready(
                    edges@,
                    marked@,
                    j,
                ),
            decreases n - at,
        {
            at = at + 1;
        }
        if at == n {
            proof {
                let first = lemma_some_unmarked(marked@, n as int);
                assert forall|rank: spec_fn(int) -> nat| !#[trigger] ranked(edges@, rank) by {
                    lemma_stuck(edges@, marked@, rank, first);
                }
            }
            return false;
        }
        proof {
            lemma_mark(marked@, n as int, at as int);
            order = order.update(at as int, (n - left) as nat);
        }
        marked.set(at, true);
        left = left - 1;
        proof {
            assert forall|j: int, k: int|
                0 <= j < n && marked@[j] && 0 <= k < edges@[j]@.len() implies marked@[(
            #[trigger] edges@[j]@[k]) as int] && order[edges@[j]@[k] as int] < order[j] by {
                assert(edges@[j]@[k] < n);
            }
        }
    }
    proof {
        let rank = |j: int| order[j];
        lemma_all_marked(marked@, n as int);
        assert(ranked(edges@, rank));
    }
    true
}

} // verus!
