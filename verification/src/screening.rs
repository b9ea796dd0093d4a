//! Whether a state that comes from outside is sound.
use vstd::prelude::*;
use crate::entities::{ClosureState, Problem, ProblemView};
use crate::forest::{below, branching, is_depth, is_height, listed, lemma_listed_below, rooted, Problems};
use crate::graph::{ranked, walks_end};
use crate::ids::{is_numbered_from, numbered};
use crate::soundness::room_for_problems;
use crate::strmap::{keys, StrMap};
use crate::text::{clone_texts, group_views, views};

verus! {

broadcast use group_views;

/// The problems next to a problem: its parent on the way up, those it lists on the way down.
pub open spec fn next_to(p: ProblemView, up: bool) -> Seq<Seq<char>> {
    if up {
        match p.parent_id {
            Some(id) => seq![id],
            None => seq![],
        }
    } else {
        listed(p)
    }
}

fn problems_next_to(p: &Problem, up: bool) -> (r: Vec<String>)
    ensures
        views(r@) == next_to(p@, up),
{
    if up {
        let mut r: Vec<String> = Vec::new();
        if let Some(id) = &p.parent_id {
            r.push(id.clone());
        }
        assert(views(r@) =~= next_to(p@, up));
        r
    } else {
        let mut r = clone_texts(&p.child_problem_ids);
        let mut i: usize = 0;
        while i < p.followup_problem_ids.len()
            invariant
                i <= p.followup_problem_ids@.len(),
                views(r@) == p@.child_problem_ids + p@.followup_problem_ids.take(i as int),
                p@.followup_problem_ids.len() == p.followup_problem_ids@.len(),
            decreases p.followup_problem_ids@.len() - i,
        {
            r.push(p.followup_problem_ids[i].clone());
            i = i + 1;
            assert(views(r@) =~= p@.child_problem_ids + p@.followup_problem_ids.take(i as int));
        }
        assert(p@.followup_problem_ids.take(i as int) =~= p@.followup_problem_ids);
        r
    }
}

/// `rank` shrinks on every step in one direction.
pub open spec fn ranks(
    problems: Problems,
    up: bool,
    rank: spec_fn(Seq<char>) -> nat,
) -> bool {
    forall|id: Seq<char>, k: int|
        problems.contains_key(id) && 0 <= k < next_to(problems[id], up).len()
            && problems.contains_key(#[trigger] next_to(problems[id], up)[k]) ==> rank(
            next_to(problems[id], up)[k],
        ) < rank(id)
}

proof fn lemma_ranks_up(problems: Problems, rank: spec_fn(Seq<char>) -> nat)
    ensures
        ranks(problems, true, rank) <==> is_depth(problems, rank),
{
    if is_depth(problems, rank) {
        assert forall|id: Seq<char>, k: int|
            problems.contains_key(id) && 0 <= k < next_to(problems[id], true).len()
                && problems.contains_key(#[trigger] next_to(problems[id], true)[k]) implies rank(
            next_to(problems[id], true)[k],
        ) < rank(id) by {
            assert(problems[id].parent_id == Some(next_to(problems[id], true)[k]));
        }
    }
    if ranks(problems, true, rank) {
        assert forall|id: Seq<char>, p: Seq<char>|
            #[trigger] problems.contains_key(id) && #[trigger] problems.contains_key(p)
                && problems[id].parent_id == Some(p) implies rank(p) < rank(id) by {
            assert(next_to(problems[id], true)[0] == p);
        }
    }
}

proof fn lemma_ranks_down(problems: Problems, rank: spec_fn(Seq<char>) -> nat)
    ensures
        ranks(problems, false, rank) <==> is_height(problems, rank),
{
    if is_height(problems, rank) {
        assert forall|id: Seq<char>, k: int|
            problems.contains_key(id) && 0 <= k < next_to(problems[id], false).len()
                && problems.contains_key(#[trigger] next_to(problems[id], false)[k]) implies rank(
            next_to(problems[id], false)[k],
        ) < rank(id) by {
            lemma_listed_below(problems[id], k);
        }
    }
    if ranks(problems, false, rank) {
        assert forall|id: Seq<char>, c: Seq<char>|
            #[trigger] problems.contains_key(id) && #[trigger] problems.contains_key(c) && below(
                problems[id],
                c,
            ) implies rank(c) < rank(id) by {
            let p = problems[id];
            if p.child_problem_ids.contains(c) {
                let k = p.child_problem_ids.index_of(c);
                assert(next_to(p, false)[k] == c);
            } else {
                let k = p.followup_problem_ids.index_of(c);
                assert(next_to(p, false)[p.child_problem_ids.len() + k] == c);
            }
        }
    }
}

proof fn lemma_walks_end(problems: Problems)
    ensures
        rooted(problems) <==> exists|rank: spec_fn(Seq<char>) -> nat| #[trigger]
            ranks(problems, true, rank),
        branching(problems) <==> exists|rank: spec_fn(Seq<char>) -> nat| #[trigger]
            ranks(problems, false, rank),
{
    if rooted(problems) {
        let d = choose|d: spec_fn(Seq<char>) -> nat| is_depth(problems, d);
        lemma_ranks_up(problems, d);
    }
    if branching(problems) {
        let h = choose|h: spec_fn(Seq<char>) -> nat| is_height(problems, h);
        lemma_ranks_down(problems, h);
    }
    assert forall|rank: spec_fn(Seq<char>) -> nat| #[trigger]
        ranks(problems, true, rank) implies rooted(problems) by {
        lemma_ranks_up(problems, rank);
    }
    assert forall|rank: spec_fn(Seq<char>) -> nat| #[trigger]
        ranks(problems, false, rank) implies branching(problems) by {
        lemma_ranks_down(problems, rank);
    }
}

/// Step `k` from the problem at place `i` leads to the one at place `j`.
spec fn step_to(problems: Problems, up: bool, i: int, k: int, j: int) -> bool {
    &&& 0 <= k < next_to(problems[keys(problems)[i]], up).len()
    &&& 0 <= j < keys(problems).len()
    &&& keys(problems)[j] == next_to(problems[keys(problems)[i]], up)[k]
}

/// A step from the problem at place `i` leads to the one at place `j`.
spec fn leads(problems: Problems, up: bool, i: int, j: int) -> bool {
    exists|k: int| step_to(problems, up, i, k, j)
}

/// One of the edges leads to place `j`.
spec fn has_edge(edges: Seq<usize>, j: int) -> bool {
    exists|e: int| 0 <= e < edges.len() && edges[e] == j
}

/// The edges are the steps of the walk.
spec fn shows_steps(problems: Problems, up: bool, edges: Seq<Vec<usize>>, n: int) -> bool {
    &&& forall|i: int, e: int|
        0 <= i < n && 0 <= e < edges[i]@.len() ==> leads(
            problems,
            up,
            i,
            (#[trigger] edges[i]@[e]) as int,
        )
    &&& forall|i: int, k: int, j: int|
        0 <= i < n && #[trigger] step_to(problems, up, i, k, j) ==> has_edge(edges[i]@, j)
}

fn steps_from(problems: &StrMap<Problem>, up: bool, i: usize) -> (r: Vec<usize>)
    requires
        problems.wf(),
        i < keys(problems@).len(),
    ensures
        forall|e: int|
            0 <= e < r@.len() ==> leads(problems@, up, i as int, (#[trigger] r@[e]) as int),
        forall|k: int, j: int| #[trigger]
            step_to(problems@, up, i as int, k, j) ==> has_edge(r@, j),
{
    let ids = problems_next_to(problems.value_at(i), up);
    let ghost next = next_to(problems@[keys(problems@)[i as int]], up);
    let mut r: Vec<usize> = Vec::new();
    let mut k: usize = 0;
    while k < ids.len()
        invariant
            problems.wf(),
            i < keys(problems@).len(),
            k <= ids@.len(),
            views(ids@) == next,
            next == next_to(problems@[keys(problems@)[i as int]], up),
            forall|e: int|
                0 <= e < r@.len() ==> leads(problems@, up, i as int, (#[trigger] r@[e]) as int),
            forall|m: int, j: int|
                m < k && #[trigger] step_to(problems@, up, i as int, m, j) ==> has_edge(r@, j),
        decreases ids@.len() - k,
    {
        assert(next[k as int] == ids@[k as int]@);
        let ghost before = r@;
        match problems.place_of(ids[k].as_str()) {
            Some(at) => {
                r.push(at);
                proof {
                    assert(step_to(problems@, up, i as int, k as int, at as int));
                    assert forall|e: int| 0 <= e < r@.len() implies leads(
                        problems@,
                        up,
                        i as int,
                        (#[trigger] r@[e]) as int,
                    ) by {
                        if e < before.len() {
                            assert(before[e] == r@[e]);
                        }
                    }
                    assert forall|m: int, j: int|
                        m < k + 1 && #[trigger] step_to(
                            problems@,
                            up,
                            i as int,
                            m,
                            j,
                        ) implies has_edge(r@, j) by {
                        if m == k {
                            problems.lemma_distinct(j, at as int);
                            assert(r@[before.len() as int] == j);
                        } else {
                            let e = choose|e: int| 0 <= e < before.len() && before[e] == j;
                            assert(r@[e] == j);
                        }
                    }
                }
            },
            None => {
                proof {
                    assert forall|m: int, j: int|
                        m < k + 1 && #[trigger] step_to(
                            problems@,
                            up,
                            i as int,
                            m,
                            j,
                        ) implies has_edge(r@, j) by {
                        if m == k {
                            problems.lemma_held(j);
                        }
                    }
                }
            },
        }
        k = k + 1;
    }
    r
}

/// Whether every walk in one direction ends.
fn walks_end_in(problems: &StrMap<Problem>, up: bool) -> (r: bool)
    requires
        problems.wf(),
    ensures
        r == exists|rank: spec_fn(Seq<char>) -> nat| #[trigger] ranks(problems@, up, rank),
{
    let n: usize = problems.len();
    let mut edges: Vec<Vec<usize>> = Vec::new();
    let mut i: usize = 0;
    while i < n
        invariant
            problems.wf(),
            n == keys(problems@).len(),
            i <= n,
            edges@.len() == i,
            shows_steps(problems@, up, edges@, i as int),
        decreases n - i,
    {
        let ghost before = edges@;
        let steps = steps_from(problems, up, i);
        edges.push(steps);
        i = i + 1;
        proof {
            assert forall|a: int, e: int| 0 <= a < i && 0 <= e < edges@[a]@.len() implies leads(
                problems@,
                up,
                a,
                (#[trigger] edges@[a]@[e]) as int,
            ) by {
                if a < i - 1 {
                    assert(before[a]@[e] == edges@[a]@[e]);
                }
            }
            assert forall|a: int, k: int, j: int|
                0 <= a < i && #[trigger] step_to(problems@, up, a, k, j) implies has_edge(
                edges@[a]@,
                j,
            ) by {
                if a < i - 1 {
                    assert(before[a] == edges@[a]);
                }
            }
        }
    }
    proof {
        assert forall|a: int, e: int| 0 <= a < edges@.len() && 0 <= e < edges@[a]@.len() implies (
        #[trigger] edges@[a]@[e]) < edges@.len() by {
            assert(leads(problems@, up, a, edges@[a]@[e] as int));
        }
        lemma_same_walks(problems, up, edges@);
    }
    walks_end(&edges)
}

proof fn lemma_same_walks(problems: &StrMap<Problem>, up: bool, edges: Seq<Vec<usize>>)
    requires
        problems.wf(),
        edges.len() == keys(problems@).len(),
        shows_steps(problems@, up, edges, edges.len() as int),
    ensures
        (exists|rank: spec_fn(int) -> nat| #[trigger] ranked(edges, rank)) == (exists|
            rank: spec_fn(Seq<char>) -> nat,
        | #[trigger] ranks(problems@, up, rank)),
{
    let ks = keys(problems@);
    if exists|rank: spec_fn(int) -> nat| #[trigger] ranked(edges, rank) {
        let rank = choose|rank: spec_fn(int) -> nat| #[trigger] ranked(edges, rank);
        let by_id = |id: Seq<char>| rank(ks.index_of(id));
        assert forall|id: Seq<char>, k: int|
            problems@.contains_key(id) && 0 <= k < next_to(problems@[id], up).len()
                && problems@.contains_key(#[trigger] next_to(problems@[id], up)[k]) implies by_id(
            next_to(problems@[id], up)[k],
        ) < by_id(id) by {
            let c = next_to(problems@[id], up)[k];
            problems.lemma_placed(id);
            problems.lemma_placed(c);
            let (i, j) = (ks.index_of(id), ks.index_of(c));
            assert(step_to(problems@, up, i, k, j));
            let e = choose|e: int| 0 <= e < edges[i]@.len() && edges[i]@[e] == j;
            assert(rank(edges[i]@[e] as int) < rank(i));
        }
        assert(ranks(problems@, up, by_id));
    }
    if exists|rank: spec_fn(Seq<char>) -> nat| #[trigger] ranks(problems@, up, rank) {
        let rank = choose|rank: spec_fn(Seq<char>) -> nat| #[trigger] ranks(problems@, up, rank);
        let by_place = |i: int| rank(ks[i]);
        assert forall|i: int, e: int| 0 <= i < edges.len() && 0 <= e < edges[i]@.len() implies
            by_place((#[trigger] edges[i]@[e]) as int) < by_place(i) by {
            let j = edges[i]@[e] as int;
            assert(leads(problems@, up, i, j));
            let k = choose|k: int| step_to(problems@, up, i, k, j);
            problems.lemma_held(i);
            problems.lemma_held(j);
            assert(next_to(problems@[ks[i]], up)[k] == ks[j]);
        }
        assert(ranked(edges, by_place));
    }
}

impl ClosureState {
    /// Whether the state is sound: its problems form a forest, and the identifiers of problems to
    /// come are free.
    pub fn is_sound(&self) -> (r: bool)
        requires
            self.wf(),
        ensures
            r == self@.sound(),
    {
        proof {
            lemma_walks_end(self@.problems);
        }
        walks_end_in(&self.problems, true) && walks_end_in(&self.problems, false)
            && self.has_room_for_problems()
    }

    fn has_room_for_problems(&self) -> (r: bool)
        requires
            self.wf(),
        ensures
            r == room_for_problems(self@.problems, self@.next_problem_seq),
    {
        let seq: u32 = self.next_problem_seq;
        let n: usize = self.problems.len();
        let mut i: usize = 0;
        while i < n
            invariant
                self.problems.wf(),
                n == keys(self.problems@).len(),
                i <= n,
                seq == self@.next_problem_seq,
                self@.problems == self.problems@,
                forall|j: int, m: nat|
                    0 <= j < i && m >= seq ==> #[trigger] keys(self.problems@)[j]
                        != #[trigger] numbered("P"@, m) && self.problems@[keys(
                        self.problems@,
                    )[j]].parent_id != Some(numbered("P"@, m)),
            decreases n - i,
        {
            let key = self.problems.key_at(i);
            if is_numbered_from("P", key.as_str(), seq) {
                proof {
                    let m = choose|m: nat| m >= seq && key@ == #[trigger] numbered("P"@, m);
                    assert(self@.problems.contains_key(numbered("P"@, m)));
                }
                return false;
            }
            if let Some(parent) = &self.problems.value_at(i).parent_id {
                if is_numbered_from("P", parent.as_str(), seq) {
                    proof {
                        let m = choose|m: nat| m >= seq && parent@ == #[trigger] numbered("P"@, m);
                        let id = keys(self.problems@)[i as int];
                        assert(self@.problems.contains_key(id));
                        assert(self@.problems[id].parent_id == Some(numbered("P"@, m)));
                    }
                    return false;
                }
            }
            i = i + 1;
        }
        proof {
            assert forall|m: nat| m >= seq implies !self@.problems.contains_key(
                #[trigger] numbered("P"@, m),
            ) by {
                if self@.problems.contains_key(numbered("P"@, m)) {
                    self.problems.lemma_placed(numbered("P"@, m));
                }
            }
            assert forall|m: nat, id: Seq<char>|
                m >= seq && #[trigger] self@.problems.contains_key(id) implies self@.problems[id].parent_id
                != Some(#[trigger] numbered("P"@, m)) by {
                self.problems.lemma_placed(id);
            }
        }
        true
    }
}

impl ClosureState {
    /// Whether there are `n` numbers left of each kind.
    pub fn has_room(&self, n: u32) -> (r: bool)
        ensures
            r == self@.has_room(n as nat),
    {
        let last: u32 = u32::MAX - n;
        self.next_thread_seq <= last && self.next_handle_seq <= last && self.next_wait_seq <= last
            && self.next_io_event_seq <= last && self.next_passive_event_seq <= last
            && self.next_inbox_item_seq <= last && self.next_problem_seq <= last
            && self.next_ticket_seq <= last && self.next_result_seq <= last && self.next_check_seq
            <= last
    }
}

} // verus!
