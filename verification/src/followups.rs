//! Whether the walk over follow-ups ends in a state that comes from outside.
use vstd::prelude::*;
use crate::dispatch::{active_wait_of, followup_taken_up, is_open_own, lemma_walk_step, next_is_clear, next_on_walk, open_own, pending_inbox_for_thread, problem_of, root_problem_of, walk_ends, walk_length, walk_within};
use crate::json::{get, member_named, Json, Member};
use crate::search::{find_index, lemma_find_from};
use crate::text::group_views;

verus! {

broadcast use group_views;

/// The problems of a state with their names.
spec fn members_of(state: Json) -> Seq<Member> {
    match get(state, "problems"@) {
        Some(Json::Object(members)) => members@,
        _ => Seq::empty(),
    }
}

/// The place of a problem.
spec fn place(state: Json, id: Seq<char>) -> Option<int> {
    find_index(members_of(state), member_named(id))
}

proof fn lemma_place(state: Json, id: Seq<char>)
    ensures
        problem_of(state, id) is Some <==> place(state, id) is Some,
        place(state, id) matches Some(i) ==> 0 <= i < members_of(state).len() && members_of(
            state,
        )[i].name@ == id,
{
    lemma_find_from(members_of(state), member_named(id), 0);
    match get(state, "problems"@) {
        Some(Json::Object(members)) => {
            lemma_find_from(members@, member_named(id), 0);
        },
        _ => {},
    }
}

/// The problem that the walk from another is at after `k` steps.
spec fn on_walk(state: Json, current: Seq<char>, id: Seq<char>, k: nat) -> Option<Seq<char>>
    decreases k,
{
    if k == 0 {
        Some(id)
    } else {
        match on_walk(state, current, id, (k - 1) as nat) {
            Some(before) => next_on_walk(state, current, before),
            None => None,
        }
    }
}

/// On a walk that ends every problem is as far from the end as steps are left.
proof fn lemma_steps_left(state: Json, current: Seq<char>, id: Seq<char>, k: nat)
    requires
        walk_ends(state, current, id),
        on_walk(state, current, id, k) is Some,
    ensures
        walk_ends(state, current, on_walk(state, current, id, k)->0),
        walk_length(state, current, on_walk(state, current, id, k)->0) + k == walk_length(
            state,
            current,
            id,
        ),
    decreases k,
{
    if k > 0 {
        lemma_steps_left(state, current, id, (k - 1) as nat);
        lemma_walk_step(state, current, on_walk(state, current, id, (k - 1) as nat)->0);
    }
}

/// A walk that ends visits no problem twice, so it takes no more steps than there are problems.
proof fn lemma_walk_is_short(state: Json, current: Seq<char>, id: Seq<char>, k: nat)
    requires
        walk_ends(state, current, id),
        forall|i: nat|
            i <= k ==> (#[trigger] on_walk(state, current, id, i)) is Some && problem_of(
                state,
                on_walk(state, current, id, i)->0,
            ) is Some,
    ensures
        k < members_of(state).len(),
{
    let n = members_of(state).len();
    let places = Seq::new(k + 1, |i: int| place(state, on_walk(state, current, id, i as nat)->0)->0);
    assert forall|i: int, j: int| 0 <= i < places.len() && 0 <= j < places.len() && i != j implies
        places[i] != places[j] by {
        let a = on_walk(state, current, id, i as nat);
        let b = on_walk(state, current, id, j as nat);
        lemma_steps_left(state, current, id, i as nat);
        lemma_steps_left(state, current, id, j as nat);
        lemma_place(state, a->0);
        lemma_place(state, b->0);
    }
    assert(places.no_duplicates());
    places.unique_seq_to_set();
    let range = vstd::set_lib::set_int_range(0, n as int);
    vstd::set_lib::lemma_int_range(0, n as int);
    assert forall|p: int| #[trigger] places.to_set().contains(p) implies range.contains(p) by {
        let i = choose|i: int| 0 <= i < places.len() && places[i] == p;
        let a = on_walk(state, current, id, i as nat);
        lemma_place(state, a->0);
    }
    vstd::set_lib::lemma_len_subset(places.to_set(), range);
}

/// The last step that is left to a walk is its end.
proof fn lemma_ends_here(state: Json, current: Seq<char>, id: Seq<char>, k: nat)
    requires
        on_walk(state, current, id, k) is Some,
        walk_ends(state, current, on_walk(state, current, id, k)->0),
    ensures
        walk_ends(state, current, id),
    decreases k,
{
    if k > 0 {
        let before = on_walk(state, current, id, (k - 1) as nat)->0;
        let at = on_walk(state, current, id, k)->0;
        let n = choose|n: nat| walk_within(state, current, at, n);
        assert(walk_within(state, current, before, n + 1));
        lemma_ends_here(state, current, id, (k - 1) as nat);
    }
}

/// How many problems a state names.
fn problem_count(state: &Json) -> (r: usize)
    ensures
        r == members_of(*state).len(),
{
    match state.get("problems") {
        Some(Json::Object(members)) => members.len(),
        _ => 0,
    }
}

/// Whether the walk from a problem over follow-ups ends.
pub fn followup_walk_ends(state: &Json, current_thread_id: &str, problem_id: &str) -> (r: bool)
    ensures
        r == walk_ends(*state, current_thread_id@, problem_id@),
{
    let ghost current = current_thread_id@;
    let n = problem_count(state);
    let mut at: &str = problem_id;
    let mut k: usize = 0;
    while k < n
        invariant
            n == members_of(*state).len(),
            k <= n,
            current == current_thread_id@,
            on_walk(*state, current, problem_id@, k as nat) == Some(at@),
            forall|i: nat|
                i < k ==> (#[trigger] on_walk(*state, current, problem_id@, i)) is Some && open_own(
                    *state,
                    current,
                    on_walk(*state, current, problem_id@, i)->0,
                ),
        decreases n - k,
    {
        let next = match followup_taken_up(state, current_thread_id, at) {
            Some(followup) => if is_open_own(state, current_thread_id, followup) {
                Some(followup)
            } else {
                None
            },
            None => None,
        };
        match next {
            Some(followup) => {
                at = followup;
                k = k + 1;
            },
            None => {
                proof {
                    assert(walk_within(*state, current, at@, 0));
                    lemma_ends_here(*state, current, problem_id@, k as nat);
                }
                return true;
            },
        }
    }
    if is_open_own(state, current_thread_id, at) {
        proof {
            if walk_ends(*state, current, problem_id@) {
                lemma_walk_is_short(*state, current, problem_id@, k as nat);
            }
        }
        false
    } else {
        proof {
            assert(walk_within(*state, current, at@, 0));
            lemma_ends_here(*state, current, problem_id@, k as nat);
        }
        true
    }
}

/// Whether it can be said what a thread does next.
pub fn is_next_clear(state: &Json, current_thread_id: &str) -> (r: bool)
    ensures
        r == next_is_clear(*state, current_thread_id@),
{
    pending_inbox_for_thread(state, current_thread_id).is_some() || active_wait_of(
        state,
        current_thread_id,
    ).is_some() || followup_walk_ends(
        state,
        current_thread_id,
        root_problem_of(state, current_thread_id),
    )
}

} // verus!
