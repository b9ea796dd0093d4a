//! The shape of the problem tree.
use vstd::prelude::*;
use crate::clock::Timestamp;
use crate::entities::{Problem, ProblemView};
use crate::error::{outcome, Outcome, QunuxError, QunuxErrorView, Result};
use crate::strmap::StrMap;
use crate::text::{cat2, str_eq};

verus! {

/// The problems of a process by their identifiers.
pub type Problems = Map<Seq<char>, ProblemView>;

/// `c` is listed below `p`, as a child or as a follow-up.
pub open spec fn below(p: ProblemView, c: Seq<char>) -> bool {
    p.child_problem_ids.contains(c) || p.followup_problem_ids.contains(c)
}

/// `d` grows on every step from a parent to the problem that names it.
pub open spec fn is_depth(problems: Problems, d: spec_fn(Seq<char>) -> nat) -> bool {
    forall|id: Seq<char>, p: Seq<char>|
        #[trigger] problems.contains_key(id) && #[trigger] problems.contains_key(p)
            && problems[id].parent_id == Some(p) ==> d(p) < d(id)
}

/// No problem is among its own ancestors.
pub open spec fn rooted(problems: Problems) -> bool {
    exists|d: spec_fn(Seq<char>) -> nat| is_depth(problems, d)
}

/// `h` shrinks on every step from a problem to one that it lists.
pub open spec fn is_height(problems: Problems, h: spec_fn(Seq<char>) -> nat) -> bool {
    forall|id: Seq<char>, c: Seq<char>|
        #[trigger] problems.contains_key(id) && #[trigger] problems.contains_key(c) && below(
            problems[id],
            c,
        ) ==> h(c) < h(id)
}

/// No problem is listed below itself, on any number of steps.
pub open spec fn branching(problems: Problems) -> bool {
    exists|h: spec_fn(Seq<char>) -> nat| is_height(problems, h)
}

/// The problems form a forest as far as walking up and down goes: no walk returns to where it
/// began.
pub open spec fn forest(problems: Problems) -> bool {
    rooted(problems) && branching(problems)
}

/// How many steps can be walked up from a problem, as a bound.
pub open spec fn depth(problems: Problems, id: Seq<char>) -> nat {
    if problems.contains_key(id) {
        (choose|d: spec_fn(Seq<char>) -> nat| is_depth(problems, d))(id) + 1
    } else {
        0
    }
}

/// How many steps can be walked down from a problem, as a bound.
pub open spec fn height(problems: Problems, id: Seq<char>) -> nat {
    if problems.contains_key(id) {
        (choose|h: spec_fn(Seq<char>) -> nat| is_height(problems, h))(id) + 1
    } else {
        0
    }
}

pub proof fn lemma_depth(problems: Problems, id: Seq<char>, p: Seq<char>)
    requires
        rooted(problems),
        problems.contains_key(id),
        problems[id].parent_id == Some(p),
    ensures
        depth(problems, p) < depth(problems, id),
{
}

pub proof fn lemma_height(problems: Problems, id: Seq<char>, c: Seq<char>)
    requires
        branching(problems),
        problems.contains_key(id),
        below(problems[id], c),
    ensures
        height(problems, c) < height(problems, id),
{
}

/// A problem that is not there.
pub open spec fn unknown_problem(id: Seq<char>) -> QunuxErrorView {
    QunuxErrorView::InvalidState("unknown problem "@ + id)
}

/// Whether the walk from `id` to its ancestors meets `root`; the walk fails on a problem that is
/// not there.
pub open spec fn descends(problems: Problems, id: Seq<char>, root: Seq<char>) -> Outcome<bool>
    decreases depth(problems, id),
    when rooted(problems)
{
    if id == root {
        Ok(true)
    } else if !problems.contains_key(id) {
        Err(unknown_problem(id))
    } else {
        match problems[id].parent_id {
            Some(p) => descends(problems, p, root),
            None => Ok(false),
        }
    }
}

/// Whether `problem_id` is `root_problem_id` or lies below it.
pub fn is_descendant_or_self(
    problems: &StrMap<Problem>,
    problem_id: &str,
    root_problem_id: &str,
) -> (r: Result<bool>)
    requires
        problems.wf(),
        rooted(problems@),
    ensures
        outcome(r) == descends(problems@, problem_id@, root_problem_id@),
{
    let mut current: String = problem_id.to_owned();
    loop
        invariant
            problems.wf(),
            rooted(problems@),
            descends(problems@, problem_id@, root_problem_id@) == descends(
                problems@,
                current@,
                root_problem_id@,
            ),
        decreases depth(problems@, current@),
    {
        if str_eq(current.as_str(), root_problem_id) {
            return Ok(true);
        }
        match problems.get(current.as_str()) {
            None => {
                return Err(QunuxError::InvalidState(cat2("unknown problem ", current.as_str())));
            },
            Some(problem) => {
                match &problem.parent_id {
                    Some(parent_id) => {
                        proof {
                            lemma_depth(problems@, current@, parent_id@);
                        }
                        current = parent_id.clone();
                    },
                    None => {
                        return Ok(false);
                    },
                }
            },
        }
    }
}

/// The problems that a problem lists, children before follow-ups.
pub open spec fn listed(p: ProblemView) -> Seq<Seq<char>> {
    p.child_problem_ids + p.followup_problem_ids
}

/// Gives `id` and everything below it to `owner`, in `acc`; the tree is read from `base`. Stops at
/// the first problem that is listed and not there, which is then the second component.
pub open spec fn handed_over(
    base: Problems,
    acc: Problems,
    id: Seq<char>,
    owner: Seq<char>,
    now: Timestamp,
) -> (Problems, Option<Seq<char>>)
    decreases height(base, id), listed(base[id]).len() + 1,
    when branching(base)
{
    if !base.contains_key(id) {
        (acc, Some(id))
    } else {
        handed_over_below(
            base,
            acc.insert(id, ProblemView { owner_thread_id: owner, updated_at: now, ..acc[id] }),
            id,
            owner,
            now,
            0,
        )
    }
}

/// Gives what `id` lists from place `i` on to `owner`.
pub open spec fn handed_over_below(
    base: Problems,
    acc: Problems,
    id: Seq<char>,
    owner: Seq<char>,
    now: Timestamp,
    i: int,
) -> (Problems, Option<Seq<char>>)
    decreases height(base, id), listed(base[id]).len() - i,
    when branching(base) && base.contains_key(id) && 0 <= i
    via handed_over_below_decreases
{
    if i >= listed(base[id]).len() {
        (acc, None)
    } else {
        let step = handed_over(base, acc, listed(base[id])[i], owner, now);
        match step.1 {
            Some(missing) => step,
            None => handed_over_below(base, step.0, id, owner, now, i + 1),
        }
    }
}

#[via_fn]
proof fn handed_over_below_decreases(
    base: Problems,
    acc: Problems,
    id: Seq<char>,
    owner: Seq<char>,
    now: Timestamp,
    i: int,
) {
    if i < listed(base[id]).len() {
        lemma_listed_below(base[id], i);
        lemma_height(base, id, listed(base[id])[i]);
    }
}

pub proof fn lemma_listed_below(p: ProblemView, i: int)
    requires
        0 <= i < listed(p).len(),
    ensures
        below(p, listed(p)[i]),
{
    if i < p.child_problem_ids.len() {
        assert(p.child_problem_ids[i] == listed(p)[i]);
    } else {
        assert(p.followup_problem_ids[i - p.child_problem_ids.len()] == listed(p)[i]);
    }
}

} // verus!
