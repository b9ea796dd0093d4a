//! Handing a subtree over to another thread keeps a state healthy.
use vstd::prelude::*;
use crate::clock::Timestamp;
use crate::context::RuntimeContextView;
use crate::entities::{ClosureStateView, ProblemView};
use crate::error::QunuxErrorView;
use crate::forest::{branching, descends, handed_over, handed_over_below, height, lemma_height, lemma_listed_below, listed, rooted, Problems};
use crate::history::problem_kept;
use crate::keeping::{law_handed_over_changes_owners, law_recovered_keeps_history, law_spawned_keeps_history};
use crate::kinds::ContextForkPolicy;
use crate::laws::within;
use crate::planning::{lemma_descends_kept, lemma_descends_through, lemma_problem_moves, lemma_problem_stays, lemma_task_stays, lemma_tickets_stay};
use crate::soundness::{law_recovered_sound, law_spawned_sound};
use crate::upkeep::{lemma_recovered_wired, lemma_spawned_wired};
use crate::validation::lemma_first_fault;
use crate::validity::{lemma_healthy, lemma_nested_stays, lemma_ticketed_stays};

verus! {

/// What a problem lists is there and points back to it.
pub open spec fn linked(problems: Problems) -> bool {
    forall|p: Seq<char>, k: int|
        #![trigger listed(problems[p])[k]]
        problems.contains_key(p) && 0 <= k < listed(problems[p]).len() ==> problems.contains_key(
            listed(problems[p])[k],
        ) && problems[listed(problems[p])[k]].parent_id == Some(p)
}

/// Problems without faults are linked.
proof fn lemma_linked(s: ClosureStateView)
    requires
        s.planned(),
    ensures
        linked(s.problems),
{
    assert forall|p: Seq<char>, k: int|
        #![trigger listed(s.problems[p])[k]]
        s.problems.contains_key(p) && 0 <= k < listed(s.problems[p]).len() implies
        s.problems.contains_key(listed(s.problems[p])[k]) && s.problems[listed(
        s.problems[p],
    )[k]].parent_id == Some(p) by {
        let problem = s.problems[p];
        assert(s.problem_fault(p) is None);
        lemma_first_fault(problem.child_problem_ids, s.backlink_faults("child "@, p), 0);
        lemma_first_fault(problem.followup_problem_ids, s.backlink_faults("follow-up "@, p), 0);
        let n = problem.child_problem_ids.len();
        if k < n {
            assert((s.backlink_faults("child "@, p))(problem.child_problem_ids[k]) is None);
        } else {
            assert((s.backlink_faults("follow-up "@, p))(
                problem.followup_problem_ids[k - n],
            ) is None);
        }
    }
}

/// Only what stands below a problem changes hands with it.
proof fn lemma_handed_over_reach(
    base: Problems,
    acc: Problems,
    id: Seq<char>,
    owner: Seq<char>,
    now: Timestamp,
    x: Seq<char>,
)
    requires
        branching(base),
        rooted(base),
        linked(base),
    ensures
        ({
            let r = handed_over(base, acc, id, owner, now).0;
            r[x].owner_thread_id == acc[x].owner_thread_id || (r[x].owner_thread_id == owner
                && within(base, id, x) && descends(base, x, id) == Ok::<bool, QunuxErrorView>(
                true,
            ))
        }),
    decreases height(base, id), listed(base[id]).len() + 1,
{
    if base.contains_key(id) {
        let first = acc.insert(
            id,
            ProblemView { owner_thread_id: owner, updated_at: now, ..acc[id] },
        );
        lemma_handed_over_below_reach(base, first, id, owner, now, 0, x);
    }
}

proof fn lemma_handed_over_below_reach(
    base: Problems,
    acc: Problems,
    id: Seq<char>,
    owner: Seq<char>,
    now: Timestamp,
    i: int,
    x: Seq<char>,
)
    requires
        branching(base),
        rooted(base),
        linked(base),
        base.contains_key(id),
        0 <= i,
    ensures
        ({
            let r = handed_over_below(base, acc, id, owner, now, i).0;
            r[x].owner_thread_id == acc[x].owner_thread_id || (r[x].owner_thread_id == owner
                && within(base, id, x) && descends(base, x, id) == Ok::<bool, QunuxErrorView>(
                true,
            ))
        }),
    decreases height(base, id), listed(base[id]).len() - i,
{
    if i < listed(base[id]).len() {
        let c = listed(base[id])[i];
        lemma_listed_below(base[id], i);
        lemma_height(base, id, c);
        lemma_handed_over_reach(base, acc, c, owner, now, x);
        let step = handed_over(base, acc, c, owner, now);
        if step.0[x].owner_thread_id != acc[x].owner_thread_id {
            assert(within(base, id, x));
            assert(base[c].parent_id == Some(id));
            assert(descends(base, id, id) == Ok::<bool, QunuxErrorView>(true));
            assert(descends(base, c, id) == Ok::<bool, QunuxErrorView>(true));
            lemma_descends_through(base, x, c, id);
        }
        if step.1 is None {
            lemma_handed_over_below_reach(base, step.0, id, owner, now, i + 1, x);
        }
    }
}

/// Problems stay free of faults when a subtree changes hands, as far as its user tasks are not for
/// another thread.
proof fn lemma_handed_planned(
    s: ClosureStateView,
    t: ClosureStateView,
    id: Seq<char>,
    owner: Seq<char>,
    now: Timestamp,
)
    requires
        s.sound(),
        t.sound(),
        s.filed(),
        s.planned(),
        s.leads_to(t),
        t.problems == handed_over(s.problems, s.problems, id, owner, now).0,
        t.threads.contains_key(owner),
        descends(s.problems, id, t.threads[owner].root_problem_id) == Ok::<bool, QunuxErrorView>(
            true,
        ),
        t.tickets == s.tickets,
        t.passive_events == s.passive_events,
        t.inbox == s.inbox,
        forall|x: Seq<char>| #[trigger]
            s.problems.contains_key(x) && s.problems[x].is_user_task() && within(s.problems, id, x)
                ==> s.task_target(x) is None || s.task_target(x) == Some(owner),
    ensures
        t.planned(),
{
    lemma_linked(s);
    law_handed_over_changes_owners(s.problems, s.problems, id, owner, now);
    let root = t.threads[owner].root_problem_id;
    assert forall|x: Seq<char>| #[trigger] t.problems.contains_key(x) implies t.problem_fault(
        x,
    ) is None by {
        assert(s.problems.contains_key(x));
        assert(s.problem_fault(x) is None);
        assert(s.lists_grow(t, x));
        lemma_handed_over_reach(s.problems, s.problems, id, owner, now, x);
        if t.problems[x].owner_thread_id == s.problems[x].owner_thread_id {
            lemma_problem_moves(s, t, x);
        } else {
            lemma_descends_through(s.problems, x, id, root);
            assert forall|y: Seq<char>| #[trigger] s.problems.contains_key(y) implies
                t.problems.contains_key(y) && t.problems[y].parent_id
                == s.problems[y].parent_id by {
                assert(problem_kept(s.problems[y], t.problems[y]));
            }
            lemma_descends_kept(s.problems, t.problems, x, root);
            assert(t.owner_fault(x) is None);
            if s.problems[x].is_user_task() {
                assert forall|i: int| #[trigger] s.settles(i) implies t.settles(i) by {}
                lemma_task_stays(s, t, x);
            }
            lemma_problem_stays(s, t, x);
        }
    }
    lemma_tickets_stay(s, t);
}

/// A state in which a subtree changed hands is healthy, as far as its user tasks are not for another
/// thread and the threads that were added are nested.
proof fn lemma_handed_healthy(
    s: ClosureStateView,
    t: ClosureStateView,
    id: Seq<char>,
    owner: Seq<char>,
    now: Timestamp,
)
    requires
        s.healthy(),
        s.leads_to(t),
        t.sound(),
        t.wired(),
        t.problems == handed_over(s.problems, s.problems, id, owner, now).0,
        t.threads.contains_key(owner),
        descends(s.problems, id, t.threads[owner].root_problem_id) == Ok::<bool, QunuxErrorView>(
            true,
        ),
        t.tickets == s.tickets,
        t.passive_events == s.passive_events,
        t.next_passive_event_seq == s.next_passive_event_seq,
        t.inbox == s.inbox,
        forall|x: Seq<char>| #[trigger]
            s.problems.contains_key(x) && s.problems[x].is_user_task() && within(s.problems, id, x)
                ==> s.task_target(x) is None || s.task_target(x) == Some(owner),
        forall|x: Seq<char>| #[trigger]
            t.threads.contains_key(x) ==> s.threads.contains_key(x) || t.is_nested(x),
    ensures
        t.healthy(),
{
    lemma_healthy(s);
    lemma_handed_planned(s, t, id, owner, now);
    lemma_nested_stays(s, t);
    lemma_ticketed_stays(s, t);
    lemma_healthy(t);
}

/// What spawning a thread changes, and what it found.
pub proof fn lemma_spawned_changes(
    s: ClosureStateView,
    ctx: RuntimeContextView,
    now: Timestamp,
    problem_id: Seq<char>,
    policy: ContextForkPolicy,
    bootstrap_instruction: Seq<char>,
    inherited_cwd: Option<Seq<char>>,
    inherited_model: Option<Seq<char>>,
    inherited_tools: Seq<Seq<char>>,
)
    requires
        s.filed(),
        !s.threads.contains_key(s.fresh_thread_id()),
        s.spawned(
            ctx,
            now,
            problem_id,
            policy,
            bootstrap_instruction,
            inherited_cwd,
            inherited_model,
            inherited_tools,
        ).1 is Ok,
    ensures
        ({
            let t = s.spawned(
                ctx,
                now,
                problem_id,
                policy,
                bootstrap_instruction,
                inherited_cwd,
                inherited_model,
                inherited_tools,
            ).0;
            let thread_id = s.fresh_thread_id();
            let root = s.threads[ctx.thread_id].root_problem_id;
            &&& t.problems == handed_over(s.problems, s.problems, problem_id, thread_id, now).0
            &&& t.tickets == s.tickets
            &&& t.passive_events == s.passive_events
            &&& t.next_passive_event_seq == s.next_passive_event_seq
            &&& t.inbox == s.inbox
            &&& t.threads.dom() == s.threads.dom().insert(thread_id)
            &&& t.threads[thread_id].root_problem_id == problem_id
            &&& t.threads[thread_id].parent_thread_id == Some(ctx.thread_id)
            &&& s.threads.contains_key(ctx.thread_id)
            &&& t.threads[ctx.thread_id].root_problem_id == root
            &&& problem_id != root
            &&& descends(s.problems, problem_id, root) == Ok::<bool, QunuxErrorView>(true)
        }),
{
    let t = s.spawned(
        ctx,
        now,
        problem_id,
        policy,
        bootstrap_instruction,
        inherited_cwd,
        inherited_model,
        inherited_tools,
    ).0;
    assert(s.problems.contains_key(problem_id));
    assert(t.threads.dom() =~= s.threads.dom().insert(s.fresh_thread_id()));
}

/// Spawning a thread keeps a state healthy, unless the end of the thread that spawns it was reported
/// already, or a user task that is for a certain thread changes hands.
pub proof fn law_spawned_keeps_healthy(
    s: ClosureStateView,
    ctx: RuntimeContextView,
    now: Timestamp,
    problem_id: Seq<char>,
    policy: ContextForkPolicy,
    bootstrap_instruction: Seq<char>,
    inherited_cwd: Option<Seq<char>>,
    inherited_model: Option<Seq<char>>,
    inherited_tools: Seq<Seq<char>>,
)
    requires
        s.healthy(),
        s.next_thread_seq < u32::MAX,
        s.next_handle_seq < u32::MAX,
        s.next_wait_seq < u32::MAX,
        !s.is_reported(ctx.thread_id),
        forall|x: Seq<char>| #[trigger]
            s.problems.contains_key(x) && s.problems[x].is_user_task() && within(
                s.problems,
                problem_id,
                x,
            ) ==> s.task_target(x) is None,
        s.spawned(
            ctx,
            now,
            problem_id,
            policy,
            bootstrap_instruction,
            inherited_cwd,
            inherited_model,
            inherited_tools,
        ).1 is Ok,
    ensures
        s.spawned(
            ctx,
            now,
            problem_id,
            policy,
            bootstrap_instruction,
            inherited_cwd,
            inherited_model,
            inherited_tools,
        ).0.healthy(),
{
    let t = s.spawned(
        ctx,
        now,
        problem_id,
        policy,
        bootstrap_instruction,
        inherited_cwd,
        inherited_model,
        inherited_tools,
    ).0;
    law_spawned_keeps_history(
        s,
        ctx,
        now,
        problem_id,
        policy,
        bootstrap_instruction,
        inherited_cwd,
        inherited_model,
        inherited_tools,
    );
    law_spawned_sound(
        s,
        ctx,
        now,
        problem_id,
        policy,
        bootstrap_instruction,
        inherited_cwd,
        inherited_model,
        inherited_tools,
    );
    lemma_healthy(s);
    lemma_spawned_wired(
        s,
        ctx,
        now,
        problem_id,
        policy,
        bootstrap_instruction,
        inherited_cwd,
        inherited_model,
        inherited_tools,
    );
    let thread_id = s.fresh_thread_id();
    assert(!s.threads.contains_key(thread_id));
    lemma_spawned_changes(
        s,
        ctx,
        now,
        problem_id,
        policy,
        bootstrap_instruction,
        inherited_cwd,
        inherited_model,
        inherited_tools,
    );
    assert(descends(s.problems, problem_id, problem_id) == Ok::<bool, QunuxErrorView>(true));
    let root = s.threads[ctx.thread_id].root_problem_id;
    assert(t.is_nested(thread_id)) by {
        assert forall|y: Seq<char>| #[trigger] s.problems.contains_key(y) implies
            t.problems.contains_key(y) && t.problems[y].parent_id == s.problems[y].parent_id by {
            assert(problem_kept(s.problems[y], t.problems[y]));
        }
        lemma_descends_kept(s.problems, t.problems, problem_id, root);
    }
    lemma_handed_healthy(s, t, problem_id, thread_id, now);
}

/// Recovering a failed thread keeps a state healthy, unless the end of the thread that recovers it
/// was reported already, or a user task that is for another thread changes hands.
pub proof fn law_recovered_keeps_healthy(
    s: ClosureStateView,
    ctx: RuntimeContextView,
    now: Timestamp,
    thread_id: Seq<char>,
)
    requires
        s.healthy(),
        !s.is_reported(ctx.thread_id),
        forall|x: Seq<char>| #[trigger]
            s.problems.contains_key(x) && s.problems[x].is_user_task() && within(
                s.problems,
                s.threads[thread_id].root_problem_id,
                x,
            ) ==> s.task_target(x) is None || s.task_target(x) == Some(ctx.thread_id),
        s.recovered(ctx, now, thread_id).1 is Ok,
    ensures
        s.recovered(ctx, now, thread_id).0.healthy(),
{
    let t = s.recovered(ctx, now, thread_id).0;
    law_recovered_keeps_history(s, ctx, now, thread_id);
    law_recovered_sound(s, ctx, now, thread_id);
    lemma_healthy(s);
    assert(s.threads.contains_key(thread_id));
    assert(s.is_nested(thread_id));
    assert(s.thread_fits(thread_id));
    lemma_recovered_wired(s, ctx, now, thread_id);
    let id = s.threads[thread_id].root_problem_id;
    assert(t.threads[ctx.thread_id].root_problem_id == s.threads[ctx.thread_id].root_problem_id);
    assert(t.threads.dom() =~= s.threads.dom());
    lemma_handed_healthy(s, t, id, ctx.thread_id, now);
}

/// A problem that does not stand below another keeps everything when that one changes hands.
pub proof fn law_handover_stays_below(
    base: Problems,
    acc: Problems,
    id: Seq<char>,
    owner: Seq<char>,
    now: Timestamp,
    x: Seq<char>,
)
    requires
        branching(base),
        !within(base, id, x),
    ensures
        handed_over(base, acc, id, owner, now).0[x] == acc[x],
    decreases height(base, id), listed(base[id]).len() + 1,
{
    if base.contains_key(id) {
        let first = acc.insert(
            id,
            ProblemView { owner_thread_id: owner, updated_at: now, ..acc[id] },
        );
        assert(first[x] == acc[x]);
        lemma_handover_stays_below_from(base, first, id, owner, now, 0, x);
    }
}

proof fn lemma_handover_stays_below_from(
    base: Problems,
    acc: Problems,
    id: Seq<char>,
    owner: Seq<char>,
    now: Timestamp,
    i: int,
    x: Seq<char>,
)
    requires
        branching(base),
        base.contains_key(id),
        0 <= i,
        !within(base, id, x),
    ensures
        handed_over_below(base, acc, id, owner, now, i).0[x] == acc[x],
    decreases height(base, id), listed(base[id]).len() - i,
{
    if i < listed(base[id]).len() {
        let c = listed(base[id])[i];
        lemma_listed_below(base[id], i);
        lemma_height(base, id, c);
        assert(!within(base, c, x));
        law_handover_stays_below(base, acc, c, owner, now, x);
        let step = handed_over(base, acc, c, owner, now);
        if step.1 is None {
            lemma_handover_stays_below_from(base, step.0, id, owner, now, i + 1, x);
        }
    }
}

/// A spawned thread takes over its problem and all below it, and nothing else.
pub proof fn law_spawn_takes_only_what_is_below(
    s: ClosureStateView,
    ctx: RuntimeContextView,
    now: Timestamp,
    problem_id: Seq<char>,
    policy: ContextForkPolicy,
    bootstrap_instruction: Seq<char>,
    inherited_cwd: Option<Seq<char>>,
    inherited_model: Option<Seq<char>>,
    inherited_tools: Seq<Seq<char>>,
    x: Seq<char>,
)
    requires
        branching(s.problems),
        !within(s.problems, problem_id, x),
    ensures
        s.spawned(
            ctx,
            now,
            problem_id,
            policy,
            bootstrap_instruction,
            inherited_cwd,
            inherited_model,
            inherited_tools,
        ).0.problems[x] == s.problems[x],
{
    law_handover_stays_below(
        s.problems,
        s.problems,
        problem_id,
        s.fresh_thread_id(),
        now,
        x,
    );
}

/// A parent that recovers a child takes back the problem of the child and all below it, and nothing
/// else.
pub proof fn law_recovery_takes_only_what_is_below(
    s: ClosureStateView,
    ctx: RuntimeContextView,
    now: Timestamp,
    thread_id: Seq<char>,
    x: Seq<char>,
)
    requires
        branching(s.problems),
        !within(s.problems, s.threads[thread_id].root_problem_id, x),
    ensures
        s.recovered(ctx, now, thread_id).0.problems[x] == s.problems[x],
{
    law_handover_stays_below(
        s.problems,
        s.problems,
        s.threads[thread_id].root_problem_id,
        ctx.thread_id,
        now,
        x,
    );
}

} // verus!
