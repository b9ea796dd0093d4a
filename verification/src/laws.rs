//! What holds across operations.
use vstd::prelude::*;
use crate::clock::Timestamp;
use crate::context::RuntimeContextView;
use crate::entities::{ClosureStateView, InboxItemView, ProblemView};
use crate::forest::{branching, forest, handed_over, handed_over_below, height, lemma_height, lemma_listed_below, listed, Problems};
use crate::frontier::first_some;
use crate::inbox::deduped_by;
use crate::kinds::{CheckStatus, ContextForkPolicy, EntityKind, NextAction, NextDisposition, PassiveEventStatus, ProblemStatus, ThreadStatus, WaitMode};
use crate::reports::{PassiveEventInputView, WaitSpecView};
use crate::search::{find_from, lemma_find_from};

verus! {

/// An event that repeats a recorded one changes nothing, wakes nobody and is answered as a
/// duplicate.
pub proof fn law_duplicate_event_changes_nothing(
    s: ClosureStateView,
    ctx: RuntimeContextView,
    now: Timestamp,
    input: PassiveEventInputView,
    i: int,
)
    requires
        input.dedupe_key is Some,
        0 <= i < s.passive_events.len(),
        s.passive_events[i].dedupe_key == input.dedupe_key,
    ensures
        s.received(ctx, now, input).0 == s,
        s.received(ctx, now, input).1 matches Ok(receipt) ==> {
            &&& receipt.status == PassiveEventStatus::Duplicate
            &&& receipt.wake_decision.runnable_threads.len() == 0
            &&& receipt.duplicate_of_event_id == Some(receipt.event_id)
        },
{
    lemma_find_from(s.passive_events, deduped_by(input.dedupe_key->0), 0);
    assert(deduped_by(input.dedupe_key->0)(s.passive_events[i]));
}

/// Once an event was taken in, another one with the same dedupe key changes nothing, however much
/// later it comes.
pub proof fn law_event_is_taken_in_once(
    s: ClosureStateView,
    ctx: RuntimeContextView,
    now: Timestamp,
    input: PassiveEventInputView,
    later: ClosureStateView,
    later_ctx: RuntimeContextView,
    later_now: Timestamp,
    again: PassiveEventInputView,
)
    requires
        s.received(ctx, now, input).1 is Ok,
        input.dedupe_key is Some,
        again.dedupe_key == input.dedupe_key,
        s.received(ctx, now, input).0.keeps(later),
    ensures
        later.received(later_ctx, later_now, again).0 == later,
        later.received(later_ctx, later_now, again).1 matches Ok(receipt) ==> receipt.status
            == PassiveEventStatus::Duplicate,
{
    let t = s.received(ctx, now, input).0;
    let key = input.dedupe_key->0;
    lemma_find_from(s.passive_events, deduped_by(key), 0);
    let i = match s.duplicate_of(input) {
        Some(at) => at,
        None => s.passive_events.len() as int,
    };
    assert(i < t.passive_events.len() && t.passive_events[i].dedupe_key == input.dedupe_key) by {
        if s.duplicate_of(input) is None {
            let routed = input.route()->Ok_0;
            let matched = s.matching_passive_handle_ids(routed);
            lemma_delivered_events(
                s.event_recorded(ctx, now, routed),
                ctx,
                now,
                routed,
                s.fresh_event_id(),
                matched,
                matched.len() as int,
            );
        }
    }
    law_duplicate_event_changes_nothing(later, later_ctx, later_now, again, i);
}

proof fn lemma_delivered_events(
    s: ClosureStateView,
    ctx: RuntimeContextView,
    now: Timestamp,
    routed: crate::reports::RoutedPassiveEventView,
    event_id: Seq<char>,
    ids: Seq<Seq<char>>,
    n: int,
)
    ensures
        s.delivered(ctx, now, routed, event_id, ids, n).0.passive_events == s.passive_events,
    decreases n,
{
    if n > 0 {
        lemma_delivered_events(s, ctx, now, routed, event_id, ids, n - 1);
    }
}

/// An inbox item that waits for a thread is the next thing the thread has to see to.
pub proof fn law_pending_item_comes_first(s: ClosureStateView, ctx: RuntimeContextView, i: int)
    requires
        s.threads.contains_key(ctx.thread_id),
        0 <= i < s.inbox.len(),
        s.inbox[i].status == PassiveEventStatus::Inboxed,
        s.inbox[i].target_thread_id is None || s.inbox[i].target_thread_id == Some(
            s.threads[ctx.thread_id].id,
        ),
    ensures
        s.next(ctx).action == NextAction::HandleInbox,
        s.next(ctx).disposition == NextDisposition::Runnable,
{
    let pending = ClosureStateView::pending_for(s.threads[ctx.thread_id].id);
    lemma_find_from(s.inbox, pending, 0);
    assert(pending(s.inbox[i]));
}

/// A thread whose inbox holds nothing for it is not asked to see to the inbox.
pub proof fn law_empty_inbox_is_not_next(s: ClosureStateView, ctx: RuntimeContextView)
    requires
        branching(s.problems),
        forall|i: int|
            0 <= i < s.inbox.len() ==> (#[trigger] s.inbox[i]).status
                != PassiveEventStatus::Inboxed || (s.inbox[i].target_thread_id is Some
                && s.inbox[i].target_thread_id != Some(s.threads[ctx.thread_id].id)),
    ensures
        s.next(ctx).action != NextAction::HandleInbox,
{
    let pending = ClosureStateView::pending_for(s.threads[ctx.thread_id].id);
    lemma_find_from(s.inbox, pending, 0);
    lemma_next_for_problem_action(s, ctx, s.current_root(ctx));
}

proof fn lemma_first_some_child(
    s: ClosureStateView,
    ctx: RuntimeContextView,
    ids: Seq<Seq<char>>,
    i: int,
)
    ensures
        first_some(ids, s.child_steps(ctx), i) matches Some(step) ==> step.action
            != NextAction::HandleInbox && step.disposition == NextDisposition::for_action(
            step.action,
        ),
    decreases ids.len() - i,
{
    if 0 <= i < ids.len() {
        lemma_first_some_child(s, ctx, ids, i + 1);
    }
}

proof fn lemma_next_for_problem_action(s: ClosureStateView, ctx: RuntimeContextView, id: Seq<char>)
    requires
        branching(s.problems),
    ensures
        s.next_for_problem(ctx, id) matches Some(step) ==> step.action != NextAction::HandleInbox
            && step.disposition == NextDisposition::for_action(step.action),
    decreases height(s.problems, id), s.problems[id].followup_problem_ids.len() + 1,
{
    if s.problems.contains_key(id) {
        lemma_first_some_child(s, ctx, s.problems[id].child_problem_ids, 0);
        lemma_followup_action(s, ctx, id, 0);
    }
}

proof fn lemma_followup_action(
    s: ClosureStateView,
    ctx: RuntimeContextView,
    id: Seq<char>,
    i: int,
)
    requires
        branching(s.problems),
        s.problems.contains_key(id),
        0 <= i,
    ensures
        s.followup_step(ctx, id, i) matches Some(step) ==> step.action != NextAction::HandleInbox
            && step.disposition == NextDisposition::for_action(step.action),
    decreases height(s.problems, id), s.problems[id].followup_problem_ids.len() - i,
{
    let ids = s.problems[id].followup_problem_ids;
    if i < ids.len() {
        assert(crate::forest::below(s.problems[id], ids[i]));
        lemma_height(s.problems, id, ids[i]);
        lemma_next_for_problem_action(s, ctx, ids[i]);
        lemma_followup_action(s, ctx, id, i + 1);
    }
}

/// How the next step is to be taken follows from what it asks for.
pub proof fn law_disposition_follows_action(s: ClosureStateView, ctx: RuntimeContextView)
    requires
        branching(s.problems),
    ensures
        s.next(ctx).disposition == NextDisposition::for_action(s.next(ctx).action),
{
    lemma_next_for_problem_action(s, ctx, s.current_root(ctx));
}

/// An inbox item that was acknowledged, and its event, are handled: it is not acknowledged again
/// and no task is made of it.
pub proof fn law_acknowledged_once(
    s: ClosureStateView,
    ctx: RuntimeContextView,
    now: Timestamp,
    item_id: Seq<char>,
    note: Seq<char>,
    later: ClosureStateView,
    later_ctx: RuntimeContextView,
    later_now: Timestamp,
    words: Seq<char>,
)
    requires
        s.acknowledged(ctx, now, item_id, note).1 is Ok,
        s.acknowledged(ctx, now, item_id, note).0.keeps(later),
    ensures
        later.acknowledged(later_ctx, later_now, item_id, words).1 is Err,
        later.acknowledged(later_ctx, later_now, item_id, words).0 == later,
        later.user_task_created(later_ctx, later_now, item_id, words, words, words).1 is Err,
        later.user_task_created(later_ctx, later_now, item_id, words, words, words).0 == later,
{
    let t = s.acknowledged(ctx, now, item_id, note).0;
    let named = crate::lookup::item_named(item_id);
    lemma_find_from(s.inbox, named, 0);
    let at = s.item_index(item_id)->0;
    assert(t.inbox[at].id == item_id && t.inbox[at].status == PassiveEventStatus::Handled);
    lemma_item_stays_first(s.inbox, t.inbox, item_id);
    lemma_item_stays_first(t.inbox, later.inbox, item_id);
}

proof fn lemma_item_stays_first(a: Seq<InboxItemView>, b: Seq<InboxItemView>, id: Seq<char>)
    requires
        a.len() <= b.len(),
        forall|i: int| 0 <= i < a.len() ==> (#[trigger] a[i]).id == b[i].id,
        find_from(a, crate::lookup::item_named(id), 0) is Some,
    ensures
        find_from(b, crate::lookup::item_named(id), 0) == find_from(
            a,
            crate::lookup::item_named(id),
            0,
        ),
{
    let named = crate::lookup::item_named(id);
    lemma_find_from(a, named, 0);
    lemma_find_from(b, named, 0);
    let i = find_from(a, named, 0)->0;
    assert(named(b[i]));
    let j = find_from(b, named, 0)->0;
    if j < i {
        assert(named(a[j]));
    }
}

/// A thread parks only where nothing it could work on holds it up.
pub proof fn law_parked_only_when_idle(
    s: ClosureStateView,
    ctx: RuntimeContextView,
    now: Timestamp,
    mode: WaitMode,
    reason: Seq<char>,
    specs: Seq<WaitSpecView>,
)
    requires
        s.parked(ctx, now, mode, reason, specs).1 is Ok,
    ensures
        specs.len() > 0,
        s.threads.contains_key(ctx.thread_id),
        !s.threads[ctx.thread_id].status.is_terminal(),
        s.blocking_frontier(ctx) is None,
{
}

/// A check that succeeds closes the problem, and only where its ticket is done and everything
/// below it is closed.
pub proof fn law_success_closes(
    s: ClosureStateView,
    ctx: RuntimeContextView,
    now: Timestamp,
    problem_id: Seq<char>,
    result_ids: Seq<Seq<char>>,
    title: Seq<char>,
    body: Seq<char>,
    followup: Option<(Seq<char>, Seq<char>)>,
)
    requires
        s.checked(
            ctx,
            now,
            problem_id,
            CheckStatus::Success,
            result_ids,
            title,
            body,
            followup,
        ).1 is Ok,
    ensures
        followup is None,
        result_ids.len() > 0,
        s.closing_fault(problem_id) is None,
        s.open_followup_ids(problem_id).len() == 0,
        ({
            let t = s.checked(
                ctx,
                now,
                problem_id,
                CheckStatus::Success,
                result_ids,
                title,
                body,
                followup,
            ).0;
            t.problems.contains_key(problem_id) && t.problems[problem_id].status
                == ProblemStatus::Done
        }),
{
}

/// A problem that is done is not taken up again, gets no ticket, no result and no other check.
pub proof fn law_done_stays_closed(
    s: ClosureStateView,
    ctx: RuntimeContextView,
    now: Timestamp,
    id: Seq<char>,
    ticket_id: Seq<char>,
    status: CheckStatus,
    result_ids: Seq<Seq<char>>,
    words: Seq<char>,
    followup: Option<(Seq<char>, Seq<char>)>,
)
    requires
        s.problems.contains_key(id),
        s.problems[id].status == ProblemStatus::Done,
        s.tickets.contains_key(ticket_id) ==> s.tickets[ticket_id].problem_id == id,
    ensures
        s.status_set(ctx, now, EntityKind::Problem, id, words).1 is Err,
        s.ticket_created(ctx, now, id, words, words).1 is Err,
        s.result_recorded(ctx, now, ticket_id, words, words).1 is Err,
        s.result_recorded(ctx, now, ticket_id, words, words).0 == s,
        s.checked(ctx, now, id, status, result_ids, words, words, followup).1 is Err,
        s.checked(ctx, now, id, status, result_ids, words, words, followup).0 == s,
{
}

/// A problem gets one ticket: once it has one, no other is made for it, however much later.
pub proof fn law_one_ticket_per_problem(
    s: ClosureStateView,
    ctx: RuntimeContextView,
    now: Timestamp,
    problem_id: Seq<char>,
    title: Seq<char>,
    body: Seq<char>,
    later: ClosureStateView,
    later_ctx: RuntimeContextView,
    later_now: Timestamp,
    words: Seq<char>,
)
    requires
        s.ticket_created(ctx, now, problem_id, title, body).1 is Ok,
        s.ticket_created(ctx, now, problem_id, title, body).0.keeps(later),
    ensures
        later.ticket_created(later_ctx, later_now, problem_id, words, words).1 is Err,
        later.ticket_created(later_ctx, later_now, problem_id, words, words).0 == later,
{
    let t = s.ticket_created(ctx, now, problem_id, title, body).0;
    assert(t.problems.contains_key(problem_id));
}

/// Only the thread that owns a problem changes it.
pub proof fn law_only_owner_changes(
    s: ClosureStateView,
    ctx: RuntimeContextView,
    now: Timestamp,
    id: Seq<char>,
    ticket_id: Seq<char>,
    mode: crate::kinds::TicketChildMode,
    status: CheckStatus,
    result_ids: Seq<Seq<char>>,
    policy: ContextForkPolicy,
    words: Seq<char>,
    followup: Option<(Seq<char>, Seq<char>)>,
)
    requires
        s.problems.contains_key(id),
        s.problems[id].owner_thread_id != ctx.thread_id,
        s.tickets.contains_key(ticket_id) ==> s.tickets[ticket_id].problem_id == id,
    ensures
        s.status_set(ctx, now, EntityKind::Problem, id, words).1 is Err,
        s.status_set(ctx, now, EntityKind::Ticket, ticket_id, words).1 is Err,
        s.child_created(ctx, now, id, ticket_id, mode, words, words).1 is Err,
        s.ticket_created(ctx, now, id, words, words).1 is Err,
        s.ticket_classified(
            ctx,
            now,
            ticket_id,
            crate::kinds::TicketClassification::OneGo,
            words,
        ).1 is Err,
        s.result_recorded(ctx, now, ticket_id, words, words).1 is Err,
        s.checked(ctx, now, id, status, result_ids, words, words, followup).1 is Err,
        s.spawned(ctx, now, id, policy, words, None, None, Seq::empty()).1 is Err,
{
}

proof fn lemma_owner_set(base: Problems, acc: Problems, id: Seq<char>, owner: Seq<char>, now: Timestamp)
    requires
        branching(base),
        acc.dom() == base.dom(),
        handed_over(base, acc, id, owner, now).1 is None,
    ensures
        handed_over(base, acc, id, owner, now).0.dom() == base.dom(),
        base.contains_key(id),
        handed_over(base, acc, id, owner, now).0[id].owner_thread_id == owner,
        forall|x: Seq<char>|
            #![trigger handed_over(base, acc, id, owner, now).0[x]]
            acc[x].owner_thread_id == owner ==> handed_over(
                base,
                acc,
                id,
                owner,
                now,
            ).0[x].owner_thread_id == owner,
        forall|c: Seq<char>| #[trigger]
            listed(base[id]).contains(c) ==> handed_over(
                base,
                acc,
                id,
                owner,
                now,
            ).0[c].owner_thread_id == owner,
    decreases height(base, id), listed(base[id]).len() + 1,
{
    if base.contains_key(id) {
        let first = acc.insert(
            id,
            ProblemView { owner_thread_id: owner, updated_at: now, ..acc[id] },
        );
        assert(first.dom() =~= base.dom());
        lemma_owner_set_below(base, first, id, owner, now, 0);
        let done = handed_over(base, acc, id, owner, now).0;
        assert forall|x: Seq<char>|
            #![trigger done[x]]
            acc[x].owner_thread_id == owner implies done[x].owner_thread_id == owner by {
            assert(first[x].owner_thread_id == owner);
        }
        assert forall|c: Seq<char>| #[trigger] listed(base[id]).contains(c) implies done[c].owner_thread_id
            == owner by {
            let k = listed(base[id]).index_of(c);
            assert(listed(base[id])[k] == c);
        }
    }
}

proof fn lemma_owner_set_below(
    base: Problems,
    acc: Problems,
    id: Seq<char>,
    owner: Seq<char>,
    now: Timestamp,
    i: int,
)
    requires
        branching(base),
        acc.dom() == base.dom(),
        base.contains_key(id),
        0 <= i,
        handed_over_below(base, acc, id, owner, now, i).1 is None,
    ensures
        handed_over_below(base, acc, id, owner, now, i).0.dom() == base.dom(),
        forall|x: Seq<char>|
            #![trigger handed_over_below(base, acc, id, owner, now, i).0[x]]
            acc[x].owner_thread_id == owner ==> handed_over_below(
                base,
                acc,
                id,
                owner,
                now,
                i,
            ).0[x].owner_thread_id == owner,
        forall|k: int|
            i <= k < listed(base[id]).len() ==> handed_over_below(
                base,
                acc,
                id,
                owner,
                now,
                i,
            ).0[#[trigger] listed(base[id])[k]].owner_thread_id == owner,
    decreases height(base, id), listed(base[id]).len() - i,
{
    if i < listed(base[id]).len() {
        lemma_listed_below(base[id], i);
        lemma_height(base, id, listed(base[id])[i]);
        let step = handed_over(base, acc, listed(base[id])[i], owner, now);
        lemma_owner_set(base, acc, listed(base[id])[i], owner, now);
        lemma_owner_set_below(base, step.0, id, owner, now, i + 1);
        let done = handed_over_below(base, acc, id, owner, now, i).0;
        assert forall|x: Seq<char>|
            #![trigger done[x]]
            acc[x].owner_thread_id == owner implies done[x].owner_thread_id == owner by {
            assert(step.0[x].owner_thread_id == owner);
        }
        assert forall|k: int| i <= k < listed(base[id]).len() implies done[#[trigger] listed(
            base[id],
        )[k]].owner_thread_id == owner by {
            if k == i {
                assert(step.0[listed(base[id])[i]].owner_thread_id == owner);
            }
        }
    }
}

/// `x` is `id` or stands below it, on any number of steps.
pub open spec fn within(base: Problems, id: Seq<char>, x: Seq<char>) -> bool
    decreases height(base, id),
    when branching(base)
    via within_decreases
{
    x == id || (base.contains_key(id) && exists|k: int|
        0 <= k < listed(base[id]).len() && within(base, #[trigger] listed(base[id])[k], x))
}

#[via_fn]
proof fn within_decreases(base: Problems, id: Seq<char>, x: Seq<char>) {
    assert forall|k: int| base.contains_key(id) && 0 <= k < listed(base[id]).len() implies height(
        base,
        #[trigger] listed(base[id])[k],
    ) < height(base, id) by {
        lemma_listed_below(base[id], k);
        lemma_height(base, id, listed(base[id])[k]);
    }
}

/// Handing a problem over reaches everything that stands below it.
pub proof fn law_handed_over_reaches_all(
    base: Problems,
    acc: Problems,
    id: Seq<char>,
    owner: Seq<char>,
    now: Timestamp,
    x: Seq<char>,
)
    requires
        branching(base),
        acc.dom() == base.dom(),
        handed_over(base, acc, id, owner, now).1 is None,
        within(base, id, x),
    ensures
        base.contains_key(x),
        handed_over(base, acc, id, owner, now).0[x].owner_thread_id == owner,
    decreases height(base, id), listed(base[id]).len() + 1,
{
    lemma_owner_set(base, acc, id, owner, now);
    if x != id {
        let first = acc.insert(
            id,
            ProblemView { owner_thread_id: owner, updated_at: now, ..acc[id] },
        );
        assert(first.dom() =~= base.dom());
        let k = choose|k: int|
            0 <= k < listed(base[id]).len() && within(base, #[trigger] listed(base[id])[k], x);
        lemma_reached_below(base, first, id, owner, now, 0, k, x);
    }
}

proof fn lemma_reached_below(
    base: Problems,
    acc: Problems,
    id: Seq<char>,
    owner: Seq<char>,
    now: Timestamp,
    i: int,
    k: int,
    x: Seq<char>,
)
    requires
        branching(base),
        acc.dom() == base.dom(),
        base.contains_key(id),
        0 <= i <= k < listed(base[id]).len(),
        within(base, listed(base[id])[k], x),
        handed_over_below(base, acc, id, owner, now, i).1 is None,
    ensures
        base.contains_key(x),
        handed_over_below(base, acc, id, owner, now, i).0[x].owner_thread_id == owner,
    decreases height(base, id), listed(base[id]).len() - i,
{
    let c = listed(base[id])[i];
    lemma_listed_below(base[id], i);
    lemma_height(base, id, c);
    let step = handed_over(base, acc, c, owner, now);
    lemma_owner_set(base, acc, c, owner, now);
    lemma_owner_set_below(base, step.0, id, owner, now, i + 1);
    if i == k {
        law_handed_over_reaches_all(base, acc, c, owner, now, x);
        assert(step.0[x].owner_thread_id == owner);
    } else {
        lemma_reached_below(base, step.0, id, owner, now, i + 1, k, x);
    }
}

/// A thread that was spawned owns its problem and everything below it, and the thread that spawned it
/// can no longer change the problem.
pub proof fn law_spawn_hands_over(
    s: ClosureStateView,
    ctx: RuntimeContextView,
    now: Timestamp,
    problem_id: Seq<char>,
    policy: ContextForkPolicy,
    bootstrap_instruction: Seq<char>,
    inherited_cwd: Option<Seq<char>>,
    inherited_model: Option<Seq<char>>,
    inherited_tools: Seq<Seq<char>>,
)
    requires
        s.orderly(),
        branching(s.problems),
        s.spawned(
            ctx,
            now,
            problem_id,
            policy,
            bootstrap_instruction,
            inherited_cwd,
            inherited_model,
            inherited_tools,
        ).1 is Ok,
    ensures
        ({
            let done = s.spawned(
                ctx,
                now,
                problem_id,
                policy,
                bootstrap_instruction,
                inherited_cwd,
                inherited_model,
                inherited_tools,
            );
            let child = done.1->Ok_0.thread_id;
            &&& child != ctx.thread_id
            &&& done.0.threads.contains_key(child)
            &&& done.0.threads[child].root_problem_id == problem_id
            &&& done.0.threads[child].parent_thread_id == Some(ctx.thread_id)
            &&& done.0.problems[problem_id].owner_thread_id == child
            &&& forall|x: Seq<char>| #[trigger]
                within(s.problems, problem_id, x) ==> done.0.problems[x].owner_thread_id == child
            &&& done.0.writable(ctx, problem_id) is Err
            &&& done.0.threads[ctx.thread_id].status == ThreadStatus::WaitingChildren
        }),
{
    let child = s.fresh_thread_id();
    assert(!s.threads.contains_key(child));
    lemma_owner_set(s.problems, s.problems, problem_id, child, now);
    let handed = handed_over(s.problems, s.problems, problem_id, child, now).0;
    assert forall|x: Seq<char>| #[trigger] within(s.problems, problem_id, x) implies handed[x].owner_thread_id
        == child by {
        law_handed_over_reaches_all(s.problems, s.problems, problem_id, child, now, x);
    }
}

/// Recovering a thread gives its problem and everything below it back to the thread that recovers it,
/// which runs again.
pub proof fn law_recover_gives_back(
    s: ClosureStateView,
    ctx: RuntimeContextView,
    now: Timestamp,
    thread_id: Seq<char>,
)
    requires
        branching(s.problems),
        s.recovered(ctx, now, thread_id).1 is Ok,
    ensures
        ({
            let done = s.recovered(ctx, now, thread_id);
            let root = s.threads[thread_id].root_problem_id;
            &&& s.threads[thread_id].status == ThreadStatus::Failed || s.threads[thread_id].status
                == ThreadStatus::Cancelled
            &&& done.0.problems[root].owner_thread_id == ctx.thread_id
            &&& forall|x: Seq<char>| #[trigger]
                within(s.problems, root, x) ==> done.0.problems[x].owner_thread_id
                    == ctx.thread_id
            &&& done.0.threads[ctx.thread_id].status == ThreadStatus::Running
            &&& thread_id != ctx.thread_id ==> done.0.threads[thread_id].status
                == ThreadStatus::Recovered
        }),
{
    let root = s.threads[thread_id].root_problem_id;
    lemma_owner_set(s.problems, s.problems, root, ctx.thread_id, now);
    let handed = handed_over(s.problems, s.problems, root, ctx.thread_id, now).0;
    assert forall|x: Seq<char>| #[trigger] within(s.problems, root, x) implies handed[x].owner_thread_id
        == ctx.thread_id by {
        law_handed_over_reaches_all(s.problems, s.problems, root, ctx.thread_id, now, x);
    }
}

/// A thread is joined once, by its parent and only after it is done.
pub proof fn law_joined_once(
    s: ClosureStateView,
    ctx: RuntimeContextView,
    now: Timestamp,
    thread_id: Seq<char>,
    parent_thread_id: Seq<char>,
    message: Seq<char>,
    later: ClosureStateView,
    later_ctx: RuntimeContextView,
    later_now: Timestamp,
    words: Seq<char>,
)
    requires
        s.joined(ctx, now, thread_id, parent_thread_id, message).1 is Ok,
        s.joined(ctx, now, thread_id, parent_thread_id, message).0.keeps(later),
    ensures
        s.threads[thread_id].status == ThreadStatus::Done,
        s.threads[thread_id].parent_thread_id == Some(parent_thread_id),
        s.threads[thread_id].joined_at is None,
        later.joined(later_ctx, later_now, thread_id, parent_thread_id, words).1 is Err,
        later.joined(later_ctx, later_now, thread_id, parent_thread_id, words).0 == later,
{
    let t = s.joined(ctx, now, thread_id, parent_thread_id, message).0;
    assert(t.threads.contains_key(thread_id) && t.threads[thread_id].joined_at is Some);
}

} // verus!
