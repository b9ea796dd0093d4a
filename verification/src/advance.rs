//! What is asked for next can be done: no operation refuses it.
use vstd::prelude::*;
use crate::clock::Timestamp;
use crate::context::RuntimeContextView;
use crate::effects::{above, children_closed, law_child_problem_says_what_was_asked, law_classification_is_kept, law_result_says_what_was_given, law_ticket_is_started_as_classified, law_ticket_says_what_was_asked};
use crate::entities::ClosureStateView;
use crate::forest::rooted;
use crate::guidance::{child_is_quiet, followup_is_quiet, law_next_follows_the_ticket};
use crate::kinds::{EntityKind, NextAction, ProblemStatus, TicketChildMode, TicketClassification, TicketStatus};

verus! {

/// The thread works on an open problem of its own, nothing below it asks for anything, and the ticket of
/// the problem, if there is one, is its own.
pub open spec fn is_at_its_ticket(s: ClosureStateView, ctx: RuntimeContextView, root: Seq<char>) -> bool {
    &&& s.works_on(ctx, root)
    &&& s.filed()
    &&& rooted(s.problems)
    &&& !s.problems.contains_key(s.fresh_problem_id())
    &&& forall|i: int|
        0 <= i < s.problems[root].child_problem_ids.len() ==> child_is_quiet(
            s,
            ctx,
            #[trigger] s.problems[root].child_problem_ids[i],
        )
    &&& forall|i: int|
        0 <= i < s.problems[root].followup_problem_ids.len() ==> followup_is_quiet(
            s,
            ctx,
            #[trigger] s.problems[root].followup_problem_ids[i],
        )
    &&& s.problems[root].ticket_id matches Some(t) ==> s.tickets.contains_key(t)
        && s.tickets[t].problem_id == root
}

proof fn lemma_own_root(s: ClosureStateView, ctx: RuntimeContextView, root: Seq<char>)
    requires
        is_at_its_ticket(s, ctx, root),
    ensures
        s.may_change(ctx, root),
{
    assert(above(s.problems, root, 0) == Some(root));
}

/// A thread that is told to make a ticket can make one.
pub proof fn law_ticket_that_is_next_is_made(
    s: ClosureStateView,
    ctx: RuntimeContextView,
    now: Timestamp,
    root: Seq<char>,
    title: Seq<char>,
    body: Seq<char>,
)
    requires
        is_at_its_ticket(s, ctx, root),
        s.next(ctx).action == NextAction::CreateSolutionTicket,
    ensures
        s.ticket_created(ctx, now, root, title, body).1 is Ok,
{
    law_next_follows_the_ticket(s, ctx, root);
    lemma_own_root(s, ctx, root);
    law_ticket_says_what_was_asked(s, ctx, now, root, title, body);
}

/// A thread that is told to classify its defined ticket can classify it either way, and is then told to
/// do what it was classified for.
pub proof fn law_classification_that_is_next_is_kept(
    s: ClosureStateView,
    ctx: RuntimeContextView,
    now: Timestamp,
    root: Seq<char>,
    ticket_id: Seq<char>,
    classification: TicketClassification,
    reason: Seq<char>,
)
    requires
        is_at_its_ticket(s, ctx, root),
        s.problems[root].ticket_id == Some(ticket_id),
        s.tickets[ticket_id].status == TicketStatus::Defined,
    ensures
        ({
            let (t, r) = s.ticket_classified(ctx, now, ticket_id, classification, reason);
            &&& s.next(ctx).action == NextAction::ClassifyTicket
            &&& r is Ok
            &&& t.next(ctx).action == match classification {
                TicketClassification::OneGo => NextAction::ExecuteTicket,
                TicketClassification::Split => NextAction::SplitTicket,
            }
        }),
{
    let (t, r) = s.ticket_classified(ctx, now, ticket_id, classification, reason);
    law_next_follows_the_ticket(s, ctx, root);
    lemma_own_root(s, ctx, root);
    law_classification_is_kept(s, ctx, now, ticket_id, classification, reason);
    assert(t.problems == s.problems && t.threads == s.threads && t.inbox == s.inbox);
    assert(t.works_on(ctx, root)) by {
        assert forall|i: int| 0 <= i < t.inbox.len() implies (#[trigger] t.inbox[i]).status
            != crate::kinds::PassiveEventStatus::Inboxed || (t.inbox[i].target_thread_id is Some
            && t.inbox[i].target_thread_id != Some(t.threads[ctx.thread_id].id)) by {
            assert(s.inbox[i] == t.inbox[i]);
        }
    }
    assert forall|i: int| 0 <= i < t.problems[root].child_problem_ids.len() implies child_is_quiet(
        t,
        ctx,
        #[trigger] t.problems[root].child_problem_ids[i],
    ) by {
        assert(child_is_quiet(s, ctx, s.problems[root].child_problem_ids[i]));
    }
    assert forall|i: int| 0 <= i < t.problems[root].followup_problem_ids.len() implies
        followup_is_quiet(t, ctx, #[trigger] t.problems[root].followup_problem_ids[i]) by {
        assert(followup_is_quiet(s, ctx, s.problems[root].followup_problem_ids[i]));
    }
    law_next_follows_the_ticket(t, ctx, root);
}

/// A thread that is told to execute its ticket can start it, and one that is told to split it can start
/// that, or make the first problem out of it once it has.
pub proof fn law_start_that_is_next_is_accepted(
    s: ClosureStateView,
    ctx: RuntimeContextView,
    now: Timestamp,
    root: Seq<char>,
    ticket_id: Seq<char>,
    title: Seq<char>,
    body: Seq<char>,
)
    requires
        is_at_its_ticket(s, ctx, root),
        s.problems[root].ticket_id == Some(ticket_id),
    ensures
        s.next(ctx).action == NextAction::ExecuteTicket ==> s.status_set(
            ctx,
            now,
            EntityKind::Ticket,
            ticket_id,
            "executing"@,
        ).1 is Ok,
        s.next(ctx).action == NextAction::SplitTicket && s.tickets[ticket_id].status
            == TicketStatus::Classified ==> s.status_set(
            ctx,
            now,
            EntityKind::Ticket,
            ticket_id,
            "splitting"@,
        ).1 is Ok,
        s.next(ctx).action == NextAction::SplitTicket && s.tickets[ticket_id].status
            == TicketStatus::Splitting && s.tickets[ticket_id].classification == Some(
            TicketClassification::Split,
        ) ==> s.child_created(ctx, now, root, ticket_id, TicketChildMode::Split, title, body).1
            is Ok,
{
    law_next_follows_the_ticket(s, ctx, root);
    lemma_own_root(s, ctx, root);
    law_ticket_is_started_as_classified(s, ctx, now, ticket_id, "executing"@);
    law_ticket_is_started_as_classified(s, ctx, now, ticket_id, "splitting"@);
    law_child_problem_says_what_was_asked(
        s,
        ctx,
        now,
        root,
        ticket_id,
        TicketChildMode::Split,
        title,
        body,
    );
}

/// A thread that is told to record a result can record it, once its problem was taken up and all that
/// came out of its ticket is closed.
pub proof fn law_result_that_is_next_is_recorded(
    s: ClosureStateView,
    ctx: RuntimeContextView,
    now: Timestamp,
    root: Seq<char>,
    ticket_id: Seq<char>,
    title: Seq<char>,
    body: Seq<char>,
)
    requires
        is_at_its_ticket(s, ctx, root),
        s.problems[root].ticket_id == Some(ticket_id),
        s.next(ctx).action == NextAction::RecordResult,
        s.problems[root].status != ProblemStatus::Todo,
        children_closed(s, ticket_id),
    ensures
        s.result_recorded(ctx, now, ticket_id, title, body).1 is Ok,
{
    law_next_follows_the_ticket(s, ctx, root);
    lemma_own_root(s, ctx, root);
    law_result_says_what_was_given(s, ctx, now, ticket_id, title, body);
}

} // verus!
