//! The operations on problems and tickets that keep a state healthy.
use vstd::prelude::*;
use crate::clock::Timestamp;
use crate::context::RuntimeContextView;
use crate::entities::{ClosureStateView, ProblemView};
use crate::history::{lemma_logged, problem_kept};
use crate::keeping::{law_checked_keeps_history, law_child_created_keeps_history, law_root_initialized_keeps_history, law_root_upgraded_keeps_history, law_status_set_keeps_history, law_ticket_classified_keeps_history, law_ticket_created_keeps_history, law_user_task_created_keeps_history, lemma_check_written, lemma_thread_finished, lemma_ticket_activated, lemma_with_result};
use crate::kinds::{CheckStatus, EntityKind, ProblemStatus, TicketChildMode, TicketClassification, TicketStatus};
use crate::lookup::{event_named, item_named};
use crate::planning::{lemma_leaf_planned, lemma_none_open, lemma_none_open_from, lemma_problem_moves, lemma_ticket_stays, lemma_tickets_stay};
use crate::search::lemma_find_from;
use crate::soundness::{law_checked_sound, law_child_created_sound, law_root_initialized_sound, law_root_upgraded_sound, law_status_set_sound, law_ticket_created_sound, law_user_task_created_sound, lemma_touch_sound};
use crate::upkeep::{lemma_handling_idles, lemma_handling_wired, lemma_idles, lemma_thread_finished_wired};
use crate::validity::{lemma_healthy, lemma_idle_healthy, lemma_nested_stays, lemma_ticketed_stays};
use crate::wiring::lemma_same_wiring;

verus! {

/// A state in which problems and tickets were worked on is healthy where they are still planned.
proof fn lemma_worked_healthy(s: ClosureStateView, t: ClosureStateView)
    requires
        s.healthy(),
        s.leads_to(t),
        t.sound(),
        t.wired(),
        t.planned(),
        t.apart(),
        t.threads.dom() == s.threads.dom(),
        t.tickets.dom() == s.tickets.dom() || t.ticketed(),
    ensures
        t.healthy(),
{
    lemma_healthy(s);
    lemma_nested_stays(s, t);
    if t.tickets.dom() == s.tickets.dom() {
        lemma_ticketed_stays(s, t);
    }
    lemma_healthy(t);
}

/// The root problem gets another title and body, and nothing else changes.
proof fn lemma_renamed_healthy(s: ClosureStateView, t: ClosureStateView)
    requires
        s.healthy(),
        s.leads_to(t),
        t.sound(),
        t.threads == s.threads,
        t.handles == s.handles,
        t.waits == s.waits,
        t.tickets == s.tickets,
        t.results == s.results,
        t.checks == s.checks,
        t.passive_events == s.passive_events,
        t.next_passive_event_seq == s.next_passive_event_seq,
        t.inbox == s.inbox,
        t.problems.dom() =~= s.problems.dom(),
        forall|id: Seq<char>| #[trigger]
            s.problems.contains_key(id) ==> t.problems[id] == (ProblemView {
                title: t.problems[id].title,
                body: t.problems[id].body,
                updated_at: t.problems[id].updated_at,
                ..s.problems[id]
            }),
    ensures
        t.healthy(),
{
    lemma_healthy(s);
    lemma_same_wiring(s, t);
    assert forall|id: Seq<char>| #[trigger] t.problems.contains_key(id) implies t.problem_fault(
        id,
    ) is None by {
        assert(s.problems.contains_key(id));
        assert(s.problem_fault(id) is None);
        assert(s.lists_grow(t, id));
        lemma_problem_moves(s, t, id);
    }
    lemma_tickets_stay(s, t);
    lemma_worked_healthy(s, t);
}

/// Initializing the root problem keeps a state healthy.
pub proof fn law_root_initialized_keeps_healthy(
    s: ClosureStateView,
    ctx: RuntimeContextView,
    now: Timestamp,
    title: Option<Seq<char>>,
    body: Option<Seq<char>>,
)
    requires
        s.healthy(),
    ensures
        s.root_initialized(ctx, now, title, body).0.healthy(),
{
    let t = s.root_initialized(ctx, now, title, body).0;
    if t != s {
        law_root_initialized_keeps_history(s, ctx, now, title, body);
        law_root_initialized_sound(s, ctx, now, title, body);
        lemma_renamed_healthy(s, t);
    }
}

/// Upgrading the root problem keeps a state healthy.
pub proof fn law_root_upgraded_keeps_healthy(
    s: ClosureStateView,
    ctx: RuntimeContextView,
    now: Timestamp,
    title: Seq<char>,
    body: Seq<char>,
)
    requires
        s.healthy(),
    ensures
        s.root_upgraded(ctx, now, title, body).0.healthy(),
{
    let t = s.root_upgraded(ctx, now, title, body).0;
    if t != s {
        law_root_upgraded_keeps_history(s, ctx, now, title, body);
        law_root_upgraded_sound(s, ctx, now, title, body);
        lemma_renamed_healthy(s, t);
    }
}

/// A problem is added below another that is not done.
pub proof fn lemma_child_healthy(
    s: ClosureStateView,
    t: ClosureStateView,
    ctx: RuntimeContextView,
    now: Timestamp,
    parent_id: Seq<char>,
    leaf: ProblemView,
)
    requires
        s.healthy(),
        s.leads_to(t),
        t.sound(),
        s.writable(ctx, parent_id) is Ok,
        s.problems[parent_id].status != ProblemStatus::Done,
        leaf.id == s.fresh_problem_id(),
        leaf.owner_thread_id == ctx.thread_id,
        leaf.parent_id == Some(parent_id),
        leaf.ticket_id is None,
        leaf.child_problem_ids.len() == 0,
        leaf.followup_problem_ids.len() == 0,
        leaf.result_ids.len() == 0,
        leaf.check_ids.len() == 0,
        leaf.status == ProblemStatus::Todo,
        leaf.created_from_ticket_id is Some ==> s.tickets[leaf.created_from_ticket_id->0].status
            != TicketStatus::Done,
        t.problems == s.with_child_problem(now, parent_id, leaf).problems,
        t.threads == s.threads,
        t.handles == s.handles,
        t.waits == s.waits,
        t.tickets == s.tickets,
        t.results == s.results,
        t.checks == s.checks,
        t.passive_events == s.passive_events,
        t.next_passive_event_seq == s.next_passive_event_seq,
        t.inbox == s.inbox,
        t.source_fault(leaf.id) is None,
    ensures
        t.healthy(),
{
    lemma_healthy(s);
    lemma_same_wiring(s, t);
    let id = leaf.id;
    assert(s.problems.contains_key(parent_id));
    assert(!s.problems.contains_key(id));
    assert(t.problems[id] == leaf);
    assert forall|x: Seq<char>| #[trigger] t.problems.contains_key(x) implies t.problem_fault(
        x,
    ) is None by {
        if x == id {
            lemma_leaf_planned(s, t, ctx, parent_id, id);
        } else {
            assert(s.problems.contains_key(x));
            assert(s.problem_fault(x) is None);
            assert(s.lists_grow(t, x));
            lemma_problem_moves(s, t, x);
        }
    }
    lemma_tickets_stay(s, t);
    lemma_worked_healthy(s, t);
}

/// Making a child problem keeps a state healthy.
pub proof fn law_child_created_keeps_healthy(
    s: ClosureStateView,
    ctx: RuntimeContextView,
    now: Timestamp,
    parent_id: Seq<char>,
    ticket_id: Seq<char>,
    mode: TicketChildMode,
    title: Seq<char>,
    body: Seq<char>,
)
    requires
        s.healthy(),
        s.next_problem_seq < u32::MAX,
        s.child_created(ctx, now, parent_id, ticket_id, mode, title, body).1 is Ok,
    ensures
        s.child_created(ctx, now, parent_id, ticket_id, mode, title, body).0.healthy(),
{
    let t = s.child_created(ctx, now, parent_id, ticket_id, mode, title, body).0;
    law_child_created_keeps_history(s, ctx, now, parent_id, ticket_id, mode, title, body);
    law_child_created_sound(s, ctx, now, parent_id, ticket_id, mode, title, body);
    lemma_healthy(s);
    let leaf = ProblemView {
        created_from_ticket_id: Some(ticket_id),
        created_from_ticket_mode: Some(mode),
        ..ProblemView::fresh(
            s.fresh_problem_id(),
            title,
            body,
            ctx.thread_id,
            Some(parent_id),
            now,
        )
    };
    assert(s.problems.contains_key(parent_id));
    assert(s.problem_fault(parent_id) is None);
    assert(!s.problems.contains_key(leaf.id));
    assert(t.problems[leaf.id] == leaf);
    lemma_child_healthy(s, t, ctx, now, parent_id, leaf);
}

/// Making a ticket keeps a state healthy.
pub proof fn law_ticket_created_keeps_healthy(
    s: ClosureStateView,
    ctx: RuntimeContextView,
    now: Timestamp,
    problem_id: Seq<char>,
    title: Seq<char>,
    body: Seq<char>,
)
    requires
        s.healthy(),
        s.next_ticket_seq < u32::MAX,
        s.ticket_created(ctx, now, problem_id, title, body).1 is Ok,
    ensures
        s.ticket_created(ctx, now, problem_id, title, body).0.healthy(),
{
    let t = s.ticket_created(ctx, now, problem_id, title, body).0;
    law_ticket_created_keeps_history(s, ctx, now, problem_id, title, body);
    law_ticket_created_sound(s, ctx, now, problem_id, title, body);
    lemma_healthy(s);
    lemma_same_wiring(s, t);
    let ticket_id = s.fresh_ticket_id();
    assert(!s.tickets.contains_key(ticket_id));
    assert forall|x: Seq<char>| #[trigger] t.problems.contains_key(x) implies t.problem_fault(
        x,
    ) is None by {
        assert(s.problems.contains_key(x));
        assert(s.problem_fault(x) is None);
        assert(s.lists_grow(t, x));
        lemma_problem_moves(s, t, x);
    }
    assert forall|x: Seq<char>| #[trigger] t.tickets.contains_key(x) implies t.ticket_fault(
        x,
    ) is None by {
        if x != ticket_id {
            assert(s.ticket_fault(x) is None);
            lemma_ticket_stays(s, t, x);
        }
    }
    assert forall|x: Seq<char>| #[trigger] t.tickets.contains_key(x) implies t.problems[t.tickets[x].problem_id].ticket_id
        == Some(x) by {
        if x != ticket_id {
            assert(s.tickets.contains_key(x));
            assert(s.ticket_fault(x) is None);
            let p = s.tickets[x].problem_id;
            assert(problem_kept(s.problems[p], t.problems[p]));
        }
    }
    lemma_worked_healthy(s, t);
}

/// Classifying a ticket keeps a state healthy.
pub proof fn law_ticket_classified_keeps_healthy(
    s: ClosureStateView,
    ctx: RuntimeContextView,
    now: Timestamp,
    ticket_id: Seq<char>,
    classification: TicketClassification,
    reason: Seq<char>,
)
    requires
        s.healthy(),
        s.ticket_classified(ctx, now, ticket_id, classification, reason).1 is Ok,
    ensures
        s.ticket_classified(ctx, now, ticket_id, classification, reason).0.healthy(),
{
    let t = s.ticket_classified(ctx, now, ticket_id, classification, reason).0;
    law_ticket_classified_keeps_history(s, ctx, now, ticket_id, classification, reason);
    lemma_ticket_moved_healthy(s, t, ticket_id);
}

/// A ticket that was not taken up yet moves on, and nothing else changes.
proof fn lemma_ticket_moved_healthy(s: ClosureStateView, t: ClosureStateView, ticket_id: Seq<char>)
    requires
        s.healthy(),
        s.leads_to(t),
        s.tickets.contains_key(ticket_id),
        s.tickets[ticket_id].status == TicketStatus::Defined || s.tickets[ticket_id].status
            == TicketStatus::Classified,
        t.tickets[ticket_id].problem_id == s.tickets[ticket_id].problem_id,
        t.tickets[ticket_id].classification is Some,
        t.tickets[ticket_id].status == TicketStatus::Executing ==> t.tickets[ticket_id].classification
            == Some(TicketClassification::OneGo),
        t.tickets[ticket_id].status == TicketStatus::Splitting ==> t.tickets[ticket_id].classification
            == Some(TicketClassification::Split),
        t.tickets[ticket_id].status != TicketStatus::Done,
        t.tickets =~= s.tickets.insert(ticket_id, t.tickets[ticket_id]),
        t.problems == s.problems,
        t.next_problem_seq == s.next_problem_seq,
        t.threads == s.threads,
        t.handles == s.handles,
        t.waits == s.waits,
        t.results == s.results,
        t.checks == s.checks,
        t.passive_events == s.passive_events,
        t.next_passive_event_seq == s.next_passive_event_seq,
        t.inbox == s.inbox,
    ensures
        t.healthy(),
{
    lemma_healthy(s);
    lemma_same_wiring(s, t);
    assert(s.ticket_fault(ticket_id) is None);
    assert forall|x: Seq<char>| #[trigger] t.problems.contains_key(x) implies t.problem_fault(
        x,
    ) is None by {
        assert(s.problem_fault(x) is None);
        assert(s.lists_grow(t, x));
        lemma_problem_moves(s, t, x);
    }
    assert forall|x: Seq<char>| #[trigger] t.tickets.contains_key(x) implies t.ticket_fault(
        x,
    ) is None by {
        if x != ticket_id {
            assert(s.tickets.contains_key(x));
            assert(s.ticket_fault(x) is None);
            lemma_ticket_stays(s, t, x);
        }
    }
    assert(t.tickets.dom() =~= s.tickets.dom());
    lemma_worked_healthy(s, t);
}

/// Setting a status keeps a state healthy.
pub proof fn law_status_set_keeps_healthy(
    s: ClosureStateView,
    ctx: RuntimeContextView,
    now: Timestamp,
    kind: EntityKind,
    id: Seq<char>,
    status: Seq<char>,
)
    requires
        s.healthy(),
        s.status_set(ctx, now, kind, id, status).1 is Ok,
    ensures
        s.status_set(ctx, now, kind, id, status).0.healthy(),
{
    let t = s.status_set(ctx, now, kind, id, status).0;
    law_status_set_keeps_history(s, ctx, now, kind, id, status);
    law_status_set_sound(s, ctx, now, kind, id, status);
    match kind {
        EntityKind::Problem => {
            lemma_healthy(s);
            lemma_same_wiring(s, t);
            assert forall|x: Seq<char>| #[trigger] t.problems.contains_key(x) implies
                t.problem_fault(x) is None by {
                assert(s.problems.contains_key(x));
                assert(s.problem_fault(x) is None);
                assert(s.lists_grow(t, x));
                lemma_problem_moves(s, t, x);
            }
            lemma_tickets_stay(s, t);
            lemma_worked_healthy(s, t);
        },
        EntityKind::Ticket => {
            lemma_ticket_moved_healthy(s, t, id);
        },
    }
}

/// What a new user task came from is in order once its item and its event are handled.
proof fn lemma_task_planned(
    s: ClosureStateView,
    t: ClosureStateView,
    ctx: RuntimeContextView,
    item_id: Seq<char>,
    id: Seq<char>,
)
    requires
        s.task_source(ctx, item_id) is Ok,
        ({
            let (item_at, event_at) = s.task_source(ctx, item_id)->Ok_0;
            let event = s.passive_events[event_at];
            let item = s.inbox[item_at];
            &&& t.passive_events == s.event_handled(event_at).passive_events
            &&& t.inbox == s.item_handled(item_at).inbox
            &&& t.problems[id].created_from_passive_event_id == Some(event.id)
            &&& t.problems[id].created_from_inbox_item_id == Some(item.id)
            &&& t.problems[id].created_from_user_task_kind == Some(event.kind)
            &&& t.problems[id].owner_thread_id == ctx.thread_id
        }),
    ensures
        t.user_task_fault(id) is None,
{
    let (item_at, event_at) = s.task_source(ctx, item_id)->Ok_0;
    let item = s.inbox[item_at];
    let event = s.passive_events[event_at];
    lemma_find_from(s.inbox, item_named(item_id), 0);
    lemma_find_from(s.passive_events, event_named(item.passive_event_id), 0);
    lemma_find_from(t.inbox, item_named(item_id), 0);
    lemma_find_from(t.passive_events, event_named(item.passive_event_id), 0);
    assert(item_named(item_id)(t.inbox[item_at]));
    assert(event_named(item.passive_event_id)(t.passive_events[event_at]));
    let i = t.item_index(item_id)->0;
    if i < item_at {
        assert(!item_named(item_id)(s.inbox[i]));
    }
    assert(i == item_at);
    let e = t.event_index(item.passive_event_id)->0;
    if e < event_at {
        assert(!event_named(item.passive_event_id)(s.passive_events[e]));
    }
    assert(e == event_at);
}

/// Making a problem out of an inbox item keeps a state healthy, unless the root problem of the
/// thread is done.
pub proof fn law_user_task_created_keeps_healthy(
    s: ClosureStateView,
    ctx: RuntimeContextView,
    now: Timestamp,
    item_id: Seq<char>,
    title: Seq<char>,
    body: Seq<char>,
    note: Seq<char>,
)
    requires
        s.healthy(),
        s.next_problem_seq < u32::MAX,
        s.problems[s.threads[ctx.thread_id].root_problem_id].status != ProblemStatus::Done,
        s.user_task_created(ctx, now, item_id, title, body, note).1 is Ok,
    ensures
        s.user_task_created(ctx, now, item_id, title, body, note).0.healthy(),
{
    let t = s.user_task_created(ctx, now, item_id, title, body, note).0;
    law_user_task_created_keeps_history(s, ctx, now, item_id, title, body, note);
    law_user_task_created_sound(s, ctx, now, item_id, title, body, note);
    lemma_healthy(s);
    let parent_id = s.threads[ctx.thread_id].root_problem_id;
    let (item_at, event_at) = s.task_source(ctx, item_id)->Ok_0;
    let item = s.inbox[item_at];
    let event = s.passive_events[event_at];
    lemma_find_from(s.inbox, item_named(item_id), 0);
    lemma_find_from(s.passive_events, event_named(item.passive_event_id), 0);
    let h = ClosureStateView { passive_events: t.passive_events, inbox: t.inbox, ..s };
    lemma_handling_wired(s, t.passive_events, t.inbox);
    lemma_handling_idles(s, h);
    assert(s.leads_to(h));
    lemma_idle_healthy(s, h);
    let leaf = ProblemView {
        created_from_passive_event_id: Some(event.id),
        created_from_inbox_item_id: Some(item.id),
        created_from_user_task_kind: Some(event.kind),
        ..ProblemView::fresh(
            s.fresh_problem_id(),
            title,
            body,
            ctx.thread_id,
            Some(parent_id),
            now,
        )
    };
    assert(s.problems.contains_key(parent_id));
    assert(!s.problems.contains_key(leaf.id));
    assert(t.problems[leaf.id] == leaf);
    lemma_task_planned(s, t, ctx, item_id, leaf.id);
    assert(h.leads_to(t));
    lemma_child_healthy(h, t, ctx, now, parent_id, leaf);
}

/// Scaffolding a user task keeps a state healthy, unless the root problem of the thread is done.
pub proof fn law_user_task_scaffolded_keeps_healthy(
    s: ClosureStateView,
    ctx: RuntimeContextView,
    now: Timestamp,
    item_id: Seq<char>,
    problem_title: Seq<char>,
    problem_body: Seq<char>,
    ticket_title: Seq<char>,
    ticket_body: Seq<char>,
    note: Seq<char>,
)
    requires
        s.healthy(),
        s.next_problem_seq < u32::MAX,
        s.next_ticket_seq < u32::MAX,
        s.problems[s.threads[ctx.thread_id].root_problem_id].status != ProblemStatus::Done,
        s.user_task_scaffolded(
            ctx,
            now,
            item_id,
            problem_title,
            problem_body,
            ticket_title,
            ticket_body,
            note,
        ).1 is Ok,
    ensures
        s.user_task_scaffolded(
            ctx,
            now,
            item_id,
            problem_title,
            problem_body,
            ticket_title,
            ticket_body,
            note,
        ).0.healthy(),
{
    law_user_task_created_keeps_healthy(s, ctx, now, item_id, problem_title, problem_body, note);
    let made = s.user_task_created(ctx, now, item_id, problem_title, problem_body, note);
    law_ticket_created_keeps_healthy(
        made.0,
        ctx,
        now,
        made.1->Ok_0.problem_id,
        ticket_title,
        ticket_body,
    );
}

/// A ticket that was taken up, and whose problems are done, gets its result.
proof fn lemma_result_healthy(
    s: ClosureStateView,
    ctx: RuntimeContextView,
    now: Timestamp,
    ticket_id: Seq<char>,
    title: Seq<char>,
    body: Seq<char>,
)
    requires
        s.healthy(),
        s.next_result_seq < u32::MAX,
        s.tickets.contains_key(ticket_id),
        s.active_result_fault(ticket_id) is None,
    ensures
        s.with_result(
            ctx,
            now,
            ticket_id,
            s.tickets[ticket_id].problem_id,
            title,
            body,
        ).healthy(),
{
    let problem_id = s.tickets[ticket_id].problem_id;
    let t = s.with_result(ctx, now, ticket_id, problem_id, title, body);
    lemma_healthy(s);
    assert(s.ticket_fault(ticket_id) is None);
    lemma_with_result(s, ctx, now, ticket_id, problem_id, title, body);
    lemma_touch_sound(s, t, problem_id, t.problems[problem_id]);
    lemma_same_wiring(s, t);
    assert forall|x: Seq<char>| #[trigger] t.problems.contains_key(x) implies t.problem_fault(
        x,
    ) is None by {
        assert(s.problems.contains_key(x));
        assert(s.problem_fault(x) is None);
        assert(s.lists_grow(t, x));
        lemma_problem_moves(s, t, x);
    }
    lemma_none_open_from(s, ticket_id);
    lemma_none_open_from(t, ticket_id);
    assert(t.ticket_fault(ticket_id) is None) by {
        assert forall|p: Seq<char>| #[trigger]
            t.problems.contains_key(p) && t.problems[p].created_from_ticket_id == Some(
                ticket_id,
            ) implies t.problems[p].status == ProblemStatus::Done by {
            assert(s.problems.contains_key(p));
        }
    }
    assert forall|x: Seq<char>| #[trigger] t.tickets.contains_key(x) implies t.ticket_fault(
        x,
    ) is None by {
        if x != ticket_id {
            assert(s.tickets.contains_key(x));
            assert(s.ticket_fault(x) is None);
            lemma_ticket_stays(s, t, x);
        }
    }
    assert(t.tickets.dom() =~= s.tickets.dom());
    lemma_worked_healthy(s, t);
}

/// Recording a result keeps a state healthy.
pub proof fn law_result_recorded_keeps_healthy(
    s: ClosureStateView,
    ctx: RuntimeContextView,
    now: Timestamp,
    ticket_id: Seq<char>,
    title: Seq<char>,
    body: Seq<char>,
)
    requires
        s.healthy(),
        s.next_result_seq < u32::MAX,
        s.result_recorded(ctx, now, ticket_id, title, body).1 is Ok,
    ensures
        s.result_recorded(ctx, now, ticket_id, title, body).0.healthy(),
{
    let ticket = s.tickets[ticket_id];
    let started = s.ticket_started(ctx, now, ticket_id).0;
    if ticket.status == TicketStatus::Classified {
        let next = if ticket.classification == Some(TicketClassification::OneGo) {
            TicketStatus::Executing
        } else {
            TicketStatus::Splitting
        };
        lemma_ticket_activated(s, ctx, now, ticket_id, next);
        lemma_ticket_moved_healthy(s, started, ticket_id);
    }
    lemma_result_healthy(started, ctx, now, ticket_id, title, body);
}

/// A problem gets a check that did not succeed, and the follow-up problem that comes out of it.
proof fn lemma_followup_planned(
    s: ClosureStateView,
    t: ClosureStateView,
    ctx: RuntimeContextView,
    problem_id: Seq<char>,
    check_id: Seq<char>,
    id: Seq<char>,
)
    requires
        s.sound(),
        t.sound(),
        s.wired(),
        s.planned(),
        s.filed(),
        s.leads_to(t),
        s.writable(ctx, problem_id) is Ok,
        !s.problems.contains_key(id),
        !s.checks.contains_key(check_id),
        t.problems =~= s.problems.insert(id, t.problems[id]).insert(
            problem_id,
            t.problems[problem_id],
        ),
        id != problem_id,
        t.problems[problem_id] == (ProblemView {
            followup_problem_ids: s.problems[problem_id].followup_problem_ids.push(id),
            check_ids: s.problems[problem_id].check_ids.push(check_id),
            status: ProblemStatus::Followup,
            updated_at: t.problems[problem_id].updated_at,
            ..s.problems[problem_id]
        }),
        t.problems[id] == (ProblemView {
            created_from_check_id: Some(check_id),
            ..ProblemView::fresh(
                id,
                t.problems[id].title,
                t.problems[id].body,
                ctx.thread_id,
                Some(problem_id),
                t.problems[id].created_at,
            )
        }),
        t.checks =~= s.checks.insert(check_id, t.checks[check_id]),
        t.checks[check_id].problem_id == problem_id,
        t.checks[check_id].status == CheckStatus::NotSuccess,
        t.checks[check_id].followup_problem_id == Some(id),
        t.tickets == s.tickets,
        t.passive_events == s.passive_events,
        t.inbox == s.inbox,
    ensures
        t.planned(),
{
    let list = s.problems[problem_id].followup_problem_ids;
    assert(list.push(id)[list.len() as int] == id);
    assert(t.problems[problem_id].followup_problem_ids.contains(id));
    assert(t.listed_check_fault(problem_id, check_id) is None);
    assert(t.source_fault(id) is None);
    lemma_leaf_planned(s, t, ctx, problem_id, id);
    assert forall|x: Seq<char>| #[trigger] t.problems.contains_key(x) implies t.problem_fault(
        x,
    ) is None by {
        if x != id {
            assert(s.problems.contains_key(x));
            assert(s.problem_fault(x) is None);
            assert(s.lists_grow(t, x));
            lemma_problem_moves(s, t, x);
        }
    }
    lemma_tickets_stay(s, t);
}

/// What writing down a check that did not succeed changes.
proof fn lemma_followup_written(
    s: ClosureStateView,
    ctx: RuntimeContextView,
    now: Timestamp,
    problem_id: Seq<char>,
    result_ids: Seq<Seq<char>>,
    title: Seq<char>,
    body: Seq<char>,
    followup: Option<(Seq<char>, Seq<char>)>,
)
    requires
        followup is Some,
        s.problems.contains_key(problem_id),
        s.fresh_problem_id() != problem_id,
    ensures
        ({
            let t = s.check_written(
                ctx,
                now,
                problem_id,
                CheckStatus::NotSuccess,
                result_ids,
                title,
                body,
                followup,
            );
            let check_id = s.fresh_check_id();
            let id = s.fresh_problem_id();
            &&& t.problems =~= s.problems.insert(id, t.problems[id]).insert(
                problem_id,
                t.problems[problem_id],
            )
            &&& t.problems[problem_id] == (ProblemView {
                followup_problem_ids: s.problems[problem_id].followup_problem_ids.push(id),
                check_ids: s.problems[problem_id].check_ids.push(check_id),
                status: ProblemStatus::Followup,
                updated_at: t.problems[problem_id].updated_at,
                ..s.problems[problem_id]
            })
            &&& t.problems[id] == (ProblemView {
                created_from_check_id: Some(check_id),
                ..ProblemView::fresh(
                    id,
                    t.problems[id].title,
                    t.problems[id].body,
                    ctx.thread_id,
                    Some(problem_id),
                    t.problems[id].created_at,
                )
            })
            &&& t.checks =~= s.checks.insert(check_id, t.checks[check_id])
            &&& t.checks[check_id].problem_id == problem_id
            &&& t.checks[check_id].status == CheckStatus::NotSuccess
            &&& t.checks[check_id].followup_problem_id == Some(id)
            &&& t == (ClosureStateView {
                problems: t.problems,
                next_problem_seq: t.next_problem_seq,
                checks: t.checks,
                next_check_seq: t.next_check_seq,
                ..s
            })
        }),
{
}

/// A check that did not succeed is written down with its follow-up problem.
proof fn lemma_followup_healthy(
    s: ClosureStateView,
    ctx: RuntimeContextView,
    now: Timestamp,
    problem_id: Seq<char>,
    result_ids: Seq<Seq<char>>,
    title: Seq<char>,
    body: Seq<char>,
    followup: Option<(Seq<char>, Seq<char>)>,
)
    requires
        s.healthy(),
        s.next_problem_seq < u32::MAX,
        s.next_check_seq < u32::MAX,
        s.writable(ctx, problem_id) is Ok,
        s.problems[problem_id].status != ProblemStatus::Done,
        followup is Some,
        s.check_written(
            ctx,
            now,
            problem_id,
            CheckStatus::NotSuccess,
            result_ids,
            title,
            body,
            followup,
        ).sound(),
    ensures
        s.check_written(
            ctx,
            now,
            problem_id,
            CheckStatus::NotSuccess,
            result_ids,
            title,
            body,
            followup,
        ).healthy(),
{
    let status = CheckStatus::NotSuccess;
    let t = s.check_written(ctx, now, problem_id, status, result_ids, title, body, followup);
    lemma_healthy(s);
    lemma_check_written(s, ctx, now, problem_id, status, result_ids, title, body, followup);
    let check_id = s.fresh_check_id();
    let id = s.fresh_problem_id();
    assert(!s.problems.contains_key(id));
    assert(!s.checks.contains_key(check_id));
    assert(s.problems.contains_key(problem_id));
    lemma_followup_written(s, ctx, now, problem_id, result_ids, title, body, followup);
    lemma_followup_planned(s, t, ctx, problem_id, check_id, id);
    lemma_same_wiring(s, t);
    assert(t.apart());
    lemma_worked_healthy(s, t);
}

/// A check that succeeded is written down and closes its problem.
proof fn lemma_success_healthy(
    s: ClosureStateView,
    ctx: RuntimeContextView,
    now: Timestamp,
    problem_id: Seq<char>,
    result_ids: Seq<Seq<char>>,
    title: Seq<char>,
    body: Seq<char>,
)
    requires
        s.healthy(),
        s.next_problem_seq < u32::MAX,
        s.next_check_seq < u32::MAX,
        s.writable(ctx, problem_id) is Ok,
        s.problems[problem_id].status != ProblemStatus::Done,
        s.closing_fault(problem_id) is None,
    ensures
        s.check_written(
            ctx,
            now,
            problem_id,
            CheckStatus::Success,
            result_ids,
            title,
            body,
            None,
        ).healthy(),
{
    let status = CheckStatus::Success;
    let t = s.check_written(ctx, now, problem_id, status, result_ids, title, body, None);
    lemma_healthy(s);
    lemma_check_written(s, ctx, now, problem_id, status, result_ids, title, body, None);
    lemma_touch_sound(s, t, problem_id, t.problems[problem_id]);
    lemma_same_wiring(s, t);
    let check_id = s.fresh_check_id();
    assert(!s.checks.contains_key(check_id));
    assert(t.listed_check_fault(problem_id, check_id) is None);
    assert(t.done_fault(problem_id) is None) by {
        let p = s.problems[problem_id];
        lemma_none_open(s, p.child_problem_ids);
        lemma_none_open(s, p.followup_problem_ids);
        lemma_none_open(t, p.child_problem_ids);
        lemma_none_open(t, p.followup_problem_ids);
        assert forall|i: int|
            0 <= i < p.child_problem_ids.len() && t.problems.contains_key(
                #[trigger] p.child_problem_ids[i],
            ) implies t.problems[p.child_problem_ids[i]].status == ProblemStatus::Done by {
            assert(s.problems.contains_key(p.child_problem_ids[i]));
        }
        assert forall|i: int|
            0 <= i < p.followup_problem_ids.len() && t.problems.contains_key(
                #[trigger] p.followup_problem_ids[i],
            ) implies t.problems[p.followup_problem_ids[i]].status == ProblemStatus::Done by {
            assert(s.problems.contains_key(p.followup_problem_ids[i]));
        }
        let list = p.check_ids;
        assert(t.problems[problem_id].check_ids[list.len() as int] == check_id);
        assert(t.has_success_check(problem_id));
    }
    assert forall|x: Seq<char>| #[trigger] t.problems.contains_key(x) implies t.problem_fault(
        x,
    ) is None by {
        assert(s.problems.contains_key(x));
        assert(s.problem_fault(x) is None);
        assert(s.lists_grow(t, x));
        lemma_problem_moves(s, t, x);
    }
    lemma_tickets_stay(s, t);
    lemma_worked_healthy(s, t);
}

/// Checking a problem keeps a state healthy.
pub proof fn law_checked_keeps_healthy(
    s: ClosureStateView,
    ctx: RuntimeContextView,
    now: Timestamp,
    problem_id: Seq<char>,
    status: CheckStatus,
    result_ids: Seq<Seq<char>>,
    title: Seq<char>,
    body: Seq<char>,
    followup: Option<(Seq<char>, Seq<char>)>,
)
    requires
        s.healthy(),
        s.next_problem_seq < u32::MAX,
        s.next_check_seq < u32::MAX,
        s.checked(ctx, now, problem_id, status, result_ids, title, body, followup).1 is Ok,
    ensures
        s.checked(ctx, now, problem_id, status, result_ids, title, body, followup).0.healthy(),
{
    let t = s.checked(ctx, now, problem_id, status, result_ids, title, body, followup).0;
    law_checked_keeps_history(
        s,
        ctx,
        now,
        problem_id,
        status,
        result_ids,
        title,
        body,
        followup,
    );
    law_checked_sound(s, ctx, now, problem_id, status, result_ids, title, body, followup);
    let a = s.check_written(ctx, now, problem_id, status, result_ids, title, body, followup);
    match status {
        CheckStatus::NotSuccess => {
            assert(a.problems == t.problems && a.next_problem_seq == t.next_problem_seq);
            lemma_followup_healthy(
                s,
                ctx,
                now,
                problem_id,
                result_ids,
                title,
                body,
                followup,
            );
            lemma_healthy(a);
            lemma_same_wiring(a, t);
            lemma_idles(a, t);
            lemma_logged(a, ctx, now, "check_recorded"@, s.fresh_check_id(), status.name_view());
            lemma_idle_healthy(a, t);
        },
        CheckStatus::Success => {
            lemma_success_healthy(s, ctx, now, problem_id, result_ids, title, body);
            lemma_healthy(a);
            let b = a.thread_finished(ctx, now, problem_id).0;
            lemma_thread_finished_wired(a, ctx, now, problem_id);
            lemma_thread_finished(a, ctx, now, problem_id);
            lemma_idle_healthy(a, b);
            lemma_healthy(b);
            lemma_same_wiring(b, t);
            lemma_idles(b, t);
            lemma_logged(b, ctx, now, "check_recorded"@, s.fresh_check_id(), status.name_view());
            lemma_idle_healthy(b, t);
        },
    }
}

} // verus!
