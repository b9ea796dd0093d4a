//! Each operation leads to a state that still holds what was recorded.
use vstd::prelude::*;
use crate::clock::Timestamp;
use crate::context::RuntimeContextView;
use crate::entities::{ClosureStateView, ContextForkView, IoHandleView, ProblemView};
use crate::forest::{branching, handed_over, handed_over_below, height, lemma_height, lemma_listed_below, listed, Problems};
use crate::history::{law_child_ready_keeps_history, law_history_accumulates, law_joined_keeps_history, lemma_free_insert, lemma_free_update, lemma_handle_changed, lemma_handle_status, lemma_history_reflexive, lemma_io_logged, lemma_logged, lemma_problem_changed, lemma_refreshed, lemma_thread_status, lemma_ticket_changed, lemma_wait_over, lemma_woken, problem_kept, thread_kept};
use crate::ids::numbered;
use crate::kinds::{CheckStatus, ContextForkPolicy, EntityKind, IoEventKind, IoHandleKind, IoHandleStatus, ProblemStatus, ThreadStatus, TicketChildMode, TicketClassification, TicketStatus, WaitMode, WaitStatus};
use crate::reports::{PassiveEventInputView, RoutedPassiveEventView, WaitSpecView};
use crate::search::lemma_find_from;
use crate::waits::{awaited_by, items_matched, matched_with};

verus! {

proof fn lemma_inbox_matched(
    s: ClosureStateView,
    ctx: RuntimeContextView,
    now: Timestamp,
    handle_id: Seq<char>,
)
    requires
        s.orderly(),
    ensures
        s.leads_to(s.inbox_matched(ctx, now, handle_id).0),
{
    lemma_history_reflexive(s);
    if s.handles.contains_key(handle_id) {
        let handle = s.handles[handle_id];
        if let Some(at) = crate::search::find_index(s.passive_events, awaited_by(handle)) {
            lemma_find_from(s.passive_events, awaited_by(handle), 0);
            let event = s.passive_events[at];
            lemma_find_from(s.passive_events, crate::lookup::event_named(event.id), 0);
            let taken = ClosureStateView {
                handles: s.handles.insert(
                    handle_id,
                    IoHandleView {
                        status: IoHandleStatus::Ready,
                        resolved_event_id: Some(event.id),
                        payload_ref: event.payload_ref,
                        updated_at: now,
                        ..handle
                    },
                ),
                passive_events: match s.event_index(event.id) {
                    Some(i) => s.passive_events.update(
                        i,
                        matched_with(s.passive_events[i], handle_id),
                    ),
                    None => s.passive_events,
                },
                inbox: items_matched(s.inbox, event.id),
                ..s
            };
            lemma_free_update(
                s.handles,
                "H"@,
                s.next_handle_seq,
                handle_id,
                taken.handles[handle_id],
            );
            assert(s.leads_to(taken));
            let b = taken.refreshed(handle_id, now);
            lemma_refreshed(taken, handle_id, now);
            law_history_accumulates(s, taken, b);
            let c = b.woken(handle_id, now);
            lemma_woken(b, handle_id, now);
            law_history_accumulates(s, b, c);
            let text = "inboxed passive event "@ + event.id + " matched newly created handle "@
                + handle_id;
            let d = c.io_logged(
                ctx,
                now,
                IoEventKind::PassiveEventMatched,
                Some(handle_id),
                Some(handle.owner_thread_id),
                text,
            );
            lemma_io_logged(
                c,
                ctx,
                now,
                IoEventKind::PassiveEventMatched,
                Some(handle_id),
                Some(handle.owner_thread_id),
                text,
            );
            law_history_accumulates(s, c, d);
            let last = "passive handle is ready from inboxed event"@;
            lemma_io_logged(
                d,
                ctx,
                now,
                IoEventKind::PassiveHandleReady,
                Some(handle_id),
                Some(handle.owner_thread_id),
                last,
            );
            law_history_accumulates(
                s,
                d,
                d.io_logged(
                    ctx,
                    now,
                    IoEventKind::PassiveHandleReady,
                    Some(handle_id),
                    Some(handle.owner_thread_id),
                    last,
                ),
            );
        }
    }
}

pub proof fn lemma_handles_parked(
    s: ClosureStateView,
    thread_id: Seq<char>,
    now: Timestamp,
    specs: Seq<WaitSpecView>,
    n: int,
)
    requires
        s.orderly(),
        0 <= n,
        s.next_handle_seq + n <= u32::MAX,
    ensures
        s.leads_to(s.handles_parked(thread_id, now, specs, n).0),
        s.handles_parked(thread_id, now, specs, n).0.next_handle_seq <= s.next_handle_seq + n,
        s.handles_parked(thread_id, now, specs, n).0 == (ClosureStateView {
            handles: s.handles_parked(thread_id, now, specs, n).0.handles,
            next_handle_seq: s.handles_parked(thread_id, now, specs, n).0.next_handle_seq,
            ..s
        }),
    decreases n,
{
    lemma_history_reflexive(s);
    if n > 0 {
        lemma_handles_parked(s, thread_id, now, specs, n - 1);
        let before = s.handles_parked(thread_id, now, specs, n - 1);
        if before.1 is Ok {
            if let Ok(key) = before.0.wait_key(thread_id, specs[n - 1]) {
                let after = before.0.with_passive_handle(
                    thread_id,
                    now,
                    key,
                    specs[n - 1].dedupe_key,
                );
                lemma_free_insert(
                    before.0.handles,
                    "H"@,
                    before.0.next_handle_seq,
                    after.handles[before.0.fresh_handle_id()],
                );
                assert(before.0.leads_to(after));
                law_history_accumulates(s, before.0, after);
            }
        }
    }
}

proof fn lemma_waits_announced(
    s: ClosureStateView,
    ctx: RuntimeContextView,
    now: Timestamp,
    reason: Seq<char>,
    ids: Seq<Seq<char>>,
    n: int,
)
    requires
        s.orderly(),
    ensures
        s.leads_to(s.waits_announced(ctx, now, reason, ids, n).0),
    decreases n,
{
    lemma_history_reflexive(s);
    if n > 0 {
        lemma_waits_announced(s, ctx, now, reason, ids, n - 1);
        let before = s.waits_announced(ctx, now, reason, ids, n - 1);
        if before.1 is Ok {
            let text = "passive wait created: "@ + reason;
            let told = before.0.io_logged(
                ctx,
                now,
                IoEventKind::PassiveWaitCreated,
                Some(ids[n - 1]),
                Some(ctx.thread_id),
                text,
            );
            lemma_io_logged(
                before.0,
                ctx,
                now,
                IoEventKind::PassiveWaitCreated,
                Some(ids[n - 1]),
                Some(ctx.thread_id),
                text,
            );
            law_history_accumulates(s, before.0, told);
            lemma_inbox_matched(told, ctx, now, ids[n - 1]);
            law_history_accumulates(s, told, told.inbox_matched(ctx, now, ids[n - 1]).0);
        }
    }
}

/// Parking rewrites nothing.
pub proof fn law_parked_keeps_history(
    s: ClosureStateView,
    ctx: RuntimeContextView,
    now: Timestamp,
    mode: WaitMode,
    reason: Seq<char>,
    specs: Seq<WaitSpecView>,
)
    requires
        s.orderly(),
        s.next_wait_seq < u32::MAX,
        s.next_handle_seq + specs.len() <= u32::MAX,
    ensures
        s.leads_to(s.parked(ctx, now, mode, reason, specs).0),
{
    lemma_history_reflexive(s);
    if s.parking_refusal(ctx, specs) is Ok {
        let wait_id = s.fresh_wait_id();
        let numbered_state = ClosureStateView { next_wait_seq: (s.next_wait_seq + 1) as u32, ..s };
        assert(s.leads_to(numbered_state));
        lemma_handles_parked(numbered_state, ctx.thread_id, now, specs, specs.len() as int);
        let made = numbered_state.handles_parked(ctx.thread_id, now, specs, specs.len() as int);
        law_history_accumulates(s, numbered_state, made.0);
        if let Ok(handle_ids) = made.1 {
            let parked = made.0.with_thread_wait(ctx, now, wait_id, mode, handle_ids);
            let waiting = ClosureStateView { waits: parked.waits, ..made.0 };
            lemma_free_insert(s.waits, "W"@, s.next_wait_seq, parked.waits[wait_id]);
            assert(s.leads_to(waiting)) by {
                assert(!s.waits.contains_key(wait_id));
            }
            lemma_thread_status(waiting, ctx.thread_id, ThreadStatus::WaitingIo, now);
            law_history_accumulates(s, waiting, parked);
            lemma_waits_announced(
                parked,
                ctx,
                now,
                reason,
                handle_ids,
                handle_ids.len() as int,
            );
            law_history_accumulates(
                s,
                parked,
                parked.waits_announced(ctx, now, reason, handle_ids, handle_ids.len() as int).0,
            );
        }
    }
}

proof fn lemma_siblings_cancelled(
    s: ClosureStateView,
    ids: Seq<Seq<char>>,
    n: int,
    taken: Seq<char>,
    now: Timestamp,
)
    requires
        s.orderly(),
    ensures
        s.leads_to(s.siblings_cancelled(ids, n, taken, now)),
        s.siblings_cancelled(ids, n, taken, now) == (ClosureStateView {
            handles: s.siblings_cancelled(ids, n, taken, now).handles,
            ..s
        }),
    decreases n,
{
    lemma_history_reflexive(s);
    if n > 0 {
        lemma_siblings_cancelled(s, ids, n - 1, taken, now);
        let before = s.siblings_cancelled(ids, n - 1, taken, now);
        let id = ids[n - 1];
        if before.handles.contains_key(id) {
            lemma_handle_status(before, id, IoHandleStatus::Cancelled, now);
            law_history_accumulates(
                s,
                before,
                before.with_handle_status(id, IoHandleStatus::Cancelled, now),
            );
        }
    }
}

proof fn lemma_wait_settled(
    s: ClosureStateView,
    now: Timestamp,
    handle_id: Seq<char>,
    wait_id: Seq<char>,
)
    requires
        s.orderly(),
        s.waits.contains_key(wait_id),
    ensures
        s.leads_to(s.wait_settled(now, handle_id, wait_id)),
        s.wait_settled(now, handle_id, wait_id).threads == s.threads,
{
    let wait = s.waits[wait_id];
    match wait.mode {
        WaitMode::Any => {
            let n = wait.handle_ids.len() as int;
            lemma_siblings_cancelled(s, wait.handle_ids, n, handle_id, now);
            let a = s.siblings_cancelled(wait.handle_ids, n, handle_id, now);
            lemma_wait_over(a, wait_id, now);
            law_history_accumulates(s, a, a.with_wait_status(wait_id, WaitStatus::Consumed, now));
        },
        WaitMode::All => {
            let a = s.refreshed(handle_id, now);
            lemma_refreshed(s, handle_id, now);
            if a.all_consumed(a.waits[wait_id]) {
                lemma_wait_over(a, wait_id, now);
                law_history_accumulates(
                    s,
                    a,
                    a.with_wait_status(wait_id, WaitStatus::Consumed, now),
                );
            }
        },
    }
}

/// Taking a handle rewrites nothing.
pub proof fn law_consumed_keeps_history(
    s: ClosureStateView,
    ctx: RuntimeContextView,
    now: Timestamp,
    handle_id: Seq<char>,
)
    requires
        s.orderly(),
    ensures
        s.leads_to(s.consumed(ctx, now, handle_id).0),
{
    lemma_history_reflexive(s);
    if let Ok(handle) = s.own_handle(ctx, handle_id) {
        if handle.kind == IoHandleKind::ChildThread {
            if let Some(target) = handle.target_thread_id {
                let text = "consumed child-thread wait handle "@ + handle_id;
                law_joined_keeps_history(s, ctx, now, target, ctx.thread_id, text);
            }
        } else if handle.status == IoHandleStatus::Ready {
            if let Some(wait_id) = s.wait_id_for_handle(handle_id) {
                let a = s.with_handle_status(handle_id, IoHandleStatus::Consumed, now);
                lemma_handle_status(s, handle_id, IoHandleStatus::Consumed, now);
                if a.waits.contains_key(wait_id) {
                    let b = a.wait_settled(now, handle_id, wait_id);
                    lemma_wait_settled(a, now, handle_id, wait_id);
                    law_history_accumulates(s, a, b);
                    let c = if b.threads.contains_key(ctx.thread_id) {
                        b.with_thread_status(ctx.thread_id, ThreadStatus::Running, now)
                    } else {
                        b
                    };
                    if b.threads.contains_key(ctx.thread_id) {
                        lemma_thread_status(b, ctx.thread_id, ThreadStatus::Running, now);
                        law_history_accumulates(s, b, c);
                    }
                    let text = "passive wait handle "@ + handle_id + " consumed"@;
                    lemma_io_logged(
                        c,
                        ctx,
                        now,
                        IoEventKind::PassiveHandleConsumed,
                        Some(handle_id),
                        Some(ctx.thread_id),
                        text,
                    );
                    law_history_accumulates(
                        s,
                        c,
                        c.io_logged(
                            ctx,
                            now,
                            IoEventKind::PassiveHandleConsumed,
                            Some(handle_id),
                            Some(ctx.thread_id),
                            text,
                        ),
                    );
                }
            }
        }
    }
}

/// Giving up a handle rewrites nothing.
pub proof fn law_cancelled_keeps_history(
    s: ClosureStateView,
    ctx: RuntimeContextView,
    now: Timestamp,
    handle_id: Seq<char>,
    reason: Seq<char>,
)
    requires
        s.orderly(),
    ensures
        s.leads_to(s.cancelled(ctx, now, handle_id, reason).0),
{
    lemma_history_reflexive(s);
    if s.cancelled(ctx, now, handle_id, reason).1 is Ok {
        let a = s.with_handle_status(handle_id, IoHandleStatus::Cancelled, now);
        lemma_handle_status(s, handle_id, IoHandleStatus::Cancelled, now);
        let b = a.refreshed(handle_id, now);
        lemma_refreshed(a, handle_id, now);
        law_history_accumulates(s, a, b);
        let c = b.woken(handle_id, now);
        lemma_woken(b, handle_id, now);
        law_history_accumulates(s, b, c);
        let text = "passive wait handle "@ + handle_id + " cancelled: "@ + reason;
        lemma_io_logged(
            c,
            ctx,
            now,
            IoEventKind::PassiveHandleCancelled,
            Some(handle_id),
            Some(ctx.thread_id),
            text,
        );
        law_history_accumulates(
            s,
            c,
            c.io_logged(
                ctx,
                now,
                IoEventKind::PassiveHandleCancelled,
                Some(handle_id),
                Some(ctx.thread_id),
                text,
            ),
        );
    }
}

proof fn lemma_delivered(
    s: ClosureStateView,
    ctx: RuntimeContextView,
    now: Timestamp,
    routed: RoutedPassiveEventView,
    event_id: Seq<char>,
    ids: Seq<Seq<char>>,
    n: int,
)
    requires
        s.orderly(),
    ensures
        s.leads_to(s.delivered(ctx, now, routed, event_id, ids, n).0),
        s.delivered(ctx, now, routed, event_id, ids, n).0.passive_events == s.passive_events,
    decreases n,
{
    lemma_history_reflexive(s);
    if n > 0 {
        lemma_delivered(s, ctx, now, routed, event_id, ids, n - 1);
        let before = s.delivered(ctx, now, routed, event_id, ids, n - 1);
        let handle_id = ids[n - 1];
        if before.1 is Ok && before.0.handles.contains_key(handle_id) {
            let ready = before.0.handle_resolved(
                now,
                handle_id,
                event_id,
                routed.input.payload_ref,
            );
            let a = ClosureStateView {
                handles: before.0.handles.insert(
                    handle_id,
                    IoHandleView {
                        status: IoHandleStatus::Ready,
                        payload_ref: routed.input.payload_ref,
                        resolved_event_id: Some(event_id),
                        updated_at: now,
                        ..before.0.handles[handle_id]
                    },
                ),
                ..before.0
            };
            lemma_handle_changed(before.0, a, handle_id, a.handles[handle_id]);
            law_history_accumulates(s, before.0, a);
            lemma_refreshed(a, handle_id, now);
            law_history_accumulates(s, a, ready);
            let c = ready.woken(handle_id, now);
            lemma_woken(ready, handle_id, now);
            law_history_accumulates(s, ready, c);
            let text = "passive event "@ + event_id + " matched handle "@ + handle_id;
            let d = c.io_logged(
                ctx,
                now,
                IoEventKind::PassiveEventMatched,
                Some(handle_id),
                routed.target_thread_id,
                text,
            );
            lemma_io_logged(
                c,
                ctx,
                now,
                IoEventKind::PassiveEventMatched,
                Some(handle_id),
                routed.target_thread_id,
                text,
            );
            law_history_accumulates(s, c, d);
            lemma_io_logged(
                d,
                ctx,
                now,
                IoEventKind::PassiveHandleReady,
                Some(handle_id),
                routed.target_thread_id,
                "passive handle is ready"@,
            );
            law_history_accumulates(
                s,
                d,
                d.io_logged(
                    ctx,
                    now,
                    IoEventKind::PassiveHandleReady,
                    Some(handle_id),
                    routed.target_thread_id,
                    "passive handle is ready"@,
                ),
            );
        }
    }
}

/// Taking in an event rewrites nothing.
pub proof fn law_received_keeps_history(
    s: ClosureStateView,
    ctx: RuntimeContextView,
    now: Timestamp,
    input: PassiveEventInputView,
)
    requires
        s.orderly(),
    ensures
        s.leads_to(s.received(ctx, now, input).0),
{
    lemma_history_reflexive(s);
    if let Ok(routed) = input.route() {
        let recorded = s.event_recorded(ctx, now, routed);
        assert(s.leads_to(recorded));
        let event_id = s.fresh_event_id();
        let matched = s.matching_passive_handle_ids(routed);
        lemma_delivered(recorded, ctx, now, routed, event_id, matched, matched.len() as int);
        law_history_accumulates(
            s,
            recorded,
            recorded.delivered(ctx, now, routed, event_id, matched, matched.len() as int).0,
        );
        assert(s.leads_to(recorded.event_inboxed(ctx, now, routed, event_id)));
    }
}

/// Acknowledging an inbox item rewrites nothing.
pub proof fn law_acknowledged_keeps_history(
    s: ClosureStateView,
    ctx: RuntimeContextView,
    now: Timestamp,
    item_id: Seq<char>,
    note: Seq<char>,
)
    requires
        s.orderly(),
    ensures
        s.leads_to(s.acknowledged(ctx, now, item_id, note).0),
{
    lemma_history_reflexive(s);
    lemma_find_from(s.inbox, crate::lookup::item_named(item_id), 0);
    if let Ok(at) = s.open_item(ctx, item_id, " cannot acknowledge inbox item "@) {
        lemma_find_from(
            s.passive_events,
            crate::lookup::event_named(s.inbox[at].passive_event_id),
            0,
        );
    }
}

proof fn lemma_child_problem(
    s: ClosureStateView,
    now: Timestamp,
    parent_id: Seq<char>,
    leaf: ProblemView,
)
    requires
        s.orderly(),
        s.problems.contains_key(parent_id),
        s.next_problem_seq < u32::MAX,
        leaf.id == s.fresh_problem_id(),
    ensures
        s.leads_to(s.with_child_problem(now, parent_id, leaf)),
{
    let t = s.with_child_problem(now, parent_id, leaf);
    lemma_free_insert(s.problems, "P"@, s.next_problem_seq, leaf);
    let grown = s.problems.insert(leaf.id, leaf);
    lemma_free_update(grown, "P"@, t.next_problem_seq, parent_id, t.problems[parent_id]);
    assert(problem_kept(s.problems[parent_id], t.problems[parent_id]));
}

/// Making a child problem rewrites nothing.
pub proof fn law_child_created_keeps_history(
    s: ClosureStateView,
    ctx: RuntimeContextView,
    now: Timestamp,
    parent_id: Seq<char>,
    ticket_id: Seq<char>,
    mode: TicketChildMode,
    title: Seq<char>,
    body: Seq<char>,
)
    requires
        s.orderly(),
        s.next_problem_seq < u32::MAX,
    ensures
        s.leads_to(s.child_created(ctx, now, parent_id, ticket_id, mode, title, body).0),
{
    lemma_history_reflexive(s);
    let r = s.child_created(ctx, now, parent_id, ticket_id, mode, title, body);
    if r.1 is Ok {
        let leaf = ProblemView {
            created_from_ticket_id: Some(ticket_id),
            created_from_ticket_mode: Some(mode),
            ..ProblemView::fresh(
                s.fresh_problem_id(),
                title,
                body,
                ctx.thread_id,
                Some(parent_id),
                now,
            )
        };
        let t = s.with_child_problem(now, parent_id, leaf);
        lemma_child_problem(s, now, parent_id, leaf);
        let text = "created from "@ + mode.name_view() + " ticket "@ + ticket_id;
        lemma_logged(t, ctx, now, "problem_created"@, leaf.id, text);
        law_history_accumulates(s, t, r.0);
    }
}

/// Making a problem out of an inbox item rewrites nothing.
pub proof fn law_user_task_created_keeps_history(
    s: ClosureStateView,
    ctx: RuntimeContextView,
    now: Timestamp,
    item_id: Seq<char>,
    title: Seq<char>,
    body: Seq<char>,
    note: Seq<char>,
)
    requires
        s.orderly(),
        s.next_problem_seq < u32::MAX,
    ensures
        s.leads_to(s.user_task_created(ctx, now, item_id, title, body, note).0),
{
    lemma_history_reflexive(s);
    let r = s.user_task_created(ctx, now, item_id, title, body, note);
    if r.1 is Ok {
        lemma_find_from(s.inbox, crate::lookup::item_named(item_id), 0);
        let (item_at, event_at) = s.task_source(ctx, item_id)->Ok_0;
        lemma_find_from(
            s.passive_events,
            crate::lookup::event_named(s.inbox[item_at].passive_event_id),
            0,
        );
        let parent_id = s.threads[ctx.thread_id].root_problem_id;
        let item = s.inbox[item_at];
        let event = s.passive_events[event_at];
        let leaf = ProblemView {
            created_from_passive_event_id: Some(event.id),
            created_from_inbox_item_id: Some(item.id),
            created_from_user_task_kind: Some(event.kind),
            ..ProblemView::fresh(
                s.fresh_problem_id(),
                title,
                body,
                ctx.thread_id,
                Some(parent_id),
                now,
            )
        };
        let t = s.with_child_problem(now, parent_id, leaf);
        lemma_child_problem(s, now, parent_id, leaf);
        let u = t.item_handled(item_at).event_handled(event_at);
        assert(t.leads_to(u));
        law_history_accumulates(s, t, u);
        assert(u.leads_to(r.0));
        law_history_accumulates(s, u, r.0);
    }
}

/// Making a ticket rewrites nothing.
pub proof fn law_ticket_created_keeps_history(
    s: ClosureStateView,
    ctx: RuntimeContextView,
    now: Timestamp,
    problem_id: Seq<char>,
    title: Seq<char>,
    body: Seq<char>,
)
    requires
        s.orderly(),
        s.next_ticket_seq < u32::MAX,
    ensures
        s.leads_to(s.ticket_created(ctx, now, problem_id, title, body).0),
{
    lemma_history_reflexive(s);
    let r = s.ticket_created(ctx, now, problem_id, title, body);
    if r.1 is Ok {
        lemma_free_insert(
            s.tickets,
            "T"@,
            s.next_ticket_seq,
            r.0.tickets[s.fresh_ticket_id()],
        );
        lemma_free_update(
            s.problems,
            "P"@,
            s.next_problem_seq,
            problem_id,
            r.0.problems[problem_id],
        );
    }
}

/// Making a problem and its ticket out of an inbox item rewrites nothing.
pub proof fn law_user_task_scaffolded_keeps_history(
    s: ClosureStateView,
    ctx: RuntimeContextView,
    now: Timestamp,
    item_id: Seq<char>,
    problem_title: Seq<char>,
    problem_body: Seq<char>,
    ticket_title: Seq<char>,
    ticket_body: Seq<char>,
    note: Seq<char>,
)
    requires
        s.orderly(),
        s.next_problem_seq < u32::MAX,
        s.next_ticket_seq < u32::MAX,
    ensures
        s.leads_to(
            s.user_task_scaffolded(
                ctx,
                now,
                item_id,
                problem_title,
                problem_body,
                ticket_title,
                ticket_body,
                note,
            ).0,
        ),
{
    law_user_task_created_keeps_history(
        s,
        ctx,
        now,
        item_id,
        problem_title,
        problem_body,
        note,
    );
    let task = s.user_task_created(ctx, now, item_id, problem_title, problem_body, note);
    if task.1 is Ok {
        let id = task.1->Ok_0.problem_id;
        law_ticket_created_keeps_history(task.0, ctx, now, id, ticket_title, ticket_body);
        law_history_accumulates(
            s,
            task.0,
            task.0.ticket_created(ctx, now, id, ticket_title, ticket_body).0,
        );
    }
}

/// Classifying a ticket rewrites nothing.
pub proof fn law_ticket_classified_keeps_history(
    s: ClosureStateView,
    ctx: RuntimeContextView,
    now: Timestamp,
    ticket_id: Seq<char>,
    classification: TicketClassification,
    reason: Seq<char>,
)
    requires
        s.orderly(),
    ensures
        s.leads_to(s.ticket_classified(ctx, now, ticket_id, classification, reason).0),
{
    lemma_history_reflexive(s);
    let r = s.ticket_classified(ctx, now, ticket_id, classification, reason);
    if r.1 is Ok {
        let a = ClosureStateView { tickets: r.0.tickets, ..s };
        lemma_ticket_changed(s, a, ticket_id, a.tickets[ticket_id]);
        lemma_logged(a, ctx, now, "ticket_classified"@, ticket_id, classification.name_view());
        law_history_accumulates(s, a, r.0);
    }
}

pub proof fn lemma_ticket_activated(
    s: ClosureStateView,
    ctx: RuntimeContextView,
    now: Timestamp,
    ticket_id: Seq<char>,
    status: TicketStatus,
)
    requires
        s.orderly(),
    ensures
        s.leads_to(s.ticket_activated(ctx, now, ticket_id, status).0),
{
    lemma_history_reflexive(s);
    let r = s.ticket_activated(ctx, now, ticket_id, status);
    if r.1 is Ok {
        let a = ClosureStateView { tickets: r.0.tickets, ..s };
        lemma_ticket_changed(s, a, ticket_id, a.tickets[ticket_id]);
        lemma_logged(a, ctx, now, "ticket_status_changed"@, ticket_id, status.name_view());
        law_history_accumulates(s, a, r.0);
    }
}

/// Setting a status rewrites nothing.
pub proof fn law_status_set_keeps_history(
    s: ClosureStateView,
    ctx: RuntimeContextView,
    now: Timestamp,
    kind: EntityKind,
    id: Seq<char>,
    status: Seq<char>,
)
    requires
        s.orderly(),
    ensures
        s.leads_to(s.status_set(ctx, now, kind, id, status).0),
{
    lemma_history_reflexive(s);
    match kind {
        EntityKind::Problem => {
            let r = s.problem_taken_up(ctx, now, id);
            if r.1 is Ok {
                let a = ClosureStateView { problems: r.0.problems, ..s };
                lemma_problem_changed(s, a, id, a.problems[id]);
                lemma_logged(a, ctx, now, "problem_status_changed"@, id, "doing"@);
                law_history_accumulates(s, a, r.0);
            }
        },
        EntityKind::Ticket => {
            if let Some(next) = ClosureStateView::ticket_status_asked(status) {
                lemma_ticket_activated(s, ctx, now, id, next);
            }
        },
    }
}

pub proof fn lemma_with_result(
    s: ClosureStateView,
    ctx: RuntimeContextView,
    now: Timestamp,
    ticket_id: Seq<char>,
    problem_id: Seq<char>,
    title: Seq<char>,
    body: Seq<char>,
)
    requires
        s.orderly(),
        s.next_result_seq < u32::MAX,
        s.tickets.contains_key(ticket_id),
        s.tickets[ticket_id].status != TicketStatus::Done,
        s.problems.contains_key(problem_id),
    ensures
        s.leads_to(s.with_result(ctx, now, ticket_id, problem_id, title, body)),
{
    let t = s.with_result(ctx, now, ticket_id, problem_id, title, body);
    lemma_free_insert(s.results, "R"@, s.next_result_seq, t.results[s.fresh_result_id()]);
    lemma_free_update(s.tickets, "T"@, s.next_ticket_seq, ticket_id, t.tickets[ticket_id]);
    lemma_free_update(s.problems, "P"@, s.next_problem_seq, problem_id, t.problems[problem_id]);
    assert(problem_kept(s.problems[problem_id], t.problems[problem_id]));
}

/// Recording a result rewrites nothing.
pub proof fn law_result_recorded_keeps_history(
    s: ClosureStateView,
    ctx: RuntimeContextView,
    now: Timestamp,
    ticket_id: Seq<char>,
    title: Seq<char>,
    body: Seq<char>,
)
    requires
        s.orderly(),
        s.next_result_seq < u32::MAX,
    ensures
        s.leads_to(s.result_recorded(ctx, now, ticket_id, title, body).0),
{
    lemma_history_reflexive(s);
    if s.tickets.contains_key(ticket_id) {
        let problem_id = s.tickets[ticket_id].problem_id;
        if s.writable(ctx, problem_id) is Ok && s.result_fault(ticket_id) is None {
            lemma_ticket_activated(s, ctx, now, ticket_id, TicketStatus::Executing);
            lemma_ticket_activated(s, ctx, now, ticket_id, TicketStatus::Splitting);
            let started = s.ticket_started(ctx, now, ticket_id);
            if started.1 is Ok && started.0.active_result_fault(ticket_id) is None {
                lemma_with_result(started.0, ctx, now, ticket_id, problem_id, title, body);
                law_history_accumulates(
                    s,
                    started.0,
                    started.0.with_result(ctx, now, ticket_id, problem_id, title, body),
                );
            }
        }
    }
}

pub proof fn lemma_thread_finished(
    s: ClosureStateView,
    ctx: RuntimeContextView,
    now: Timestamp,
    problem_id: Seq<char>,
)
    requires
        s.orderly(),
    ensures
        s.leads_to(s.thread_finished(ctx, now, problem_id).0),
{
    lemma_history_reflexive(s);
    if s.threads.contains_key(ctx.thread_id) {
        let done = s.with_thread_status(ctx.thread_id, ThreadStatus::Done, now);
        lemma_thread_status(s, ctx.thread_id, ThreadStatus::Done, now);
        let text = "child Qunux thread root problem is done"@;
        law_child_ready_keeps_history(done, ctx, now, ctx.thread_id, text);
        law_history_accumulates(s, done, done.child_ready(ctx, now, ctx.thread_id, text).0);
    }
}

/// Writing down a check rewrites nothing.
pub proof fn lemma_check_written(
    s: ClosureStateView,
    ctx: RuntimeContextView,
    now: Timestamp,
    problem_id: Seq<char>,
    status: CheckStatus,
    result_ids: Seq<Seq<char>>,
    title: Seq<char>,
    body: Seq<char>,
    followup: Option<(Seq<char>, Seq<char>)>,
)
    requires
        s.orderly(),
        s.next_problem_seq < u32::MAX,
        s.next_check_seq < u32::MAX,
        s.problems.contains_key(problem_id),
        s.problems[problem_id].status != ProblemStatus::Done,
    ensures
        s.leads_to(
            s.check_written(ctx, now, problem_id, status, result_ids, title, body, followup),
        ),
{
    let check_id = s.fresh_check_id();
    let numbered_state = ClosureStateView {
        next_check_seq: (s.next_check_seq + 1) as u32,
        ..s
    };
    let prepared = match followup {
        Some((followup_title, followup_body)) => numbered_state.with_followup(
            ctx,
            now,
            problem_id,
            check_id,
            followup_title,
            followup_body,
        ),
        None => numbered_state,
    };
    if followup is Some {
        let id = s.fresh_problem_id();
        let leaf = ProblemView {
            created_from_check_id: Some(check_id),
            ..ProblemView::fresh(
                id,
                (followup->0).0,
                (followup->0).1,
                ctx.thread_id,
                Some(problem_id),
                now,
            )
        };
        lemma_free_insert(s.problems, "P"@, s.next_problem_seq, leaf);
        lemma_free_update(
            s.problems.insert(id, leaf),
            "P"@,
            prepared.next_problem_seq,
            problem_id,
            prepared.problems[problem_id],
        );
        assert(problem_kept(s.problems[problem_id], prepared.problems[problem_id]));
    }
    let recorded = s.check_written(
        ctx,
        now,
        problem_id,
        status,
        result_ids,
        title,
        body,
        followup,
    );
    lemma_free_insert(s.checks, "C"@, s.next_check_seq, recorded.checks[check_id]);
    lemma_free_update(
        prepared.problems,
        "P"@,
        prepared.next_problem_seq,
        problem_id,
        recorded.problems[problem_id],
    );
    assert(problem_kept(s.problems[problem_id], recorded.problems[problem_id]));
}

/// Checking a problem rewrites nothing.
pub proof fn law_checked_keeps_history(
    s: ClosureStateView,
    ctx: RuntimeContextView,
    now: Timestamp,
    problem_id: Seq<char>,
    status: CheckStatus,
    result_ids: Seq<Seq<char>>,
    title: Seq<char>,
    body: Seq<char>,
    followup: Option<(Seq<char>, Seq<char>)>,
)
    requires
        s.orderly(),
        s.next_problem_seq < u32::MAX,
        s.next_check_seq < u32::MAX,
    ensures
        s.leads_to(
            s.checked(ctx, now, problem_id, status, result_ids, title, body, followup).0,
        ),
{
    lemma_history_reflexive(s);
    if s.writable(ctx, problem_id) is Ok && s.check_fault(
        problem_id,
        status,
        result_ids,
        followup is Some,
    ) is None {
        let recorded = s.check_written(
            ctx,
            now,
            problem_id,
            status,
            result_ids,
            title,
            body,
            followup,
        );
        lemma_check_written(
            s,
            ctx,
            now,
            problem_id,
            status,
            result_ids,
            title,
            body,
            followup,
        );
        lemma_thread_finished(recorded, ctx, now, problem_id);
        let told = match status {
            CheckStatus::Success => recorded.thread_finished(ctx, now, problem_id).0,
            CheckStatus::NotSuccess => recorded,
        };
        lemma_history_reflexive(recorded);
        law_history_accumulates(s, recorded, told);
        let check_id = s.fresh_check_id();
        lemma_logged(told, ctx, now, "check_recorded"@, check_id, status.name_view());
        law_history_accumulates(
            s,
            told,
            told.logged(ctx, now, "check_recorded"@, check_id, status.name_view()),
        );
    }
}

/// Initializing the root problem rewrites nothing.
pub proof fn law_root_initialized_keeps_history(
    s: ClosureStateView,
    ctx: RuntimeContextView,
    now: Timestamp,
    title: Option<Seq<char>>,
    body: Option<Seq<char>>,
)
    requires
        s.orderly(),
    ensures
        s.leads_to(s.root_initialized(ctx, now, title, body).0),
{
    lemma_history_reflexive(s);
    let id = s.root_problem_id;
    let r = s.root_initialized(ctx, now, title, body);
    if s.problems.contains_key(id) {
        lemma_free_update(s.problems, "P"@, s.next_problem_seq, id, r.0.problems[id]);
    }
}

/// Upgrading the root problem rewrites nothing.
pub proof fn law_root_upgraded_keeps_history(
    s: ClosureStateView,
    ctx: RuntimeContextView,
    now: Timestamp,
    title: Seq<char>,
    body: Seq<char>,
)
    requires
        s.orderly(),
    ensures
        s.leads_to(s.root_upgraded(ctx, now, title, body).0),
{
    lemma_history_reflexive(s);
    let id = s.root_problem_id;
    let r = s.root_upgraded(ctx, now, title, body);
    if s.problems.contains_key(id) {
        lemma_free_update(s.problems, "P"@, s.next_problem_seq, id, r.0.problems[id]);
    }
}

/// A problem that was handed over keeps everything but its owner.
pub open spec fn only_owners_differ(a: Problems, b: Problems) -> bool {
    &&& a.dom() == b.dom()
    &&& forall|id: Seq<char>| #[trigger]
        a.contains_key(id) ==> b[id] == (ProblemView {
            owner_thread_id: b[id].owner_thread_id,
            updated_at: b[id].updated_at,
            ..a[id]
        })
}

/// Handing a subtree over changes owners only.
pub proof fn law_handed_over_changes_owners(
    base: Problems,
    acc: Problems,
    id: Seq<char>,
    owner: Seq<char>,
    now: Timestamp,
)
    requires
        branching(base),
        only_owners_differ(base, acc),
    ensures
        only_owners_differ(base, handed_over(base, acc, id, owner, now).0),
    decreases height(base, id), listed(base[id]).len() + 1,
{
    if base.contains_key(id) {
        let first = acc.insert(
            id,
            ProblemView { owner_thread_id: owner, updated_at: now, ..acc[id] },
        );
        assert(first.dom() =~= base.dom());
        lemma_below_changes_owners(base, first, id, owner, now, 0);
    }
}

proof fn lemma_below_changes_owners(
    base: Problems,
    acc: Problems,
    id: Seq<char>,
    owner: Seq<char>,
    now: Timestamp,
    i: int,
)
    requires
        branching(base),
        only_owners_differ(base, acc),
        base.contains_key(id),
        0 <= i,
    ensures
        only_owners_differ(base, handed_over_below(base, acc, id, owner, now, i).0),
    decreases height(base, id), listed(base[id]).len() - i,
{
    if i < listed(base[id]).len() {
        lemma_listed_below(base[id], i);
        lemma_height(base, id, listed(base[id])[i]);
        law_handed_over_changes_owners(base, acc, listed(base[id])[i], owner, now);
        let step = handed_over(base, acc, listed(base[id])[i], owner, now);
        if step.1 is None {
            lemma_below_changes_owners(base, step.0, id, owner, now, i + 1);
        }
    }
}

proof fn lemma_transferred(
    s: ClosureStateView,
    problem_id: Seq<char>,
    thread_id: Seq<char>,
    now: Timestamp,
)
    requires
        s.orderly(),
        branching(s.problems),
    ensures
        s.leads_to(s.transferred(problem_id, thread_id, now).0),
{
    law_handed_over_changes_owners(s.problems, s.problems, problem_id, thread_id, now);
    let t = s.transferred(problem_id, thread_id, now).0;
    assert forall|n: nat| n >= s.next_problem_seq implies !t.problems.contains_key(
        #[trigger] numbered("P"@, n),
    ) by {
        assert(!s.problems.contains_key(numbered("P"@, n)));
    }
}

/// Spawning a thread rewrites nothing.
pub proof fn law_spawned_keeps_history(
    s: ClosureStateView,
    ctx: RuntimeContextView,
    now: Timestamp,
    problem_id: Seq<char>,
    policy: ContextForkPolicy,
    bootstrap_instruction: Seq<char>,
    inherited_cwd: Option<Seq<char>>,
    inherited_model: Option<Seq<char>>,
    inherited_tools: Seq<Seq<char>>,
)
    requires
        s.orderly(),
        branching(s.problems),
        s.next_thread_seq < u32::MAX,
        s.next_handle_seq < u32::MAX,
        s.next_wait_seq < u32::MAX,
    ensures
        s.leads_to(
            s.spawned(
                ctx,
                now,
                problem_id,
                policy,
                bootstrap_instruction,
                inherited_cwd,
                inherited_model,
                inherited_tools,
            ).0,
        ),
{
    lemma_history_reflexive(s);
    if s.writable(ctx, problem_id) is Ok {
        let fork = ContextForkView {
            policy,
            parent_thread_id: Some(ctx.thread_id),
            parent_actor_session_id: ctx.actor_session_id,
            fork_turn_id: None,
            bootstrap_instruction,
            inherited_cwd,
            inherited_model,
            inherited_tools,
        };
        let thread_id = s.fresh_thread_id();
        let handle_id = s.fresh_handle_id();
        let wait_id = s.fresh_wait_id();
        let made = s.with_child_thread(ctx, now, problem_id, fork);
        lemma_free_insert(s.threads, "QT"@, s.next_thread_seq, made.threads[thread_id]);
        lemma_free_update(
            s.threads.insert(thread_id, made.threads[thread_id]),
            "QT"@,
            made.next_thread_seq,
            ctx.thread_id,
            made.threads[ctx.thread_id],
        );
        lemma_free_insert(s.handles, "H"@, s.next_handle_seq, made.handles[handle_id]);
        lemma_free_insert(s.waits, "W"@, s.next_wait_seq, made.waits[wait_id]);
        assert(thread_kept(s.threads[ctx.thread_id], made.threads[ctx.thread_id]));
        assert(s.leads_to(made));
        lemma_transferred(made, problem_id, thread_id, now);
        let handed = made.transferred(problem_id, thread_id, now).0;
        law_history_accumulates(s, made, handed);
        let told = handed.logged(
            ctx,
            now,
            "thread_spawned"@,
            thread_id,
            "bound to problem "@ + problem_id,
        );
        lemma_logged(
            handed,
            ctx,
            now,
            "thread_spawned"@,
            thread_id,
            "bound to problem "@ + problem_id,
        );
        law_history_accumulates(s, handed, told);
        let text = "child thread "@ + thread_id + " spawned for problem "@ + problem_id;
        lemma_io_logged(
            told,
            ctx,
            now,
            IoEventKind::ChildThreadSpawned,
            Some(handle_id),
            Some(thread_id),
            text,
        );
        law_history_accumulates(
            s,
            told,
            told.io_logged(
                ctx,
                now,
                IoEventKind::ChildThreadSpawned,
                Some(handle_id),
                Some(thread_id),
                text,
            ),
        );
    }
}

/// Recovering a thread rewrites nothing.
pub proof fn law_recovered_keeps_history(
    s: ClosureStateView,
    ctx: RuntimeContextView,
    now: Timestamp,
    thread_id: Seq<char>,
)
    requires
        s.orderly(),
        branching(s.problems),
    ensures
        s.leads_to(s.recovered(ctx, now, thread_id).0),
{
    lemma_history_reflexive(s);
    if let Ok((handle_id, wait_id)) = s.recoverable(ctx, thread_id) {
        let root = s.threads[thread_id].root_problem_id;
        lemma_transferred(s, root, ctx.thread_id, now);
        let handed = s.transferred(root, ctx.thread_id, now);
        if handed.1 is Ok {
            let marked = handed.0.with_thread_status(thread_id, ThreadStatus::Recovered, now);
            lemma_thread_status(handed.0, thread_id, ThreadStatus::Recovered, now);
            law_history_accumulates(s, handed.0, marked);
            let a = marked.with_handle_status(handle_id, IoHandleStatus::Cancelled, now);
            lemma_handle_status(marked, handle_id, IoHandleStatus::Cancelled, now);
            law_history_accumulates(s, marked, a);
            if a.waits.contains_key(wait_id) {
                let b = a.with_wait_status(wait_id, WaitStatus::Consumed, now);
                lemma_wait_over(a, wait_id, now);
                law_history_accumulates(s, a, b);
                let c = b.with_thread_status(ctx.thread_id, ThreadStatus::Running, now);
                lemma_thread_status(b, ctx.thread_id, ThreadStatus::Running, now);
                law_history_accumulates(s, b, c);
                let text = "recovered failed child thread "@ + thread_id + "; subtree "@ + root
                    + " returned to parent "@ + ctx.thread_id;
                let d = c.logged(ctx, now, "thread_recovered"@, thread_id, text);
                lemma_logged(c, ctx, now, "thread_recovered"@, thread_id, text);
                law_history_accumulates(s, c, d);
                lemma_io_logged(
                    d,
                    ctx,
                    now,
                    IoEventKind::ChildThreadRecovered,
                    Some(handle_id),
                    Some(thread_id),
                    text,
                );
                law_history_accumulates(
                    s,
                    d,
                    d.io_logged(
                        ctx,
                        now,
                        IoEventKind::ChildThreadRecovered,
                        Some(handle_id),
                        Some(thread_id),
                        text,
                    ),
                );
            }
        }
    }
}

} // verus!
