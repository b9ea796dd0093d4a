//! States that are in good health, and the operations on threads and mail that keep them so.
use vstd::prelude::*;
use crate::clock::Timestamp;
use crate::consistency::{law_new_root_is_valid, law_valid_is_consistent};
use crate::context::RuntimeContextView;
use crate::entities::ClosureStateView;
use crate::error::QunuxErrorView;
use crate::forest::{descends, rooted};
use crate::history::{law_actor_bound_keeps_history, law_child_failed_keeps_history, law_child_ready_keeps_history, law_joined_keeps_history, lemma_history_reflexive, lemma_io_logged, lemma_thread_changed, problem_kept, thread_kept, ticket_kept};
use crate::ids::numbered;
use crate::keeping::{law_acknowledged_keeps_history, law_cancelled_keeps_history, law_consumed_keeps_history, law_parked_keeps_history, law_received_keeps_history};
use crate::kinds::{IoEventKind, IoHandleKind, ThreadStatus, WaitMode};
use crate::planning::{lemma_descends_kept, lemma_idle_planned};
use crate::reports::{PassiveEventInputView, WaitSpecView};
use crate::runtime::resolved;
use crate::upkeep::{lemma_acknowledged_wired, lemma_actor_bound_wired, lemma_cancelled_wired, lemma_child_failed_wired, lemma_child_ready_wired, lemma_consumed_wired, lemma_idles, lemma_joined_wired, lemma_parked_wired, lemma_received_wired};
use crate::wiring::{law_consistent_is_wired_and_planned, lemma_same_wiring, lemma_thread_moved, suits};

verus! {

impl ClosureStateView {
    /// A child thread has a root problem of its own, inside the subtree of its parent.
    pub open spec fn is_nested(self, id: Seq<char>) -> bool {
        let root = self.threads[self.threads[id].parent_thread_id->0].root_problem_id;
        self.threads[id].root_problem_id != root && descends(
            self.problems,
            self.threads[id].root_problem_id,
            root,
        ) == Ok::<bool, QunuxErrorView>(true)
    }

    /// Every child thread is nested.
    pub open spec fn nested(self) -> bool {
        forall|id: Seq<char>| #[trigger]
            self.threads.contains_key(id) && self.threads[id].parent_thread_id is Some
                ==> self.is_nested(id)
    }

    /// A ticket is the ticket of its problem.
    pub open spec fn ticketed(self) -> bool {
        forall|id: Seq<char>| #[trigger]
            self.tickets.contains_key(id) ==> self.problems[self.tickets[id].problem_id].ticket_id
                == Some(id)
    }

    /// The state is sound, in order and free of faults, its events are told apart, its threads are
    /// nested and its tickets are those of their problems.
    pub open spec fn healthy(self) -> bool {
        &&& self.sound()
        &&& self.orderly()
        &&& self.fault() is None
        &&& self.apart()
        &&& self.nested()
        &&& self.ticketed()
    }
}

/// A healthy state is free of faults because everything in it fits together and is planned.
pub proof fn lemma_healthy(s: ClosureStateView)
    requires
        s.sound(),
        s.orderly(),
        s.apart(),
        s.nested(),
        s.ticketed(),
    ensures
        s.healthy() <==> s.wired() && s.planned(),
{
    law_valid_is_consistent(s);
    law_consistent_is_wired_and_planned(s);
}

/// Threads stay nested where those that are added are nested.
pub proof fn lemma_nested_stays(a: ClosureStateView, b: ClosureStateView)
    requires
        a.wired(),
        a.nested(),
        a.keeps_records(b),
        rooted(a.problems),
        rooted(b.problems),
        forall|id: Seq<char>| #[trigger]
            b.threads.contains_key(id) ==> a.threads.contains_key(id) || b.is_nested(id),
    ensures
        b.nested(),
{
    assert forall|id: Seq<char>| #[trigger]
        b.threads.contains_key(id) && b.threads[id].parent_thread_id is Some
        implies b.is_nested(id) by {
        if a.threads.contains_key(id) {
            assert(thread_kept(a.threads[id], b.threads[id]));
            assert(a.thread_fits(id));
            assert(a.is_nested(id));
            let parent = a.threads[id].parent_thread_id->0;
            assert(thread_kept(a.threads[parent], b.threads[parent]));
            assert forall|x: Seq<char>| #[trigger] a.problems.contains_key(x) implies
                b.problems.contains_key(x) && b.problems[x].parent_id == a.problems[x].parent_id by {
                assert(problem_kept(a.problems[x], b.problems[x]));
            }
            lemma_descends_kept(
                a.problems,
                b.problems,
                a.threads[id].root_problem_id,
                a.threads[parent].root_problem_id,
            );
        }
    }
}

/// Tickets stay those of their problems where none is added.
pub proof fn lemma_ticketed_stays(a: ClosureStateView, b: ClosureStateView)
    requires
        a.planned(),
        a.ticketed(),
        a.keeps_records(b),
        b.tickets.dom() == a.tickets.dom(),
    ensures
        b.ticketed(),
{
    assert forall|id: Seq<char>| #[trigger] b.tickets.contains_key(id) implies b.problems[b.tickets[id].problem_id].ticket_id
        == Some(id) by {
        assert(a.tickets.contains_key(id));
        assert(ticket_kept(a.tickets[id], b.tickets[id]));
        assert(a.ticket_fault(id) is None);
        let p = a.tickets[id].problem_id;
        assert(problem_kept(a.problems[p], b.problems[p]));
    }
}

/// A state from which nothing was worked on stays healthy as long as it stays wired.
pub proof fn lemma_idle_healthy(s: ClosureStateView, t: ClosureStateView)
    requires
        s.healthy(),
        s.leads_to(t),
        s.idles(t),
        t.wired(),
    ensures
        t.healthy(),
{
    lemma_healthy(s);
    lemma_idle_planned(s, t);
    lemma_nested_stays(s, t);
    lemma_ticketed_stays(s, t);
    lemma_healthy(t);
}

/// A state that gets another record of its process stays healthy.
proof fn lemma_process_healthy(s: ClosureStateView, t: ClosureStateView)
    requires
        s.healthy(),
        t == (ClosureStateView { process: t.process, ..s }),
        t.process.id == s.process.id,
        t.process.main_thread_id == s.process.main_thread_id,
    ensures
        t.healthy(),
{
    lemma_healthy(s);
    assert forall|id: Seq<char>| #[trigger] t.threads.contains_key(id) implies t.thread_fits(id) by {
        assert(s.thread_fits(id));
    }
    assert forall|id: Seq<char>| #[trigger] t.handles.contains_key(id) implies t.handle_fits(id) by {
        assert(s.handle_fits(id));
    }
    assert forall|k: Seq<char>, id: Seq<char>| #[trigger] t.is_for(k, id) == s.is_for(k, id) by {}
    assert forall|id: Seq<char>| #[trigger]
        t.threads.contains_key(id) && t.threads[id].parent_thread_id is Some
        implies t.awaited_once(id) by {
        assert(s.awaited_once(id));
        let h = choose|h: Seq<char>| #[trigger] s.is_for(h, id);
        assert(t.is_for(h, id));
    }
    assert forall|id: Seq<char>| #[trigger] t.waits.contains_key(id) implies t.wait_fits(id) by {
        assert(s.wait_fits(id));
    }
    lemma_history_reflexive(s);
    lemma_idles(s, t);
    lemma_idle_planned(s, t);
    lemma_nested_stays(s, t);
    lemma_ticketed_stays(s, t);
    lemma_healthy(t);
}

/// Taking up a state for an actor keeps it healthy.
pub proof fn law_resolved_keeps_healthy(
    context: RuntimeContextView,
    s: ClosureStateView,
    now: Timestamp,
)
    requires
        s.healthy(),
    ensures
        resolved(context, s, now).state.healthy(),
{
    let t = resolved(context, s, now).state;
    let thread_id = if s.threads.contains_key(context.thread_id) {
        context.thread_id
    } else {
        s.main_thread_id
    };
    lemma_healthy(s);
    let a = ClosureStateView { threads: t.threads, ..s };
    if t.threads != s.threads {
        let thread = t.threads[thread_id];
        assert forall|h: Seq<char>| #[trigger] s.is_for(h, thread_id) implies suits(
            s.handles[h],
            thread,
        ) by {
            assert(s.handle_fits(h));
        }
        lemma_thread_moved(s, thread_id, thread);
        lemma_thread_changed(s, a, thread_id, thread);
        lemma_idles(s, a);
        lemma_idle_healthy(s, a);
    }
    lemma_process_healthy(a, t);
}

/// A process begins in good health, unless the main thread bears the number of a thread to come.
pub proof fn law_new_root_is_healthy(
    process_id: Seq<char>,
    main_thread_id: Seq<char>,
    actor_session_id: Option<Seq<char>>,
    title: Seq<char>,
    body: Seq<char>,
    now: Timestamp,
)
    requires
        forall|n: nat| n >= 1 ==> main_thread_id != #[trigger] numbered("QT"@, n),
    ensures
        ClosureStateView::new_root(
            process_id,
            main_thread_id,
            actor_session_id,
            title,
            body,
            now,
        ).healthy(),
{
    law_new_root_is_valid(process_id, main_thread_id, actor_session_id, title, body, now);
}

/// Reporting a done child thread keeps a state healthy.
pub proof fn law_child_ready_keeps_healthy(
    s: ClosureStateView,
    ctx: RuntimeContextView,
    now: Timestamp,
    thread_id: Seq<char>,
    message: Seq<char>,
)
    requires
        s.healthy(),
        s.child_ready(ctx, now, thread_id, message).1 is Ok,
    ensures
        s.child_ready(ctx, now, thread_id, message).0.healthy(),
{
    lemma_healthy(s);
    lemma_child_ready_wired(s, ctx, now, thread_id, message);
    law_child_ready_keeps_history(s, ctx, now, thread_id, message);
    lemma_idle_healthy(s, s.child_ready(ctx, now, thread_id, message).0);
}

/// Joining a thread keeps a state healthy, unless it sets a parent running whose own end was
/// reported already.
pub proof fn law_joined_keeps_healthy(
    s: ClosureStateView,
    ctx: RuntimeContextView,
    now: Timestamp,
    thread_id: Seq<char>,
    parent_id: Seq<char>,
    message: Seq<char>,
)
    requires
        s.healthy(),
        s.is_reported(parent_id) ==> s.open_child_thread_ids(parent_id).len() > 0,
        s.joined(ctx, now, thread_id, parent_id, message).1 is Ok,
    ensures
        s.joined(ctx, now, thread_id, parent_id, message).0.healthy(),
{
    lemma_healthy(s);
    lemma_joined_wired(s, ctx, now, thread_id, parent_id, message);
    law_joined_keeps_history(s, ctx, now, thread_id, parent_id, message);
    lemma_idle_healthy(s, s.joined(ctx, now, thread_id, parent_id, message).0);
}

/// Joining a thread for its parent keeps a state healthy, unless it sets a parent running whose own
/// end was reported already.
pub proof fn law_auto_joined_keeps_healthy(
    s: ClosureStateView,
    ctx: RuntimeContextView,
    now: Timestamp,
    thread_id: Seq<char>,
    message: Seq<char>,
)
    requires
        s.healthy(),
        s.auto_joined(ctx, now, thread_id, message).1 is Ok,
        s.is_reported(s.threads[thread_id].parent_thread_id->0) ==> s.open_child_thread_ids(
            s.threads[thread_id].parent_thread_id->0,
        ).len() > 0,
    ensures
        s.auto_joined(ctx, now, thread_id, message).0.healthy(),
{
    law_joined_keeps_healthy(
        s,
        ctx,
        now,
        thread_id,
        s.threads[thread_id].parent_thread_id->0,
        message,
    );
}

/// Marking a child thread failed keeps a state healthy, unless it sets a parent running whose own
/// end was reported already.
pub proof fn law_child_failed_keeps_healthy(
    s: ClosureStateView,
    ctx: RuntimeContextView,
    now: Timestamp,
    thread_id: Seq<char>,
    kind: IoEventKind,
    message: Seq<char>,
)
    requires
        s.healthy(),
        s.is_reported(s.threads[thread_id].parent_thread_id->0) ==> s.with_thread_status(
            thread_id,
            ThreadStatus::Failed,
            now,
        ).open_child_thread_ids(s.threads[thread_id].parent_thread_id->0).len() > 0,
        s.child_failed(ctx, now, thread_id, kind, message).1 is Ok,
    ensures
        s.child_failed(ctx, now, thread_id, kind, message).0.healthy(),
{
    lemma_healthy(s);
    assert(s.threads.contains_key(thread_id));
    lemma_child_failed_wired(s, ctx, now, thread_id, kind, message);
    law_child_failed_keeps_history(s, ctx, now, thread_id, kind, message);
    lemma_idle_healthy(s, s.child_failed(ctx, now, thread_id, kind, message).0);
}

/// An actor that stops before its thread is done leaves a state healthy, unless that sets a parent
/// running whose own end was reported already.
pub proof fn law_actor_stopped_keeps_healthy(
    s: ClosureStateView,
    ctx: RuntimeContextView,
    now: Timestamp,
    thread_id: Seq<char>,
    status: Seq<char>,
)
    requires
        s.healthy(),
        s.is_reported(s.threads[thread_id].parent_thread_id->0) ==> s.with_thread_status(
            thread_id,
            ThreadStatus::Failed,
            now,
        ).open_child_thread_ids(s.threads[thread_id].parent_thread_id->0).len() > 0,
        s.actor_stopped(ctx, now, thread_id, status).1 is Ok,
    ensures
        s.actor_stopped(ctx, now, thread_id, status).0.healthy(),
{
    let t = s.actor_stopped(ctx, now, thread_id, status).0;
    let text = "child actor completed before Qunux thread was done: "@ + status;
    let kind = IoEventKind::ChildThreadFailed;
    let a = s.child_failed(ctx, now, thread_id, kind, text).0;
    law_child_failed_keeps_healthy(s, ctx, now, thread_id, kind, text);
    let handle_id = s.child_failed(ctx, now, thread_id, kind, text).1->Ok_0.0;
    let said = "Codex child actor completed before Qunux thread was done: "@ + status;
    lemma_io_logged(
        a,
        ctx,
        now,
        IoEventKind::ActorCompletedWithoutThreadDone,
        Some(handle_id),
        Some(thread_id),
        said,
    );
    lemma_healthy(a);
    lemma_same_wiring(a, t);
    lemma_idles(a, t);
    lemma_idle_healthy(a, t);
}

/// Binding an actor to a thread keeps a state healthy.
pub proof fn law_actor_bound_keeps_healthy(
    s: ClosureStateView,
    ctx: RuntimeContextView,
    now: Timestamp,
    thread_id: Seq<char>,
    actor_session_id: Seq<char>,
)
    requires
        s.healthy(),
        s.actor_bound(ctx, now, thread_id, actor_session_id).1 is Ok,
    ensures
        s.actor_bound(ctx, now, thread_id, actor_session_id).0.healthy(),
{
    lemma_healthy(s);
    lemma_actor_bound_wired(s, ctx, now, thread_id, actor_session_id);
    law_actor_bound_keeps_history(s, ctx, now, thread_id, actor_session_id);
    lemma_idle_healthy(s, s.actor_bound(ctx, now, thread_id, actor_session_id).0);
}

/// Parking keeps a state healthy.
pub proof fn law_parked_keeps_healthy(
    s: ClosureStateView,
    ctx: RuntimeContextView,
    now: Timestamp,
    mode: WaitMode,
    reason: Seq<char>,
    specs: Seq<WaitSpecView>,
)
    requires
        s.healthy(),
        s.next_wait_seq < u32::MAX,
        s.next_handle_seq + specs.len() <= u32::MAX,
        s.parked(ctx, now, mode, reason, specs).1 is Ok,
    ensures
        s.parked(ctx, now, mode, reason, specs).0.healthy(),
{
    lemma_healthy(s);
    lemma_parked_wired(s, ctx, now, mode, reason, specs);
    law_parked_keeps_history(s, ctx, now, mode, reason, specs);
    lemma_idle_healthy(s, s.parked(ctx, now, mode, reason, specs).0);
}

/// Parking on one thing keeps a state healthy.
pub proof fn law_parked_on_keeps_healthy(
    s: ClosureStateView,
    ctx: RuntimeContextView,
    now: Timestamp,
    reason: Seq<char>,
    spec: WaitSpecView,
)
    requires
        s.healthy(),
        s.next_wait_seq < u32::MAX,
        s.next_handle_seq < u32::MAX,
        s.parked_on(ctx, now, reason, spec).1 is Ok,
    ensures
        s.parked_on(ctx, now, reason, spec).0.healthy(),
{
    law_parked_keeps_healthy(s, ctx, now, WaitMode::All, reason, seq![spec]);
}

/// Taking what was waited for keeps a state healthy, unless it sets a thread running whose end was
/// reported already.
pub proof fn law_consumed_keeps_healthy(
    s: ClosureStateView,
    ctx: RuntimeContextView,
    now: Timestamp,
    handle_id: Seq<char>,
)
    requires
        s.healthy(),
        s.is_reported(ctx.thread_id) ==> s.handles[handle_id].kind == IoHandleKind::ChildThread
            && s.open_child_thread_ids(ctx.thread_id).len() > 0,
        s.consumed(ctx, now, handle_id).1 is Ok,
    ensures
        s.consumed(ctx, now, handle_id).0.healthy(),
{
    lemma_healthy(s);
    lemma_consumed_wired(s, ctx, now, handle_id);
    law_consumed_keeps_history(s, ctx, now, handle_id);
    lemma_idle_healthy(s, s.consumed(ctx, now, handle_id).0);
}

/// Giving up a wait keeps a state healthy.
pub proof fn law_cancelled_keeps_healthy(
    s: ClosureStateView,
    ctx: RuntimeContextView,
    now: Timestamp,
    handle_id: Seq<char>,
    reason: Seq<char>,
)
    requires
        s.healthy(),
        s.cancelled(ctx, now, handle_id, reason).1 is Ok,
    ensures
        s.cancelled(ctx, now, handle_id, reason).0.healthy(),
{
    lemma_healthy(s);
    lemma_cancelled_wired(s, ctx, now, handle_id, reason);
    law_cancelled_keeps_history(s, ctx, now, handle_id, reason);
    lemma_idle_healthy(s, s.cancelled(ctx, now, handle_id, reason).0);
}

/// Taking in an event keeps a state healthy.
pub proof fn law_received_keeps_healthy(
    s: ClosureStateView,
    ctx: RuntimeContextView,
    now: Timestamp,
    input: PassiveEventInputView,
)
    requires
        s.healthy(),
        s.next_passive_event_seq < u32::MAX,
        s.received(ctx, now, input).1 is Ok,
    ensures
        s.received(ctx, now, input).0.healthy(),
{
    lemma_healthy(s);
    lemma_received_wired(s, ctx, now, input);
    law_received_keeps_history(s, ctx, now, input);
    lemma_idle_healthy(s, s.received(ctx, now, input).0);
}

/// Acknowledging an inbox item keeps a state healthy.
pub proof fn law_acknowledged_keeps_healthy(
    s: ClosureStateView,
    ctx: RuntimeContextView,
    now: Timestamp,
    item_id: Seq<char>,
    note: Seq<char>,
)
    requires
        s.healthy(),
        s.acknowledged(ctx, now, item_id, note).1 is Ok,
    ensures
        s.acknowledged(ctx, now, item_id, note).0.healthy(),
{
    lemma_healthy(s);
    lemma_acknowledged_wired(s, ctx, now, item_id, note);
    law_acknowledged_keeps_history(s, ctx, now, item_id, note);
    lemma_idle_healthy(s, s.acknowledged(ctx, now, item_id, note).0);
}

} // verus!
