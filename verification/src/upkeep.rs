//! Threads, handles, waits and mail still fit together after each operation on them.
use vstd::prelude::*;
use crate::clock::Timestamp;
use crate::context::RuntimeContextView;
use crate::entities::{ClosureStateView, ContextForkView, InboxItemView, IoHandleView, PassiveEventView, ThreadView};
use crate::forest::branching;
use crate::ids::{lemma_numbered_injective, numbered};
use crate::keeping::{law_handed_over_changes_owners, lemma_handles_parked};
use crate::kinds::{ContextForkPolicy, IoEventKind, IoHandleKind, IoHandleStatus, PassiveEventStatus, ThreadStatus, WaitMode, WaitStatus};
use crate::lookup::{awaits_thread, event_named, item_named, settled, still_running, wait_ready};
use crate::reports::{PassiveEventInputView, RoutedPassiveEventView, WaitSpecView};
use crate::search::{find_index, lemma_find_from, lemma_kept, select};
use crate::strmap::{keys, lemma_listed, values};
use crate::waits::{awaited_by, items_matched, matched_with};
use crate::wiring::{handle_moves, key_fits, lemma_handle_added, lemma_handle_moved, lemma_mail_moved, lemma_ready_stays, lemma_refreshed_wired, lemma_same_wiring, lemma_thread_moved, lemma_wait_added, lemma_waits_moved, lemma_woken_wired, suits};

verus! {

impl ClosureStateView {
    /// The handle on this thread tells its parent how it ended.
    pub open spec fn is_reported(self, thread_id: Seq<char>) -> bool {
        exists|h: Seq<char>| #[trigger]
            self.is_for(h, thread_id) && (self.handles[h].status == IoHandleStatus::Ready
                || self.handles[h].status == IoHandleStatus::Failed)
    }

    /// No two events have the same identifier, and none has one that is still to be given.
    pub open spec fn apart(self) -> bool {
        &&& forall|i: int, j: int|
            0 <= i < j < self.passive_events.len() ==> (#[trigger] self.passive_events[i]).id != (
            #[trigger] self.passive_events[j]).id
        &&& forall|i: int, n: nat|
            0 <= i < self.passive_events.len() && n >= self.next_passive_event_seq ==> (
            #[trigger] self.passive_events[i]).id != #[trigger] numbered("PE"@, n)
    }

    /// The item is handled, and so is the event that it was made for.
    pub open spec fn settles(self, i: int) -> bool {
        &&& 0 <= i < self.inbox.len()
        &&& self.inbox[i].status == PassiveEventStatus::Handled
        &&& self.event_index(self.inbox[i].passive_event_id) is Some
        &&& self.passive_events[self.event_index(self.inbox[i].passive_event_id)->0].status
            == PassiveEventStatus::Handled
    }

    /// The later state differs in no problem, ticket, result or check, has the same threads, what
    /// was handled is still handled, and events are told apart as before.
    pub open spec fn idles(self, later: ClosureStateView) -> bool {
        &&& later.problems == self.problems
        &&& later.next_problem_seq == self.next_problem_seq
        &&& later.tickets == self.tickets
        &&& later.results == self.results
        &&& later.checks == self.checks
        &&& later.threads.dom() == self.threads.dom()
        &&& self.passive_events.len() <= later.passive_events.len()
        &&& forall|i: int|
            0 <= i < self.passive_events.len() && (#[trigger] self.passive_events[i]).status
                == PassiveEventStatus::Handled ==> later.passive_events[i].status
                == PassiveEventStatus::Handled
        &&& forall|i: int| #[trigger] self.settles(i) ==> later.settles(i)
        &&& self.apart() ==> later.apart()
    }
}

/// Where the mail stays as it is, so does what is handled.
pub proof fn lemma_idles(s: ClosureStateView, t: ClosureStateView)
    requires
        t.problems == s.problems,
        t.next_problem_seq == s.next_problem_seq,
        t.tickets == s.tickets,
        t.results == s.results,
        t.checks == s.checks,
        t.threads.dom() =~= s.threads.dom(),
        t.passive_events == s.passive_events,
        t.next_passive_event_seq == s.next_passive_event_seq,
        t.inbox == s.inbox,
    ensures
        s.idles(t),
{
    assert forall|i: int| #[trigger] s.settles(i) implies t.settles(i) by {}
}

/// The handle found for a thread is for that thread.
pub proof fn lemma_found_handle(s: ClosureStateView, thread_id: Seq<char>)
    requires
        s.filed(),
    ensures
        match s.child_thread_handle_id(thread_id) {
            Some(h) => s.is_for(h, thread_id),
            None => forall|h: Seq<char>| !#[trigger] s.is_for(h, thread_id),
        },
{
    let f = awaits_thread(thread_id);
    lemma_listed(s.handles);
    lemma_find_from(values(s.handles), f, 0);
    if s.child_thread_handle_id(thread_id) is None {
        assert forall|h: Seq<char>| !#[trigger] s.is_for(h, thread_id) by {
            if s.handles.contains_key(h) {
                let i = keys(s.handles).index_of(h);
                assert(keys(s.handles)[i] == h);
                assert(!f(values(s.handles)[i]));
            }
        }
    }
}

/// A thread whose end was not told moves to any status.
pub proof fn lemma_unreported_moves(
    s: ClosureStateView,
    id: Seq<char>,
    status: ThreadStatus,
    now: Timestamp,
)
    requires
        s.wired(),
        s.threads.contains_key(id),
        !s.is_reported(id),
    ensures
        s.with_thread_status(id, status, now).wired(),
{
    let thread = ThreadView { status, updated_at: now, ..s.threads[id] };
    assert forall|h: Seq<char>| #[trigger] s.is_for(h, id) implies suits(s.handles[h], thread) by {
        assert(s.handle_fits(h));
    }
    lemma_thread_moved(s, id, thread);
}

/// A wait is over.
pub proof fn lemma_wait_over_wired(s: ClosureStateView, id: Seq<char>, now: Timestamp)
    requires
        s.wired(),
        s.waits.contains_key(id),
    ensures
        s.with_wait_status(id, WaitStatus::Consumed, now).wired(),
{
    let waits = s.with_wait_status(id, WaitStatus::Consumed, now).waits;
    assert forall|k: Seq<char>| #[trigger] waits.contains_key(k) implies s.waits.contains_key(k)
        && waits[k].thread_id == s.waits[k].thread_id && waits[k].handle_ids
        == s.waits[k].handle_ids && (waits[k].status == WaitStatus::Ready
        ==> wait_ready(s.handles, waits[k])) by {
        assert(s.wait_fits(k));
    }
    lemma_waits_moved(s, waits);
}

/// A done child thread is reported.
pub proof fn lemma_child_ready_wired(
    s: ClosureStateView,
    ctx: RuntimeContextView,
    now: Timestamp,
    thread_id: Seq<char>,
    message: Seq<char>,
)
    requires
        s.filed(),
        s.wired(),
        s.child_ready(ctx, now, thread_id, message).1 is Ok,
    ensures
        s.child_ready(ctx, now, thread_id, message).0.wired(),
        s.idles(s.child_ready(ctx, now, thread_id, message).0),
{
    let t = s.child_ready(ctx, now, thread_id, message).0;
    lemma_found_handle(s, thread_id);
    let h = s.child_thread_handle_id(thread_id)->0;
    assert(s.handle_fits(h));
    if s.handles[h].status != IoHandleStatus::Consumed {
        let handle = IoHandleView {
            status: IoHandleStatus::Ready,
            updated_at: now,
            ..s.handles[h]
        };
        lemma_handle_moved(s, h, handle);
        let a = s.with_handle_status(h, IoHandleStatus::Ready, now);
        lemma_refreshed_wired(a, h, now);
        lemma_same_wiring(a.refreshed(h, now), t);
    }
    lemma_idles(s, t);
}

/// A parent goes on where all its children have ended.
proof fn lemma_parent_released_wired(s: ClosureStateView, parent_id: Seq<char>, now: Timestamp)
    requires
        s.wired(),
        s.is_reported(parent_id) ==> s.open_child_thread_ids(parent_id).len() > 0,
    ensures
        s.parent_released(parent_id, now).wired(),
        s.idles(s.parent_released(parent_id, now)),
{
    if s.open_child_thread_ids(parent_id).len() == 0 && s.threads.contains_key(parent_id) {
        lemma_unreported_moves(s, parent_id, ThreadStatus::Running, now);
    }
    lemma_idles(s, s.parent_released(parent_id, now));
}

/// What is idle twice over is idle.
proof fn lemma_idles_twice(a: ClosureStateView, b: ClosureStateView, c: ClosureStateView)
    requires
        a.idles(b),
        b.idles(c),
    ensures
        a.idles(c),
{
    assert forall|i: int|
        0 <= i < a.passive_events.len() && (#[trigger] a.passive_events[i]).status
            == PassiveEventStatus::Handled implies c.passive_events[i].status
        == PassiveEventStatus::Handled by {
        assert(b.passive_events[i].status == PassiveEventStatus::Handled);
    }
    assert forall|i: int| #[trigger] a.settles(i) implies c.settles(i) by {
        assert(b.settles(i));
    }
}

/// Some other handle than this one tells how the thread ended.
spec fn reported_apart(s: ClosureStateView, thread_id: Seq<char>, handle_id: Seq<char>) -> bool {
    exists|h: Seq<char>|
        h != handle_id && #[trigger] s.is_for(h, thread_id) && (s.handles[h].status
            == IoHandleStatus::Ready || s.handles[h].status == IoHandleStatus::Failed)
}

/// The state in which a thread is joined, its handle taken and its wait over.
spec fn taken(
    s: ClosureStateView,
    now: Timestamp,
    thread_id: Seq<char>,
    handle_id: Seq<char>,
    wait_id: Seq<char>,
) -> ClosureStateView {
    ClosureStateView {
        threads: s.threads.insert(
            thread_id,
            ThreadView { joined_at: Some(now), updated_at: now, ..s.threads[thread_id] },
        ),
        ..s
    }.with_handle_status(handle_id, IoHandleStatus::Consumed, now).with_wait_status(
        wait_id,
        WaitStatus::Consumed,
        now,
    )
}

proof fn lemma_taken_wired(
    s: ClosureStateView,
    now: Timestamp,
    thread_id: Seq<char>,
    handle_id: Seq<char>,
    wait_id: Seq<char>,
)
    requires
        s.wired(),
        s.threads.contains_key(thread_id),
        s.is_for(handle_id, thread_id),
        s.handles[handle_id].status == IoHandleStatus::Ready,
        s.waits.contains_key(wait_id),
    ensures
        taken(s, now, thread_id, handle_id, wait_id).wired(),
{
    let thread = ThreadView { joined_at: Some(now), updated_at: now, ..s.threads[thread_id] };
    assert forall|h: Seq<char>| #[trigger] s.is_for(h, thread_id) implies suits(
        s.handles[h],
        thread,
    ) by {
        assert(s.handle_fits(h));
    }
    lemma_thread_moved(s, thread_id, thread);
    let a = ClosureStateView { threads: s.threads.insert(thread_id, thread), ..s };
    let handle = IoHandleView {
        status: IoHandleStatus::Consumed,
        updated_at: now,
        ..s.handles[handle_id]
    };
    lemma_handle_moved(a, handle_id, handle);
    lemma_wait_over_wired(
        a.with_handle_status(handle_id, IoHandleStatus::Consumed, now),
        wait_id,
        now,
    );
}

proof fn lemma_taken_open(
    s: ClosureStateView,
    now: Timestamp,
    thread_id: Seq<char>,
    parent_id: Seq<char>,
    handle_id: Seq<char>,
    wait_id: Seq<char>,
)
    requires
        s.threads.contains_key(thread_id),
    ensures
        taken(s, now, thread_id, handle_id, wait_id).open_child_thread_ids(parent_id)
            == s.open_child_thread_ids(parent_id),
        taken(s, now, thread_id, handle_id, wait_id).is_reported(parent_id) ==> reported_apart(
            s,
            parent_id,
            handle_id,
        ),
{
    let c = taken(s, now, thread_id, handle_id, wait_id);
    assert(still_running(c.threads) =~= still_running(s.threads));
    if c.is_reported(parent_id) {
        let h = choose|h: Seq<char>| #[trigger]
            c.is_for(h, parent_id) && (c.handles[h].status == IoHandleStatus::Ready
                || c.handles[h].status == IoHandleStatus::Failed);
        assert(h != handle_id);
        assert(s.is_for(h, parent_id));
    }
}

proof fn lemma_taken_back_wired(
    s: ClosureStateView,
    ctx: RuntimeContextView,
    now: Timestamp,
    thread_id: Seq<char>,
    parent_id: Seq<char>,
    message: Seq<char>,
    handle_id: Seq<char>,
    wait_id: Seq<char>,
)
    requires
        s.wired(),
        s.threads.contains_key(thread_id),
        s.is_for(handle_id, thread_id),
        reported_apart(s, parent_id, handle_id) ==> s.open_child_thread_ids(parent_id).len() > 0,
        s.taken_back(ctx, now, thread_id, parent_id, message, handle_id, wait_id).1 is Ok,
    ensures
        s.taken_back(ctx, now, thread_id, parent_id, message, handle_id, wait_id).0.wired(),
        s.idles(s.taken_back(ctx, now, thread_id, parent_id, message, handle_id, wait_id).0),
{
    let t = s.taken_back(ctx, now, thread_id, parent_id, message, handle_id, wait_id).0;
    let c = taken(s, now, thread_id, handle_id, wait_id);
    lemma_taken_wired(s, now, thread_id, handle_id, wait_id);
    lemma_taken_open(s, now, thread_id, parent_id, handle_id, wait_id);
    lemma_parent_released_wired(c, parent_id, now);
    lemma_same_wiring(c.parent_released(parent_id, now), t);
    lemma_idles(s, t);
}

/// A thread is joined.
pub proof fn lemma_joined_wired(
    s: ClosureStateView,
    ctx: RuntimeContextView,
    now: Timestamp,
    thread_id: Seq<char>,
    parent_id: Seq<char>,
    message: Seq<char>,
)
    requires
        s.filed(),
        s.wired(),
        s.is_reported(parent_id) ==> s.open_child_thread_ids(parent_id).len() > 0,
        s.joined(ctx, now, thread_id, parent_id, message).1 is Ok,
    ensures
        s.joined(ctx, now, thread_id, parent_id, message).0.wired(),
        s.idles(s.joined(ctx, now, thread_id, parent_id, message).0),
{
    let (handle_id, wait_id) = s.joinable(thread_id, parent_id)->Ok_0;
    lemma_found_handle(s, thread_id);
    if reported_apart(s, parent_id, handle_id) {
        assert(s.is_reported(parent_id));
    }
    if s.handles[handle_id].status == IoHandleStatus::Pending {
        let said = "joining done child thread"@;
        let a = s.child_ready(ctx, now, thread_id, said).0;
        lemma_child_ready_wired(s, ctx, now, thread_id, said);
        if reported_apart(a, parent_id, handle_id) {
            let h = choose|h: Seq<char>|
                h != handle_id && #[trigger] a.is_for(h, parent_id) && (a.handles[h].status
                    == IoHandleStatus::Ready || a.handles[h].status == IoHandleStatus::Failed);
            assert(s.is_for(h, parent_id));
        }
        assert(a.threads == s.threads);
        assert(a.is_for(handle_id, thread_id));
        lemma_taken_back_wired(
            a,
            ctx,
            now,
            thread_id,
            parent_id,
            message,
            handle_id,
            wait_id,
        );
        lemma_idles_twice(
            s,
            a,
            a.taken_back(ctx, now, thread_id, parent_id, message, handle_id, wait_id).0,
        );
    } else {
        lemma_taken_back_wired(
            s,
            ctx,
            now,
            thread_id,
            parent_id,
            message,
            handle_id,
            wait_id,
        );
    }
}

/// A child thread fails.
pub proof fn lemma_child_failed_wired(
    s: ClosureStateView,
    ctx: RuntimeContextView,
    now: Timestamp,
    thread_id: Seq<char>,
    kind: IoEventKind,
    message: Seq<char>,
)
    requires
        s.filed(),
        s.wired(),
        s.is_reported(s.threads[thread_id].parent_thread_id->0) ==> s.with_thread_status(
            thread_id,
            ThreadStatus::Failed,
            now,
        ).open_child_thread_ids(s.threads[thread_id].parent_thread_id->0).len() > 0,
        s.threads[thread_id].parent_thread_id != Some(thread_id),
        s.child_failed(ctx, now, thread_id, kind, message).1 is Ok,
    ensures
        s.child_failed(ctx, now, thread_id, kind, message).0.wired(),
        s.idles(s.child_failed(ctx, now, thread_id, kind, message).0),
{
    let t = s.child_failed(ctx, now, thread_id, kind, message).0;
    let parent_id = s.threads[thread_id].parent_thread_id->0;
    lemma_found_handle(s, thread_id);
    let handle_id = s.child_thread_handle_id(thread_id)->0;
    let thread = ThreadView {
        status: ThreadStatus::Failed,
        updated_at: now,
        ..s.threads[thread_id]
    };
    assert(s.awaited_once(thread_id));
    assert forall|h: Seq<char>| #[trigger] s.is_for(h, thread_id) implies suits(
        s.handles[h],
        thread,
    ) by {
        assert(h == handle_id);
        assert(s.handle_fits(h));
    }
    lemma_thread_moved(s, thread_id, thread);
    let a = s.with_thread_status(thread_id, ThreadStatus::Failed, now);
    let handle = IoHandleView {
        status: IoHandleStatus::Failed,
        updated_at: now,
        ..s.handles[handle_id]
    };
    lemma_handle_moved(a, handle_id, handle);
    let b = a.with_handle_status(handle_id, IoHandleStatus::Failed, now);
    lemma_refreshed_wired(b, handle_id, now);
    let c = b.refreshed(handle_id, now);
    assert(c.threads == a.threads);
    if c.is_reported(parent_id) {
        let h = choose|h: Seq<char>| #[trigger]
            c.is_for(h, parent_id) && (c.handles[h].status == IoHandleStatus::Ready
                || c.handles[h].status == IoHandleStatus::Failed);
        assert(h != handle_id);
        assert(s.is_for(h, parent_id));
    }
    lemma_parent_released_wired(c, parent_id, now);
    lemma_same_wiring(c.parent_released(parent_id, now), t);
    lemma_idles(s, t);
}

/// A thread is bound to the actor that runs it.
pub proof fn lemma_actor_bound_wired(
    s: ClosureStateView,
    ctx: RuntimeContextView,
    now: Timestamp,
    thread_id: Seq<char>,
    actor_session_id: Seq<char>,
)
    requires
        s.wired(),
        s.actor_bound(ctx, now, thread_id, actor_session_id).1 is Ok,
    ensures
        s.actor_bound(ctx, now, thread_id, actor_session_id).0.wired(),
        s.idles(s.actor_bound(ctx, now, thread_id, actor_session_id).0),
{
    let t = s.actor_bound(ctx, now, thread_id, actor_session_id).0;
    let thread = t.threads[thread_id];
    assert forall|h: Seq<char>| #[trigger] s.is_for(h, thread_id) implies suits(
        s.handles[h],
        thread,
    ) by {
        assert(s.handle_fits(h));
    }
    lemma_thread_moved(s, thread_id, thread);
    lemma_same_wiring(ClosureStateView { threads: s.threads.insert(thread_id, thread), ..s }, t);
    lemma_idles(s, t);
}

/// A wait on mail is given up.
pub proof fn lemma_cancelled_wired(
    s: ClosureStateView,
    ctx: RuntimeContextView,
    now: Timestamp,
    handle_id: Seq<char>,
    reason: Seq<char>,
)
    requires
        s.wired(),
        s.cancelled(ctx, now, handle_id, reason).1 is Ok,
    ensures
        s.cancelled(ctx, now, handle_id, reason).0.wired(),
        s.idles(s.cancelled(ctx, now, handle_id, reason).0),
{
    let t = s.cancelled(ctx, now, handle_id, reason).0;
    let handle = IoHandleView {
        status: IoHandleStatus::Cancelled,
        updated_at: now,
        ..s.handles[handle_id]
    };
    lemma_handle_moved(s, handle_id, handle);
    let a = s.with_handle_status(handle_id, IoHandleStatus::Cancelled, now);
    lemma_refreshed_wired(a, handle_id, now);
    let b = a.refreshed(handle_id, now);
    lemma_woken_wired(b, handle_id, now);
    lemma_woken_threads(b, handle_id, now);
    lemma_same_wiring(b.woken(handle_id, now), t);
    lemma_idles(s, t);
}

proof fn lemma_woken_dom(s: ClosureStateView, ids: Seq<Seq<char>>, n: int, now: Timestamp)
    requires
        n <= ids.len(),
    ensures
        crate::wake::threads_woken(s.threads, ids, n, now).dom() == s.threads.dom(),
    decreases n,
{
    if n > 0 {
        lemma_woken_dom(s, ids, n - 1, now);
    }
    assert(crate::wake::threads_woken(s.threads, ids, n, now).dom() =~= s.threads.dom());
}

proof fn lemma_woken_threads(s: ClosureStateView, handle_id: Seq<char>, now: Timestamp)
    ensures
        s.woken(handle_id, now).threads.dom() == s.threads.dom(),
{
    let ids = s.thread_ids_ready(handle_id);
    lemma_woken_dom(s, ids, ids.len() as int, now);
}

proof fn lemma_siblings_cancelled_wired(
    s: ClosureStateView,
    ids: Seq<Seq<char>>,
    n: int,
    taken: Seq<char>,
    now: Timestamp,
)
    requires
        s.wired(),
        n <= ids.len(),
    ensures
        ({
            let t = s.siblings_cancelled(ids, n, taken, now);
            &&& t.wired()
            &&& t == (ClosureStateView { handles: t.handles, ..s })
            &&& t.handles.dom() == s.handles.dom()
            &&& forall|h: Seq<char>| #[trigger]
                s.handles.contains_key(h) ==> t.handles[h] == s.handles[h] || (t.handles[h].status
                    == IoHandleStatus::Cancelled && handle_moves(s.handles[h], t.handles[h]))
        }),
    decreases n,
{
    if n > 0 {
        lemma_siblings_cancelled_wired(s, ids, n - 1, taken, now);
        let before = s.siblings_cancelled(ids, n - 1, taken, now);
        let id = ids[n - 1];
        if id != taken && before.handles.contains_key(id) && (before.handles[id].status
            == IoHandleStatus::Pending || before.handles[id].status == IoHandleStatus::Ready) {
            let handle = IoHandleView {
                status: IoHandleStatus::Cancelled,
                updated_at: now,
                ..before.handles[id]
            };
            lemma_handle_moved(before, id, handle);
        }
    }
    assert(s.siblings_cancelled(ids, n, taken, now).handles.dom() =~= s.handles.dom());
}

/// A handle on mail that is ready is taken.
pub proof fn lemma_consumed_wired(
    s: ClosureStateView,
    ctx: RuntimeContextView,
    now: Timestamp,
    handle_id: Seq<char>,
)
    requires
        s.filed(),
        s.wired(),
        s.is_reported(ctx.thread_id) ==> s.handles[handle_id].kind == IoHandleKind::ChildThread
            && s.open_child_thread_ids(ctx.thread_id).len() > 0,
        s.consumed(ctx, now, handle_id).1 is Ok,
    ensures
        s.consumed(ctx, now, handle_id).0.wired(),
        s.idles(s.consumed(ctx, now, handle_id).0),
{
    let t = s.consumed(ctx, now, handle_id).0;
    if s.handles[handle_id].kind == IoHandleKind::ChildThread {
        lemma_joined_wired(
            s,
            ctx,
            now,
            s.handles[handle_id].target_thread_id->0,
            ctx.thread_id,
            "consumed child-thread wait handle "@ + handle_id,
        );
    } else {
        let wait_id = s.wait_id_for_handle(handle_id)->0;
        let handle = IoHandleView {
            status: IoHandleStatus::Consumed,
            updated_at: now,
            ..s.handles[handle_id]
        };
        lemma_handle_moved(s, handle_id, handle);
        let a = s.with_handle_status(handle_id, IoHandleStatus::Consumed, now);
        let wait = a.waits[wait_id];
        let b = a.wait_settled(now, handle_id, wait_id);
        match wait.mode {
            WaitMode::Any => {
                let ids = wait.handle_ids;
                let c = a.siblings_cancelled(ids, ids.len() as int, handle_id, now);
                lemma_siblings_cancelled_wired(a, ids, ids.len() as int, handle_id, now);
                lemma_wait_over_wired(c, wait_id, now);
            },
            WaitMode::All => {
                let c = a.refreshed(handle_id, now);
                lemma_refreshed_wired(a, handle_id, now);
                lemma_refreshed_dom(a, handle_id, now);
                if c.all_consumed(c.waits[wait_id]) {
                    lemma_wait_over_wired(c, wait_id, now);
                }
            },
        }
        if b.is_reported(ctx.thread_id) {
            let h = choose|h: Seq<char>| #[trigger]
                b.is_for(h, ctx.thread_id) && (b.handles[h].status == IoHandleStatus::Ready
                    || b.handles[h].status == IoHandleStatus::Failed);
            assert(a.handles.contains_key(h));
            assert(a.handles[h] == b.handles[h]);
            assert(s.is_for(h, ctx.thread_id));
        }
        assert(b.threads == s.threads);
        if b.threads.contains_key(ctx.thread_id) {
            lemma_unreported_moves(b, ctx.thread_id, ThreadStatus::Running, now);
            lemma_same_wiring(b.with_thread_status(ctx.thread_id, ThreadStatus::Running, now), t);
        } else {
            lemma_same_wiring(b, t);
        }
        lemma_idles(s, t);
    }
}

proof fn lemma_refreshing_dom(
    s: ClosureStateView,
    ids: Seq<Seq<char>>,
    n: int,
    now: Timestamp,
)
    requires
        n <= ids.len(),
    ensures
        crate::wake::waits_refreshed(s.waits, s.handles, ids, n, now).dom() == s.waits.dom(),
    decreases n,
{
    if n > 0 {
        lemma_refreshing_dom(s, ids, n - 1, now);
    }
    assert(crate::wake::waits_refreshed(s.waits, s.handles, ids, n, now).dom() =~= s.waits.dom());
}

/// Looking at the waits on a handle anew adds and drops none.
pub proof fn lemma_refreshed_dom(s: ClosureStateView, handle_id: Seq<char>, now: Timestamp)
    ensures
        s.refreshed(handle_id, now).waits.dom() == s.waits.dom(),
{
    let ids = s.wait_ids_listing(handle_id);
    lemma_refreshing_dom(s, ids, ids.len() as int, now);
}

/// An event and its items that are still open are taken by a handle: what was handled stays so.
proof fn lemma_matching_idles(s: ClosureStateView, t: ClosureStateView, at: int, handle_id: Seq<char>)
    requires
        s.apart(),
        0 <= at < s.passive_events.len(),
        s.passive_events[at].status == PassiveEventStatus::Inboxed,
        t.problems == s.problems,
        t.next_problem_seq == s.next_problem_seq,
        t.tickets == s.tickets,
        t.results == s.results,
        t.checks == s.checks,
        t.threads.dom() == s.threads.dom(),
        t.passive_events == s.passive_events.update(
            at,
            matched_with(s.passive_events[at], handle_id),
        ),
        t.next_passive_event_seq == s.next_passive_event_seq,
        t.inbox == items_matched(s.inbox, s.passive_events[at].id),
    ensures
        s.idles(t),
{
    let event_id = s.passive_events[at].id;
    assert forall|i: int| #[trigger] s.settles(i) implies t.settles(i) by {
        let named = event_named(s.inbox[i].passive_event_id);
        lemma_find_from(s.passive_events, named, 0);
        lemma_find_from(t.passive_events, named, 0);
        let e = s.event_index(s.inbox[i].passive_event_id)->0;
        assert(e != at);
        if s.inbox[i].passive_event_id == event_id {
            assert(s.passive_events[e].id == event_id);
            assert(e < at || at < e);
            assert(false);
        }
        assert(t.inbox[i] == s.inbox[i]);
        assert(named(t.passive_events[e]));
        let f = t.event_index(s.inbox[i].passive_event_id)->0;
        if f < e {
            assert(named(s.passive_events[f]));
        }
        assert(f == e);
    }
    assert forall|i: int, j: int| 0 <= i < j < t.passive_events.len() implies (
    #[trigger] t.passive_events[i]).id != (#[trigger] t.passive_events[j]).id by {
        assert(s.passive_events[i].id != s.passive_events[j].id);
    }
    assert forall|i: int, n: nat|
        0 <= i < t.passive_events.len() && n >= t.next_passive_event_seq implies (
    #[trigger] t.passive_events[i]).id != #[trigger] numbered("PE"@, n) by {
        assert(s.passive_events[i].id != numbered("PE"@, n));
    }
}

/// The event found by the identifier of an event is that event.
proof fn lemma_event_at(s: ClosureStateView, at: int)
    requires
        s.apart(),
        0 <= at < s.passive_events.len(),
    ensures
        s.event_index(s.passive_events[at].id) == Some(at),
{
    let named = event_named(s.passive_events[at].id);
    lemma_find_from(s.passive_events, named, 0);
    assert(named(s.passive_events[at]));
    let i = s.event_index(s.passive_events[at].id)->0;
    if i < at {
        assert(s.passive_events[i].id != s.passive_events[at].id);
    }
}

/// A new handle is matched with what lies in the inbox.
proof fn lemma_inbox_matched_wired(
    s: ClosureStateView,
    ctx: RuntimeContextView,
    now: Timestamp,
    handle_id: Seq<char>,
)
    requires
        s.wired(),
        s.apart(),
    ensures
        s.inbox_matched(ctx, now, handle_id).0.wired(),
        s.idles(s.inbox_matched(ctx, now, handle_id).0),
{
    let t = s.inbox_matched(ctx, now, handle_id).0;
    if s.handles.contains_key(handle_id) && find_index(
        s.passive_events,
        awaited_by(s.handles[handle_id]),
    ) is Some {
        let handle = s.handles[handle_id];
        lemma_find_from(s.passive_events, awaited_by(handle), 0);
        let at = find_index(s.passive_events, awaited_by(handle))->0;
        let event = s.passive_events[at];
        lemma_event_at(s, at);
        let ready = IoHandleView {
            status: IoHandleStatus::Ready,
            resolved_event_id: Some(event.id),
            payload_ref: event.payload_ref,
            updated_at: now,
            ..handle
        };
        lemma_handle_moved(s, handle_id, ready);
        let a = ClosureStateView { handles: s.handles.insert(handle_id, ready), ..s };
        let events = s.passive_events.update(at, matched_with(event, handle_id));
        let inbox = items_matched(s.inbox, event.id);
        assert forall|i: int| 0 <= i < events.len() implies key_fits(
            a.threads,
            (#[trigger] events[i]).event_key,
            events[i].target_thread_id,
        ) by {
            assert(key_fits(
                s.threads,
                s.passive_events[i].event_key,
                s.passive_events[i].target_thread_id,
            ));
        }
        assert forall|i: int| 0 <= i < inbox.len() implies key_fits(
            a.threads,
            (#[trigger] inbox[i]).event_key,
            inbox[i].target_thread_id,
        ) by {
            assert(key_fits(s.threads, s.inbox[i].event_key, s.inbox[i].target_thread_id));
        }
        lemma_mail_moved(a, events, inbox);
        let b = ClosureStateView { passive_events: events, inbox, ..a };
        lemma_refreshed_wired(b, handle_id, now);
        let c = b.refreshed(handle_id, now);
        lemma_woken_wired(c, handle_id, now);
        lemma_woken_threads(c, handle_id, now);
        lemma_same_wiring(c.woken(handle_id, now), t);
        lemma_matching_idles(s, t, at, handle_id);
    } else {
        lemma_idles(s, t);
    }
}

proof fn lemma_waits_announced_wired(
    s: ClosureStateView,
    ctx: RuntimeContextView,
    now: Timestamp,
    reason: Seq<char>,
    ids: Seq<Seq<char>>,
    n: int,
)
    requires
        s.wired(),
        s.apart(),
        n <= ids.len(),
    ensures
        s.waits_announced(ctx, now, reason, ids, n).0.wired(),
        s.idles(s.waits_announced(ctx, now, reason, ids, n).0),
    decreases n,
{
    if n > 0 {
        lemma_waits_announced_wired(s, ctx, now, reason, ids, n - 1);
        let before = s.waits_announced(ctx, now, reason, ids, n - 1);
        if before.1 is Ok {
            let told = before.0.io_logged(
                ctx,
                now,
                IoEventKind::PassiveWaitCreated,
                Some(ids[n - 1]),
                Some(ctx.thread_id),
                "passive wait created: "@ + reason,
            );
            lemma_same_wiring(before.0, told);
            lemma_idles(before.0, told);
            lemma_inbox_matched_wired(told, ctx, now, ids[n - 1]);
            let after = told.inbox_matched(ctx, now, ids[n - 1]).0;
            lemma_idles_twice(before.0, told, after);
            lemma_idles_twice(s, before.0, after);
        }
    } else {
        lemma_idles(s, s);
    }
}

proof fn lemma_handles_parked_wired(
    s: ClosureStateView,
    thread_id: Seq<char>,
    now: Timestamp,
    specs: Seq<WaitSpecView>,
    n: int,
)
    requires
        s.orderly(),
        s.wired(),
        s.threads.contains_key(thread_id),
        0 <= n <= specs.len(),
        s.next_handle_seq + n <= u32::MAX,
        s.handles_parked(thread_id, now, specs, n).1 is Ok,
    ensures
        ({
            let t = s.handles_parked(thread_id, now, specs, n);
            &&& t.0.wired()
            &&& t.1->Ok_0.len() == n
            &&& forall|i: int| 0 <= i < n ==> t.0.handles.contains_key(#[trigger] t.1->Ok_0[i])
        }),
    decreases n,
{
    if n > 0 {
        lemma_handles_parked(s, thread_id, now, specs, n - 1);
        lemma_handles_parked_wired(s, thread_id, now, specs, n - 1);
        let before = s.handles_parked(thread_id, now, specs, n - 1);
        let key = before.0.wait_key(thread_id, specs[n - 1])->Ok_0;
        let after = before.0.with_passive_handle(thread_id, now, key, specs[n - 1].dedupe_key);
        let id = before.0.fresh_handle_id();
        assert(!before.0.handles.contains_key(id));
        lemma_handle_added(before.0, id, after.handles[id]);
        lemma_same_wiring(
            ClosureStateView {
                handles: before.0.handles.insert(id, after.handles[id]),
                ..before.0
            },
            after,
        );
    }
}

/// A thread parks.
pub proof fn lemma_parked_wired(
    s: ClosureStateView,
    ctx: RuntimeContextView,
    now: Timestamp,
    mode: WaitMode,
    reason: Seq<char>,
    specs: Seq<WaitSpecView>,
)
    requires
        s.orderly(),
        s.wired(),
        s.apart(),
        s.next_wait_seq < u32::MAX,
        s.next_handle_seq + specs.len() <= u32::MAX,
        s.parked(ctx, now, mode, reason, specs).1 is Ok,
    ensures
        s.parked(ctx, now, mode, reason, specs).0.wired(),
        s.idles(s.parked(ctx, now, mode, reason, specs).0),
{
    let wait_id = s.fresh_wait_id();
    let a = ClosureStateView { next_wait_seq: (s.next_wait_seq + 1) as u32, ..s };
    lemma_same_wiring(s, a);
    assert(a.orderly());
    let n = specs.len() as int;
    lemma_handles_parked(a, ctx.thread_id, now, specs, n);
    lemma_handles_parked_wired(a, ctx.thread_id, now, specs, n);
    let made = a.handles_parked(ctx.thread_id, now, specs, n);
    let b = made.0;
    let ids = made.1->Ok_0;
    let c = b.with_thread_wait(ctx, now, wait_id, mode, ids);
    lemma_wait_added(b, wait_id, c.waits[wait_id]);
    let d = ClosureStateView { waits: b.waits.insert(wait_id, c.waits[wait_id]), ..b };
    if d.is_reported(ctx.thread_id) {
        let h = choose|h: Seq<char>| #[trigger]
            d.is_for(h, ctx.thread_id) && (d.handles[h].status == IoHandleStatus::Ready
                || d.handles[h].status == IoHandleStatus::Failed);
        assert(d.handle_fits(h));
    }
    lemma_unreported_moves(d, ctx.thread_id, ThreadStatus::WaitingIo, now);
    assert(c.threads.dom() =~= s.threads.dom());
    lemma_idles(s, c);
    lemma_waits_announced_wired(c, ctx, now, reason, ids, ids.len() as int);
    lemma_idles_twice(
        s,
        c,
        c.waits_announced(ctx, now, reason, ids, ids.len() as int).0,
    );
}

proof fn lemma_delivered_wired(
    s: ClosureStateView,
    ctx: RuntimeContextView,
    now: Timestamp,
    routed: RoutedPassiveEventView,
    event_id: Seq<char>,
    ids: Seq<Seq<char>>,
    n: int,
)
    requires
        s.wired(),
        n <= ids.len(),
        forall|i: int|
            0 <= i < ids.len() ==> s.handles[#[trigger] ids[i]].kind != IoHandleKind::ChildThread,
    ensures
        ({
            let t = s.delivered(ctx, now, routed, event_id, ids, n).0;
            &&& t.wired()
            &&& s.idles(t)
            &&& forall|h: Seq<char>| #![trigger t.handles[h]] t.handles[h].kind == s.handles[h].kind
        }),
    decreases n,
{
    if n > 0 {
        lemma_delivered_wired(s, ctx, now, routed, event_id, ids, n - 1);
        let before = s.delivered(ctx, now, routed, event_id, ids, n - 1);
        let t = s.delivered(ctx, now, routed, event_id, ids, n).0;
        let id = ids[n - 1];
        if before.1 is Ok && before.0.handles.contains_key(id) {
            let handle = IoHandleView {
                status: IoHandleStatus::Ready,
                payload_ref: routed.input.payload_ref,
                resolved_event_id: Some(event_id),
                updated_at: now,
                ..before.0.handles[id]
            };
            assert(before.0.handles[id].kind == s.handles[id].kind);
            lemma_handle_moved(before.0, id, handle);
            let a = ClosureStateView { handles: before.0.handles.insert(id, handle), ..before.0 };
            lemma_refreshed_wired(a, id, now);
            let b = a.refreshed(id, now);
            lemma_woken_wired(b, id, now);
            lemma_woken_threads(b, id, now);
            lemma_same_wiring(b.woken(id, now), t);
            lemma_idles(before.0, t);
            lemma_idles_twice(s, before.0, t);
        }
    } else {
        lemma_idles(s, s);
    }
}

/// Only handles on mail are matched with an event.
proof fn lemma_matching_kinds(s: ClosureStateView, routed: RoutedPassiveEventView)
    requires
        s.filed(),
    ensures
        forall|i: int|
            0 <= i < s.matching_passive_handle_ids(routed).len() ==> s.handles[
            #[trigger] s.matching_passive_handle_ids(routed)[i]].kind != IoHandleKind::ChildThread,
{
    let vs = values(s.handles);
    let ids = s.matching_passive_handle_ids(routed);
    let chosen = select(vs, routed.wakes());
    lemma_listed(s.handles);
    lemma_kept(vs, routed.wakes(), vs.len() as int);
    assert forall|i: int| 0 <= i < ids.len() implies s.handles[#[trigger] ids[i]].kind
        != IoHandleKind::ChildThread by {
        assert(chosen.contains(chosen[i]));
        let k = vs.index_of(chosen[i]);
        assert(vs[k] == chosen[i]);
        assert(s.handles.contains_key(keys(s.handles)[k]));
        assert(ids[i] == keys(s.handles)[k]);
    }
}

/// An event is added to the mail: what was handled stays so.
proof fn lemma_event_added_idles(s: ClosureStateView, t: ClosureStateView, event: PassiveEventView)
    requires
        t.problems == s.problems,
        t.next_problem_seq == s.next_problem_seq,
        t.tickets == s.tickets,
        t.results == s.results,
        t.checks == s.checks,
        t.threads.dom() == s.threads.dom(),
        s.apart(),
        s.next_passive_event_seq < u32::MAX,
        event.id == s.fresh_event_id(),
        t.next_passive_event_seq == s.next_passive_event_seq + 1,
        t.passive_events == s.passive_events.push(event),
        s.inbox.is_prefix_of(t.inbox),
    ensures
        s.idles(t),
{
    assert forall|i: int| #[trigger] s.settles(i) implies t.settles(i) by {
        assert(t.inbox[i] == s.inbox[i]);
        let named = event_named(s.inbox[i].passive_event_id);
        lemma_find_from(s.passive_events, named, 0);
        lemma_find_from(t.passive_events, named, 0);
        let e = s.event_index(s.inbox[i].passive_event_id)->0;
        assert(t.passive_events[e] == s.passive_events[e]);
        assert(named(t.passive_events[e]));
        let f = t.event_index(s.inbox[i].passive_event_id)->0;
        if f < e {
            assert(t.passive_events[f] == s.passive_events[f]);
            assert(!named(s.passive_events[f]));
        }
        assert(f == e);
    }
    let events = t.passive_events;
    assert forall|i: int, j: int| 0 <= i < j < events.len() implies (#[trigger] events[i]).id != (
    #[trigger] events[j]).id by {
        assert(events[i] == s.passive_events[i]);
        if j < s.passive_events.len() {
            assert(events[j] == s.passive_events[j]);
        } else {
            assert(s.passive_events[i].id != numbered("PE"@, s.next_passive_event_seq as nat));
        }
    }
    assert forall|i: int, n: nat|
        0 <= i < events.len() && n >= t.next_passive_event_seq implies (
    #[trigger] events[i]).id != #[trigger] numbered("PE"@, n) by {
        if i < s.passive_events.len() {
            assert(events[i] == s.passive_events[i]);
        } else if events[i].id == numbered("PE"@, n) {
            lemma_numbered_injective("PE"@, s.next_passive_event_seq as nat, n);
        }
    }
}

/// An event comes in.
pub proof fn lemma_received_wired(
    s: ClosureStateView,
    ctx: RuntimeContextView,
    now: Timestamp,
    input: PassiveEventInputView,
)
    requires
        s.filed(),
        s.wired(),
        s.apart(),
        s.next_passive_event_seq < u32::MAX,
        s.received(ctx, now, input).1 is Ok,
    ensures
        s.received(ctx, now, input).0.wired(),
        s.idles(s.received(ctx, now, input).0),
{
    let t = s.received(ctx, now, input).0;
    let routed = input.route()->Ok_0;
    if s.duplicate_of(input) is Some {
        lemma_idles(s, s);
    } else {
        let event_id = s.fresh_event_id();
        let ids = s.matching_passive_handle_ids(routed);
        let recorded = s.event_recorded(ctx, now, routed);
        let events = recorded.passive_events;
        let event = events.last();
        assert(events == s.passive_events.push(event));
        assert forall|i: int| 0 <= i < events.len() implies key_fits(
            s.threads,
            (#[trigger] events[i]).event_key,
            events[i].target_thread_id,
        ) by {
            if i < s.passive_events.len() {
                assert(events[i] == s.passive_events[i]);
            }
        }
        lemma_mail_moved(s, events, s.inbox);
        lemma_same_wiring(ClosureStateView { passive_events: events, inbox: s.inbox, ..s }, recorded);
        lemma_event_added_idles(s, recorded, event);
        if ids.len() == 0 {
            let inbox = t.inbox;
            assert forall|i: int| 0 <= i < inbox.len() implies key_fits(
                recorded.threads,
                (#[trigger] inbox[i]).event_key,
                inbox[i].target_thread_id,
            ) by {
                if i < s.inbox.len() {
                    assert(inbox[i] == s.inbox[i]);
                }
            }
            lemma_mail_moved(recorded, events, inbox);
            lemma_same_wiring(
                ClosureStateView { passive_events: events, inbox, ..recorded },
                t,
            );
            lemma_event_added_idles(s, t, event);
        } else {
            lemma_matching_kinds(s, routed);
            lemma_delivered_wired(
                recorded,
                ctx,
                now,
                routed,
                event_id,
                ids,
                ids.len() as int,
            );
            lemma_idles_twice(s, recorded, t);
        }
    }
}

/// Items and events that become handled leave handled what was.
pub proof fn lemma_handling_idles(s: ClosureStateView, t: ClosureStateView)
    requires
        t.problems == s.problems,
        t.next_problem_seq == s.next_problem_seq,
        t.tickets == s.tickets,
        t.results == s.results,
        t.checks == s.checks,
        t.threads.dom() == s.threads.dom(),
        t.passive_events.len() == s.passive_events.len(),
        t.next_passive_event_seq == s.next_passive_event_seq,
        t.inbox.len() == s.inbox.len(),
        forall|i: int|
            #![trigger t.passive_events[i]]
            0 <= i < s.passive_events.len() ==> t.passive_events[i] == s.passive_events[i]
                || t.passive_events[i] == (PassiveEventView {
                status: PassiveEventStatus::Handled,
                ..s.passive_events[i]
            }),
        forall|i: int|
            #![trigger t.inbox[i]]
            0 <= i < s.inbox.len() ==> t.inbox[i] == s.inbox[i] || t.inbox[i] == (InboxItemView {
                status: PassiveEventStatus::Handled,
                ..s.inbox[i]
            }),
    ensures
        s.idles(t),
{
    assert forall|i: int|
        0 <= i < s.passive_events.len() && (#[trigger] s.passive_events[i]).status
            == PassiveEventStatus::Handled implies t.passive_events[i].status
        == PassiveEventStatus::Handled by {
        let e = t.passive_events[i];
    }
    assert forall|i: int| #[trigger] s.settles(i) implies t.settles(i) by {
        let item = t.inbox[i];
        let named = event_named(s.inbox[i].passive_event_id);
        lemma_find_from(s.passive_events, named, 0);
        lemma_find_from(t.passive_events, named, 0);
        let e = s.event_index(s.inbox[i].passive_event_id)->0;
        let event = t.passive_events[e];
        assert(named(event));
        let f = t.event_index(s.inbox[i].passive_event_id)->0;
        if f < e {
            let other = t.passive_events[f];
            assert(!named(s.passive_events[f]));
        }
        assert(f == e);
    }
    if s.apart() {
        assert forall|i: int, j: int| 0 <= i < j < t.passive_events.len() implies (
        #[trigger] t.passive_events[i]).id != (#[trigger] t.passive_events[j]).id by {
            assert(s.passive_events[i].id != s.passive_events[j].id);
        }
        assert forall|i: int, n: nat|
            0 <= i < t.passive_events.len() && n >= t.next_passive_event_seq implies (
        #[trigger] t.passive_events[i]).id != #[trigger] numbered("PE"@, n) by {
            assert(s.passive_events[i].id != numbered("PE"@, n));
        }
    }
}

/// Items and events that become handled stay wired.
pub proof fn lemma_handling_wired(
    s: ClosureStateView,
    passive_events: Seq<PassiveEventView>,
    inbox: Seq<InboxItemView>,
)
    requires
        s.wired(),
        passive_events.len() == s.passive_events.len(),
        inbox.len() == s.inbox.len(),
        forall|i: int|
            #![trigger passive_events[i]]
            0 <= i < s.passive_events.len() ==> passive_events[i].event_key
                == s.passive_events[i].event_key && passive_events[i].target_thread_id
                == s.passive_events[i].target_thread_id,
        forall|i: int|
            #![trigger inbox[i]]
            0 <= i < s.inbox.len() ==> inbox[i].event_key == s.inbox[i].event_key
                && inbox[i].target_thread_id == s.inbox[i].target_thread_id,
    ensures
        (ClosureStateView { passive_events, inbox, ..s }).wired(),
{
    assert forall|i: int| 0 <= i < passive_events.len() implies key_fits(
        s.threads,
        (#[trigger] passive_events[i]).event_key,
        passive_events[i].target_thread_id,
    ) by {
        assert(key_fits(
            s.threads,
            s.passive_events[i].event_key,
            s.passive_events[i].target_thread_id,
        ));
    }
    assert forall|i: int| 0 <= i < inbox.len() implies key_fits(
        s.threads,
        (#[trigger] inbox[i]).event_key,
        inbox[i].target_thread_id,
    ) by {
        assert(key_fits(s.threads, s.inbox[i].event_key, s.inbox[i].target_thread_id));
    }
    lemma_mail_moved(s, passive_events, inbox);
}

/// An inbox item is acknowledged.
pub proof fn lemma_acknowledged_wired(
    s: ClosureStateView,
    ctx: RuntimeContextView,
    now: Timestamp,
    item_id: Seq<char>,
    note: Seq<char>,
)
    requires
        s.wired(),
        s.acknowledged(ctx, now, item_id, note).1 is Ok,
    ensures
        s.acknowledged(ctx, now, item_id, note).0.wired(),
        s.idles(s.acknowledged(ctx, now, item_id, note).0),
{
    let t = s.acknowledged(ctx, now, item_id, note).0;
    lemma_find_from(s.inbox, item_named(item_id), 0);
    let at = s.item_index(item_id)->0;
    lemma_find_from(s.passive_events, event_named(s.inbox[at].passive_event_id), 0);
    lemma_handling_wired(s, t.passive_events, t.inbox);
    lemma_same_wiring(
        ClosureStateView { passive_events: t.passive_events, inbox: t.inbox, ..s },
        t,
    );
    lemma_handling_idles(s, t);
}

/// A child thread is added, with the handle and the wait by which its parent waits for it.
proof fn lemma_child_thread_wired(
    s: ClosureStateView,
    ctx: RuntimeContextView,
    now: Timestamp,
    problem_id: Seq<char>,
    fork: ContextForkView,
)
    requires
        s.orderly(),
        s.wired(),
        s.threads.contains_key(ctx.thread_id),
        s.problems.contains_key(problem_id),
        !s.is_reported(ctx.thread_id),
    ensures
        s.with_child_thread(ctx, now, problem_id, fork).wired(),
{
    let t = s.with_child_thread(ctx, now, problem_id, fork);
    let thread_id = s.fresh_thread_id();
    let handle_id = s.fresh_handle_id();
    let wait_id = s.fresh_wait_id();
    assert(!s.threads.contains_key(thread_id));
    assert(!s.handles.contains_key(handle_id));
    assert forall|id: Seq<char>| #[trigger] s.threads.contains_key(id) implies
        t.threads.contains_key(id) && t.threads[id].parent_thread_id
        == s.threads[id].parent_thread_id && t.threads[id].root_problem_id
        == s.threads[id].root_problem_id && t.threads[id].process_id == s.threads[id].process_id
        && t.threads[id].joined_at == s.threads[id].joined_at && (forall|c: Seq<char>|
        s.threads[id].child_thread_ids.contains(c) ==> #[trigger] t.threads[id].child_thread_ids.contains(
            c,
        )) by {
        if id == ctx.thread_id {
            let list = s.threads[id].child_thread_ids;
            assert forall|c: Seq<char>| list.contains(c) implies #[trigger] list.push(
                thread_id,
            ).contains(c) by {
                let k = list.index_of(c);
                assert(list.push(thread_id)[k] == c);
            }
        }
    }
    assert(t.threads[ctx.thread_id].child_thread_ids.contains(thread_id)) by {
        let list = s.threads[ctx.thread_id].child_thread_ids;
        assert(list.push(thread_id)[list.len() as int] == thread_id);
    }
    assert forall|id: Seq<char>| #[trigger] t.threads.contains_key(id) implies t.thread_fits(id) by {
        if id != thread_id {
            assert(s.threads.contains_key(id));
            assert(s.thread_fits(id));
            if s.threads[id].parent_thread_id is Some {
                assert(s.threads.contains_key(s.threads[id].parent_thread_id->0));
            }
        }
    }
    assert forall|h: Seq<char>| #[trigger] t.handles.contains_key(h) implies t.handle_fits(h) by {
        if h != handle_id {
            assert(s.handles.contains_key(h));
            assert(s.handle_fits(h));
            if s.handles[h].kind == IoHandleKind::ChildThread {
                let target = s.handles[h].target_thread_id->0;
                assert(s.threads.contains_key(target));
                assert(s.is_for(h, target));
            }
        }
    }
    assert forall|h: Seq<char>, id: Seq<char>| #[trigger]
        t.is_for(h, id) && id != thread_id implies s.is_for(h, id) by {}
    assert forall|id: Seq<char>| #[trigger]
        t.threads.contains_key(id) && t.threads[id].parent_thread_id is Some
        implies t.awaited_once(id) by {
        if id == thread_id {
            assert(t.is_for(handle_id, id));
            assert forall|h: Seq<char>| #[trigger] t.is_for(h, id) implies h == handle_id by {
                if h != handle_id {
                    assert(s.handles.contains_key(h));
                    assert(s.handle_fits(h));
                }
            }
        } else {
            assert(s.threads.contains_key(id));
            assert(s.awaited_once(id));
            let h = choose|h: Seq<char>| #[trigger] s.is_for(h, id);
            assert(t.is_for(h, id));
            assert forall|h: Seq<char>, k: Seq<char>| #[trigger] t.is_for(h, id)
                && #[trigger] t.is_for(k, id) implies h == k by {
                assert(s.is_for(h, id) && s.is_for(k, id));
            }
        }
    }
    assert forall|id: Seq<char>| #[trigger] settled(s.handles, id) implies settled(
        t.handles,
        id,
    ) by {}
    assert forall|id: Seq<char>| #[trigger] t.waits.contains_key(id) implies t.wait_fits(id) by {
        if id != wait_id {
            assert(s.waits.contains_key(id));
            assert(s.wait_fits(id));
            assert(s.threads.contains_key(s.waits[id].thread_id));
            if t.waits[id].status == WaitStatus::Ready {
                lemma_ready_stays(s.handles, t.handles, t.waits[id]);
            }
        }
    }
}

/// A thread is spawned.
pub proof fn lemma_spawned_wired(
    s: ClosureStateView,
    ctx: RuntimeContextView,
    now: Timestamp,
    problem_id: Seq<char>,
    policy: ContextForkPolicy,
    bootstrap_instruction: Seq<char>,
    inherited_cwd: Option<Seq<char>>,
    inherited_model: Option<Seq<char>>,
    inherited_tools: Seq<Seq<char>>,
)
    requires
        s.orderly(),
        s.wired(),
        branching(s.problems),
        !s.is_reported(ctx.thread_id),
        s.spawned(
            ctx,
            now,
            problem_id,
            policy,
            bootstrap_instruction,
            inherited_cwd,
            inherited_model,
            inherited_tools,
        ).1 is Ok,
    ensures
        s.spawned(
            ctx,
            now,
            problem_id,
            policy,
            bootstrap_instruction,
            inherited_cwd,
            inherited_model,
            inherited_tools,
        ).0.wired(),
{
    let t = s.spawned(
        ctx,
        now,
        problem_id,
        policy,
        bootstrap_instruction,
        inherited_cwd,
        inherited_model,
        inherited_tools,
    ).0;
    let fork = ContextForkView {
        policy,
        parent_thread_id: Some(ctx.thread_id),
        parent_actor_session_id: ctx.actor_session_id,
        fork_turn_id: None,
        bootstrap_instruction,
        inherited_cwd,
        inherited_model,
        inherited_tools,
    };
    lemma_child_thread_wired(s, ctx, now, problem_id, fork);
    let a = s.with_child_thread(ctx, now, problem_id, fork);
    law_handed_over_changes_owners(
        a.problems,
        a.problems,
        problem_id,
        s.fresh_thread_id(),
        now,
    );
    lemma_same_wiring(a, t);
}

/// A failed thread is recovered.
pub proof fn lemma_recovered_wired(
    s: ClosureStateView,
    ctx: RuntimeContextView,
    now: Timestamp,
    thread_id: Seq<char>,
)
    requires
        s.filed(),
        s.wired(),
        branching(s.problems),
        !s.is_reported(ctx.thread_id),
        ctx.thread_id != thread_id,
        s.recovered(ctx, now, thread_id).1 is Ok,
    ensures
        s.recovered(ctx, now, thread_id).0.wired(),
{
    let t = s.recovered(ctx, now, thread_id).0;
    let (handle_id, wait_id) = s.recoverable(ctx, thread_id)->Ok_0;
    lemma_found_handle(s, thread_id);
    law_handed_over_changes_owners(
        s.problems,
        s.problems,
        s.threads[thread_id].root_problem_id,
        ctx.thread_id,
        now,
    );
    let a = s.transferred(s.threads[thread_id].root_problem_id, ctx.thread_id, now).0;
    lemma_same_wiring(s, a);
    let handle = IoHandleView {
        status: IoHandleStatus::Cancelled,
        updated_at: now,
        ..a.handles[handle_id]
    };
    lemma_handle_moved(a, handle_id, handle);
    let b = a.with_handle_status(handle_id, IoHandleStatus::Cancelled, now);
    assert(!b.is_reported(thread_id)) by {
        assert(s.awaited_once(thread_id));
        assert forall|h: Seq<char>| #[trigger] b.is_for(h, thread_id) implies b.handles[h].status
            == IoHandleStatus::Cancelled by {
            assert(s.is_for(h, thread_id));
        }
    }
    lemma_unreported_moves(b, thread_id, ThreadStatus::Recovered, now);
    let c = b.with_thread_status(thread_id, ThreadStatus::Recovered, now);
    lemma_wait_over_wired(c, wait_id, now);
    let d = c.with_wait_status(wait_id, WaitStatus::Consumed, now);
    assert(!d.is_reported(ctx.thread_id)) by {
        assert forall|h: Seq<char>| #[trigger] d.is_for(h, ctx.thread_id) implies
            d.handles[h].status != IoHandleStatus::Ready && d.handles[h].status
            != IoHandleStatus::Failed by {
            assert(s.is_for(h, ctx.thread_id));
        }
    }
    lemma_unreported_moves(d, ctx.thread_id, ThreadStatus::Running, now);
    lemma_same_wiring(d.with_thread_status(ctx.thread_id, ThreadStatus::Running, now), t);
}

/// A thread whose root problem is closed is done, and its parent is told.
pub proof fn lemma_thread_finished_wired(
    s: ClosureStateView,
    ctx: RuntimeContextView,
    now: Timestamp,
    problem_id: Seq<char>,
)
    requires
        s.filed(),
        s.wired(),
        s.thread_finished(ctx, now, problem_id).1 is Ok,
    ensures
        s.thread_finished(ctx, now, problem_id).0.wired(),
        s.idles(s.thread_finished(ctx, now, problem_id).0),
{
    let t = s.thread_finished(ctx, now, problem_id).0;
    let id = ctx.thread_id;
    if s.threads[id].root_problem_id != problem_id {
        lemma_idles(s, t);
    } else {
        let done = s.with_thread_status(id, ThreadStatus::Done, now);
        let thread = done.threads[id];
        let said = "child Qunux thread root problem is done"@;
        assert(done.filed());
        lemma_found_handle(done, id);
        assert forall|h: Seq<char>| #[trigger] s.is_for(h, id) implies suits(
            s.handles[h],
            thread,
        ) by {
            assert(s.handle_fits(h));
            assert(s.awaited_once(id));
            assert(done.is_for(h, id));
            let found = done.child_thread_handle_id(id)->0;
            assert(s.is_for(found, id));
            assert(h == found);
        }
        lemma_thread_moved(s, id, thread);
        lemma_idles(s, done);
        if s.threads[id].parent_thread_id is Some {
            lemma_child_ready_wired(done, ctx, now, id, said);
            lemma_idles_twice(s, done, t);
        }
    }
}

} // verus!
