//! What becomes of everything an operation touches, and on which inputs it succeeds.
use vstd::prelude::*;
use crate::clock::Timestamp;
use crate::context::RuntimeContextView;
use crate::entities::{ClosureStateView, InboxItemView, IoHandleView, PassiveEventView, ProblemView, ThreadView};
use crate::forest::{branching, forest, handed_over, handed_over_below, height, lemma_height, lemma_listed_below, listed, Problems};
use crate::handover::lemma_spawned_changes;
use crate::history::law_actor_stopped_keeps_history;
use crate::inbox::deduped_by;
use crate::keeping::{law_handed_over_changes_owners, law_spawned_keeps_history, only_owners_differ};
use crate::kinds::{ContextForkPolicy, IoHandleKind, IoHandleStatus, PassiveEventStatus, ThreadStatus, WaitMode, WaitStatus};
use crate::laws::{law_recover_gives_back, within};
use crate::lookup::{awaits_thread, bound_to, event_named, item_named, lists_handle, still_running};
use crate::planning::lemma_descends_kept;
use crate::search::{find_first, lemma_find_from, lemma_kept};
use crate::soundness::lemma_same_links_forest;
use crate::strmap::{keys, lemma_listed, values};
use crate::upkeep::lemma_refreshed_dom;
use crate::wake::waits_refreshed;

verus! {

impl ClosureStateView {
    /// The wait is the only one that lists the handle.
    pub open spec fn sole_wait(self, wait_id: Seq<char>, handle_id: Seq<char>) -> bool {
        forall|id: Seq<char>| #[trigger]
            self.waits.contains_key(id) && self.waits[id].handle_ids.contains(handle_id) <==> id
                == wait_id
    }

    /// The handle is the only one for the child thread.
    pub open spec fn sole_handle(self, handle_id: Seq<char>, thread_id: Seq<char>) -> bool {
        forall|id: Seq<char>| #[trigger] self.is_for(id, thread_id) <==> id == handle_id
    }
}

proof fn lemma_sole_wait_there(s: ClosureStateView, wait_id: Seq<char>, handle_id: Seq<char>)
    requires
        s.sole_wait(wait_id, handle_id),
    ensures
        s.waits.contains_key(wait_id),
{
    assert(s.waits.contains_key(wait_id) && s.waits[wait_id].handle_ids.contains(handle_id));
}

/// The only wait that lists a handle is the one that is found.
pub proof fn lemma_sole_wait(s: ClosureStateView, wait_id: Seq<char>, handle_id: Seq<char>)
    requires
        s.waits.dom().finite(),
        s.waits[wait_id].id == wait_id,
        s.sole_wait(wait_id, handle_id),
    ensures
        s.wait_id_for_handle(handle_id) == Some(wait_id),
        s.waits.contains_key(wait_id),
{
    let f = lists_handle(handle_id);
    let ks = keys(s.waits);
    let vs = values(s.waits);
    lemma_listed(s.waits);
    lemma_find_from(vs, f, 0);
    assert(s.waits.contains_key(wait_id) && s.waits[wait_id].handle_ids.contains(handle_id));
    let k = ks.index_of(wait_id);
    assert(ks[k] == wait_id);
    assert(f(vs[k]));
    let found = find_first(vs, f)->0;
    let i = crate::search::find_from(vs, f, 0)->0;
    assert(s.waits.contains_key(ks[i]));
    assert(ks[i] == wait_id);
}

proof fn lemma_siblings(
    s: ClosureStateView,
    ids: Seq<Seq<char>>,
    n: int,
    taken: Seq<char>,
    now: Timestamp,
)
    requires
        0 <= n <= ids.len(),
    ensures
        ({
            let t = s.siblings_cancelled(ids, n, taken, now);
            &&& t == (ClosureStateView { handles: t.handles, ..s })
            &&& t.handles.dom() == s.handles.dom()
            &&& t.handles[taken] == s.handles[taken]
            &&& forall|h: Seq<char>|
                #![trigger t.handles[h]]
                t.handles[h] == s.handles[h] || (h != taken && (s.handles[h].status
                    == IoHandleStatus::Pending || s.handles[h].status == IoHandleStatus::Ready)
                    && t.handles[h] == (IoHandleView {
                    status: IoHandleStatus::Cancelled,
                    updated_at: now,
                    ..s.handles[h]
                }) && ids.contains(h))
            &&& forall|i: int|
                0 <= i < n && ids[i] != taken && s.handles.contains_key(#[trigger] ids[i]) ==> (
                s.handles[ids[i]].status == IoHandleStatus::Pending || s.handles[ids[i]].status
                    == IoHandleStatus::Ready ==> t.handles[ids[i]].status
                    == IoHandleStatus::Cancelled)
        }),
    decreases n,
{
    if n > 0 {
        lemma_siblings(s, ids, n - 1, taken, now);
        let before = s.siblings_cancelled(ids, n - 1, taken, now);
        let t = s.siblings_cancelled(ids, n, taken, now);
        assert(t.handles.dom() =~= s.handles.dom());
        assert(ids.contains(ids[n - 1]));
        assert forall|h: Seq<char>|
            #![trigger t.handles[h]]
            t.handles[h] == s.handles[h] || (h != taken && (s.handles[h].status
                == IoHandleStatus::Pending || s.handles[h].status == IoHandleStatus::Ready)
                && t.handles[h] == (IoHandleView {
                status: IoHandleStatus::Cancelled,
                updated_at: now,
                ..s.handles[h]
            }) && ids.contains(h)) by {
            let b = before.handles[h];
        }
        assert forall|i: int|
            0 <= i < n && ids[i] != taken && s.handles.contains_key(#[trigger] ids[i]) && (
            s.handles[ids[i]].status == IoHandleStatus::Pending || s.handles[ids[i]].status
                == IoHandleStatus::Ready) implies t.handles[ids[i]].status
            == IoHandleStatus::Cancelled by {
            let b = before.handles[ids[i]];
        }
    }
}

/// A ready handle on mail, owned by the acting thread, whose wait is for any, is taken: the wait is
/// over, the other handles of the wait that were pending or ready are cancelled, all other handles
/// keep everything, the thread runs, what the handle brought is handed out, and the handle is not
/// taken a second time.
pub proof fn law_any_wait_is_consumed(
    s: ClosureStateView,
    ctx: RuntimeContextView,
    now: Timestamp,
    handle_id: Seq<char>,
    wait_id: Seq<char>,
    again_ctx: RuntimeContextView,
    again_now: Timestamp,
)
    requires
        s.handles.contains_key(handle_id),
        s.handles[handle_id].owner_thread_id == ctx.thread_id,
        s.handles[handle_id].kind != IoHandleKind::ChildThread,
        s.handles[handle_id].status == IoHandleStatus::Ready,
        s.waits.dom().finite(),
        s.waits[wait_id].id == wait_id,
        s.sole_wait(wait_id, handle_id),
        s.waits[wait_id].mode == WaitMode::Any,
    ensures
        ({
            let t = s.consumed(ctx, now, handle_id).0;
            let listed = s.waits[wait_id].handle_ids;
            &&& s.consumed(ctx, now, handle_id).1 matches Ok(c) && c.wait_id == wait_id
                && c.handle_id == handle_id && c.payload_ref == s.handles[handle_id].payload_ref
                && c.resolved_event_id == s.handles[handle_id].resolved_event_id
                && c.joined_thread is None
            &&& t.handles[handle_id].status == IoHandleStatus::Consumed
            &&& t.waits[wait_id].status == WaitStatus::Consumed
            &&& forall|h: Seq<char>| #[trigger]
                s.handles.contains_key(h) && h != handle_id ==> if listed.contains(h) && (
                s.handles[h].status == IoHandleStatus::Pending || s.handles[h].status
                    == IoHandleStatus::Ready) {
                    t.handles[h].status == IoHandleStatus::Cancelled
                } else {
                    t.handles[h] == s.handles[h]
                }
            &&& s.threads.contains_key(ctx.thread_id) ==> t.threads[ctx.thread_id].status
                == ThreadStatus::Running
            &&& t.consumed(again_ctx, again_now, handle_id).1 is Err
            &&& t.consumed(again_ctx, again_now, handle_id).0 == t
        }),
{
    let t = s.consumed(ctx, now, handle_id).0;
    lemma_sole_wait(s, wait_id, handle_id);
    let a = s.with_handle_status(handle_id, IoHandleStatus::Consumed, now);
    let ids = s.waits[wait_id].handle_ids;
    let b = a.siblings_cancelled(ids, ids.len() as int, handle_id, now);
    lemma_siblings(a, ids, ids.len() as int, handle_id, now);
    assert(t.handles == b.handles);
    assert forall|h: Seq<char>| #[trigger] s.handles.contains_key(h) && h != handle_id implies if ids.contains(
        h,
    ) && (s.handles[h].status == IoHandleStatus::Pending || s.handles[h].status
        == IoHandleStatus::Ready) {
        t.handles[h].status == IoHandleStatus::Cancelled
    } else {
        t.handles[h] == s.handles[h]
    } by {
        assert(a.handles[h] == s.handles[h]);
        assert(b.handles[h] == t.handles[h]);
        if ids.contains(h) {
            let i = ids.index_of(h);
            assert(ids[i] == h);
            assert(a.handles.contains_key(ids[i]));
        }
    }
}

/// An event that repeats a recorded one is answered as a duplicate of the first such event, exactly
/// if it could be routed to a known thread; whatever is answered, nothing changes.
pub proof fn law_duplicate_event_is_answered(
    s: ClosureStateView,
    ctx: RuntimeContextView,
    now: Timestamp,
    input: crate::reports::PassiveEventInputView,
    i: int,
)
    requires
        input.dedupe_key is Some,
        0 <= i < s.passive_events.len(),
        s.passive_events[i].dedupe_key == input.dedupe_key,
        forall|j: int|
            0 <= j < i ==> (#[trigger] s.passive_events[j]).dedupe_key != input.dedupe_key,
    ensures
        ({
            let (t, r) = s.received(ctx, now, input);
            let e = s.passive_events[i];
            &&& t == s
            &&& r is Ok <==> input.route() is Ok && (input.key().target_thread_id is None
                || s.threads.contains_key(input.key().target_thread_id->0))
            &&& r matches Ok(receipt) ==> {
                &&& receipt.status == PassiveEventStatus::Duplicate
                &&& receipt.event_id == e.id
                &&& receipt.duplicate_of_event_id == Some(e.id)
                &&& receipt.matched_handle_ids == e.matched_handle_ids
                &&& receipt.wake_decision.runnable_threads.len() == 0
            }
        }),
{
    let f = deduped_by(input.dedupe_key->0);
    lemma_find_from(s.passive_events, f, 0);
    assert(f(s.passive_events[i]));
    let k = crate::search::find_from(s.passive_events, f, 0)->0;
    if k < i {
        assert(s.passive_events[k].dedupe_key != input.dedupe_key);
    }
    assert(k == i);
}

/// An inbox item is acknowledged exactly if it is there, still inboxed, and for the acting thread or
/// for none. Then it and its event, if that was inboxed, are handled, and no other item or event
/// changes; else nothing changes. A second acknowledgement is refused.
pub proof fn law_acknowledged_marks_one_item(
    s: ClosureStateView,
    ctx: RuntimeContextView,
    now: Timestamp,
    item_id: Seq<char>,
    note: Seq<char>,
    again_ctx: RuntimeContextView,
    again_now: Timestamp,
    again_note: Seq<char>,
)
    ensures
        ({
            let (t, r) = s.acknowledged(ctx, now, item_id, note);
            let at = s.item_index(item_id);
            let item = s.inbox[at->0];
            &&& r is Ok <==> at is Some && item.status == PassiveEventStatus::Inboxed && (
            item.target_thread_id is None || item.target_thread_id == Some(ctx.thread_id))
            &&& r is Err ==> t == s
            &&& r matches Ok(handled) ==> {
                let event_at = s.event_index(item.passive_event_id);
                &&& handled == (InboxItemView { status: PassiveEventStatus::Handled, ..item })
                &&& t.inbox == s.inbox.update(at->0, handled)
                &&& t.passive_events == if event_at is Some
                    && s.passive_events[event_at->0].status == PassiveEventStatus::Inboxed {
                    s.passive_events.update(
                        event_at->0,
                        PassiveEventView {
                            status: PassiveEventStatus::Handled,
                            ..s.passive_events[event_at->0]
                        },
                    )
                } else {
                    s.passive_events
                }
                &&& t.acknowledged(again_ctx, again_now, item_id, again_note).1 is Err
            }
        }),
{
    let (t, r) = s.acknowledged(ctx, now, item_id, note);
    let named = item_named(item_id);
    lemma_find_from(s.inbox, named, 0);
    lemma_find_from(t.inbox, named, 0);
    if r is Ok {
        let at = s.item_index(item_id)->0;
        lemma_find_from(s.passive_events, event_named(s.inbox[at].passive_event_id), 0);
        assert(named(t.inbox[at]));
        let k = t.item_index(item_id)->0;
        if k < at {
            assert(!named(s.inbox[k]));
        }
        assert(k == at);
    }
}

/// The only handle for a child thread is the one that is found.
pub proof fn lemma_sole_handle(s: ClosureStateView, handle_id: Seq<char>, thread_id: Seq<char>)
    requires
        s.handles.dom().finite(),
        s.handles[handle_id].id == handle_id,
        s.sole_handle(handle_id, thread_id),
    ensures
        s.child_thread_handle_id(thread_id) == Some(handle_id),
        s.handles.contains_key(handle_id),
{
    let f = awaits_thread(thread_id);
    let ks = keys(s.handles);
    let vs = values(s.handles);
    lemma_listed(s.handles);
    lemma_find_from(vs, f, 0);
    assert(s.is_for(handle_id, thread_id));
    let k = ks.index_of(handle_id);
    assert(ks[k] == handle_id);
    assert(f(vs[k]));
    let i = crate::search::find_from(vs, f, 0)->0;
    assert(s.handles.contains_key(ks[i]));
    assert(s.is_for(ks[i], thread_id));
    assert(ks[i] == handle_id);
}

/// None of a thread's children is open exactly if each that is there has ended.
pub proof fn lemma_no_open_children(s: ClosureStateView, thread_id: Seq<char>)
    requires
        s.threads.contains_key(thread_id),
    ensures
        s.open_child_thread_ids(thread_id).len() == 0 <==> s.children_ended(thread_id),
{
    let ids = s.threads[thread_id].child_thread_ids;
    let f = still_running(s.threads);
    let open = s.open_child_thread_ids(thread_id);
    lemma_kept(ids, f, ids.len() as int);
    if open.len() == 0 {
        assert forall|i: int|
            0 <= i < ids.len() && s.threads.contains_key(#[trigger] ids[i]) implies
            s.threads[ids[i]].status.is_terminal() by {
            if f(ids[i]) {
                assert(open.contains(ids[i]));
            }
        }
    } else {
        assert(open.contains(open[0]));
        let i = ids.index_of(open[0]);
        assert(ids[i] == open[0]);
    }
}

impl ClosureStateView {
    /// Every child of a thread is done, failed, cancelled or recovered.
    pub open spec fn children_ended(self, thread_id: Seq<char>) -> bool {
        let ids = self.threads[thread_id].child_thread_ids;
        forall|i: int|
            0 <= i < ids.len() && self.threads.contains_key(#[trigger] ids[i])
                ==> self.threads[ids[i]].status.is_terminal()
    }
}

proof fn lemma_taken_back_settles(
    s: ClosureStateView,
    ctx: RuntimeContextView,
    now: Timestamp,
    thread_id: Seq<char>,
    parent_id: Seq<char>,
    message: Seq<char>,
    handle_id: Seq<char>,
    wait_id: Seq<char>,
)
    requires
        s.threads.contains_key(thread_id),
        s.waits.contains_key(wait_id),
        s.handles[handle_id].status == IoHandleStatus::Ready,
    ensures
        ({
            let (t, r) = s.taken_back(
                ctx,
                now,
                thread_id,
                parent_id,
                message,
                handle_id,
                wait_id,
            );
            &&& r matches Ok(j) && j.thread_id == thread_id && j.parent_thread_id == parent_id
                && j.handle_id == handle_id && j.wait_id == wait_id && j.root_problem_id
                == s.threads[thread_id].root_problem_id
            &&& t.threads.contains_key(thread_id)
            &&& t.threads[thread_id].joined_at is Some
            &&& t.handles[handle_id].status == IoHandleStatus::Consumed
            &&& t.waits[wait_id].status == WaitStatus::Consumed
            &&& s.threads.contains_key(parent_id) ==> if s.open_child_thread_ids(parent_id).len()
                == 0 {
                t.threads[parent_id].status == ThreadStatus::Running
            } else {
                t.threads[parent_id].status == s.threads[parent_id].status
            }
        }),
{
    let joined = ClosureStateView {
        threads: s.threads.insert(
            thread_id,
            ThreadView { joined_at: Some(now), updated_at: now, ..s.threads[thread_id] },
        ),
        ..s
    };
    assert(still_running(joined.threads) =~= still_running(s.threads));
    assert(joined.open_child_thread_ids(parent_id) == s.open_child_thread_ids(parent_id));
}

/// A child thread with one handle, which one wait lists, is joined exactly if the parent asks, the
/// thread is done and not joined yet, and the handle is pending or ready. Then the thread is joined,
/// the handle and the wait are over, and the parent runs if all its children have ended and keeps
/// its status else. The thread is not joined a second time.
pub proof fn law_joined_settles_everything(
    s: ClosureStateView,
    ctx: RuntimeContextView,
    now: Timestamp,
    thread_id: Seq<char>,
    parent_id: Seq<char>,
    message: Seq<char>,
    handle_id: Seq<char>,
    wait_id: Seq<char>,
    again_ctx: RuntimeContextView,
    again_now: Timestamp,
    again_parent_id: Seq<char>,
    again_message: Seq<char>,
)
    requires
        s.handles.dom().finite(),
        s.waits.dom().finite(),
        s.handles[handle_id].id == handle_id,
        s.waits[wait_id].id == wait_id,
        s.threads.contains_key(thread_id),
        s.sole_handle(handle_id, thread_id),
        s.sole_wait(wait_id, handle_id),
    ensures
        ({
            let (t, r) = s.joined(ctx, now, thread_id, parent_id, message);
            let child = s.threads[thread_id];
            &&& r is Ok <==> child.parent_thread_id == Some(parent_id) && child.status
                == ThreadStatus::Done && child.joined_at is None && (s.handles[handle_id].status
                == IoHandleStatus::Pending || s.handles[handle_id].status == IoHandleStatus::Ready)
            &&& r matches Ok(j) ==> {
                &&& j.thread_id == thread_id && j.parent_thread_id == parent_id && j.handle_id
                    == handle_id && j.wait_id == wait_id && j.root_problem_id
                    == child.root_problem_id
                &&& t.threads[thread_id].joined_at is Some
                &&& t.handles[handle_id].status == IoHandleStatus::Consumed
                &&& t.waits[wait_id].status == WaitStatus::Consumed
                &&& s.threads.contains_key(parent_id) ==> if s.children_ended(parent_id) {
                    t.threads[parent_id].status == ThreadStatus::Running
                } else {
                    t.threads[parent_id].status == s.threads[parent_id].status
                }
                &&& t.joined(again_ctx, again_now, thread_id, again_parent_id, again_message).1
                    is Err
            }
        }),
{
    lemma_sole_handle(s, handle_id, thread_id);
    lemma_sole_wait(s, wait_id, handle_id);
    if s.threads.contains_key(parent_id) {
        lemma_no_open_children(s, parent_id);
    }
    if s.joinable(thread_id, parent_id) is Ok {
        if s.handles[handle_id].status == IoHandleStatus::Pending {
            let a = s.child_ready(ctx, now, thread_id, "joining done child thread"@).0;
            lemma_refreshed_dom(
                s.with_handle_status(handle_id, IoHandleStatus::Ready, now),
                handle_id,
                now,
            );
            assert(a.threads == s.threads);
            assert(a.open_child_thread_ids(parent_id) == s.open_child_thread_ids(parent_id));
            lemma_taken_back_settles(
                a,
                ctx,
                now,
                thread_id,
                parent_id,
                message,
                handle_id,
                wait_id,
            );
        } else if s.handles[handle_id].status == IoHandleStatus::Ready {
            lemma_taken_back_settles(
                s,
                ctx,
                now,
                thread_id,
                parent_id,
                message,
                handle_id,
                wait_id,
            );
        }
    }
}

/// A child thread with one handle, which one wait lists, is recovered exactly if its parent asks,
/// the thread failed or was cancelled and is not joined, the handle is the parent's and failed or
/// cancelled, and every problem below its root is there. Then the subtree is the parent's again, the
/// thread is recovered, the handle is cancelled, the wait is over and the parent runs. The thread is
/// not recovered a second time.
pub proof fn law_recovered_settles_everything(
    s: ClosureStateView,
    ctx: RuntimeContextView,
    now: Timestamp,
    thread_id: Seq<char>,
    handle_id: Seq<char>,
    wait_id: Seq<char>,
    again_ctx: RuntimeContextView,
    again_now: Timestamp,
)
    requires
        s.handles.dom().finite(),
        s.waits.dom().finite(),
        s.handles[handle_id].id == handle_id,
        s.waits[wait_id].id == wait_id,
        branching(s.problems),
        s.threads.contains_key(thread_id),
        s.threads.contains_key(ctx.thread_id),
        thread_id != ctx.thread_id,
        s.sole_handle(handle_id, thread_id),
        s.sole_wait(wait_id, handle_id),
    ensures
        ({
            let (t, r) = s.recovered(ctx, now, thread_id);
            let child = s.threads[thread_id];
            let root = child.root_problem_id;
            &&& r is Ok <==> {
                &&& child.parent_thread_id == Some(ctx.thread_id)
                &&& child.status == ThreadStatus::Failed || child.status == ThreadStatus::Cancelled
                &&& child.joined_at is None
                &&& s.handles[handle_id].owner_thread_id == ctx.thread_id
                &&& s.handles[handle_id].status == IoHandleStatus::Failed
                    || s.handles[handle_id].status == IoHandleStatus::Cancelled
                &&& handed_over(s.problems, s.problems, root, ctx.thread_id, now).1 is None
            }
            &&& r matches Ok(done) ==> {
                &&& done.thread_id == thread_id && done.root_problem_id == root
                    && done.parent_thread_id == ctx.thread_id && done.handle_id == handle_id
                    && done.wait_id == wait_id
                &&& t.threads[thread_id].status == ThreadStatus::Recovered
                &&& t.threads[ctx.thread_id].status == ThreadStatus::Running
                &&& t.handles[handle_id].status == IoHandleStatus::Cancelled
                &&& t.waits[wait_id].status == WaitStatus::Consumed
                &&& forall|x: Seq<char>| #[trigger]
                    within(s.problems, root, x) ==> t.problems[x].owner_thread_id == ctx.thread_id
                &&& t.recovered(again_ctx, again_now, thread_id).1 is Err
                &&& t.recovered(again_ctx, again_now, thread_id).0 == t
            }
        }),
{
    lemma_sole_handle(s, handle_id, thread_id);
    lemma_sole_wait(s, wait_id, handle_id);
    let (t, r) = s.recovered(ctx, now, thread_id);
    if r is Ok {
        law_recover_gives_back(s, ctx, now, thread_id);
    }
}

/// Whether everything below a problem is there to be handed over does not depend on owners.
proof fn lemma_handed_over_alike(
    a: Problems,
    b: Problems,
    x: Problems,
    y: Problems,
    id: Seq<char>,
    first: (Seq<char>, Timestamp),
    second: (Seq<char>, Timestamp),
)
    requires
        branching(a),
        branching(b),
        only_owners_differ(a, b),
    ensures
        handed_over(a, x, id, first.0, first.1).1 is None <==> handed_over(
            b,
            y,
            id,
            second.0,
            second.1,
        ).1 is None,
    decreases height(a, id), listed(a[id]).len() + 1,
{
    if a.contains_key(id) {
        assert(listed(a[id]) == listed(b[id]));
        lemma_handed_over_below_alike(
            a,
            b,
            x.insert(id, ProblemView { owner_thread_id: first.0, updated_at: first.1, ..x[id] }),
            y.insert(id, ProblemView { owner_thread_id: second.0, updated_at: second.1, ..y[id] }),
            id,
            first,
            second,
            0,
        );
    }
}

proof fn lemma_handed_over_below_alike(
    a: Problems,
    b: Problems,
    x: Problems,
    y: Problems,
    id: Seq<char>,
    first: (Seq<char>, Timestamp),
    second: (Seq<char>, Timestamp),
    i: int,
)
    requires
        branching(a),
        branching(b),
        only_owners_differ(a, b),
        a.contains_key(id),
        0 <= i,
    ensures
        handed_over_below(a, x, id, first.0, first.1, i).1 is None <==> handed_over_below(
            b,
            y,
            id,
            second.0,
            second.1,
            i,
        ).1 is None,
    decreases height(a, id), listed(a[id]).len() - i,
{
    assert(listed(a[id]) == listed(b[id]));
    if i < listed(a[id]).len() {
        let c = listed(a[id])[i];
        lemma_listed_below(a[id], i);
        lemma_height(a, id, c);
        lemma_handed_over_alike(a, b, x, y, c, first, second);
        let left = handed_over(a, x, c, first.0, first.1);
        let right = handed_over(b, y, c, second.0, second.1);
        if left.1 is None {
            lemma_handed_over_below_alike(a, b, left.0, right.0, id, first, second, i + 1);
        }
    }
}

/// The handle and the wait for a thread that was just spawned are its only ones.
proof fn lemma_spawned_sole(
    s: ClosureStateView,
    ctx: RuntimeContextView,
    now: Timestamp,
    problem_id: Seq<char>,
    policy: ContextForkPolicy,
    bootstrap_instruction: Seq<char>,
    inherited_cwd: Option<Seq<char>>,
    inherited_model: Option<Seq<char>>,
    inherited_tools: Seq<Seq<char>>,
)
    requires
        s.orderly(),
        s.wired(),
        s.spawned(
            ctx,
            now,
            problem_id,
            policy,
            bootstrap_instruction,
            inherited_cwd,
            inherited_model,
            inherited_tools,
        ).1 is Ok,
    ensures
        ({
            let (t, r) = s.spawned(
                ctx,
                now,
                problem_id,
                policy,
                bootstrap_instruction,
                inherited_cwd,
                inherited_model,
                inherited_tools,
            );
            let thread_id = s.fresh_thread_id();
            &&& r->Ok_0.thread_id == thread_id
            &&& r->Ok_0.handle_id == s.fresh_handle_id()
            &&& r->Ok_0.wait_id == s.fresh_wait_id()
            &&& t.sole_handle(s.fresh_handle_id(), thread_id)
            &&& t.sole_wait(s.fresh_wait_id(), s.fresh_handle_id())
            &&& t.handles[s.fresh_handle_id()].owner_thread_id == ctx.thread_id
            &&& t.threads[thread_id].joined_at is None
            &&& forall|x: Seq<char>| #[trigger]
                s.threads.contains_key(x) && x != ctx.thread_id ==> t.threads[x] == s.threads[x]
        }),
{
    let t = s.spawned(
        ctx,
        now,
        problem_id,
        policy,
        bootstrap_instruction,
        inherited_cwd,
        inherited_model,
        inherited_tools,
    ).0;
    let thread_id = s.fresh_thread_id();
    let handle_id = s.fresh_handle_id();
    let wait_id = s.fresh_wait_id();
    assert(!s.threads.contains_key(thread_id));
    assert(!s.handles.contains_key(handle_id));
    assert(!s.waits.contains_key(wait_id));
    assert forall|id: Seq<char>| #[trigger] t.is_for(id, thread_id) <==> id == handle_id by {
        if id != handle_id && s.handles.contains_key(id) {
            assert(s.handle_fits(id));
        }
    }
    assert forall|id: Seq<char>| #[trigger]
        t.waits.contains_key(id) && t.waits[id].handle_ids.contains(handle_id) <==> id
            == wait_id by {
        if id == wait_id {
            assert(seq![handle_id][0] == handle_id);
        } else if s.waits.contains_key(id) {
            assert(s.wait_fits(id));
            let ids = s.waits[id].handle_ids;
            if ids.contains(handle_id) {
                let i = ids.index_of(handle_id);
                assert(s.handles.contains_key(ids[i]));
            }
        }
    }
}

/// What the end of an actor before its time leaves of the thread, its handle and its wait.
proof fn lemma_stopped_leaves(
    s: ClosureStateView,
    ctx: RuntimeContextView,
    now: Timestamp,
    thread_id: Seq<char>,
    status: Seq<char>,
    handle_id: Seq<char>,
    wait_id: Seq<char>,
)
    requires
        s.filed(),
        s.sole_handle(handle_id, thread_id),
        s.sole_wait(wait_id, handle_id),
        s.threads[thread_id].parent_thread_id != Some(thread_id),
        s.actor_stopped(ctx, now, thread_id, status).1 is Ok,
    ensures
        ({
            let t = s.actor_stopped(ctx, now, thread_id, status).0;
            &&& t.problems == s.problems
            &&& t.sole_handle(handle_id, thread_id)
            &&& t.sole_wait(wait_id, handle_id)
            &&& t.handles[handle_id].status == IoHandleStatus::Failed
            &&& t.handles[handle_id].owner_thread_id == s.handles[handle_id].owner_thread_id
            &&& t.threads.dom() == s.threads.dom()
            &&& t.threads[thread_id].status == ThreadStatus::Failed
            &&& t.threads[thread_id].joined_at == s.threads[thread_id].joined_at
            &&& forall|x: Seq<char>| #[trigger]
                s.threads.contains_key(x) && x != thread_id && Some(x)
                    != s.threads[thread_id].parent_thread_id ==> t.threads[x] == s.threads[x]
        }),
{
    assert(s.is_for(handle_id, thread_id));
    lemma_sole_handle(s, handle_id, thread_id);
    let t = s.actor_stopped(ctx, now, thread_id, status).0;
    let a = s.with_thread_status(thread_id, ThreadStatus::Failed, now).with_handle_status(
        handle_id,
        IoHandleStatus::Failed,
        now,
    );
    lemma_refreshed_lists(a, handle_id, now);
    assert(t.handles == a.handles);
    assert(t.waits == a.refreshed(handle_id, now).waits);
    assert(t.threads.dom() =~= s.threads.dom());
    assert forall|id: Seq<char>| #[trigger] t.is_for(id, thread_id) <==> id == handle_id by {
        assert(s.is_for(id, thread_id) <==> id == handle_id);
    }
    assert forall|id: Seq<char>| #[trigger]
        t.waits.contains_key(id) && t.waits[id].handle_ids.contains(handle_id) <==> id
            == wait_id by {
        assert(s.waits.contains_key(id) && s.waits[id].handle_ids.contains(handle_id) <==> id
            == wait_id);
    }
}

proof fn lemma_refreshing_lists(s: ClosureStateView, ids: Seq<Seq<char>>, n: int, now: Timestamp)
    requires
        n <= ids.len(),
    ensures
        ({
            let waits = waits_refreshed(s.waits, s.handles, ids, n, now);
            &&& waits.dom() == s.waits.dom()
            &&& forall|id: Seq<char>|
                #![trigger waits[id]]
                waits[id].handle_ids == s.waits[id].handle_ids
        }),
    decreases n,
{
    if n > 0 {
        lemma_refreshing_lists(s, ids, n - 1, now);
        let before = waits_refreshed(s.waits, s.handles, ids, n - 1, now);
        let waits = waits_refreshed(s.waits, s.handles, ids, n, now);
        assert forall|id: Seq<char>|
            #![trigger waits[id]]
            waits[id].handle_ids == s.waits[id].handle_ids by {
            let b = before[id];
        }
        assert(waits.dom() =~= s.waits.dom());
    }
}

/// Refreshing keeps which waits there are and what they list.
pub proof fn lemma_refreshed_lists(s: ClosureStateView, handle_id: Seq<char>, now: Timestamp)
    ensures
        ({
            let waits = s.refreshed(handle_id, now).waits;
            &&& waits.dom() == s.waits.dom()
            &&& forall|id: Seq<char>|
                #![trigger waits[id]]
                waits[id].handle_ids == s.waits[id].handle_ids
        }),
{
    let ids = s.wait_ids_listing(handle_id);
    lemma_refreshing_lists(s, ids, ids.len() as int, now);
}

/// The later state in which a spawned thread was stopped before it was done.
pub open spec fn spawned_and_stopped(
    s: ClosureStateView,
    ctx: RuntimeContextView,
    now: Timestamp,
    problem_id: Seq<char>,
    policy: ContextForkPolicy,
    bootstrap_instruction: Seq<char>,
    inherited_cwd: Option<Seq<char>>,
    inherited_model: Option<Seq<char>>,
    inherited_tools: Seq<Seq<char>>,
    stop_ctx: RuntimeContextView,
    stop_now: Timestamp,
    status: Seq<char>,
) -> (ClosureStateView, bool) {
    let spawned = s.spawned(
        ctx,
        now,
        problem_id,
        policy,
        bootstrap_instruction,
        inherited_cwd,
        inherited_model,
        inherited_tools,
    );
    let stopped = spawned.0.actor_stopped(stop_ctx, stop_now, s.fresh_thread_id(), status);
    (stopped.0, spawned.1 is Ok && stopped.1 is Ok)
}

/// A thread that was spawned and whose actor stopped before it was done is recovered by the thread
/// that spawned it: that thread owns the subtree again and runs, the spawned thread is recovered,
/// its handle is cancelled and its wait over. It is not recovered a second time, and a thread can be
/// spawned for the problem anew.
pub proof fn law_stopped_child_comes_back(
    s: ClosureStateView,
    ctx: RuntimeContextView,
    now: Timestamp,
    problem_id: Seq<char>,
    policy: ContextForkPolicy,
    bootstrap_instruction: Seq<char>,
    inherited_cwd: Option<Seq<char>>,
    inherited_model: Option<Seq<char>>,
    inherited_tools: Seq<Seq<char>>,
    stop_ctx: RuntimeContextView,
    stop_now: Timestamp,
    status: Seq<char>,
    later_now: Timestamp,
)
    requires
        s.orderly(),
        s.wired(),
        forest(s.problems),
        s.next_thread_seq < u32::MAX,
        s.next_handle_seq < u32::MAX,
        s.next_wait_seq < u32::MAX,
        spawned_and_stopped(
            s,
            ctx,
            now,
            problem_id,
            policy,
            bootstrap_instruction,
            inherited_cwd,
            inherited_model,
            inherited_tools,
            stop_ctx,
            stop_now,
            status,
        ).1,
    ensures
        ({
            let spawned = s.spawned(
                ctx,
                now,
                problem_id,
                policy,
                bootstrap_instruction,
                inherited_cwd,
                inherited_model,
                inherited_tools,
            ).1->Ok_0;
            let stopped = spawned_and_stopped(
                s,
                ctx,
                now,
                problem_id,
                policy,
                bootstrap_instruction,
                inherited_cwd,
                inherited_model,
                inherited_tools,
                stop_ctx,
                stop_now,
                status,
            ).0;
            let (t, r) = stopped.recovered(ctx, later_now, spawned.thread_id);
            &&& r matches Ok(done) && done.root_problem_id == problem_id && done.thread_id
                == spawned.thread_id && done.handle_id == spawned.handle_id && done.wait_id
                == spawned.wait_id
            &&& forall|x: Seq<char>| #[trigger]
                within(stopped.problems, problem_id, x) ==> t.problems[x].owner_thread_id
                    == ctx.thread_id
            &&& t.threads[spawned.thread_id].status == ThreadStatus::Recovered
            &&& t.threads[ctx.thread_id].status == ThreadStatus::Running
            &&& t.handles[spawned.handle_id].status == IoHandleStatus::Cancelled
            &&& t.waits[spawned.wait_id].status == WaitStatus::Consumed
            &&& t.recovered(ctx, later_now, spawned.thread_id).1 is Err
            &&& t.spawned(
                ctx,
                now,
                problem_id,
                policy,
                bootstrap_instruction,
                inherited_cwd,
                inherited_model,
                inherited_tools,
            ).1 is Ok
        }),
{
    let a = s.spawned(
        ctx,
        now,
        problem_id,
        policy,
        bootstrap_instruction,
        inherited_cwd,
        inherited_model,
        inherited_tools,
    ).0;
    let thread_id = s.fresh_thread_id();
    let handle_id = s.fresh_handle_id();
    let wait_id = s.fresh_wait_id();
    assert(!s.threads.contains_key(thread_id));
    law_spawned_keeps_history(
        s,
        ctx,
        now,
        problem_id,
        policy,
        bootstrap_instruction,
        inherited_cwd,
        inherited_model,
        inherited_tools,
    );
    lemma_spawned_changes(
        s,
        ctx,
        now,
        problem_id,
        policy,
        bootstrap_instruction,
        inherited_cwd,
        inherited_model,
        inherited_tools,
    );
    lemma_spawned_sole(
        s,
        ctx,
        now,
        problem_id,
        policy,
        bootstrap_instruction,
        inherited_cwd,
        inherited_model,
        inherited_tools,
    );
    let b = a.actor_stopped(stop_ctx, stop_now, thread_id, status).0;
    law_actor_stopped_keeps_history(a, stop_ctx, stop_now, thread_id, status);
    lemma_stopped_leaves(a, stop_ctx, stop_now, thread_id, status, handle_id, wait_id);
    law_handed_over_changes_owners(s.problems, s.problems, problem_id, thread_id, now);
    lemma_same_links_forest(s.problems, b.problems);
    assert(b.problems.contains_key(problem_id));
    assert(b.is_for(handle_id, thread_id));
    lemma_sole_wait_there(b, wait_id, handle_id);
    assert(b.threads[thread_id].root_problem_id == problem_id);
    lemma_handed_over_alike(
        s.problems,
        b.problems,
        s.problems,
        b.problems,
        problem_id,
        (thread_id, now),
        (ctx.thread_id, later_now),
    );
    law_recovered_settles_everything(
        b,
        ctx,
        later_now,
        thread_id,
        handle_id,
        wait_id,
        ctx,
        later_now,
    );
    lemma_recovered_can_be_spawned(
        s,
        b,
        ctx,
        now,
        later_now,
        problem_id,
        thread_id,
        policy,
        bootstrap_instruction,
        inherited_cwd,
        inherited_model,
        inherited_tools,
    );
}

/// Once a thread is recovered, its problem can be spawned again.
proof fn lemma_recovered_can_be_spawned(
    s: ClosureStateView,
    b: ClosureStateView,
    ctx: RuntimeContextView,
    now: Timestamp,
    later_now: Timestamp,
    problem_id: Seq<char>,
    thread_id: Seq<char>,
    policy: ContextForkPolicy,
    bootstrap_instruction: Seq<char>,
    inherited_cwd: Option<Seq<char>>,
    inherited_model: Option<Seq<char>>,
    inherited_tools: Seq<Seq<char>>,
)
    requires
        s.filed(),
        b.filed(),
        forest(s.problems),
        forest(b.problems),
        handed_over(s.problems, s.problems, problem_id, thread_id, now).1 is None,
        only_owners_differ(s.problems, b.problems),
        s.writable(ctx, problem_id) is Ok,
        problem_id != s.threads[ctx.thread_id].root_problem_id,
        s.thread_for_root_problem(problem_id) is None,
        b.threads.dom() == s.threads.dom().insert(thread_id),
        thread_id != ctx.thread_id,
        b.threads[thread_id].root_problem_id == problem_id,
        b.threads[ctx.thread_id].root_problem_id == s.threads[ctx.thread_id].root_problem_id,
        forall|x: Seq<char>| #[trigger]
            s.threads.contains_key(x) && x != ctx.thread_id ==> b.threads[x] == s.threads[x],
        b.recovered(ctx, later_now, thread_id).1 is Ok,
    ensures
        b.recovered(ctx, later_now, thread_id).0.spawned(
            ctx,
            now,
            problem_id,
            policy,
            bootstrap_instruction,
            inherited_cwd,
            inherited_model,
            inherited_tools,
        ).1 is Ok,
{
    let t = b.recovered(ctx, later_now, thread_id).0;
    let root = s.threads[ctx.thread_id].root_problem_id;
    law_handed_over_changes_owners(
        b.problems,
        b.problems,
        problem_id,
        ctx.thread_id,
        later_now,
    );
    lemma_same_links_forest(b.problems, t.problems);
    law_recover_gives_back(b, ctx, later_now, thread_id);
    assert forall|x: Seq<char>| #[trigger] s.problems.contains_key(x) implies
        t.problems.contains_key(x) && t.problems[x].parent_id == s.problems[x].parent_id by {
        assert(b.problems.contains_key(x));
    }
    lemma_descends_kept(s.problems, t.problems, problem_id, root);
    assert(t.problems[problem_id].id == problem_id);
    assert(t.writable(ctx, problem_id) is Ok);
    assert(t.thread_for_root_problem(problem_id) is None) by {
        lemma_bound(s, problem_id);
        assert(t.threads.dom() =~= b.threads.dom());
        lemma_bound(t, problem_id);
        assert forall|x: Seq<char>| #[trigger] t.threads.contains_key(x) implies !bound_to(
            problem_id,
        )(t.threads[x]) by {
            if x != thread_id {
                assert(s.threads.contains_key(x));
                assert(!bound_to(problem_id)(s.threads[x]));
            }
        }
    }
    let fresh = t.fresh_thread_id();
    lemma_handed_over_alike(
        s.problems,
        t.problems,
        s.problems,
        t.problems,
        problem_id,
        (thread_id, now),
        (fresh, now),
    );
}

/// No thread is found for a root problem exactly if none is bound to it.
proof fn lemma_bound(s: ClosureStateView, problem_id: Seq<char>)
    requires
        s.threads.dom().finite(),
    ensures
        s.thread_for_root_problem(problem_id) is None <==> forall|x: Seq<char>| #[trigger]
            s.threads.contains_key(x) ==> !bound_to(problem_id)(s.threads[x]),
{
    let f = bound_to(problem_id);
    let ks = keys(s.threads);
    let vs = values(s.threads);
    lemma_listed(s.threads);
    lemma_find_from(vs, f, 0);
    if s.thread_for_root_problem(problem_id) is None {
        assert forall|x: Seq<char>| #[trigger] s.threads.contains_key(x) implies !f(
            s.threads[x],
        ) by {
            let k = ks.index_of(x);
            assert(ks[k] == x);
            assert(!f(vs[k]));
        }
    } else {
        let i = crate::search::find_from(vs, f, 0)->0;
        assert(s.threads.contains_key(ks[i]));
    }
}

} // verus!
