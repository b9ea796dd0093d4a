//! How a child thread that ends is noted, and what is told of a handle.
use vstd::prelude::*;
use crate::clock::Timestamp;
use crate::context::RuntimeContextView;
use crate::effects::{changed_at, law_check_says_what_was_given, law_writable_is_own_and_below, lemma_check_is_fine, may_check};
use crate::entities::{ClosureStateView, IoHandleView, ThreadView};
use crate::forest::rooted;
use crate::ids::numbered;
use crate::kinds::{CheckStatus, IoEventKind, IoHandleKind, IoHandleStatus, PassiveEventKind, ProblemStatus, ThreadStatus, WaitMode};
use crate::outcomes::{lemma_no_open_children, lemma_sole_handle, lemma_sole_wait};
use crate::reports::WaitSpecView;

verus! {

/// A thread has ended.
pub open spec fn has_ended(t: ThreadView) -> bool {
    t.status == ThreadStatus::Done || t.status == ThreadStatus::Failed || t.status
        == ThreadStatus::Cancelled || t.status == ThreadStatus::Recovered
}

/// Every child of a thread but one has ended or is not there.
pub open spec fn others_have_ended(s: ClosureStateView, id: Seq<char>, one: Seq<char>) -> bool {
    let ids = s.threads[id].child_thread_ids;
    forall|i: int|
        0 <= i < ids.len() && s.threads.contains_key(#[trigger] ids[i]) && ids[i] != one
            ==> has_ended(s.threads[ids[i]])
}

/// A child is marked as failed exactly if it has a parent, is not done, was not joined, and its handle
/// was neither taken nor cancelled. Then it and its handle have failed; the parent runs again once all
/// its children have ended; and nothing else changes but the waits for the handle.
pub proof fn law_failed_child_is_noted(
    s: ClosureStateView,
    ctx: RuntimeContextView,
    now: Timestamp,
    thread_id: Seq<char>,
    kind: IoEventKind,
    message: Seq<char>,
    handle_id: Seq<char>,
)
    requires
        s.threads.contains_key(thread_id),
        s.threads[thread_id].parent_thread_id != Some(thread_id),
        s.handles.dom().finite(),
        s.handles[handle_id].id == handle_id,
        s.sole_handle(handle_id, thread_id),
    ensures
        ({
            let (t, r) = s.child_failed(ctx, now, thread_id, kind, message);
            let child = s.threads[thread_id];
            let handle = s.handles[handle_id];
            let parent = child.parent_thread_id;
            &&& r is Ok <==> parent is Some && child.status != ThreadStatus::Done && child.joined_at
                is None && handle.status != IoHandleStatus::Consumed && handle.status
                != IoHandleStatus::Cancelled
            &&& r matches Ok(told) ==> {
                &&& told.0 == handle_id
                &&& told.1 == numbered("IO"@, s.next_io_event_seq as nat)
                &&& t.threads.dom() == s.threads.dom()
                &&& t.threads[thread_id] == (ThreadView {
                    status: ThreadStatus::Failed,
                    updated_at: now,
                    ..child
                })
                &&& s.threads.contains_key(parent->0) ==> t.threads[parent->0] == if
                    others_have_ended(s, parent->0, thread_id) {
                    ThreadView {
                        status: ThreadStatus::Running,
                        updated_at: now,
                        ..s.threads[parent->0]
                    }
                } else {
                    s.threads[parent->0]
                }
                &&& forall|k: Seq<char>| #[trigger]
                    s.threads.contains_key(k) && k != thread_id && Some(k) != parent
                        ==> t.threads[k] == s.threads[k]
                &&& changed_at(s.handles, t.handles, handle_id)
                &&& t.handles[handle_id] == (IoHandleView {
                    status: IoHandleStatus::Failed,
                    updated_at: now,
                    ..handle
                })
                &&& t.problems == s.problems && t.tickets == s.tickets && t.results == s.results
                    && t.checks == s.checks && t.inbox == s.inbox && t.passive_events
                    == s.passive_events
                &&& t.events.drop_last() == s.events && t.events.last().entity_id == thread_id
                    && t.events.last().message == message
                &&& t.io_events.drop_last() == s.io_events && t.io_events.last().kind == kind
                    && t.io_events.last().handle_id == Some(handle_id)
                    && t.io_events.last().thread_id == Some(thread_id)
                    && t.io_events.last().message == message
            }
        }),
{
    lemma_sole_handle(s, handle_id, thread_id);
    let (t, r) = s.child_failed(ctx, now, thread_id, kind, message);
    if r is Ok {
        let parent = s.threads[thread_id].parent_thread_id->0;
        let failed = s.with_thread_status(thread_id, ThreadStatus::Failed, now).with_handle_status(
            handle_id,
            IoHandleStatus::Failed,
            now,
        ).refreshed(handle_id, now);
        assert(t.threads.dom() =~= s.threads.dom());
        assert(t.handles.dom() =~= s.handles.dom().insert(handle_id));
        assert(t.events.drop_last() =~= s.events);
        assert(t.io_events.drop_last() =~= s.io_events);
        if s.threads.contains_key(parent) {
            lemma_no_open_children(failed, parent);
            let ids = s.threads[parent].child_thread_ids;
            assert(failed.threads[parent] == s.threads[parent]);
            if failed.children_ended(parent) {
                assert forall|i: int|
                    0 <= i < ids.len() && s.threads.contains_key(#[trigger] ids[i]) && ids[i]
                        != thread_id implies has_ended(s.threads[ids[i]]) by {
                    assert(failed.threads.contains_key(ids[i]));
                }
            }
            if others_have_ended(s, parent, thread_id) {
                assert forall|i: int|
                    0 <= i < ids.len() && failed.threads.contains_key(#[trigger] ids[i]) implies
                    failed.threads[ids[i]].status.is_terminal() by {
                    assert(s.threads.contains_key(ids[i]));
                }
            }
        }
    }
}

/// A child actor that stops before its thread is done fails the thread, as long as that can fail.
pub proof fn law_stopped_actor_fails_its_thread(
    s: ClosureStateView,
    ctx: RuntimeContextView,
    now: Timestamp,
    thread_id: Seq<char>,
    status: Seq<char>,
    handle_id: Seq<char>,
)
    requires
        s.threads.contains_key(thread_id),
        s.threads[thread_id].parent_thread_id != Some(thread_id),
        s.handles.dom().finite(),
        s.handles[handle_id].id == handle_id,
        s.sole_handle(handle_id, thread_id),
        s.next_io_event_seq < u32::MAX,
    ensures
        ({
            let (t, r) = s.actor_stopped(ctx, now, thread_id, status);
            let child = s.threads[thread_id];
            let handle = s.handles[handle_id];
            &&& r is Ok <==> child.parent_thread_id is Some && child.status != ThreadStatus::Done
                && child.joined_at is None && handle.status != IoHandleStatus::Consumed
                && handle.status != IoHandleStatus::Cancelled
            &&& r matches Ok(told) ==> {
                &&& told == numbered("IO"@, (s.next_io_event_seq + 1) as nat)
                &&& t.threads[thread_id].status == ThreadStatus::Failed
                &&& t.handles[handle_id].status == IoHandleStatus::Failed
                &&& t.io_events.len() == s.io_events.len() + 2
                &&& t.io_events[s.io_events.len() as int].kind == IoEventKind::ChildThreadFailed
                &&& t.io_events.last().kind == IoEventKind::ActorCompletedWithoutThreadDone
                &&& t.io_events.last().thread_id == Some(thread_id)
                &&& t.io_events.last().handle_id == Some(handle_id)
                &&& t.problems == s.problems && t.inbox == s.inbox && t.passive_events
                    == s.passive_events
            }
        }),
{
    law_failed_child_is_noted(
        s,
        ctx,
        now,
        thread_id,
        IoEventKind::ChildThreadFailed,
        "child actor completed before Qunux thread was done: "@ + status,
        handle_id,
    );
}

/// The handle of a child becomes ready exactly once the child is done, unless it failed or was
/// cancelled; one that was taken already stays so. The child and everything else but the waits for the
/// handle stay as they are.
pub proof fn law_done_child_is_ready(
    s: ClosureStateView,
    ctx: RuntimeContextView,
    now: Timestamp,
    thread_id: Seq<char>,
    message: Seq<char>,
    handle_id: Seq<char>,
)
    requires
        s.threads.contains_key(thread_id),
        s.handles.dom().finite(),
        s.handles[handle_id].id == handle_id,
        s.sole_handle(handle_id, thread_id),
    ensures
        ({
            let (t, r) = s.child_ready(ctx, now, thread_id, message);
            let handle = s.handles[handle_id];
            &&& r is Ok <==> s.threads[thread_id].status == ThreadStatus::Done && handle.status
                != IoHandleStatus::Failed && handle.status != IoHandleStatus::Cancelled
            &&& r is Err ==> t == s
            &&& r matches Ok(id) ==> id == handle_id
            &&& r is Ok && handle.status == IoHandleStatus::Consumed ==> t == s
            &&& r is Ok && handle.status != IoHandleStatus::Consumed ==> {
                &&& changed_at(s.handles, t.handles, handle_id)
                &&& t.handles[handle_id] == (IoHandleView {
                    status: IoHandleStatus::Ready,
                    updated_at: now,
                    ..handle
                })
                &&& t.threads == s.threads && t.problems == s.problems && t.events == s.events
                    && t.inbox == s.inbox && t.passive_events == s.passive_events
                &&& t.io_events.len() == s.io_events.len() + 2
                &&& t.io_events.last().handle_id == Some(handle_id)
                &&& t.io_events.last().thread_id == Some(thread_id)
            }
        }),
{
    lemma_sole_handle(s, handle_id, thread_id);
    let (t, r) = s.child_ready(ctx, now, thread_id, message);
    if r is Ok {
        assert(t.handles.dom() =~= s.handles.dom().insert(handle_id));
    }
}

/// The state of a handle is told exactly to its owner, as it is, together with the wait that lists it.
pub proof fn law_handle_is_shown_to_its_owner(
    s: ClosureStateView,
    ctx: RuntimeContextView,
    handle_id: Seq<char>,
    wait_id: Seq<char>,
)
    requires
        s.waits.dom().finite(),
        s.waits[wait_id].id == wait_id,
        s.sole_wait(wait_id, handle_id),
    ensures
        s.wait_snapshot(ctx, handle_id) is Ok <==> s.handles.contains_key(handle_id)
            && s.handles[handle_id].owner_thread_id == ctx.thread_id,
        s.wait_snapshot(ctx, handle_id) matches Ok(shown) ==> shown.handle == s.handles[handle_id]
            && shown.wait == Some(s.waits[wait_id]),
{
    lemma_sole_wait(s, wait_id, handle_id);
    assert(s.waits.contains_key(wait_id));
}

/// The receipt for parking on a single event names the handle and the key that were made, the wait, and
/// the kind of event that the key stands for.
pub proof fn law_single_wait_is_receipted(
    s: ClosureStateView,
    ctx: RuntimeContextView,
    now: Timestamp,
    reason: Seq<char>,
    spec: WaitSpecView,
)
    ensures
        ({
            let (t, r) = s.parked_on(ctx, now, reason, spec);
            let (u, whole) = s.parked(ctx, now, WaitMode::All, reason, seq![spec]);
            &&& t == u
            &&& whole is Err ==> r is Err
            &&& r matches Ok(one) ==> {
                &&& whole is Ok
                &&& one.thread_id == whole->Ok_0.thread_id
                &&& one.wait_id == whole->Ok_0.wait_id
                &&& one.status == whole->Ok_0.status
                &&& whole->Ok_0.handle_ids.len() > 0 && one.handle_id == whole->Ok_0.handle_ids[0]
                &&& t.handles[one.handle_id].event_key == Some(one.event_key)
                &&& one.kind == if one.event_key.kind == "user.input"@ {
                    PassiveEventKind::UserInput
                } else if one.event_key.kind == "timer"@ {
                    PassiveEventKind::Timer
                } else {
                    PassiveEventKind::ExternalSignal
                }
            }
        }),
{
}

/// A check that closes the problem of a child thread is recorded as long as the handle of the child
/// neither failed nor was cancelled; it ends the thread, and the handle that the parent waits for is
/// ready.
pub proof fn law_finished_child_reports(
    s: ClosureStateView,
    ctx: RuntimeContextView,
    now: Timestamp,
    problem_id: Seq<char>,
    result_ids: Seq<Seq<char>>,
    title: Seq<char>,
    body: Seq<char>,
    handle_id: Seq<char>,
)
    requires
        rooted(s.problems),
        s.threads.contains_key(ctx.thread_id),
        s.threads[ctx.thread_id].root_problem_id == problem_id,
        s.threads[ctx.thread_id].parent_thread_id is Some,
        s.handles.dom().finite(),
        s.handles[handle_id].id == handle_id,
        s.sole_handle(handle_id, ctx.thread_id),
        !s.problems.contains_key(s.fresh_problem_id()),
        may_check(s, ctx, problem_id, CheckStatus::Success, result_ids, false),
    ensures
        ({
            let (t, r) = s.checked(
                ctx,
                now,
                problem_id,
                CheckStatus::Success,
                result_ids,
                title,
                body,
                None,
            );
            let handle = s.handles[handle_id];
            &&& r is Ok <==> handle.status != IoHandleStatus::Failed && handle.status
                != IoHandleStatus::Cancelled
            &&& r is Ok ==> {
                &&& t.threads == s.threads.insert(
                    ctx.thread_id,
                    ThreadView {
                        status: ThreadStatus::Done,
                        updated_at: now,
                        ..s.threads[ctx.thread_id]
                    },
                )
                &&& t.handles == if handle.status == IoHandleStatus::Consumed {
                    s.handles
                } else {
                    s.handles.insert(
                        handle_id,
                        IoHandleView { status: IoHandleStatus::Ready, updated_at: now, ..handle },
                    )
                }
                &&& t.problems[problem_id].status == ProblemStatus::Done
            }
        }),
{
    law_check_says_what_was_given(
        s,
        ctx,
        now,
        problem_id,
        CheckStatus::Success,
        result_ids,
        title,
        body,
        None,
    );
    law_writable_is_own_and_below(s, ctx, problem_id);
    lemma_check_is_fine(s, ctx, problem_id, result_ids);
    let written = s.check_written(
        ctx,
        now,
        problem_id,
        CheckStatus::Success,
        result_ids,
        title,
        body,
        None,
    );
    let done = written.with_thread_status(ctx.thread_id, ThreadStatus::Done, now);
    assert(done.handles == s.handles);
    assert forall|id: Seq<char>| #[trigger] done.is_for(id, ctx.thread_id) <==> id == handle_id by {
        assert(s.is_for(id, ctx.thread_id) <==> id == handle_id);
    }
    law_done_child_is_ready(
        done,
        ctx,
        now,
        ctx.thread_id,
        "child Qunux thread root problem is done"@,
        handle_id,
    );
}

/// A child thread is joined on its own account just as its parent would join it; one without a parent
/// is not, and one that is not there is not either.
pub proof fn law_auto_join_is_for_the_parent(
    s: ClosureStateView,
    ctx: RuntimeContextView,
    now: Timestamp,
    thread_id: Seq<char>,
    message: Seq<char>,
)
    ensures
        ({
            let (t, r) = s.auto_joined(ctx, now, thread_id, message);
            &&& !s.threads.contains_key(thread_id) ==> r is Err && t == s
            &&& s.threads.contains_key(thread_id) && s.threads[thread_id].parent_thread_id is None
                ==> r is Err && t == s
            &&& s.threads.contains_key(thread_id) ==> (s.threads[thread_id].parent_thread_id
                matches Some(parent) ==> (t, r) == s.joined(ctx, now, thread_id, parent, message))
            &&& r matches Ok(joined) ==> joined.thread_id == thread_id && s.threads[thread_id].parent_thread_id
                == Some(joined.parent_thread_id) && joined.root_problem_id
                == s.threads[thread_id].root_problem_id
        }),
{
}

/// Taking the handle of a child thread joins the child: it is accepted exactly where joining is, and the
/// receipt tells of the child.
pub proof fn law_child_handle_is_taken_by_joining(
    s: ClosureStateView,
    ctx: RuntimeContextView,
    now: Timestamp,
    handle_id: Seq<char>,
    child: Seq<char>,
)
    requires
        s.handles.contains_key(handle_id),
        s.handles[handle_id].owner_thread_id == ctx.thread_id,
        s.handles[handle_id].kind == IoHandleKind::ChildThread,
        s.handles[handle_id].target_thread_id == Some(child),
    ensures
        ({
            let (t, r) = s.consumed(ctx, now, handle_id);
            let message = "consumed child-thread wait handle "@ + handle_id;
            let (u, joined) = s.joined(ctx, now, child, ctx.thread_id, message);
            &&& t == u
            &&& r is Ok <==> joined is Ok
            &&& r matches Ok(taken) ==> {
                &&& taken.thread_id == ctx.thread_id
                &&& taken.kind == IoHandleKind::ChildThread
                &&& taken.target_thread_id == Some(child)
                &&& taken.joined_thread == Some(joined->Ok_0)
                &&& taken.handle_id == joined->Ok_0.handle_id
                &&& taken.wait_id == joined->Ok_0.wait_id
                &&& taken.resolved_event_id is None && taken.payload_ref is None
            }
        }),
{
}

} // verus!
