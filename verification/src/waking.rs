//! No wake is lost: what comes wakes who waits for it, and who parks finds what has come.
use vstd::prelude::*;
use crate::clock::Timestamp;
use crate::context::RuntimeContextView;
use crate::entities::{ClosureStateView, IoHandleView, ThreadView, ThreadWaitView};
use crate::forest::branching;
use crate::history::{event_kept, handle_kept, law_actor_bound_keeps_history, law_actor_stopped_keeps_history, law_auto_joined_keeps_history, law_child_failed_keeps_history, law_child_ready_keeps_history, law_joined_keeps_history};
use crate::kinds::{CheckStatus, ContextForkPolicy, IoEventKind, IoHandleKind, IoHandleStatus, PassiveEventStatus, ThreadStatus, WaitMode, WaitStatus};
use crate::keeping::{law_acknowledged_keeps_history, law_cancelled_keeps_history, law_checked_keeps_history, law_consumed_keeps_history, law_recovered_keeps_history, law_user_task_created_keeps_history, law_user_task_scaffolded_keeps_history};
use crate::lookup::{event_named, lists_handle, wait_ready};
use crate::matching::event_matches;
use crate::reports::{PassiveEventInputView, RoutedPassiveEventView, WaitSpecView};
use crate::search::{lemma_find_from, lemma_kept, select};
use crate::strmap::{keys, lemma_listed, values};
use crate::waits::awaited_by;
use crate::wake::{ready_with, threads_woken, waits_refreshed};

verus! {

/// A wait shows whether it has what it waits for.
pub open spec fn shows_readiness(
    handles: Map<Seq<char>, IoHandleView>,
    wait: ThreadWaitView,
) -> bool {
    wait.status == WaitStatus::Consumed || wait.status == (if wait_ready(handles, wait) {
        WaitStatus::Ready
    } else {
        WaitStatus::Waiting
    })
}

proof fn lemma_waits_refreshed(
    waits: Map<Seq<char>, ThreadWaitView>,
    handles: Map<Seq<char>, IoHandleView>,
    ids: Seq<Seq<char>>,
    n: int,
    now: Timestamp,
)
    requires
        0 <= n <= ids.len(),
    ensures
        ({
            let after = waits_refreshed(waits, handles, ids, n, now);
            &&& after.dom() == waits.dom()
            &&& forall|k: Seq<char>| #[trigger]
                after.contains_key(k) ==> after[k] == (ThreadWaitView {
                    status: after[k].status,
                    updated_at: after[k].updated_at,
                    ..waits[k]
                })
            &&& forall|k: Seq<char>|
                #![trigger after[k]]
                !ids.contains(k) ==> after[k] == waits[k]
            &&& forall|i: int|
                0 <= i < n && after.contains_key(#[trigger] ids[i]) ==> shows_readiness(
                    handles,
                    after[ids[i]],
                )
        }),
    decreases n,
{
    if n > 0 {
        lemma_waits_refreshed(waits, handles, ids, n - 1, now);
        let before = waits_refreshed(waits, handles, ids, n - 1, now);
        let after = waits_refreshed(waits, handles, ids, n, now);
        assert(after.dom() =~= waits.dom());
        assert(ids.contains(ids[n - 1]));
        assert forall|i: int| 0 <= i < n && after.contains_key(#[trigger] ids[i]) implies
            shows_readiness(handles, after[ids[i]]) by {
            if ids[i] == ids[n - 1] {
                let w = before[ids[n - 1]];
                assert(wait_ready(handles, w) == wait_ready(handles, after[ids[n - 1]]));
            }
        }
    }
}

/// Bringing the waits that list a handle up to date makes each show whether it is ready, and
/// leaves the others.
pub proof fn law_refreshed_waits_show_readiness(
    s: ClosureStateView,
    handle_id: Seq<char>,
    now: Timestamp,
    wait_id: Seq<char>,
)
    requires
        s.filed(),
        s.waits.contains_key(wait_id),
    ensures
        ({
            let t = s.refreshed(handle_id, now);
            &&& t.waits.contains_key(wait_id)
            &&& t.waits[wait_id] == (ThreadWaitView {
                status: t.waits[wait_id].status,
                updated_at: t.waits[wait_id].updated_at,
                ..s.waits[wait_id]
            })
            &&& s.waits[wait_id].handle_ids.contains(handle_id) ==> shows_readiness(
                t.handles,
                t.waits[wait_id],
            )
            &&& !s.waits[wait_id].handle_ids.contains(handle_id) ==> t.waits[wait_id]
                == s.waits[wait_id]
        }),
{
    let all = values(s.waits);
    let listing = select(all, lists_handle(handle_id));
    let ids = s.wait_ids_listing(handle_id);
    lemma_listed(s.waits);
    lemma_kept(all, lists_handle(handle_id), all.len() as int);
    lemma_waits_refreshed(s.waits, s.handles, ids, ids.len() as int, now);
    let w = s.waits[wait_id];
    let at = all.index_of(w);
    assert(all[at] == w);
    if w.handle_ids.contains(handle_id) {
        assert(lists_handle(handle_id)(all[at]));
        assert(listing.contains(w));
        let i = listing.index_of(w);
        assert(listing[i] == w);
        assert(ids[i] == wait_id);
    } else if ids.contains(wait_id) {
        let i = ids.index_of(wait_id);
        let v = listing[i];
        assert(listing.contains(v));
        assert(lists_handle(handle_id)(v) && all.contains(v));
        let k = all.index_of(v);
        assert(v == s.waits[keys(s.waits)[k]]);
        assert(keys(s.waits)[k] == wait_id);
    }
}

proof fn lemma_threads_woken(
    threads: Map<Seq<char>, ThreadView>,
    ids: Seq<Seq<char>>,
    n: int,
    now: Timestamp,
)
    requires
        0 <= n <= ids.len(),
    ensures
        ({
            let after = threads_woken(threads, ids, n, now);
            &&& after.dom() == threads.dom()
            &&& forall|k: Seq<char>|
                #![trigger after[k]]
                after.contains_key(k) ==> after[k].status == threads[k].status || (
                threads[k].status == ThreadStatus::WaitingIo && after[k].status
                    == ThreadStatus::Running)
            &&& forall|i: int|
                0 <= i < n && after.contains_key(#[trigger] ids[i]) ==> after[ids[i]].status
                    != ThreadStatus::WaitingIo
        }),
    decreases n,
{
    if n > 0 {
        lemma_threads_woken(threads, ids, n - 1, now);
        let after = threads_woken(threads, ids, n, now);
        assert(after.dom() =~= threads.dom());
    }
}

/// The thread of a ready wait that lists the handle is not parked after the handle woke it; no
/// thread is parked by it.
pub proof fn law_ready_waits_wake(
    s: ClosureStateView,
    handle_id: Seq<char>,
    now: Timestamp,
    wait_id: Seq<char>,
)
    requires
        s.filed(),
        s.waits.contains_key(wait_id),
    ensures
        ({
            let t = s.woken(handle_id, now);
            let thread_id = s.waits[wait_id].thread_id;
            &&& t.threads.dom() == s.threads.dom()
            &&& s.waits[wait_id].status == WaitStatus::Ready
                && s.waits[wait_id].handle_ids.contains(handle_id) && s.threads.contains_key(
                thread_id,
            ) ==> t.threads[thread_id].status != ThreadStatus::WaitingIo
            &&& s.threads.contains_key(thread_id) && s.threads[thread_id].status
                != ThreadStatus::WaitingIo ==> t.threads[thread_id].status
                != ThreadStatus::WaitingIo
        }),
{
    let all = values(s.waits);
    let ready = select(all, ready_with(handle_id));
    let ids = s.thread_ids_ready(handle_id);
    lemma_listed(s.waits);
    lemma_kept(all, ready_with(handle_id), all.len() as int);
    lemma_threads_woken(s.threads, ids, ids.len() as int, now);
    let w = s.waits[wait_id];
    let at = all.index_of(w);
    assert(all[at] == w);
    if ready_with(handle_id)(w) {
        assert(ready.contains(all[at]));
        let i = ready.index_of(w);
        assert(ready[i] == w);
        assert(ids[i] == w.thread_id);
    }
}

/// The first `n` of the handles have come: they are ready with the event, every wait that lists
/// one of them shows whether it is ready, and no thread stays parked on one that is.
pub open spec fn all_told(
    s: ClosureStateView,
    ids: Seq<Seq<char>>,
    n: int,
    event_id: Seq<char>,
) -> bool {
    &&& forall|i: int|
        0 <= i < n ==> s.handles.contains_key(#[trigger] ids[i]) && s.handles[ids[i]].status
            == IoHandleStatus::Ready && s.handles[ids[i]].resolved_event_id == Some(event_id)
    &&& forall|i: int, w: Seq<char>|
        0 <= i < n && #[trigger] s.waits.contains_key(w) && s.waits[w].handle_ids.contains(
            #[trigger] ids[i],
        ) ==> shows_readiness(s.handles, s.waits[w]) && (s.waits[w].status == WaitStatus::Ready
            && s.threads.contains_key(s.waits[w].thread_id)
            ==> s.threads[s.waits[w].thread_id].status != ThreadStatus::WaitingIo)
}

proof fn lemma_readiness_unmoved(
    a: Map<Seq<char>, IoHandleView>,
    b: Map<Seq<char>, IoHandleView>,
    handle_id: Seq<char>,
    wait: ThreadWaitView,
)
    requires
        !wait.handle_ids.contains(handle_id),
        forall|k: Seq<char>| k != handle_id ==> a.contains_key(k) == b.contains_key(k),
        forall|k: Seq<char>| k != handle_id ==> #[trigger] a[k] == b[k],
    ensures
        wait_ready(a, wait) == wait_ready(b, wait),
{
    assert forall|i: int| 0 <= i < wait.handle_ids.len() implies crate::lookup::settled(
        a,
        #[trigger] wait.handle_ids[i],
    ) == crate::lookup::settled(b, wait.handle_ids[i]) by {
        assert(wait.handle_ids.contains(wait.handle_ids[i]));
        assert(a[wait.handle_ids[i]] == b[wait.handle_ids[i]]);
    }
    if wait_ready(a, wait) && wait.mode == WaitMode::Any {
        let i = choose|i: int|
            0 <= i < wait.handle_ids.len() && crate::lookup::settled(
                a,
                #[trigger] wait.handle_ids[i],
            );
        assert(crate::lookup::settled(b, wait.handle_ids[i]));
    }
    if wait_ready(b, wait) && wait.mode == WaitMode::Any {
        let i = choose|i: int|
            0 <= i < wait.handle_ids.len() && crate::lookup::settled(
                b,
                #[trigger] wait.handle_ids[i],
            );
        assert(crate::lookup::settled(a, wait.handle_ids[i]));
    }
}

proof fn lemma_delivered_tells(
    s: ClosureStateView,
    ctx: RuntimeContextView,
    now: Timestamp,
    routed: RoutedPassiveEventView,
    event_id: Seq<char>,
    ids: Seq<Seq<char>>,
    n: int,
)
    requires
        s.filed(),
        0 <= n <= ids.len(),
        s.delivered(ctx, now, routed, event_id, ids, n).1 is Ok,
    ensures
        s.delivered(ctx, now, routed, event_id, ids, n).0.filed(),
        all_told(
            s.delivered(ctx, now, routed, event_id, ids, n).0,
            ids,
            n,
            event_id,
        ),
    decreases n,
{
    if n > 0 {
        lemma_delivered_tells(s, ctx, now, routed, event_id, ids, n - 1);
        let before = s.delivered(ctx, now, routed, event_id, ids, n - 1).0;
        let id = ids[n - 1];
        let resolved = ClosureStateView {
            handles: before.handles.insert(
                id,
                IoHandleView {
                    status: IoHandleStatus::Ready,
                    payload_ref: routed.input.payload_ref,
                    resolved_event_id: Some(event_id),
                    updated_at: now,
                    ..before.handles[id]
                },
            ),
            ..before
        };
        let ready = before.handle_resolved(now, id, event_id, routed.input.payload_ref);
        let after = s.delivered(ctx, now, routed, event_id, ids, n).0;
        lemma_refreshed_filed(resolved, id, now);
        lemma_woken_filed(ready, id, now);
        assert(ready == resolved.refreshed(id, now));
        assert(after.handles == ready.handles);
        assert(after.waits == ready.waits);
        assert forall|i: int, w: Seq<char>|
            0 <= i < n && #[trigger] after.waits.contains_key(w)
                && after.waits[w].handle_ids.contains(#[trigger] ids[i]) implies shows_readiness(
            after.handles,
            after.waits[w],
        ) && (after.waits[w].status == WaitStatus::Ready && after.threads.contains_key(
            after.waits[w].thread_id,
        ) ==> after.threads[after.waits[w].thread_id].status != ThreadStatus::WaitingIo) by {
            assert(before.waits.contains_key(w));
            law_refreshed_waits_show_readiness(resolved, id, now, w);
            law_ready_waits_wake(ready, id, now, w);
            if !resolved.waits[w].handle_ids.contains(id) {
                assert(ids[i] != id);
                assert(i < n - 1);
                assert(after.waits[w] == before.waits[w]);
                lemma_readiness_unmoved(before.handles, after.handles, id, before.waits[w]);
            }
        }
        assert forall|i: int| 0 <= i < n implies after.handles.contains_key(#[trigger] ids[i])
            && after.handles[ids[i]].status == IoHandleStatus::Ready
            && after.handles[ids[i]].resolved_event_id == Some(event_id) by {
            if i < n - 1 {
                assert(before.handles.contains_key(ids[i]));
            }
        }
    }
}

proof fn lemma_refreshed_filed(s: ClosureStateView, handle_id: Seq<char>, now: Timestamp)
    requires
        s.filed(),
    ensures
        s.refreshed(handle_id, now).filed(),
        s.refreshed(handle_id, now).waits.dom() == s.waits.dom(),
{
    let ids = s.wait_ids_listing(handle_id);
    lemma_waits_refreshed(s.waits, s.handles, ids, ids.len() as int, now);
}

proof fn lemma_woken_filed(s: ClosureStateView, handle_id: Seq<char>, now: Timestamp)
    requires
        s.filed(),
    ensures
        s.woken(handle_id, now).filed(),
{
    let ids = s.thread_ids_ready(handle_id);
    lemma_woken_ids(s.threads, ids, ids.len() as int, now);
}

proof fn lemma_woken_ids(
    threads: Map<Seq<char>, ThreadView>,
    ids: Seq<Seq<char>>,
    n: int,
    now: Timestamp,
)
    requires
        0 <= n <= ids.len(),
    ensures
        threads_woken(threads, ids, n, now).dom() == threads.dom(),
        forall|k: Seq<char>|
            #![trigger threads_woken(threads, ids, n, now)[k]]
            threads_woken(threads, ids, n, now)[k].id == threads[k].id,
    decreases n,
{
    if n > 0 {
        lemma_woken_ids(threads, ids, n - 1, now);
        assert(threads_woken(threads, ids, n, now).dom() =~= threads.dom());
    }
}

/// An event that handles wait for makes them ready; each wait on one of them then shows whether it
/// is ready, and no thread stays parked on a wait that is.
pub proof fn law_matched_event_wakes(
    s: ClosureStateView,
    ctx: RuntimeContextView,
    now: Timestamp,
    input: PassiveEventInputView,
)
    requires
        s.filed(),
        s.received(ctx, now, input).1 matches Ok(receipt) && receipt.status
            == PassiveEventStatus::Matched,
    ensures
        ({
            let done = s.received(ctx, now, input);
            let receipt = done.1->Ok_0;
            receipt.matched_handle_ids.len() > 0 && all_told(
                done.0,
                receipt.matched_handle_ids,
                receipt.matched_handle_ids.len() as int,
                receipt.event_id,
            )
        }),
{
    let routed = input.route()->Ok_0;
    let matched = s.matching_passive_handle_ids(routed);
    lemma_delivered_tells(
        s.event_recorded(ctx, now, routed),
        ctx,
        now,
        routed,
        s.fresh_event_id(),
        matched,
        matched.len() as int,
    );
}

impl ClosureStateView {
    /// No event lies in the inbox that a pending handle waits for.
    pub open spec fn nothing_missed(self) -> bool {
        forall|i: int, h: Seq<char>|
            0 <= i < self.passive_events.len() && #[trigger] self.handles.contains_key(h)
                && (#[trigger] self.passive_events[i]).status == PassiveEventStatus::Inboxed
                ==> !event_matches(self.passive_events[i], self.handles[h])
    }
}

/// Where no handle and no event is added, nothing is missed that was not missed before.
pub proof fn law_nothing_added_nothing_missed(s: ClosureStateView, t: ClosureStateView)
    requires
        s.nothing_missed(),
        s.keeps(t),
        t.handles.dom() == s.handles.dom(),
        t.passive_events.len() == s.passive_events.len(),
    ensures
        t.nothing_missed(),
{
    assert forall|i: int, h: Seq<char>|
        0 <= i < t.passive_events.len() && #[trigger] t.handles.contains_key(h)
            && (#[trigger] t.passive_events[i]).status == PassiveEventStatus::Inboxed implies
        !event_matches(t.passive_events[i], t.handles[h]) by {
        assert(s.handles.contains_key(h));
        assert(handle_kept(s.handles[h], t.handles[h]));
        assert(event_kept(s.passive_events[i], t.passive_events[i]));
        assert(!event_matches(s.passive_events[i], s.handles[h]));
    }
}

proof fn lemma_inbox_matched_misses(
    s: ClosureStateView,
    ctx: RuntimeContextView,
    now: Timestamp,
    handle_id: Seq<char>,
    h: Seq<char>,
)
    requires
        s.handles.contains_key(handle_id),
    ensures
        ({
            let t = s.inbox_matched(ctx, now, handle_id).0;
            &&& t.handles.dom() == s.handles.dom()
            &&& t.passive_events.len() == s.passive_events.len()
            &&& h != handle_id ==> t.handles[h] == s.handles[h]
            &&& forall|i: int|
                0 <= i < t.passive_events.len() && (#[trigger] t.passive_events[i]).status
                    == PassiveEventStatus::Inboxed ==> t.passive_events[i] == s.passive_events[i]
            &&& forall|i: int|
                0 <= i < t.passive_events.len() && (#[trigger] t.passive_events[i]).status
                    == PassiveEventStatus::Inboxed ==> !event_matches(
                    t.passive_events[i],
                    t.handles[handle_id],
                )
        }),
{
    let handle = s.handles[handle_id];
    let t = s.inbox_matched(ctx, now, handle_id).0;
    assert(t.handles.dom() =~= s.handles.dom());
    lemma_find_from(s.passive_events, awaited_by(handle), 0);
    match crate::search::find_index(s.passive_events, awaited_by(handle)) {
        Some(at) => {
            lemma_find_from(s.passive_events, event_named(s.passive_events[at].id), 0);
        },
        None => {
            assert forall|i: int|
                0 <= i < t.passive_events.len() && (#[trigger] t.passive_events[i]).status
                    == PassiveEventStatus::Inboxed implies !event_matches(
                t.passive_events[i],
                t.handles[handle_id],
            ) by {
                assert(!awaited_by(handle)(s.passive_events[i]));
            }
        },
    }
}

proof fn lemma_announced_misses(
    s: ClosureStateView,
    ctx: RuntimeContextView,
    now: Timestamp,
    reason: Seq<char>,
    ids: Seq<Seq<char>>,
    n: int,
)
    requires
        0 <= n <= ids.len(),
        s.waits_announced(ctx, now, reason, ids, n).1 is Ok,
    ensures
        ({
            let t = s.waits_announced(ctx, now, reason, ids, n).0;
            &&& t.handles.dom() == s.handles.dom()
            &&& t.passive_events.len() == s.passive_events.len()
            &&& forall|h: Seq<char>|
                #![trigger t.handles[h]]
                !ids.contains(h) ==> t.handles[h] == s.handles[h]
            &&& forall|i: int|
                0 <= i < t.passive_events.len() && (#[trigger] t.passive_events[i]).status
                    == PassiveEventStatus::Inboxed ==> t.passive_events[i] == s.passive_events[i]
            &&& forall|i: int, k: int|
                0 <= i < t.passive_events.len() && 0 <= k < n && (
                #[trigger] t.passive_events[i]).status == PassiveEventStatus::Inboxed
                    ==> !event_matches(t.passive_events[i], t.handles[#[trigger] ids[k]])
        }),
    decreases n,
{
    if n > 0 {
        lemma_announced_misses(s, ctx, now, reason, ids, n - 1);
        let before = s.waits_announced(ctx, now, reason, ids, n - 1).0;
        let told = before.io_logged(
            ctx,
            now,
            IoEventKind::PassiveWaitCreated,
            Some(ids[n - 1]),
            Some(ctx.thread_id),
            "passive wait created: "@ + reason,
        );
        let t = s.waits_announced(ctx, now, reason, ids, n).0;
        let id = ids[n - 1];
        assert(ids.contains(id));
        assert forall|h: Seq<char>|
            #![trigger t.handles[h]]
            h != id implies t.handles[h] == before.handles[h] by {
            lemma_inbox_matched_misses(told, ctx, now, id, h);
        }
        lemma_inbox_matched_misses(told, ctx, now, id, id);
        assert forall|i: int, k: int|
            0 <= i < t.passive_events.len() && 0 <= k < n && (
            #[trigger] t.passive_events[i]).status == PassiveEventStatus::Inboxed implies
            !event_matches(t.passive_events[i], t.handles[#[trigger] ids[k]]) by {
            if ids[k] != id {
                assert(k < n - 1);
                assert(t.handles[ids[k]] == before.handles[ids[k]]);
                assert(t.passive_events[i] == before.passive_events[i]);
            }
        }
    }
}

proof fn lemma_parked_ids(
    s: ClosureStateView,
    thread_id: Seq<char>,
    now: Timestamp,
    specs: Seq<WaitSpecView>,
    n: int,
)
    requires
        0 <= n <= specs.len(),
        s.handles_parked(thread_id, now, specs, n).1 is Ok,
    ensures
        ({
            let made = s.handles_parked(thread_id, now, specs, n);
            let ids = made.1->Ok_0;
            &&& made.0.passive_events == s.passive_events
            &&& forall|h: Seq<char>| #[trigger]
                made.0.handles.contains_key(h) ==> ids.contains(h) || (s.handles.contains_key(h)
                    && made.0.handles[h] == s.handles[h])
        }),
    decreases n,
{
    if n > 0 {
        lemma_parked_ids(s, thread_id, now, specs, n - 1);
        let before = s.handles_parked(thread_id, now, specs, n - 1);
        let made = s.handles_parked(thread_id, now, specs, n);
        let ids = before.1->Ok_0;
        let out = made.1->Ok_0;
        assert(out == ids.push(before.0.fresh_handle_id()));
        assert forall|h: Seq<char>| #[trigger] made.0.handles.contains_key(h) implies out.contains(
            h,
        ) || (s.handles.contains_key(h) && made.0.handles[h] == s.handles[h]) by {
            if h == before.0.fresh_handle_id() {
                assert(out[ids.len() as int] == h);
            } else {
                assert(before.0.handles.contains_key(h));
                if ids.contains(h) {
                    let k = ids.index_of(h);
                    assert(out[k] == h);
                }
            }
        }
    }
}

/// A thread that parks finds what has come: after it parked nothing lies in the inbox that one of
/// its handles still waits for.
pub proof fn law_parking_misses_nothing(
    s: ClosureStateView,
    ctx: RuntimeContextView,
    now: Timestamp,
    mode: WaitMode,
    reason: Seq<char>,
    specs: Seq<WaitSpecView>,
)
    requires
        s.nothing_missed(),
        s.parked(ctx, now, mode, reason, specs).1 is Ok,
    ensures
        s.parked(ctx, now, mode, reason, specs).0.nothing_missed(),
{
    let wait_id = s.fresh_wait_id();
    let numbered_state = ClosureStateView { next_wait_seq: (s.next_wait_seq + 1) as u32, ..s };
    let made = numbered_state.handles_parked(ctx.thread_id, now, specs, specs.len() as int);
    lemma_parked_ids(numbered_state, ctx.thread_id, now, specs, specs.len() as int);
    let ids = made.1->Ok_0;
    let parked = made.0.with_thread_wait(ctx, now, wait_id, mode, ids);
    lemma_announced_misses(parked, ctx, now, reason, ids, ids.len() as int);
    let t = s.parked(ctx, now, mode, reason, specs).0;
    assert forall|i: int, h: Seq<char>|
        0 <= i < t.passive_events.len() && #[trigger] t.handles.contains_key(h)
            && (#[trigger] t.passive_events[i]).status == PassiveEventStatus::Inboxed implies
        !event_matches(t.passive_events[i], t.handles[h]) by {
        if ids.contains(h) {
            let k = ids.index_of(h);
            assert(!event_matches(t.passive_events[i], t.handles[ids[k]]));
        } else {
            assert(made.0.handles.contains_key(h));
            assert(t.handles[h] == s.handles[h]);
            assert(t.passive_events[i] == s.passive_events[i]);
        }
    }
}

proof fn lemma_delivered_dom(
    s: ClosureStateView,
    ctx: RuntimeContextView,
    now: Timestamp,
    routed: RoutedPassiveEventView,
    event_id: Seq<char>,
    ids: Seq<Seq<char>>,
    n: int,
)
    ensures
        ({
            let t = s.delivered(ctx, now, routed, event_id, ids, n).0;
            &&& t.handles.dom() == s.handles.dom()
            &&& t.passive_events == s.passive_events
            &&& forall|h: Seq<char>|
                #![trigger t.handles[h]]
                t.handles[h] == s.handles[h] || t.handles[h].status == IoHandleStatus::Ready
        }),
    decreases n,
{
    if n > 0 {
        lemma_delivered_dom(s, ctx, now, routed, event_id, ids, n - 1);
        let t = s.delivered(ctx, now, routed, event_id, ids, n).0;
        assert(t.handles.dom() =~= s.handles.dom());
    }
}

/// An event goes to the inbox only where no pending handle waits for it.
pub proof fn law_receiving_misses_nothing(
    s: ClosureStateView,
    ctx: RuntimeContextView,
    now: Timestamp,
    input: PassiveEventInputView,
)
    requires
        s.handles.dom().finite(),
        s.nothing_missed(),
    ensures
        s.received(ctx, now, input).0.nothing_missed(),
{
    let t = s.received(ctx, now, input).0;
    if let Ok(routed) = input.route() {
        let recorded = s.event_recorded(ctx, now, routed);
        let matched = s.matching_passive_handle_ids(routed);
        lemma_delivered_dom(
            recorded,
            ctx,
            now,
            routed,
            s.fresh_event_id(),
            matched,
            matched.len() as int,
        );
        let all = values(s.handles);
        lemma_listed(s.handles);
        lemma_kept(all, routed.wakes(), all.len() as int);
        if t.passive_events.len() > s.passive_events.len() {
            let new = t.passive_events.last();
            assert forall|i: int, h: Seq<char>|
                0 <= i < t.passive_events.len() && #[trigger] t.handles.contains_key(h)
                    && (#[trigger] t.passive_events[i]).status == PassiveEventStatus::Inboxed
                implies !event_matches(t.passive_events[i], t.handles[h]) by {
                assert(s.handles.contains_key(h));
                if i < s.passive_events.len() {
                    assert(t.passive_events[i] == s.passive_events[i]);
                } else if event_matches(new, t.handles[h]) {
                    assert(t.handles[h] == s.handles[h]);
                    let at = all.index_of(s.handles[h]);
                    assert(all[at] == s.handles[h]);
                    assert((routed.wakes())(all[at]));
                    assert(select(all, routed.wakes()).contains(all[at]));
                }
            }
        }
    }
}

proof fn lemma_siblings_dom(
    s: ClosureStateView,
    ids: Seq<Seq<char>>,
    n: int,
    taken: Seq<char>,
    now: Timestamp,
)
    ensures
        s.siblings_cancelled(ids, n, taken, now).handles.dom() == s.handles.dom(),
        s.siblings_cancelled(ids, n, taken, now).passive_events == s.passive_events,
    decreases n,
{
    if n > 0 {
        lemma_siblings_dom(s, ids, n - 1, taken, now);
        assert(s.siblings_cancelled(ids, n, taken, now).handles.dom() =~= s.handles.dom());
    }
}

/// Taking a handle and giving it up leave nothing missed.
pub proof fn law_taking_misses_nothing(
    s: ClosureStateView,
    ctx: RuntimeContextView,
    now: Timestamp,
    handle_id: Seq<char>,
    reason: Seq<char>,
)
    requires
        s.orderly(),
        s.nothing_missed(),
    ensures
        s.consumed(ctx, now, handle_id).0.nothing_missed(),
        s.cancelled(ctx, now, handle_id, reason).0.nothing_missed(),
{
    let taken = s.with_handle_status(handle_id, IoHandleStatus::Consumed, now);
    if let Some(wait_id) = s.wait_id_for_handle(handle_id) {
        let ids = taken.waits[wait_id].handle_ids;
        lemma_siblings_dom(taken, ids, ids.len() as int, handle_id, now);
    }
    law_consumed_keeps_history(s, ctx, now, handle_id);
    assert(s.consumed(ctx, now, handle_id).0.handles.dom() =~= s.handles.dom());
    law_nothing_added_nothing_missed(s, s.consumed(ctx, now, handle_id).0);
    law_cancelled_keeps_history(s, ctx, now, handle_id, reason);
    assert(s.cancelled(ctx, now, handle_id, reason).0.handles.dom() =~= s.handles.dom());
    law_nothing_added_nothing_missed(s, s.cancelled(ctx, now, handle_id, reason).0);
}

/// Reporting on a child thread, binding an actor to it, joining it and recovering it leave nothing
/// missed.
pub proof fn law_threads_miss_nothing(
    s: ClosureStateView,
    ctx: RuntimeContextView,
    now: Timestamp,
    thread_id: Seq<char>,
    other: Seq<char>,
    kind: IoEventKind,
    text: Seq<char>,
)
    requires
        s.orderly(),
        s.nothing_missed(),
        branching(s.problems),
    ensures
        s.child_ready(ctx, now, thread_id, text).0.nothing_missed(),
        s.joined(ctx, now, thread_id, other, text).0.nothing_missed(),
        s.auto_joined(ctx, now, thread_id, text).0.nothing_missed(),
        s.child_failed(ctx, now, thread_id, kind, text).0.nothing_missed(),
        s.actor_stopped(ctx, now, thread_id, text).0.nothing_missed(),
        s.actor_bound(ctx, now, thread_id, text).0.nothing_missed(),
        s.recovered(ctx, now, thread_id).0.nothing_missed(),
{
    law_child_ready_keeps_history(s, ctx, now, thread_id, text);
    assert(s.child_ready(ctx, now, thread_id, text).0.handles.dom() =~= s.handles.dom());
    law_nothing_added_nothing_missed(s, s.child_ready(ctx, now, thread_id, text).0);
    law_joined_keeps_history(s, ctx, now, thread_id, other, text);
    assert(s.joined(ctx, now, thread_id, other, text).0.handles.dom() =~= s.handles.dom());
    law_nothing_added_nothing_missed(s, s.joined(ctx, now, thread_id, other, text).0);
    law_auto_joined_keeps_history(s, ctx, now, thread_id, text);
    assert(s.auto_joined(ctx, now, thread_id, text).0.handles.dom() =~= s.handles.dom());
    law_nothing_added_nothing_missed(s, s.auto_joined(ctx, now, thread_id, text).0);
    law_child_failed_keeps_history(s, ctx, now, thread_id, kind, text);
    assert(s.child_failed(ctx, now, thread_id, kind, text).0.handles.dom() =~= s.handles.dom());
    law_nothing_added_nothing_missed(s, s.child_failed(ctx, now, thread_id, kind, text).0);
    law_actor_stopped_keeps_history(s, ctx, now, thread_id, text);
    assert(s.actor_stopped(ctx, now, thread_id, text).0.handles.dom() =~= s.handles.dom());
    law_nothing_added_nothing_missed(s, s.actor_stopped(ctx, now, thread_id, text).0);
    law_actor_bound_keeps_history(s, ctx, now, thread_id, text);
    assert(s.actor_bound(ctx, now, thread_id, text).0.handles.dom() =~= s.handles.dom());
    law_nothing_added_nothing_missed(s, s.actor_bound(ctx, now, thread_id, text).0);
    law_recovered_keeps_history(s, ctx, now, thread_id);
    assert(s.recovered(ctx, now, thread_id).0.handles.dom() =~= s.handles.dom());
    law_nothing_added_nothing_missed(s, s.recovered(ctx, now, thread_id).0);
}

/// Seeing to an inbox item leaves nothing missed.
pub proof fn law_inbox_misses_nothing(
    s: ClosureStateView,
    ctx: RuntimeContextView,
    now: Timestamp,
    item_id: Seq<char>,
    title: Seq<char>,
    body: Seq<char>,
    note: Seq<char>,
)
    requires
        s.orderly(),
        s.nothing_missed(),
        s.next_problem_seq < u32::MAX,
        s.next_ticket_seq < u32::MAX,
    ensures
        s.acknowledged(ctx, now, item_id, note).0.nothing_missed(),
        s.user_task_created(ctx, now, item_id, title, body, note).0.nothing_missed(),
        s.user_task_scaffolded(ctx, now, item_id, title, body, title, body, note).0.nothing_missed(),
{
    if let Some(at) = s.item_index(item_id) {
        lemma_find_from(s.passive_events, event_named(s.inbox[at].passive_event_id), 0);
    }
    law_acknowledged_keeps_history(s, ctx, now, item_id, note);
    assert(s.acknowledged(ctx, now, item_id, note).0.handles.dom() =~= s.handles.dom());
    law_nothing_added_nothing_missed(s, s.acknowledged(ctx, now, item_id, note).0);
    law_user_task_created_keeps_history(s, ctx, now, item_id, title, body, note);
    assert(s.user_task_created(ctx, now, item_id, title, body, note).0.handles.dom() =~= s.handles.dom());
    law_nothing_added_nothing_missed(s, s.user_task_created(ctx, now, item_id, title, body, note).0);
    law_user_task_scaffolded_keeps_history(
        s,
        ctx,
        now,
        item_id,
        title,
        body,
        title,
        body,
        note,
    );
    assert(s.user_task_scaffolded(ctx, now, item_id, title, body, title, body, note).0.handles.dom() =~= s.handles.dom());
    law_nothing_added_nothing_missed(s, s.user_task_scaffolded(ctx, now, item_id, title, body, title, body, note).0);
}

/// Checking a problem leaves nothing missed.
pub proof fn law_checking_misses_nothing(
    s: ClosureStateView,
    ctx: RuntimeContextView,
    now: Timestamp,
    problem_id: Seq<char>,
    status: CheckStatus,
    result_ids: Seq<Seq<char>>,
    title: Seq<char>,
    body: Seq<char>,
    followup: Option<(Seq<char>, Seq<char>)>,
)
    requires
        s.orderly(),
        s.nothing_missed(),
        s.next_problem_seq < u32::MAX,
        s.next_check_seq < u32::MAX,
    ensures
        s.checked(ctx, now, problem_id, status, result_ids, title, body, followup).0.nothing_missed(),
{
    law_checked_keeps_history(
        s,
        ctx,
        now,
        problem_id,
        status,
        result_ids,
        title,
        body,
        followup,
    );
    assert(s.checked(ctx, now, problem_id, status, result_ids, title, body, followup).0.handles.dom() =~= s.handles.dom());
    law_nothing_added_nothing_missed(s, s.checked(ctx, now, problem_id, status, result_ids, title, body, followup).0);
}

/// Spawning a thread leaves nothing missed: no event is what the handle on a thread waits for.
pub proof fn law_spawning_misses_nothing(
    s: ClosureStateView,
    ctx: RuntimeContextView,
    now: Timestamp,
    problem_id: Seq<char>,
    policy: ContextForkPolicy,
    bootstrap_instruction: Seq<char>,
    inherited_cwd: Option<Seq<char>>,
    inherited_model: Option<Seq<char>>,
    inherited_tools: Seq<Seq<char>>,
)
    requires
        s.nothing_missed(),
    ensures
        s.spawned(
            ctx,
            now,
            problem_id,
            policy,
            bootstrap_instruction,
            inherited_cwd,
            inherited_model,
            inherited_tools,
        ).0.nothing_missed(),
{
    let t = s.spawned(
        ctx,
        now,
        problem_id,
        policy,
        bootstrap_instruction,
        inherited_cwd,
        inherited_model,
        inherited_tools,
    ).0;
    assert forall|i: int, h: Seq<char>|
        0 <= i < t.passive_events.len() && #[trigger] t.handles.contains_key(h)
            && (#[trigger] t.passive_events[i]).status == PassiveEventStatus::Inboxed implies
        !event_matches(t.passive_events[i], t.handles[h]) by {
        assert(t.passive_events[i] == s.passive_events[i]);
        if t.handles[h].kind != IoHandleKind::ChildThread {
            assert(s.handles.contains_key(h) && t.handles[h] == s.handles[h]);
        }
    }
}

} // verus!
