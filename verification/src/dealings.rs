//! What waiting, taking, cancelling and handling write down, and when each is accepted.
use vstd::prelude::*;
use crate::clock::Timestamp;
use crate::context::RuntimeContextView;
use crate::entities::{ClosureStateView, EventKeyView, InboxItemView, IoHandleView, PassiveEventView, ProblemView, ThreadView, ThreadWaitView};
use crate::effects::{changed_at, law_writable_is_own_and_below};
use crate::forest::rooted;
use crate::history::{free_from, lemma_free_insert};
use crate::ids::numbered;
use crate::kinds::{IoHandleKind, IoHandleStatus, PassiveEventStatus, ProblemStatus, ThreadStatus, TicketStatus, WaitMode, WaitSpecKind, WaitStatus};
use crate::lookup::{event_named, item_named};
use crate::outcomes::lemma_sole_wait;
use crate::reports::WaitSpecView;
use crate::search::{find_from, lemma_find_from};
use crate::wake::waits_refreshed;

verus! {

/// What a handle is to wait for, as a wait was asked for: the key that was given, or one made of the
/// kind, the condition and the source that were given and addressed to the thread.
pub open spec fn is_asked_key(key: EventKeyView, spec: WaitSpecView, thread_id: Seq<char>) -> bool {
    let word = match spec.kind {
        WaitSpecKind::UserInput => Some("user.input"@),
        WaitSpecKind::Timer => Some("timer"@),
        WaitSpecKind::ExternalSignal => Some("external.signal"@),
        WaitSpecKind::EventKey => None,
    };
    match word {
        Some(word) => key == (EventKeyView {
            kind: word,
            resource: spec.condition,
            source: spec.source,
            target_thread_id: Some(thread_id),
        }),
        None => spec.event_key == Some(key),
    }
}

/// A wait is asked for in a way that can be met: a key is given exactly where the kind asks for one,
/// and nothing is addressed to another thread.
pub open spec fn is_fine_spec(spec: WaitSpecView, thread_id: Seq<char>) -> bool {
    if spec.kind == WaitSpecKind::EventKey {
        spec.event_key matches Some(key) && (key.target_thread_id is None || key.target_thread_id
            == Some(thread_id))
    } else {
        spec.event_key is None && (spec.target_thread_id is None || spec.target_thread_id == Some(
            thread_id,
        ))
    }
}

/// The handle that stands for a wait that was asked for.
pub open spec fn is_asked_handle(
    handle: IoHandleView,
    id: Seq<char>,
    spec: WaitSpecView,
    thread_id: Seq<char>,
    now: Timestamp,
) -> bool {
    &&& handle.id == id
    &&& handle.owner_thread_id == thread_id
    &&& handle.target_thread_id is None
    &&& handle.event_key matches Some(key) && is_asked_key(key, spec, thread_id)
    &&& handle.condition == handle.event_key->0.resource
    &&& handle.source == handle.event_key->0.source
    &&& handle.dedupe_key == spec.dedupe_key
    &&& handle.kind == match spec.kind {
        WaitSpecKind::UserInput => IoHandleKind::UserInput,
        WaitSpecKind::Timer => IoHandleKind::Timer,
        WaitSpecKind::ExternalSignal => IoHandleKind::ExternalSignal,
        WaitSpecKind::EventKey => if handle.event_key->0.kind == "user.input"@ {
            IoHandleKind::UserInput
        } else if handle.event_key->0.kind == "timer"@ {
            IoHandleKind::Timer
        } else {
            IoHandleKind::ExternalSignal
        },
    }
    &&& handle.created_at == now
}

/// A handle may only have been settled by an event; what it waits for is the same.
pub open spec fn same_purpose(a: IoHandleView, b: IoHandleView) -> bool {
    b == (IoHandleView {
        status: b.status,
        payload_ref: b.payload_ref,
        resolved_event_id: b.resolved_event_id,
        updated_at: b.updated_at,
        ..a
    })
}

pub proof fn lemma_key_words()
    ensures
        "user.input"@ != "timer"@,
        "user.input"@ != "external.signal"@,
        "timer"@ != "external.signal"@,
{
    reveal_strlit("user.input");
    reveal_strlit("timer");
    reveal_strlit("external.signal");
    assert("user.input"@.len() == 10 && "timer"@.len() == 5 && "external.signal"@.len() == 15);
}

proof fn lemma_asked_key(
    s: ClosureStateView,
    thread_id: Seq<char>,
    now: Timestamp,
    spec: WaitSpecView,
)
    requires
        s.threads.contains_key(thread_id),
    ensures
        s.wait_key(thread_id, spec) is Ok <==> is_fine_spec(spec, thread_id),
        s.wait_key(thread_id, spec) matches Ok(key) ==> is_asked_key(key, spec, thread_id)
            && is_asked_handle(
            s.with_passive_handle(thread_id, now, key, spec.dedupe_key).handles[s.fresh_handle_id()],
            s.fresh_handle_id(),
            spec,
            thread_id,
            now,
        ),
{
    lemma_key_words();
}

proof fn lemma_handles_made(
    s: ClosureStateView,
    thread_id: Seq<char>,
    now: Timestamp,
    specs: Seq<WaitSpecView>,
    n: int,
)
    requires
        free_from(s.handles, "H"@, s.next_handle_seq),
        s.threads.contains_key(thread_id),
        0 <= n <= specs.len(),
        s.next_handle_seq + n <= u32::MAX,
    ensures
        ({
            let (t, r) = s.handles_parked(thread_id, now, specs, n);
            &&& t == (ClosureStateView {
                handles: t.handles,
                next_handle_seq: t.next_handle_seq,
                ..s
            })
            &&& r is Ok <==> forall|i: int|
                0 <= i < n ==> is_fine_spec(#[trigger] specs[i], thread_id)
            &&& r matches Ok(ids) ==> {
                &&& ids.len() == n
                &&& t.next_handle_seq == s.next_handle_seq + n
                &&& free_from(t.handles, "H"@, t.next_handle_seq)
                &&& forall|i: int|
                    0 <= i < n ==> {
                        &&& #[trigger] ids[i] == numbered("H"@, (s.next_handle_seq + i) as nat)
                        &&& t.handles.contains_key(ids[i])
                        &&& is_asked_handle(t.handles[ids[i]], ids[i], specs[i], thread_id, now)
                        &&& t.handles[ids[i]].status == IoHandleStatus::Pending
                    }
                &&& forall|h: Seq<char>| #[trigger]
                    s.handles.contains_key(h) ==> t.handles.contains_key(h) && t.handles[h]
                        == s.handles[h]
                &&& forall|h: Seq<char>| #[trigger]
                    t.handles.contains_key(h) ==> s.handles.contains_key(h) || ids.contains(h)
            }
        }),
    decreases n,
{
    if n > 0 {
        lemma_handles_made(s, thread_id, now, specs, n - 1);
        let (before, r) = s.handles_parked(thread_id, now, specs, n - 1);
        let (t, made) = s.handles_parked(thread_id, now, specs, n);
        lemma_asked_key(before, thread_id, now, specs[n - 1]);
        if r is Ok && made is Ok {
            let id = before.fresh_handle_id();
            let ids = r->Ok_0;
            let all = made->Ok_0;
            lemma_free_insert(before.handles, "H"@, before.next_handle_seq, t.handles[id]);
            assert(!before.handles.contains_key(id));
            assert(all == ids.push(id));
            assert forall|i: int| 0 <= i < n implies {
                &&& #[trigger] all[i] == numbered("H"@, (s.next_handle_seq + i) as nat)
                &&& t.handles.contains_key(all[i])
                &&& is_asked_handle(t.handles[all[i]], all[i], specs[i], thread_id, now)
                &&& t.handles[all[i]].status == IoHandleStatus::Pending
            } by {
                if i < n - 1 {
                    assert(all[i] == ids[i]);
                    assert(before.handles.contains_key(ids[i]));
                }
            }
            assert forall|h: Seq<char>| #[trigger] t.handles.contains_key(h) implies
                s.handles.contains_key(h) || all.contains(h) by {
                if h == id {
                    assert(all[n - 1] == id);
                } else if !s.handles.contains_key(h) {
                    assert(before.handles.contains_key(h));
                    let i = ids.index_of(h);
                    assert(ids[i] == h);
                    assert(all[i] == h);
                }
            }
            assert(is_fine_spec(specs[n - 1], thread_id));
        }
        if made is Err && r is Ok {
            assert(!is_fine_spec(specs[n - 1], thread_id));
        }
    }
}

proof fn lemma_waits_keep(
    waits: Map<Seq<char>, ThreadWaitView>,
    handles: Map<Seq<char>, IoHandleView>,
    ids: Seq<Seq<char>>,
    n: int,
    now: Timestamp,
)
    requires
        n <= ids.len(),
    ensures
        ({
            let after = waits_refreshed(waits, handles, ids, n, now);
            &&& after.dom() == waits.dom()
            &&& forall|w: Seq<char>|
                #![trigger after[w]]
                waits.contains_key(w) ==> after[w] == (ThreadWaitView {
                    status: after[w].status,
                    updated_at: after[w].updated_at,
                    ..waits[w]
                })
        }),
    decreases n,
{
    if n > 0 {
        lemma_waits_keep(waits, handles, ids, n - 1, now);
        let before = waits_refreshed(waits, handles, ids, n - 1, now);
        let after = waits_refreshed(waits, handles, ids, n, now);
        assert(after.dom() =~= waits.dom());
        assert forall|w: Seq<char>|
            #![trigger after[w]]
            waits.contains_key(w) implies after[w] == (ThreadWaitView {
            status: after[w].status,
            updated_at: after[w].updated_at,
            ..waits[w]
        }) by {
            let b = before[w];
        }
    }
}

proof fn lemma_announced(
    s: ClosureStateView,
    ctx: RuntimeContextView,
    now: Timestamp,
    reason: Seq<char>,
    ids: Seq<Seq<char>>,
    n: int,
)
    requires
        0 <= n <= ids.len(),
        forall|i: int| 0 <= i < ids.len() ==> s.handles.contains_key(#[trigger] ids[i]),
    ensures
        ({
            let (t, r) = s.waits_announced(ctx, now, reason, ids, n);
            &&& r is Ok
            &&& t.handles.dom() == s.handles.dom()
            &&& forall|h: Seq<char>|
                #![trigger t.handles[h]]
                same_purpose(s.handles[h], t.handles[h]) && (!ids.contains(h) ==> t.handles[h]
                    == s.handles[h])
            &&& t.waits.dom() == s.waits.dom()
            &&& forall|w: Seq<char>|
                #![trigger t.waits[w]]
                s.waits.contains_key(w) ==> t.waits[w] == (ThreadWaitView {
                    status: t.waits[w].status,
                    updated_at: t.waits[w].updated_at,
                    ..s.waits[w]
                })
            &&& t.problems == s.problems && t.tickets == s.tickets && t.results == s.results
                && t.checks == s.checks && t.events == s.events
        }),
    decreases n,
{
    if n > 0 {
        lemma_announced(s, ctx, now, reason, ids, n - 1);
        let before = s.waits_announced(ctx, now, reason, ids, n - 1).0;
        let t = s.waits_announced(ctx, now, reason, ids, n).0;
        let id = ids[n - 1];
        assert(s.handles.contains_key(id));
        let taken = ClosureStateView { handles: t.handles, ..before };
        let list = taken.wait_ids_listing(id);
        lemma_waits_keep(taken.waits, taken.handles, list, list.len() as int, now);
        assert(t.waits == before.waits || t.waits == taken.refreshed(id, now).waits);
        assert(t.handles.dom() =~= s.handles.dom());
        assert forall|h: Seq<char>|
            #![trigger t.handles[h]]
            same_purpose(s.handles[h], t.handles[h]) && (!ids.contains(h) ==> t.handles[h]
                == s.handles[h]) by {
            let b = before.handles[h];
            if h == id {
                assert(ids.contains(id));
            }
        }
        assert forall|w: Seq<char>|
            #![trigger t.waits[w]]
            s.waits.contains_key(w) implies t.waits[w] == (ThreadWaitView {
            status: t.waits[w].status,
            updated_at: t.waits[w].updated_at,
            ..s.waits[w]
        }) by {
            let b = before.waits[w];
        }
    }
}

/// A thread that may park does so exactly if every wait was asked for in a way that can be met. Then
/// one handle stands for each, in order, made as it was asked for; one wait of the mode that was asked
/// for lists them all; the receipt names them; and every other handle is as it was.
pub proof fn law_parked_waits_are_as_asked(
    s: ClosureStateView,
    ctx: RuntimeContextView,
    now: Timestamp,
    mode: WaitMode,
    reason: Seq<char>,
    specs: Seq<WaitSpecView>,
)
    requires
        s.orderly(),
        s.next_handle_seq + specs.len() <= u32::MAX,
        s.parking_refusal(ctx, specs) is Ok,
    ensures
        ({
            let (t, r) = s.parked(ctx, now, mode, reason, specs);
            &&& r is Ok <==> forall|i: int|
                0 <= i < specs.len() ==> is_fine_spec(#[trigger] specs[i], ctx.thread_id)
            &&& r matches Ok(parked) ==> {
                let wait = t.waits[parked.wait_id];
                &&& parked.thread_id == ctx.thread_id
                &&& parked.mode == mode
                &&& parked.wait_id == numbered("W"@, s.next_wait_seq as nat)
                &&& parked.status == wait.status
                &&& t.waits.dom() == s.waits.dom().insert(parked.wait_id)
                &&& wait.id == parked.wait_id
                &&& wait.thread_id == ctx.thread_id
                &&& wait.mode == mode
                &&& wait.handle_ids == parked.handle_ids
                &&& wait.created_at == now
                &&& parked.handle_ids.len() == specs.len()
                &&& forall|i: int|
                    0 <= i < specs.len() ==> {
                        let id = #[trigger] parked.handle_ids[i];
                        &&& id == numbered("H"@, (s.next_handle_seq + i) as nat)
                        &&& t.handles.contains_key(id)
                        &&& is_asked_handle(t.handles[id], id, specs[i], ctx.thread_id, now)
                    }
                &&& forall|h: Seq<char>| #[trigger]
                    s.handles.contains_key(h) ==> t.handles[h] == s.handles[h]
                &&& t.problems == s.problems && t.tickets == s.tickets && t.results == s.results
                    && t.checks == s.checks && t.events == s.events
            }
        }),
{
    let wait_id = s.fresh_wait_id();
    let counted = ClosureStateView { next_wait_seq: (s.next_wait_seq + 1) as u32, ..s };
    lemma_handles_made(counted, ctx.thread_id, now, specs, specs.len() as int);
    let made = counted.handles_parked(ctx.thread_id, now, specs, specs.len() as int);
    if let Ok(ids) = made.1 {
        let waiting = made.0.with_thread_wait(ctx, now, wait_id, mode, ids);
        lemma_announced(waiting, ctx, now, reason, ids, ids.len() as int);
        let (t, r) = s.parked(ctx, now, mode, reason, specs);
        assert(waiting.waits.contains_key(wait_id));
        assert(t.waits.contains_key(wait_id));
        assert(t.waits.dom() =~= s.waits.dom().insert(wait_id));
        let w = t.waits[wait_id];
        assert forall|i: int| 0 <= i < specs.len() implies {
            let id = #[trigger] ids[i];
            &&& id == numbered("H"@, (s.next_handle_seq + i) as nat)
            &&& t.handles.contains_key(id)
            &&& is_asked_handle(t.handles[id], id, specs[i], ctx.thread_id, now)
        } by {
            assert(waiting.handles.contains_key(ids[i]));
            assert(same_purpose(waiting.handles[ids[i]], t.handles[ids[i]]));
        }
        assert forall|h: Seq<char>| #[trigger] s.handles.contains_key(h) implies t.handles[h]
            == s.handles[h] by {
            if ids.contains(h) {
                let i = ids.index_of(h);
                assert(ids[i] == h);
                assert(h == numbered("H"@, (s.next_handle_seq + i) as nat));
            }
            assert(counted.handles.contains_key(h));
            assert(waiting.handles == made.0.handles);
            assert(t.handles[h] == waiting.handles[h]);
        }
    }
}

/// Every handle that a wait lists is there and was taken.
pub open spec fn all_taken(s: ClosureStateView, wait: ThreadWaitView) -> bool {
    forall|i: int|
        0 <= i < wait.handle_ids.len() ==> s.handles.contains_key(#[trigger] wait.handle_ids[i])
            && s.handles[wait.handle_ids[i]].status == IoHandleStatus::Consumed
}

/// A handle for something from outside is taken exactly by its owner, once it is ready. A wait for all
/// of its handles is over with the last of them; until then it stays. The receipt hands out the event
/// and the payload that the handle was settled with, the thread runs, and no other handle changes.
pub proof fn law_all_wait_is_over_with_its_last_handle(
    s: ClosureStateView,
    ctx: RuntimeContextView,
    now: Timestamp,
    handle_id: Seq<char>,
    wait_id: Seq<char>,
)
    requires
        s.handles.contains_key(handle_id),
        s.handles[handle_id].kind != IoHandleKind::ChildThread,
        s.waits.dom().finite(),
        s.waits[wait_id].id == wait_id,
        s.sole_wait(wait_id, handle_id),
        s.waits[wait_id].mode == WaitMode::All,
    ensures
        ({
            let (t, r) = s.consumed(ctx, now, handle_id);
            let handle = s.handles[handle_id];
            &&& r is Ok <==> handle.owner_thread_id == ctx.thread_id && handle.status
                == IoHandleStatus::Ready
            &&& r is Err ==> t == s
            &&& r matches Ok(c) ==> {
                &&& c.thread_id == ctx.thread_id
                &&& c.handle_id == handle_id
                &&& c.wait_id == wait_id
                &&& c.kind == handle.kind
                &&& c.target_thread_id == handle.target_thread_id
                &&& c.resolved_event_id == handle.resolved_event_id
                &&& c.payload_ref == handle.payload_ref
                &&& c.joined_thread is None
                &&& changed_at(s.handles, t.handles, handle_id)
                &&& t.handles[handle_id] == (IoHandleView {
                    status: IoHandleStatus::Consumed,
                    updated_at: now,
                    ..handle
                })
                &&& all_taken(t, s.waits[wait_id]) ==> t.waits[wait_id].status
                    == WaitStatus::Consumed
                &&& !all_taken(t, s.waits[wait_id]) && s.waits[wait_id].status
                    != WaitStatus::Consumed ==> t.waits[wait_id].status != WaitStatus::Consumed
                &&& t.waits[wait_id].handle_ids == s.waits[wait_id].handle_ids
                &&& s.threads.contains_key(ctx.thread_id) ==> t.threads == s.threads.insert(
                    ctx.thread_id,
                    ThreadView {
                        status: ThreadStatus::Running,
                        updated_at: now,
                        ..s.threads[ctx.thread_id]
                    },
                )
                &&& t.inbox == s.inbox && t.passive_events == s.passive_events && t.problems
                    == s.problems && t.tickets == s.tickets && t.results == s.results && t.checks
                    == s.checks
            }
        }),
{
    lemma_sole_wait(s, wait_id, handle_id);
    assert(s.waits.contains_key(wait_id));
    let (t, r) = s.consumed(ctx, now, handle_id);
    if r is Ok {
        let taken = s.with_handle_status(handle_id, IoHandleStatus::Consumed, now);
        let list = taken.wait_ids_listing(handle_id);
        let fresh = taken.refreshed(handle_id, now);
        lemma_waits_keep(taken.waits, taken.handles, list, list.len() as int, now);
        lemma_never_consumed(taken.waits, taken.handles, list, list.len() as int, now);
        assert(t.handles == taken.handles);
        assert(t.handles.dom() =~= s.handles.dom().insert(handle_id));
        let w = fresh.waits[wait_id];
        assert(fresh.all_consumed(w) == all_taken(t, s.waits[wait_id])) by {
            assert(w.handle_ids == s.waits[wait_id].handle_ids);
            if fresh.all_consumed(w) {
                assert forall|i: int| 0 <= i < w.handle_ids.len() implies t.handles.contains_key(
                    #[trigger] w.handle_ids[i],
                ) && t.handles[w.handle_ids[i]].status == IoHandleStatus::Consumed by {}
            }
            if all_taken(t, s.waits[wait_id]) {
                assert forall|i: int| 0 <= i < w.handle_ids.len() implies fresh.handles.contains_key(
                    #[trigger] w.handle_ids[i],
                ) && fresh.handles[w.handle_ids[i]].status == IoHandleStatus::Consumed by {
                    let h = s.waits[wait_id].handle_ids[i];
                }
            }
        }
    }
}

pub proof fn lemma_never_consumed(
    waits: Map<Seq<char>, ThreadWaitView>,
    handles: Map<Seq<char>, IoHandleView>,
    ids: Seq<Seq<char>>,
    n: int,
    now: Timestamp,
)
    requires
        n <= ids.len(),
    ensures
        ({
            let after = waits_refreshed(waits, handles, ids, n, now);
            forall|w: Seq<char>|
                #![trigger after[w]]
                waits.contains_key(w) ==> (after[w].status == WaitStatus::Consumed <==> waits[w].status
                    == WaitStatus::Consumed)
        }),
    decreases n,
{
    if n > 0 {
        lemma_never_consumed(waits, handles, ids, n - 1, now);
        lemma_waits_keep(waits, handles, ids, n - 1, now);
        let before = waits_refreshed(waits, handles, ids, n - 1, now);
        let after = waits_refreshed(waits, handles, ids, n, now);
        assert forall|w: Seq<char>|
            #![trigger after[w]]
            waits.contains_key(w) implies (after[w].status == WaitStatus::Consumed
            <==> waits[w].status == WaitStatus::Consumed) by {
            let b = before[w];
        }
    }
}

/// A handle for something from outside is cancelled exactly by its owner, while it is pending or ready.
/// Then it is cancelled and nothing else about it or any other handle changes.
pub proof fn law_cancelled_handle_is_closed(
    s: ClosureStateView,
    ctx: RuntimeContextView,
    now: Timestamp,
    handle_id: Seq<char>,
    wait_id: Seq<char>,
    reason: Seq<char>,
)
    requires
        s.handles.contains_key(handle_id),
        s.waits.dom().finite(),
        s.waits[wait_id].id == wait_id,
        s.sole_wait(wait_id, handle_id),
    ensures
        ({
            let (t, r) = s.cancelled(ctx, now, handle_id, reason);
            let handle = s.handles[handle_id];
            &&& r is Ok <==> handle.owner_thread_id == ctx.thread_id && handle.kind
                != IoHandleKind::ChildThread && (handle.status == IoHandleStatus::Pending
                || handle.status == IoHandleStatus::Ready)
            &&& r is Err ==> t == s
            &&& r matches Ok(c) ==> {
                &&& c.thread_id == ctx.thread_id
                &&& c.handle_id == handle_id
                &&& c.wait_id == wait_id
                &&& c.kind == handle.kind
                &&& changed_at(s.handles, t.handles, handle_id)
                &&& t.handles[handle_id] == (IoHandleView {
                    status: IoHandleStatus::Cancelled,
                    updated_at: now,
                    ..handle
                })
                &&& t.waits.dom() == s.waits.dom()
                &&& t.waits[wait_id].handle_ids == s.waits[wait_id].handle_ids
                &&& t.inbox == s.inbox && t.passive_events == s.passive_events && t.problems
                    == s.problems && t.tickets == s.tickets && t.results == s.results && t.checks
                    == s.checks && t.events == s.events
                &&& t.io_events.last().handle_id == Some(handle_id)
            }
        }),
{
    lemma_sole_wait(s, wait_id, handle_id);
    assert(s.waits.contains_key(wait_id));
    let (t, r) = s.cancelled(ctx, now, handle_id, reason);
    if r is Ok {
        let taken = s.with_handle_status(handle_id, IoHandleStatus::Cancelled, now);
        let list = taken.wait_ids_listing(handle_id);
        lemma_waits_keep(taken.waits, taken.handles, list, list.len() as int, now);
        assert(t.waits == taken.refreshed(handle_id, now).waits);
        assert(t.handles.dom() =~= s.handles.dom().insert(handle_id));
        let w = t.waits[wait_id];
    }
}

/// The first item of the inbox with a name.
pub open spec fn is_item_at(s: ClosureStateView, item_id: Seq<char>, at: int) -> bool {
    &&& 0 <= at < s.inbox.len()
    &&& s.inbox[at].id == item_id
    &&& forall|i: int| 0 <= i < at ==> (#[trigger] s.inbox[i]).id != item_id
}

/// The first event from outside with a name.
pub open spec fn is_event_at(s: ClosureStateView, event_id: Seq<char>, at: int) -> bool {
    &&& 0 <= at < s.passive_events.len()
    &&& s.passive_events[at].id == event_id
    &&& forall|i: int| 0 <= i < at ==> (#[trigger] s.passive_events[i]).id != event_id
}

pub proof fn lemma_item_at(s: ClosureStateView, item_id: Seq<char>, at: int)
    requires
        is_item_at(s, item_id, at),
    ensures
        s.item_index(item_id) == Some(at),
{
    lemma_find_from(s.inbox, item_named(item_id), 0);
    assert((item_named(item_id))(s.inbox[at]));
    if let Some(i) = find_from(s.inbox, item_named(item_id), 0) {
        if i < at {
            assert(s.inbox[i].id != item_id);
        }
    }
}

pub proof fn lemma_event_at(s: ClosureStateView, event_id: Seq<char>, at: int)
    requires
        is_event_at(s, event_id, at),
    ensures
        s.event_index(event_id) == Some(at),
{
    lemma_find_from(s.passive_events, event_named(event_id), 0);
    assert((event_named(event_id))(s.passive_events[at]));
    if let Some(i) = find_from(s.passive_events, event_named(event_id), 0) {
        if i < at {
            assert(s.passive_events[i].id != event_id);
        }
    }
}

/// A task is made of an item of the inbox exactly if the item waits for the thread or for anybody, its
/// event waits too and says the same of where it came from, and the thread may change its own problem.
/// The task stands below that problem, says what was asked and names the item, the event and its kind;
/// both count as handled from there on.
pub proof fn law_user_task_says_what_was_asked(
    s: ClosureStateView,
    ctx: RuntimeContextView,
    now: Timestamp,
    item_id: Seq<char>,
    title: Seq<char>,
    body: Seq<char>,
    note: Seq<char>,
    at: int,
    event_at: int,
)
    requires
        rooted(s.problems),
        !s.problems.contains_key(numbered("P"@, s.next_problem_seq as nat)),
        is_item_at(s, item_id, at),
        is_event_at(s, s.inbox[at].passive_event_id, event_at),
    ensures
        ({
            let (t, r) = s.user_task_created(ctx, now, item_id, title, body, note);
            let item = s.inbox[at];
            let event = s.passive_events[event_at];
            let parent_id = s.threads[ctx.thread_id].root_problem_id;
            &&& r is Ok <==> item.status == PassiveEventStatus::Inboxed && (item.target_thread_id
                is None || item.target_thread_id == Some(ctx.thread_id)) && event.status
                == PassiveEventStatus::Inboxed && item.event_key == event.event_key
                && item.target_thread_id == event.target_thread_id && item.condition
                == event.condition && item.source == event.source && item.dedupe_key
                == event.dedupe_key && s.threads.contains_key(ctx.thread_id) && s.may_change(
                ctx,
                parent_id,
            )
            &&& r is Err ==> t == s
            &&& r matches Ok(task) ==> {
                let made = t.problems[task.problem_id];
                &&& task.problem_id == numbered("P"@, s.next_problem_seq as nat)
                &&& task.parent_problem_id == parent_id
                &&& task.inbox_item_id == item_id
                &&& task.passive_event_id == event.id
                &&& task.source_kind == event.kind
                &&& t.problems.dom() == s.problems.dom().insert(task.problem_id)
                &&& made.id == task.problem_id
                &&& made.title == title
                &&& made.body == body
                &&& made.status == ProblemStatus::Todo
                &&& made.owner_thread_id == ctx.thread_id
                &&& made.parent_id == Some(parent_id)
                &&& made.created_from_passive_event_id == Some(event.id)
                &&& made.created_from_inbox_item_id == Some(item_id)
                &&& made.created_from_user_task_kind == Some(event.kind)
                &&& made.created_from_ticket_id is None && made.created_from_check_id is None
                &&& made.ticket_id is None
                &&& t.problems[parent_id] == (ProblemView {
                    child_problem_ids: s.problems[parent_id].child_problem_ids.push(task.problem_id),
                    updated_at: now,
                    ..s.problems[parent_id]
                })
                &&& forall|k: Seq<char>| #[trigger]
                    s.problems.contains_key(k) && k != parent_id ==> t.problems[k] == s.problems[k]
                &&& t.inbox == s.inbox.update(
                    at,
                    InboxItemView { status: PassiveEventStatus::Handled, ..item },
                )
                &&& t.passive_events == s.passive_events.update(
                    event_at,
                    PassiveEventView { status: PassiveEventStatus::Handled, ..event },
                )
                &&& t.threads == s.threads && t.handles == s.handles && t.waits == s.waits
                    && t.tickets == s.tickets && t.results == s.results && t.checks == s.checks
                &&& t.events.last().entity_id == task.problem_id
            }
        }),
{
    lemma_item_at(s, item_id, at);
    lemma_event_at(s, s.inbox[at].passive_event_id, event_at);
    if s.threads.contains_key(ctx.thread_id) {
        law_writable_is_own_and_below(s, ctx, s.threads[ctx.thread_id].root_problem_id);
    }
    let (t, r) = s.user_task_created(ctx, now, item_id, title, body, note);
    if let Ok(task) = r {
        assert(t.problems.dom() =~= s.problems.dom().insert(task.problem_id));
    }
}

/// A task that is set up from an item of the inbox at once has a defined ticket that says what was
/// asked, and the receipt names all that it came from.
pub proof fn law_scaffolded_task_has_its_ticket(
    s: ClosureStateView,
    ctx: RuntimeContextView,
    now: Timestamp,
    item_id: Seq<char>,
    problem_title: Seq<char>,
    problem_body: Seq<char>,
    ticket_title: Seq<char>,
    ticket_body: Seq<char>,
    note: Seq<char>,
)
    ensures
        ({
            let (t, r) = s.user_task_scaffolded(
                ctx,
                now,
                item_id,
                problem_title,
                problem_body,
                ticket_title,
                ticket_body,
                note,
            );
            let (u, task) = s.user_task_created(
                ctx,
                now,
                item_id,
                problem_title,
                problem_body,
                note,
            );
            &&& task is Err ==> r is Err && t == s
            &&& r matches Ok(made) ==> {
                let ticket = t.tickets[made.ticket_id];
                &&& task is Ok
                &&& made.problem_id == task->Ok_0.problem_id
                &&& made.parent_problem_id == task->Ok_0.parent_problem_id
                &&& made.inbox_item_id == Some(task->Ok_0.inbox_item_id)
                &&& made.passive_event_id == Some(task->Ok_0.passive_event_id)
                &&& made.source_kind == Some(task->Ok_0.source_kind)
                &&& made.ticket_id == numbered("T"@, s.next_ticket_seq as nat)
                &&& t.inbox == u.inbox && t.passive_events == u.passive_events
                &&& t.problems[made.problem_id] == (ProblemView {
                    ticket_id: Some(made.ticket_id),
                    updated_at: now,
                    ..u.problems[made.problem_id]
                })
                &&& ticket.problem_id == made.problem_id
                &&& ticket.title == ticket_title
                &&& ticket.body == ticket_body
                &&& ticket.status == TicketStatus::Defined
                &&& ticket.classification is None
            }
        }),
{
}

} // verus!
