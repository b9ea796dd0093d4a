//! Whom an event reaches: a wait that a thread parks names the thread, and only an event addressed
//! to it wakes it.
use vstd::prelude::*;
use crate::clock::Timestamp;
use crate::context::RuntimeContextView;
use crate::entities::{ClosureStateView, EventKeyView, IoHandleView};
use crate::history::{free_from, lemma_free_insert};
use crate::keeping::law_parked_keeps_history;
use crate::kinds::{IoEventKind, IoHandleStatus, PassiveEventStatus, ThreadStatus, WaitMode, WaitStatus};
use crate::lookup::lists_handle;
use crate::matching::agrees;
use crate::order::{lemma_lex_irreflexive, lex_lt};
use crate::outcomes::lemma_refreshed_lists;
use crate::reports::{PassiveEventInputView, RoutedPassiveEventView, RunnableThreadView, WaitSpecView};
use crate::search::{find_index, kept, lemma_kept, select};
use crate::strmap::{keys, lemma_listed, values};
use crate::waits::awaited_by;
use crate::waking::law_refreshed_waits_show_readiness;
use crate::wake::{first_per_thread, one_per_thread, ready_with, threads_woken, waits_refreshed, woken_threads};

verus! {

/// The handle waits for an event that is addressed to a thread.
pub open spec fn addressed(handle: IoHandleView) -> bool {
    handle.event_key matches Some(key) && key.target_thread_id is Some
}

impl ClosureStateView {
    /// Everything that the wait lists waits for an event that is addressed to a thread.
    pub open spec fn wait_addressed(self, wait_id: Seq<char>) -> bool {
        forall|i: int|
            0 <= i < self.waits[wait_id].handle_ids.len() ==> self.handles.contains_key(
                #[trigger] self.waits[wait_id].handle_ids[i],
            ) && addressed(self.handles[self.waits[wait_id].handle_ids[i]])
    }
}

proof fn lemma_parked_keys(
    s: ClosureStateView,
    thread_id: Seq<char>,
    now: Timestamp,
    specs: Seq<WaitSpecView>,
    n: int,
)
    requires
        free_from(s.handles, "H"@, s.next_handle_seq),
        0 <= n <= specs.len(),
        s.next_handle_seq + n <= u32::MAX,
        s.handles_parked(thread_id, now, specs, n).1 is Ok,
    ensures
        ({
            let (t, r) = s.handles_parked(thread_id, now, specs, n);
            let ids = r->Ok_0;
            &&& ids.len() == n
            &&& t.next_handle_seq == s.next_handle_seq + n
            &&& free_from(t.handles, "H"@, t.next_handle_seq)
            &&& forall|i: int|
                0 <= i < n ==> t.handles.contains_key(#[trigger] ids[i])
                    && t.handles[ids[i]].owner_thread_id == thread_id
                    && t.handles[ids[i]].event_key is Some && (
                specs[i].kind.passive_kind() is Some
                    ==> t.handles[ids[i]].event_key->0.target_thread_id == Some(thread_id))
        }),
    decreases n,
{
    if n > 0 {
        lemma_parked_keys(s, thread_id, now, specs, n - 1);
        let (before, r) = s.handles_parked(thread_id, now, specs, n - 1);
        let (t, made) = s.handles_parked(thread_id, now, specs, n);
        let id = before.fresh_handle_id();
        let key = before.wait_key(thread_id, specs[n - 1])->Ok_0;
        lemma_free_insert(before.handles, "H"@, before.next_handle_seq, t.handles[id]);
        assert(made->Ok_0 == r->Ok_0.push(id));
        assert(t.handles[id].event_key == Some(key));
        assert forall|i: int| 0 <= i < n implies t.handles.contains_key(#[trigger] made->Ok_0[i])
            && t.handles[made->Ok_0[i]].owner_thread_id == thread_id
            && t.handles[made->Ok_0[i]].event_key is Some && (specs[i].kind.passive_kind() is Some
            ==> t.handles[made->Ok_0[i]].event_key->0.target_thread_id == Some(thread_id)) by {
            if i < n - 1 {
                assert(before.handles.contains_key(r->Ok_0[i]));
            }
        }
    }
}

/// Announcing waits keeps what their handles wait for and what the waits list.
proof fn lemma_announced_keys(
    s: ClosureStateView,
    ctx: RuntimeContextView,
    now: Timestamp,
    reason: Seq<char>,
    ids: Seq<Seq<char>>,
    n: int,
)
    requires
        n <= ids.len(),
    ensures
        ({
            let t = s.waits_announced(ctx, now, reason, ids, n).0;
            &&& t.handles.dom() == s.handles.dom()
            &&& t.waits.dom() == s.waits.dom()
            &&& forall|h: Seq<char>|
                #![trigger t.handles[h]]
                t.handles[h].event_key == s.handles[h].event_key && t.handles[h].owner_thread_id
                    == s.handles[h].owner_thread_id
            &&& forall|w: Seq<char>|
                #![trigger t.waits[w]]
                t.waits[w].handle_ids == s.waits[w].handle_ids
        }),
    decreases n,
{
    if n > 0 {
        lemma_announced_keys(s, ctx, now, reason, ids, n - 1);
        let before = s.waits_announced(ctx, now, reason, ids, n - 1);
        if before.1 is Ok {
            let id = ids[n - 1];
            let t = s.waits_announced(ctx, now, reason, ids, n).0;
            let taken = ClosureStateView { handles: t.handles, ..before.0 };
            lemma_refreshed_lists(taken, id, now);
            assert(t.waits == before.0.waits || t.waits == taken.refreshed(id, now).waits);
            assert(t.handles.dom() =~= s.handles.dom());
            assert forall|h: Seq<char>| #![trigger t.handles[h]]
                t.handles[h].event_key == s.handles[h].event_key && t.handles[h].owner_thread_id
                    == s.handles[h].owner_thread_id by {
                let b = before.0.handles[h];
            }
            assert forall|w: Seq<char>| #![trigger t.waits[w]]
                t.waits[w].handle_ids == s.waits[w].handle_ids by {
                let b = before.0.waits[w];
            }
        }
    }
}

/// A thread that parks owns every handle of the wait, and the key of each that is not spelled out
/// by an event key names the thread.
pub proof fn law_parked_wait_names_its_thread(
    s: ClosureStateView,
    ctx: RuntimeContextView,
    now: Timestamp,
    mode: WaitMode,
    reason: Seq<char>,
    specs: Seq<WaitSpecView>,
)
    requires
        s.orderly(),
        s.next_handle_seq + specs.len() <= u32::MAX,
        s.parked(ctx, now, mode, reason, specs).1 is Ok,
    ensures
        ({
            let (t, r) = s.parked(ctx, now, mode, reason, specs);
            let ids = r->Ok_0.handle_ids;
            &&& ids.len() == specs.len()
            &&& t.waits.contains_key(r->Ok_0.wait_id) && t.waits[r->Ok_0.wait_id].handle_ids == ids
            &&& forall|i: int|
                0 <= i < ids.len() ==> t.handles.contains_key(#[trigger] ids[i])
                    && t.handles[ids[i]].owner_thread_id == ctx.thread_id
                    && t.handles[ids[i]].event_key is Some && (
                specs[i].kind.passive_kind() is Some
                    ==> t.handles[ids[i]].event_key->0.target_thread_id == Some(ctx.thread_id))
        }),
{
    let wait_id = s.fresh_wait_id();
    let counted = ClosureStateView { next_wait_seq: (s.next_wait_seq + 1) as u32, ..s };
    lemma_parked_keys(counted, ctx.thread_id, now, specs, specs.len() as int);
    let made = counted.handles_parked(ctx.thread_id, now, specs, specs.len() as int);
    let ids = made.1->Ok_0;
    let waiting = made.0.with_thread_wait(ctx, now, wait_id, mode, ids);
    lemma_announced_keys(waiting, ctx, now, reason, ids, ids.len() as int);
    let t = s.parked(ctx, now, mode, reason, specs).0;
    assert(waiting.waits.contains_key(wait_id));
    assert(t.waits[wait_id].handle_ids == waiting.waits[wait_id].handle_ids);
    assert forall|i: int| 0 <= i < ids.len() implies t.handles.contains_key(#[trigger] ids[i])
        && t.handles[ids[i]].owner_thread_id == ctx.thread_id && t.handles[ids[i]].event_key is Some
        && (specs[i].kind.passive_kind() is Some
        ==> t.handles[ids[i]].event_key->0.target_thread_id == Some(ctx.thread_id)) by {
        assert(waiting.handles.contains_key(ids[i]));
    }
}

/// Delivering an event leaves alone every handle that it is not delivered to, and every wait that
/// lists none of those.
pub proof fn lemma_delivered_spares(
    s: ClosureStateView,
    ctx: RuntimeContextView,
    now: Timestamp,
    routed: RoutedPassiveEventView,
    event_id: Seq<char>,
    ids: Seq<Seq<char>>,
    n: int,
)
    requires
        s.waits.dom().finite(),
        forall|w: Seq<char>| #[trigger] s.waits.contains_key(w) ==> s.waits[w].id == w,
        n <= ids.len(),
    ensures
        ({
            let t = s.delivered(ctx, now, routed, event_id, ids, n).0;
            &&& t.waits.dom() == s.waits.dom()
            &&& forall|w: Seq<char>| #[trigger] t.waits.contains_key(w) ==> t.waits[w].id == w
                && t.waits[w].handle_ids == s.waits[w].handle_ids
            &&& t.handles.dom() == s.handles.dom()
            &&& forall|h: Seq<char>|
                #![trigger t.handles[h]]
                !ids.contains(h) ==> t.handles[h] == s.handles[h]
            &&& forall|w: Seq<char>| #[trigger]
                s.waits.contains_key(w) && (forall|i: int|
                    0 <= i < s.waits[w].handle_ids.len() ==> !ids.contains(
                        #[trigger] s.waits[w].handle_ids[i],
                    )) ==> t.waits[w] == s.waits[w]
        }),
    decreases n,
{
    if n > 0 {
        lemma_delivered_spares(s, ctx, now, routed, event_id, ids, n - 1);
        let before = s.delivered(ctx, now, routed, event_id, ids, n - 1).0;
        let t = s.delivered(ctx, now, routed, event_id, ids, n).0;
        let id = ids[n - 1];
        assert(ids.contains(id));
        if s.delivered(ctx, now, routed, event_id, ids, n - 1).1 is Ok
            && before.handles.contains_key(id) {
            let resolved = ClosureStateView { handles: t.handles, ..before };
            assert(t.waits == resolved.refreshed(id, now).waits);
            lemma_refreshed_spares(resolved, id, now);
            assert(t.handles.dom() =~= s.handles.dom());
            assert forall|w: Seq<char>| #[trigger]
                s.waits.contains_key(w) && (forall|i: int|
                    0 <= i < s.waits[w].handle_ids.len() ==> !ids.contains(
                        #[trigger] s.waits[w].handle_ids[i],
                    )) implies t.waits[w] == s.waits[w] by {
                assert(before.waits.contains_key(w));
                if before.waits[w].handle_ids.contains(id) {
                    let k = s.waits[w].handle_ids.index_of(id);
                    assert(!ids.contains(s.waits[w].handle_ids[k]));
                }
            }
            assert forall|w: Seq<char>| #[trigger] t.waits.contains_key(w) implies t.waits[w].id
                == w && t.waits[w].handle_ids == s.waits[w].handle_ids by {
                assert(before.waits.contains_key(w));
            }
        }
    }
}

pub proof fn lemma_refreshed_spares(s: ClosureStateView, handle_id: Seq<char>, now: Timestamp)
    requires
        s.waits.dom().finite(),
        forall|w: Seq<char>| #[trigger] s.waits.contains_key(w) ==> s.waits[w].id == w,
    ensures
        ({
            let t = s.refreshed(handle_id, now);
            &&& t.waits.dom() == s.waits.dom()
            &&& forall|w: Seq<char>| #[trigger]
                s.waits.contains_key(w) ==> t.waits[w].id == w && t.waits[w].handle_ids
                    == s.waits[w].handle_ids && (!s.waits[w].handle_ids.contains(handle_id)
                    ==> t.waits[w] == s.waits[w])
        }),
{
    let all = values(s.waits);
    let listing = select(all, lists_handle(handle_id));
    let ids = s.wait_ids_listing(handle_id);
    lemma_listed(s.waits);
    lemma_kept(all, lists_handle(handle_id), all.len() as int);
    lemma_refreshing_spares(s, ids, ids.len() as int, now);
    let t = s.refreshed(handle_id, now);
    assert forall|w: Seq<char>| #[trigger] s.waits.contains_key(w) implies t.waits[w].id == w
        && t.waits[w].handle_ids == s.waits[w].handle_ids && (!s.waits[w].handle_ids.contains(
        handle_id,
    ) ==> t.waits[w] == s.waits[w]) by {
        if ids.contains(w) {
            let i = ids.index_of(w);
            let v = listing[i];
            assert(listing.contains(v));
            assert(lists_handle(handle_id)(v) && all.contains(v));
            let k = all.index_of(v);
            assert(v == s.waits[keys(s.waits)[k]]);
            assert(s.waits.contains_key(keys(s.waits)[k]));
            assert(keys(s.waits)[k] == w);
        }
    }
}

proof fn lemma_refreshing_spares(s: ClosureStateView, ids: Seq<Seq<char>>, n: int, now: Timestamp)
    requires
        n <= ids.len(),
    ensures
        ({
            let waits = waits_refreshed(s.waits, s.handles, ids, n, now);
            &&& waits.dom() == s.waits.dom()
            &&& forall|w: Seq<char>|
                #![trigger waits[w]]
                waits[w].id == s.waits[w].id && waits[w].handle_ids == s.waits[w].handle_ids && (
                !ids.contains(w) ==> waits[w] == s.waits[w])
        }),
    decreases n,
{
    if n > 0 {
        lemma_refreshing_spares(s, ids, n - 1, now);
        let before = waits_refreshed(s.waits, s.handles, ids, n - 1, now);
        let waits = waits_refreshed(s.waits, s.handles, ids, n, now);
        assert(ids.contains(ids[n - 1]));
        assert(waits.dom() =~= s.waits.dom());
        assert forall|w: Seq<char>| #![trigger waits[w]]
            waits[w].id == s.waits[w].id && waits[w].handle_ids == s.waits[w].handle_ids && (
            !ids.contains(w) ==> waits[w] == s.waits[w]) by {
            let b = before[w];
        }
    }
}

/// The handles that match are there and want the event.
pub proof fn lemma_matching(s: ClosureStateView, routed: RoutedPassiveEventView)
    requires
        s.filed(),
    ensures
        forall|h: Seq<char>|
            s.handles.contains_key(h) ==> (#[trigger] s.matching_passive_handle_ids(
                routed,
            ).contains(h) <==> routed.wakes()(s.handles[h])),
        forall|h: Seq<char>| #[trigger]
            s.matching_passive_handle_ids(routed).contains(h) ==> s.handles.contains_key(h),
{
    let all = values(s.handles);
    let f = routed.wakes();
    let found = select(all, f);
    let ids = s.matching_passive_handle_ids(routed);
    lemma_listed(s.handles);
    lemma_kept(all, f, all.len() as int);
    assert forall|h: Seq<char>| #[trigger] ids.contains(h) implies s.handles.contains_key(h)
        && f(s.handles[h]) by {
        let i = ids.index_of(h);
        assert(found.contains(found[i]));
        let k = all.index_of(found[i]);
        assert(s.handles.contains_key(keys(s.handles)[k]));
        assert(keys(s.handles)[k] == h);
    }
    assert forall|h: Seq<char>| s.handles.contains_key(h) && f(s.handles[h]) implies (
    #[trigger] ids.contains(h)) by {
        let k = keys(s.handles).index_of(h);
        assert(keys(s.handles)[k] == h);
        assert(f(all[k]));
        let i = found.index_of(all[k]);
        assert(found.contains(all[k]));
        assert(ids[i] == h);
    }
}

/// An event that is addressed to no thread leaves every handle alone that waits for an addressed
/// one, and every wait that lists only such handles.
pub proof fn law_unaddressed_event_spares_addressed_waits(
    s: ClosureStateView,
    ctx: RuntimeContextView,
    now: Timestamp,
    input: PassiveEventInputView,
)
    requires
        s.filed(),
        input.key().target_thread_id is None,
    ensures
        ({
            let t = s.received(ctx, now, input).0;
            &&& forall|h: Seq<char>| #[trigger]
                s.handles.contains_key(h) && addressed(s.handles[h]) ==> t.handles.contains_key(h)
                    && t.handles[h] == s.handles[h]
            &&& forall|w: Seq<char>| #[trigger]
                s.waits.contains_key(w) && s.wait_addressed(w) ==> t.waits.contains_key(w)
                    && t.waits[w] == s.waits[w]
        }),
{
    if let Ok(routed) = input.route() {
        let matched = s.matching_passive_handle_ids(routed);
        let recorded = s.event_recorded(ctx, now, routed);
        lemma_matching(s, routed);
        lemma_delivered_spares(
            recorded,
            ctx,
            now,
            routed,
            s.fresh_event_id(),
            matched,
            matched.len() as int,
        );
        assert forall|h: Seq<char>| #[trigger]
            s.handles.contains_key(h) && addressed(s.handles[h]) implies !matched.contains(h) by {
            assert(!routed.wakes()(s.handles[h]));
        }
        let done = recorded.delivered(
            ctx,
            now,
            routed,
            s.fresh_event_id(),
            matched,
            matched.len() as int,
        ).0;
        assert forall|w: Seq<char>| #[trigger]
            s.waits.contains_key(w) && s.wait_addressed(w) implies done.waits.contains_key(w)
            && done.waits[w] == s.waits[w] by {
            assert(recorded.waits.contains_key(w));
            assert forall|i: int| 0 <= i < recorded.waits[w].handle_ids.len() implies
                !matched.contains(#[trigger] recorded.waits[w].handle_ids[i]) by {
                assert(s.handles.contains_key(s.waits[w].handle_ids[i]));
            }
        }
    }
}

/// Where every handle that is pending waits for an addressed event, one that is addressed to no
/// thread and was not taken in before goes to the inbox: nothing matches, no thread can run for it,
/// and no handle, wait or thread changes.
pub proof fn law_unaddressed_event_goes_to_the_inbox(
    s: ClosureStateView,
    ctx: RuntimeContextView,
    now: Timestamp,
    input: PassiveEventInputView,
)
    requires
        s.filed(),
        input.target_thread_id is None,
        input.key().target_thread_id is None,
        s.duplicate_of(input) is None,
        forall|h: Seq<char>| #[trigger]
            s.handles.contains_key(h) && s.handles[h].status == IoHandleStatus::Pending
                && s.handles[h].kind == input.key().passive_kind().handle_kind() ==> addressed(
                s.handles[h],
            ),
    ensures
        ({
            let (t, r) = s.received(ctx, now, input);
            &&& r matches Ok(receipt) && receipt.status == PassiveEventStatus::Inboxed
                && receipt.matched_handle_ids.len() == 0
                && receipt.wake_decision.runnable_threads.len() == 0 && receipt.inbox_item_id
                == Some(s.fresh_item_id()) && receipt.event_id == s.fresh_event_id()
            &&& t.handles == s.handles
            &&& t.waits == s.waits
            &&& t.threads == s.threads
            &&& t.inbox.len() == s.inbox.len() + 1
            &&& t.inbox.last().id == s.fresh_item_id()
            &&& t.inbox.last().passive_event_id == s.fresh_event_id()
            &&& t.inbox.last().target_thread_id is None
            &&& t.inbox.last().status == PassiveEventStatus::Inboxed
        }),
{
    let routed = input.route()->Ok_0;
    let matched = s.matching_passive_handle_ids(routed);
    lemma_matching(s, routed);
    if matched.len() > 0 {
        let h = matched[0];
        assert(matched.contains(h));
        assert(s.handles.contains_key(h));
        assert(!routed.wakes()(s.handles[h]));
    }
    lemma_none_runnable();
}

proof fn lemma_none_runnable()
    ensures
        one_per_thread(Seq::empty()).len() == 0,
{
    let none = first_per_thread(Seq::empty(), 0);
    lemma_listed(none);
    if values(none).len() > 0 {
        assert(none.contains_key(keys(none)[0]));
    }
}

/// An event addressed to no thread does not end what a thread has just parked: the handles that are
/// not spelled out by an event key stay as they are, and so does the wait where none is.
pub proof fn law_unaddressed_event_does_not_wake_a_parked_thread(
    s: ClosureStateView,
    ctx: RuntimeContextView,
    now: Timestamp,
    mode: WaitMode,
    reason: Seq<char>,
    specs: Seq<WaitSpecView>,
    event_ctx: RuntimeContextView,
    event_now: Timestamp,
    input: PassiveEventInputView,
)
    requires
        s.orderly(),
        s.next_wait_seq < u32::MAX,
        s.next_handle_seq + specs.len() <= u32::MAX,
        s.parked(ctx, now, mode, reason, specs).1 is Ok,
        input.key().target_thread_id is None,
    ensures
        ({
            let (parked, r) = s.parked(ctx, now, mode, reason, specs);
            let ids = r->Ok_0.handle_ids;
            let wait_id = r->Ok_0.wait_id;
            let t = parked.received(event_ctx, event_now, input).0;
            &&& forall|i: int|
                0 <= i < specs.len() && specs[i].kind.passive_kind() is Some
                    ==> t.handles[#[trigger] ids[i]] == parked.handles[ids[i]]
            &&& (forall|i: int|
                0 <= i < specs.len() ==> (#[trigger] specs[i]).kind.passive_kind() is Some)
                ==> t.waits[wait_id] == parked.waits[wait_id]
        }),
{
    let (parked, r) = s.parked(ctx, now, mode, reason, specs);
    let ids = r->Ok_0.handle_ids;
    law_parked_keeps_history(s, ctx, now, mode, reason, specs);
    law_parked_wait_names_its_thread(s, ctx, now, mode, reason, specs);
    law_unaddressed_event_spares_addressed_waits(parked, event_ctx, event_now, input);
    let t = parked.received(event_ctx, event_now, input).0;
    assert forall|i: int| 0 <= i < specs.len() && specs[i].kind.passive_kind() is Some implies
        t.handles[#[trigger] ids[i]] == parked.handles[ids[i]] by {
        assert(parked.handles.contains_key(ids[i]));
        assert(addressed(parked.handles[ids[i]]));
    }
    if forall|i: int| 0 <= i < specs.len() ==> (#[trigger] specs[i]).kind.passive_kind() is Some {
        assert forall|i: int| 0 <= i < ids.len() implies parked.handles.contains_key(
            #[trigger] parked.waits[r->Ok_0.wait_id].handle_ids[i],
        ) && addressed(parked.handles[parked.waits[r->Ok_0.wait_id].handle_ids[i]]) by {
            assert(parked.handles.contains_key(ids[i]));
            assert(specs[i].kind.passive_kind() is Some);
        }
        assert(parked.wait_addressed(r->Ok_0.wait_id));
    }
}

/// Where one element alone satisfies `f`, it alone is selected.
proof fn lemma_kept_one<T>(s: Seq<T>, f: spec_fn(T) -> bool, at: int, n: int)
    requires
        0 <= at < s.len(),
        0 <= n <= s.len(),
        forall|i: int| 0 <= i < s.len() ==> (f(#[trigger] s[i]) <==> i == at),
    ensures
        kept(s, f, n) == if n > at {
            seq![s[at]]
        } else {
            Seq::empty()
        },
    decreases n,
{
    if n > 0 {
        lemma_kept_one(s, f, at, n - 1);
        assert(f(s[n - 1]) <==> n - 1 == at);
        assert(Seq::<T>::empty().push(s[at]) =~= seq![s[at]]);
    }
}

/// Where one value of a map alone satisfies `f`, it alone is selected.
pub proof fn lemma_select_one<T>(m: Map<Seq<char>, T>, f: spec_fn(T) -> bool, key: Seq<char>)
    requires
        m.dom().finite(),
        m.contains_key(key),
        forall|k: Seq<char>| #[trigger] m.contains_key(k) ==> (f(m[k]) <==> k == key),
    ensures
        select(values(m), f) == seq![m[key]],
{
    lemma_listed(m);
    let ks = keys(m);
    let vs = values(m);
    let at = ks.index_of(key);
    assert(ks[at] == key);
    assert forall|i: int| 0 <= i < vs.len() implies (f(#[trigger] vs[i]) <==> i == at) by {
        assert(m.contains_key(ks[i]));
        if ks[i] == key && i != at {
            assert(lex_lt(ks[i], ks[at]) || lex_lt(ks[at], ks[i]));
            lemma_lex_irreflexive(key);
        }
    }
    lemma_kept_one(vs, f, at, vs.len() as int);
}

/// One thread to run is listed as it is.
proof fn lemma_one_runnable(thread: RunnableThreadView)
    ensures
        one_per_thread(seq![thread]) == seq![thread],
{
    let one = seq![thread];
    reveal_with_fuel(first_per_thread, 2);
    let m = first_per_thread(one, 1);
    assert(m == Map::<Seq<char>, RunnableThreadView>::empty().insert(thread.thread_id, thread));
    let every = |x: RunnableThreadView| true;
    lemma_select_one(m, every, thread.thread_id);
    lemma_kept_all(values(m), every, values(m).len() as int);
}

proof fn lemma_kept_all<T>(s: Seq<T>, f: spec_fn(T) -> bool, n: int)
    requires
        0 <= n <= s.len(),
        forall|x: T| #[trigger] f(x),
    ensures
        kept(s, f, n) == s.take(n),
    decreases n,
{
    if n > 0 {
        lemma_kept_all(s, f, n - 1);
        assert(s.take(n) =~= s.take(n - 1).push(s[n - 1]));
    } else {
        assert(s.take(0) =~= Seq::empty());
    }
    assert(s.take(s.len() as int) =~= s);
}

impl ClosureStateView {
    /// The thread is parked on the wait, which lists this handle and no other, and no other wait
    /// lists the handle.
    pub open spec fn parked_alone(
        self,
        thread_id: Seq<char>,
        wait_id: Seq<char>,
        handle_id: Seq<char>,
    ) -> bool {
        &&& self.handles.contains_key(handle_id)
        &&& self.sole_wait(wait_id, handle_id)
        &&& self.waits[wait_id].handle_ids == seq![handle_id]
        &&& self.waits[wait_id].status == WaitStatus::Waiting
        &&& self.waits[wait_id].thread_id == thread_id
        &&& self.threads.contains_key(thread_id)
        &&& self.threads[thread_id].status == ThreadStatus::WaitingIo
    }
}

/// What resolving its one handle does to a wait and to the thread parked on it.
proof fn lemma_resolved_wakes(
    s: ClosureStateView,
    now: Timestamp,
    event_id: Seq<char>,
    payload_ref: Option<Seq<char>>,
    thread_id: Seq<char>,
    wait_id: Seq<char>,
    handle_id: Seq<char>,
)
    requires
        s.filed(),
        s.parked_alone(thread_id, wait_id, handle_id),
    ensures
        ({
            let ready = s.handle_resolved(now, handle_id, event_id, payload_ref);
            let t = ready.woken(handle_id, now);
            &&& ready.woken_by(handle_id, now) == seq![
                RunnableThreadView {
                    thread_id,
                    root_problem_id: s.threads[thread_id].root_problem_id,
                    wake_reason: "handle "@ + handle_id + " ready"@,
                },
            ]
            &&& t.handles[handle_id].status == IoHandleStatus::Ready
            &&& t.handles[handle_id].resolved_event_id == Some(event_id)
            &&& t.waits[wait_id].status == WaitStatus::Ready
            &&& t.threads[thread_id].status == ThreadStatus::Running
            &&& forall|x: Seq<char>|
                #![trigger t.threads[x]]
                x != thread_id ==> t.threads[x] == s.threads[x]
            &&& t.threads.dom() == s.threads.dom()
        }),
{
    let resolved = ClosureStateView {
        handles: s.handle_resolved(now, handle_id, event_id, payload_ref).handles,
        ..s
    };
    let ready = resolved.refreshed(handle_id, now);
    assert(ready == s.handle_resolved(now, handle_id, event_id, payload_ref));
    assert(resolved.filed());
    assert(s.waits.contains_key(wait_id) && s.waits[wait_id].handle_ids.contains(handle_id));
    law_refreshed_waits_show_readiness(resolved, handle_id, now, wait_id);
    lemma_refreshed_spares(resolved, handle_id, now);
    let wait = ready.waits[wait_id];
    assert(seq![handle_id][0] == handle_id);
    assert(wait.handle_ids[0] == handle_id);
    assert(crate::lookup::settled(ready.handles, wait.handle_ids[0]));
    assert(crate::lookup::wait_ready(ready.handles, wait));
    let before = resolved.waits[wait_id];
    lemma_select_one(resolved.waits, lists_handle(handle_id), wait_id);
    assert(resolved.wait_ids_listing(handle_id) =~= seq![wait_id]);
    reveal_with_fuel(waits_refreshed, 2);
    assert(wait.status == WaitStatus::Ready);
    assert forall|w: Seq<char>| #[trigger] ready.waits.contains_key(w) implies (ready_with(
        handle_id,
    )(ready.waits[w]) <==> w == wait_id) by {
        assert(s.waits.contains_key(w));
        assert(s.waits.contains_key(w) && s.waits[w].handle_ids.contains(handle_id) <==> w
            == wait_id);
    }
    lemma_select_one(ready.waits, ready_with(handle_id), wait_id);
    let ids = ready.thread_ids_ready(handle_id);
    assert(ids =~= seq![thread_id]);
    reveal_with_fuel(threads_woken, 2);
    reveal_with_fuel(woken_threads, 2);
    let t = ready.woken(handle_id, now);
    assert(t.threads.dom() =~= s.threads.dom());
    assert(ready.woken_by(handle_id, now) =~= seq![
        RunnableThreadView {
            thread_id,
            root_problem_id: s.threads[thread_id].root_problem_id,
            wake_reason: "handle "@ + handle_id + " ready"@,
        },
    ]);
}

/// An event that one handle alone waits for wakes the thread that is parked on it, and no other:
/// the receipt names the handle and the thread, the handle and its wait are ready, and the thread
/// runs again.
pub proof fn law_awaited_event_wakes_its_thread(
    s: ClosureStateView,
    ctx: RuntimeContextView,
    now: Timestamp,
    input: PassiveEventInputView,
    thread_id: Seq<char>,
    wait_id: Seq<char>,
    handle_id: Seq<char>,
)
    requires
        s.filed(),
        s.duplicate_of(input) is None,
        input.route() is Ok,
        input.route()->Ok_0.target_thread_id is Some ==> s.threads.contains_key(
            input.route()->Ok_0.target_thread_id->0,
        ),
        s.parked_alone(thread_id, wait_id, handle_id),
        forall|h: Seq<char>| #[trigger]
            s.handles.contains_key(h) ==> (input.route()->Ok_0.wakes()(s.handles[h]) <==> h
                == handle_id),
    ensures
        ({
            let (t, r) = s.received(ctx, now, input);
            &&& r matches Ok(receipt) && receipt.status == PassiveEventStatus::Matched
                && receipt.matched_handle_ids == seq![handle_id]
                && receipt.wake_decision.runnable_threads == seq![
                RunnableThreadView {
                    thread_id,
                    root_problem_id: s.threads[thread_id].root_problem_id,
                    wake_reason: "handle "@ + handle_id + " ready"@,
                },
            ] && receipt.inbox_item_id is None && receipt.event_id == s.fresh_event_id()
            &&& t.handles[handle_id].status == IoHandleStatus::Ready
            &&& t.handles[handle_id].resolved_event_id == Some(s.fresh_event_id())
            &&& t.waits[wait_id].status == WaitStatus::Ready
            &&& t.threads[thread_id].status == ThreadStatus::Running
            &&& forall|x: Seq<char>|
                #![trigger t.threads[x]]
                x != thread_id ==> t.threads[x] == s.threads[x]
            &&& t.inbox == s.inbox
        }),
{
    let routed = input.route()->Ok_0;
    let event_id = s.fresh_event_id();
    let recorded = s.event_recorded(ctx, now, routed);
    lemma_select_one(s.handles, routed.wakes(), handle_id);
    let matched = s.matching_passive_handle_ids(routed);
    assert(s.handles.contains_key(handle_id));
    assert(matched =~= seq![handle_id]);
    assert(recorded.handles == s.handles && recorded.waits == s.waits && recorded.threads
        == s.threads);
    assert(recorded.filed());
    assert(recorded.sole_wait(wait_id, handle_id)) by {
        assert forall|id: Seq<char>| #[trigger]
            recorded.waits.contains_key(id) && recorded.waits[id].handle_ids.contains(handle_id)
                <==> id == wait_id by {
            assert(s.waits.contains_key(id) && s.waits[id].handle_ids.contains(handle_id) <==> id
                == wait_id);
        }
    }
    lemma_resolved_wakes(
        recorded,
        now,
        event_id,
        routed.input.payload_ref,
        thread_id,
        wait_id,
        handle_id,
    );
    reveal_with_fuel(ClosureStateView::delivered, 2);
    let done = recorded.delivered(ctx, now, routed, event_id, matched, 1);
    let thread = RunnableThreadView {
        thread_id,
        root_problem_id: s.threads[thread_id].root_problem_id,
        wake_reason: "handle "@ + handle_id + " ready"@,
    };
    assert(done.1 is Ok);
    assert(done.1->Ok_0 =~= seq![thread]);
    lemma_one_runnable(thread);
}

/// A thread that parked on one thing that had not come sleeps on a handle of its own.
proof fn lemma_parked_on_sleeps(
    s: ClosureStateView,
    ctx: RuntimeContextView,
    now: Timestamp,
    reason: Seq<char>,
    spec: WaitSpecView,
)
    requires
        s.orderly(),
        s.wired(),
        s.next_handle_seq < u32::MAX,
        spec.kind.passive_kind() is Some,
        s.parked_on(ctx, now, reason, spec).1 matches Ok(wait) && wait.status
            == WaitStatus::Waiting,
    ensures
        ({
            let (t, r) = s.parked_on(ctx, now, reason, spec);
            let handle_id = r->Ok_0.handle_id;
            let key = EventKeyView::passive(
                spec.kind.passive_kind()->0,
                spec.condition,
                spec.source,
                Some(ctx.thread_id),
            );
            &&& t.parked_alone(ctx.thread_id, r->Ok_0.wait_id, handle_id)
            &&& t.filed()
            &&& t.handles[handle_id].event_key == Some(key)
            &&& t.handles[handle_id].kind == key.passive_kind().handle_kind()
            &&& t.handles[handle_id].status == IoHandleStatus::Pending
            &&& t.handles[handle_id].dedupe_key == spec.dedupe_key
            &&& forall|h: Seq<char>| #[trigger]
                t.handles.contains_key(h) && h != handle_id ==> s.handles.contains_key(h)
                    && t.handles[h] == s.handles[h]
        }),
{
    let specs = seq![spec];
    let wait_id = s.fresh_wait_id();
    let handle_id = s.fresh_handle_id();
    let counted = ClosureStateView { next_wait_seq: (s.next_wait_seq + 1) as u32, ..s };
    reveal_with_fuel(ClosureStateView::handles_parked, 2);
    reveal_with_fuel(ClosureStateView::waits_announced, 2);
    let made = counted.handles_parked(ctx.thread_id, now, specs, 1);
    assert(specs[0] == spec);
    let ids = made.1->Ok_0;
    assert(ids =~= seq![handle_id]);
    assert(!s.handles.contains_key(handle_id));
    let waiting = made.0.with_thread_wait(ctx, now, wait_id, WaitMode::All, ids);
    let told = waiting.io_logged(
        ctx,
        now,
        IoEventKind::PassiveWaitCreated,
        Some(handle_id),
        Some(ctx.thread_id),
        "passive wait created: "@ + reason,
    );
    let t = told.inbox_matched(ctx, now, handle_id).0;
    assert(t == s.parked_on(ctx, now, reason, spec).0);
    assert(told.filed());
    let handle = told.handles[handle_id];
    assert(told.waits[wait_id].handle_ids[0] == handle_id);
    if find_index(told.passive_events, awaited_by(handle)) is Some {
        let taken = ClosureStateView { handles: t.handles, ..told };
        assert(taken.filed());
        assert(t.waits == taken.refreshed(handle_id, now).waits);
        law_refreshed_waits_show_readiness(taken, handle_id, now, wait_id);
        assert(taken.waits[wait_id].handle_ids.contains(handle_id));
        let wait = t.waits[wait_id];
        assert(crate::lookup::settled(t.handles, handle_id));
        assert(crate::lookup::wait_ready(t.handles, wait));
        assert(false);
    }
    assert(t.sole_wait(wait_id, handle_id)) by {
        assert forall|id: Seq<char>| #[trigger]
            t.waits.contains_key(id) && t.waits[id].handle_ids.contains(handle_id) <==> id
                == wait_id by {
            if id != wait_id && s.waits.contains_key(id) {
                assert(s.wait_fits(id));
                let listed = s.waits[id].handle_ids;
                if listed.contains(handle_id) {
                    let i = listed.index_of(handle_id);
                    assert(s.handles.contains_key(listed[i]));
                }
            } else if id == wait_id {
                assert(t.waits[id].handle_ids[0] == handle_id);
            }
        }
    }
}

/// A thread parks on something that has not come. An event like it that is addressed to no thread
/// goes to the inbox, and the thread sleeps on; one that is addressed to the thread wakes it, and
/// just it.
pub proof fn law_parked_thread_wakes_when_addressed(
    s: ClosureStateView,
    ctx: RuntimeContextView,
    now: Timestamp,
    reason: Seq<char>,
    spec: WaitSpecView,
    broad_ctx: RuntimeContextView,
    broad_now: Timestamp,
    broad: PassiveEventInputView,
    aimed_ctx: RuntimeContextView,
    aimed_now: Timestamp,
    aimed: PassiveEventInputView,
)
    requires
        s.orderly(),
        s.wired(),
        s.next_handle_seq < u32::MAX,
        spec.kind.passive_kind() is Some,
        s.parked_on(ctx, now, reason, spec).1 matches Ok(wait) && wait.status
            == WaitStatus::Waiting,
        broad.kind == spec.kind.passive_kind()->0,
        broad.event_key is None,
        broad.condition == spec.condition,
        broad.source == spec.source,
        broad.target_thread_id is None,
        aimed == (PassiveEventInputView {
            target_thread_id: Some(ctx.thread_id),
            dedupe_key: aimed.dedupe_key,
            ..broad
        }),
        agrees(spec.dedupe_key, aimed.dedupe_key),
        s.parked_on(ctx, now, reason, spec).0.duplicate_of(broad) is None,
        s.parked_on(ctx, now, reason, spec).0.received(
            broad_ctx,
            broad_now,
            broad,
        ).0.duplicate_of(aimed) is None,
        forall|h: Seq<char>| #[trigger]
            s.handles.contains_key(h) && s.handles[h].status == IoHandleStatus::Pending
                && s.handles[h].kind == aimed.key().passive_kind().handle_kind() ==> addressed(
                s.handles[h],
            ) && s.handles[h].event_key != Some(aimed.key()),
    ensures
        ({
            let (parked, wait) = s.parked_on(ctx, now, reason, spec);
            let (asleep, first) = parked.received(broad_ctx, broad_now, broad);
            let (awake, second) = asleep.received(aimed_ctx, aimed_now, aimed);
            let handle_id = wait->Ok_0.handle_id;
            &&& first matches Ok(receipt) && receipt.status == PassiveEventStatus::Inboxed
                && receipt.matched_handle_ids.len() == 0
                && receipt.wake_decision.runnable_threads.len() == 0
            &&& asleep.handles[handle_id].status == IoHandleStatus::Pending
            &&& asleep.threads[ctx.thread_id].status == ThreadStatus::WaitingIo
            &&& second matches Ok(receipt) && receipt.status == PassiveEventStatus::Matched
                && receipt.matched_handle_ids == seq![handle_id]
                && receipt.wake_decision.runnable_threads.len() == 1
                && receipt.wake_decision.runnable_threads[0].thread_id == ctx.thread_id
            &&& awake.handles[handle_id].status == IoHandleStatus::Ready
            &&& awake.waits[wait->Ok_0.wait_id].status == WaitStatus::Ready
            &&& awake.threads[ctx.thread_id].status == ThreadStatus::Running
        }),
{
    let (parked, wait) = s.parked_on(ctx, now, reason, spec);
    let handle_id = wait->Ok_0.handle_id;
    let wait_id = wait->Ok_0.wait_id;
    lemma_parked_on_sleeps(s, ctx, now, reason, spec);
    assert forall|h: Seq<char>| #[trigger]
        parked.handles.contains_key(h) && parked.handles[h].status == IoHandleStatus::Pending
            && parked.handles[h].kind == broad.key().passive_kind().handle_kind() implies addressed(
        parked.handles[h],
    ) by {
        if h != handle_id {
            assert(s.handles.contains_key(h));
        }
    }
    law_unaddressed_event_goes_to_the_inbox(parked, broad_ctx, broad_now, broad);
    let asleep = parked.received(broad_ctx, broad_now, broad).0;
    assert(asleep.filed());
    assert(asleep.sole_wait(wait_id, handle_id)) by {
        assert forall|id: Seq<char>| #[trigger]
            asleep.waits.contains_key(id) && asleep.waits[id].handle_ids.contains(handle_id)
                <==> id == wait_id by {
            assert(parked.waits.contains_key(id) && parked.waits[id].handle_ids.contains(
                handle_id,
            ) <==> id == wait_id);
        }
    }
    let routed = aimed.route()->Ok_0;
    assert forall|h: Seq<char>| #[trigger] asleep.handles.contains_key(h) implies (routed.wakes()(
        asleep.handles[h],
    ) <==> h == handle_id) by {
        assert(parked.handles.contains_key(h));
        if h != handle_id {
            assert(s.handles.contains_key(h));
        }
    }
    law_awaited_event_wakes_its_thread(
        asleep,
        aimed_ctx,
        aimed_now,
        aimed,
        ctx.thread_id,
        wait_id,
        handle_id,
    );
}

} // verus!
