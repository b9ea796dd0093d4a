//! An event reaches just what waits for it, and leaves just what it brings.
use vstd::prelude::*;
use crate::addressing::{lemma_delivered_spares, lemma_matching};
use crate::clock::Timestamp;
use crate::context::RuntimeContextView;
use crate::entities::{ClosureStateView, EventKeyView, IoHandleView, PassiveEventView};
use crate::inbox::deduped_by;
use crate::kinds::{IoHandleStatus, PassiveEventKind, PassiveEventStatus};
use crate::reports::{PassiveEventInputView, RoutedPassiveEventView};
use crate::search::{find_from, lemma_find_from};
use crate::waits::awaited_by;

verus! {

/// The event is one with this key: the key it came with, or else the one made of its kind, condition,
/// source and target, says the same in every part.
pub open spec fn bears(input: PassiveEventInputView, key: EventKeyView) -> bool {
    match input.event_key {
        Some(own) => own.kind == key.kind && own.resource == key.resource && own.source == key.source
            && own.target_thread_id == key.target_thread_id,
        None => key.kind == (match input.kind {
            PassiveEventKind::UserInput => "user.input"@,
            PassiveEventKind::Timer => "timer"@,
            PassiveEventKind::ExternalSignal => "external.signal"@,
        }) && key.resource == input.condition && key.source == input.source && key.target_thread_id
            == input.target_thread_id,
    }
}

/// A word that tells events apart is the same on both sides, where the handle asks for one.
pub open spec fn told_apart(handle: IoHandleView, dedupe_key: Option<Seq<char>>) -> bool {
    handle.dedupe_key is Some ==> dedupe_key == handle.dedupe_key
}

proof fn lemma_bears(input: PassiveEventInputView, key: EventKeyView)
    ensures
        bears(input, key) <==> input.key() == key,
{
}

/// A handle with a key is left alone by every event that bears another key, in whatever part the
/// keys differ, and whether or not they name a thread.
pub proof fn law_other_keys_do_not_wake(
    s: ClosureStateView,
    ctx: RuntimeContextView,
    now: Timestamp,
    input: PassiveEventInputView,
    h: Seq<char>,
    key: EventKeyView,
)
    requires
        s.filed(),
        s.handles.contains_key(h),
        s.handles[h].event_key == Some(key),
        !bears(input, key) || !told_apart(s.handles[h], input.dedupe_key),
    ensures
        s.received(ctx, now, input).0.handles.contains_key(h),
        s.received(ctx, now, input).0.handles[h] == s.handles[h],
{
    lemma_bears(input, key);
    if let Ok(routed) = input.route() {
        let matched = s.matching_passive_handle_ids(routed);
        lemma_matching(s, routed);
        assert(!routed.wakes()(s.handles[h]));
        assert(!matched.contains(h));
        lemma_delivered_spares(
            s.event_recorded(ctx, now, routed),
            ctx,
            now,
            routed,
            s.fresh_event_id(),
            matched,
            matched.len() as int,
        );
    }
}

/// Where every pending handle has a key and none has that of the event, the event goes to the inbox
/// and wakes nobody.
pub proof fn law_event_without_taker_goes_to_the_inbox(
    s: ClosureStateView,
    ctx: RuntimeContextView,
    now: Timestamp,
    input: PassiveEventInputView,
)
    requires
        s.filed(),
        s.received(ctx, now, input).1 matches Ok(receipt) && receipt.status
            != PassiveEventStatus::Duplicate,
        forall|h: Seq<char>| #[trigger]
            s.handles.contains_key(h) && s.handles[h].status == IoHandleStatus::Pending ==> (
            s.handles[h].event_key matches Some(key) && !bears(input, key)),
    ensures
        ({
            let (t, r) = s.received(ctx, now, input);
            &&& r matches Ok(receipt) && receipt.status == PassiveEventStatus::Inboxed
                && receipt.matched_handle_ids.len() == 0
            &&& t.handles == s.handles
            &&& t.waits == s.waits
            &&& t.threads == s.threads
            &&& t.inbox.len() == s.inbox.len() + 1
            &&& t.inbox.last().status == PassiveEventStatus::Inboxed
            &&& t.passive_events.last().status == PassiveEventStatus::Inboxed
        }),
{
    if let Ok(routed) = input.route() {
        let matched = s.matching_passive_handle_ids(routed);
        lemma_matching(s, routed);
        if matched.len() > 0 {
            let h = matched[0];
            assert(matched.contains(h));
            assert(s.handles.contains_key(h));
            assert(routed.wakes()(s.handles[h]));
            lemma_bears(input, s.handles[h].event_key->0);
            assert(false);
        }
    }
}

proof fn lemma_delivered_brings(
    s: ClosureStateView,
    ctx: RuntimeContextView,
    now: Timestamp,
    routed: RoutedPassiveEventView,
    event_id: Seq<char>,
    ids: Seq<Seq<char>>,
    n: int,
)
    requires
        0 <= n <= ids.len(),
        forall|i: int| 0 <= i < ids.len() ==> s.handles.contains_key(#[trigger] ids[i]),
    ensures
        ({
            let (t, r) = s.delivered(ctx, now, routed, event_id, ids, n);
            &&& r is Ok
            &&& t.handles.dom() == s.handles.dom()
            &&& t.passive_events == s.passive_events
            &&& t.inbox == s.inbox
            &&& forall|i: int|
                0 <= i < n ==> t.handles[#[trigger] ids[i]] == (IoHandleView {
                    status: IoHandleStatus::Ready,
                    resolved_event_id: Some(event_id),
                    payload_ref: routed.input.payload_ref,
                    updated_at: now,
                    ..s.handles[ids[i]]
                })
            &&& forall|h: Seq<char>|
                #![trigger t.handles[h]]
                t.handles[h] == s.handles[h] || t.handles[h] == (IoHandleView {
                    status: IoHandleStatus::Ready,
                    resolved_event_id: Some(event_id),
                    payload_ref: routed.input.payload_ref,
                    updated_at: now,
                    ..s.handles[h]
                })
        }),
    decreases n,
{
    if n > 0 {
        lemma_delivered_brings(s, ctx, now, routed, event_id, ids, n - 1);
        let before = s.delivered(ctx, now, routed, event_id, ids, n - 1).0;
        let t = s.delivered(ctx, now, routed, event_id, ids, n).0;
        let id = ids[n - 1];
        assert(before.handles.contains_key(id));
        assert(t.handles.dom() =~= s.handles.dom());
        let b = before.handles[id];
        assert forall|h: Seq<char>|
            #![trigger t.handles[h]]
            t.handles[h] == s.handles[h] || t.handles[h] == (IoHandleView {
                status: IoHandleStatus::Ready,
                resolved_event_id: Some(event_id),
                payload_ref: routed.input.payload_ref,
                updated_at: now,
                ..s.handles[h]
            }) by {
            let b = before.handles[h];
        }
        assert forall|i: int| 0 <= i < n implies t.handles[#[trigger] ids[i]] == (IoHandleView {
            status: IoHandleStatus::Ready,
            resolved_event_id: Some(event_id),
            payload_ref: routed.input.payload_ref,
            updated_at: now,
            ..s.handles[ids[i]]
        }) by {
            let b = before.handles[ids[i]];
        }
    }
}

/// An event that is taken in and is no duplicate makes ready every pending handle of its kind that has
/// its key and whose word agrees: the handle holds the event and what it brings, and the receipt
/// names the handle.
pub proof fn law_keyed_handle_takes_its_event(
    s: ClosureStateView,
    ctx: RuntimeContextView,
    now: Timestamp,
    input: PassiveEventInputView,
    h: Seq<char>,
    key: EventKeyView,
)
    requires
        s.filed(),
        s.received(ctx, now, input).1 matches Ok(receipt) && receipt.status
            != PassiveEventStatus::Duplicate,
        s.handles.contains_key(h),
        s.handles[h].status == IoHandleStatus::Pending,
        s.handles[h].kind == key.passive_kind().handle_kind(),
        s.handles[h].event_key == Some(key),
        bears(input, key),
        told_apart(s.handles[h], input.dedupe_key),
    ensures
        ({
            let (t, r) = s.received(ctx, now, input);
            &&& r matches Ok(receipt) && receipt.status == PassiveEventStatus::Matched
                && receipt.matched_handle_ids.contains(h) && receipt.inbox_item_id is None
                && t.handles[h] == (IoHandleView {
                status: IoHandleStatus::Ready,
                resolved_event_id: Some(receipt.event_id),
                payload_ref: input.payload_ref,
                updated_at: now,
                ..s.handles[h]
            })
            &&& t.inbox == s.inbox
        }),
{
    lemma_bears(input, key);
    let routed = input.route()->Ok_0;
    let matched = s.matching_passive_handle_ids(routed);
    lemma_matching(s, routed);
    assert(routed.wakes()(s.handles[h]));
    assert(matched.contains(h));
    let i = matched.index_of(h);
    assert(matched[i] == h);
    assert forall|j: int| 0 <= j < matched.len() implies s.handles.contains_key(
        #[trigger] matched[j],
    ) by {
        assert(matched.contains(matched[j]));
    }
    lemma_delivered_brings(
        s.event_recorded(ctx, now, routed),
        ctx,
        now,
        routed,
        s.fresh_event_id(),
        matched,
        matched.len() as int,
    );
}

/// A handle without a key is made ready exactly by the events of its kind that are addressed to its
/// owner or to nobody and that say what it asks for: its condition, its source and its word, where it
/// has them.
pub proof fn law_plain_handle_takes_what_it_asks_for(
    s: ClosureStateView,
    ctx: RuntimeContextView,
    now: Timestamp,
    input: PassiveEventInputView,
    h: Seq<char>,
)
    requires
        s.filed(),
        s.received(ctx, now, input).1 matches Ok(receipt) && receipt.status
            != PassiveEventStatus::Duplicate,
        s.handles.contains_key(h),
        s.handles[h].status == IoHandleStatus::Pending,
        s.handles[h].event_key is None,
        input.event_key is None,
    ensures
        ({
            let handle = s.handles[h];
            let t = s.received(ctx, now, input).0;
            let wanted = {
                &&& handle.kind == input.kind.handle_kind()
                &&& input.target_thread_id is Some ==> input.target_thread_id == Some(
                    handle.owner_thread_id,
                )
                &&& handle.condition is Some ==> input.condition == handle.condition
                &&& handle.source is Some ==> input.source == handle.source
                &&& told_apart(handle, input.dedupe_key)
            };
            &&& wanted ==> t.handles[h].status == IoHandleStatus::Ready
                && t.handles[h].payload_ref == input.payload_ref
            &&& !wanted ==> t.handles[h] == handle
        }),
{
    let routed = input.route()->Ok_0;
    let matched = s.matching_passive_handle_ids(routed);
    input.kind.law_key_word_is_read_back();
    lemma_matching(s, routed);
    assert forall|j: int| 0 <= j < matched.len() implies s.handles.contains_key(
        #[trigger] matched[j],
    ) by {
        assert(matched.contains(matched[j]));
    }
    let recorded = s.event_recorded(ctx, now, routed);
    lemma_delivered_brings(
        recorded,
        ctx,
        now,
        routed,
        s.fresh_event_id(),
        matched,
        matched.len() as int,
    );
    if matched.contains(h) {
        let i = matched.index_of(h);
        assert(matched[i] == h);
    } else {
        lemma_delivered_spares(
            recorded,
            ctx,
            now,
            routed,
            s.fresh_event_id(),
            matched,
            matched.len() as int,
        );
    }
}

/// An event that is taken in and is no duplicate is recorded as it came: its key, what it says and
/// what it brings; an item of the inbox says the same.
pub proof fn law_event_is_recorded_as_it_came(
    s: ClosureStateView,
    ctx: RuntimeContextView,
    now: Timestamp,
    input: PassiveEventInputView,
)
    requires
        s.filed(),
        s.received(ctx, now, input).1 matches Ok(receipt) && receipt.status
            != PassiveEventStatus::Duplicate,
    ensures
        ({
            let (t, r) = s.received(ctx, now, input);
            let e = t.passive_events.last();
            let receipt = r->Ok_0;
            &&& t.passive_events.len() == s.passive_events.len() + 1
            &&& t.passive_events.drop_last() == s.passive_events
            &&& e.id == receipt.event_id
            &&& e.status == receipt.status
            &&& e.matched_handle_ids == receipt.matched_handle_ids
            &&& e.event_key matches Some(key) && bears(input, key) && e.target_thread_id
                == key.target_thread_id
            &&& e.summary == input.summary
            &&& e.condition == input.condition
            &&& e.source == input.source
            &&& e.payload_ref == input.payload_ref
            &&& e.dedupe_key == input.dedupe_key
            &&& e.created_at == now
            &&& receipt.status == PassiveEventStatus::Inboxed <==> receipt.matched_handle_ids.len()
                == 0
            &&& receipt.status == PassiveEventStatus::Inboxed ==> {
                let item = t.inbox.last();
                &&& t.inbox.len() == s.inbox.len() + 1
                &&& t.inbox.drop_last() == s.inbox
                &&& receipt.inbox_item_id == Some(item.id)
                &&& item.passive_event_id == e.id
                &&& item.event_key == e.event_key
                &&& item.target_thread_id == e.target_thread_id
                &&& item.summary == input.summary
                &&& item.condition == input.condition
                &&& item.source == input.source
                &&& item.payload_ref == input.payload_ref
                &&& item.dedupe_key == input.dedupe_key
                &&& item.status == PassiveEventStatus::Inboxed
            }
            &&& receipt.status != PassiveEventStatus::Inboxed ==> receipt.status
                == PassiveEventStatus::Matched && t.inbox == s.inbox && receipt.inbox_item_id
                is None
        }),
{
    let routed = input.route()->Ok_0;
    let (t, r) = s.received(ctx, now, input);
    lemma_bears(input, routed.event_key);
    let matched = s.matching_passive_handle_ids(routed);
    lemma_matching(s, routed);
    assert forall|j: int| 0 <= j < matched.len() implies s.handles.contains_key(
        #[trigger] matched[j],
    ) by {
        assert(matched.contains(matched[j]));
    }
    lemma_delivered_brings(
        s.event_recorded(ctx, now, routed),
        ctx,
        now,
        routed,
        s.fresh_event_id(),
        matched,
        matched.len() as int,
    );
    assert(t.passive_events.drop_last() =~= s.passive_events);
    if matched.len() == 0 {
        assert(t.inbox.drop_last() =~= s.inbox);
    }
}

/// The handle may take the recorded event: it is of its kind; and where both have keys these are the
/// same in every part, else the event is addressed to the owner of the handle or to nobody and says
/// what the handle asks for.
pub open spec fn may_take(handle: IoHandleView, event: PassiveEventView) -> bool {
    &&& handle.kind == event.kind.handle_kind()
    &&& told_apart(handle, event.dedupe_key)
    &&& if handle.event_key is Some && event.event_key is Some {
        let a = handle.event_key->0;
        let b = event.event_key->0;
        a.kind == b.kind && a.resource == b.resource && a.source == b.source && a.target_thread_id
            == b.target_thread_id
    } else {
        &&& event.target_thread_id is Some ==> event.target_thread_id == Some(
            handle.owner_thread_id,
        )
        &&& handle.condition is Some ==> event.condition == handle.condition
        &&& handle.source is Some ==> event.source == handle.source
    }
}

/// A pending handle that looks into the inbox takes the first event there that it may take, with what
/// that brings; where there is none, it stays pending.
pub proof fn law_handle_takes_the_first_event_in_the_inbox(
    s: ClosureStateView,
    ctx: RuntimeContextView,
    now: Timestamp,
    h: Seq<char>,
)
    requires
        s.handles.contains_key(h),
        s.handles[h].status == IoHandleStatus::Pending,
    ensures
        ({
            let (t, r) = s.inbox_matched(ctx, now, h);
            &&& r is Ok
            &&& t.handles[h].status == IoHandleStatus::Ready <==> exists|i: int|
                0 <= i < s.passive_events.len() && (#[trigger] s.passive_events[i]).status
                    == PassiveEventStatus::Inboxed && may_take(s.handles[h], s.passive_events[i])
            &&& t.handles[h].status == IoHandleStatus::Ready ==> exists|i: int|
                0 <= i < s.passive_events.len() && (#[trigger] s.passive_events[i]).status
                    == PassiveEventStatus::Inboxed && may_take(s.handles[h], s.passive_events[i])
                    && t.handles[h].resolved_event_id == Some(s.passive_events[i].id)
                    && t.handles[h].payload_ref == s.passive_events[i].payload_ref && forall|
                    j: int,
                |
                    0 <= j < i ==> (#[trigger] s.passive_events[j]).status
                        != PassiveEventStatus::Inboxed || !may_take(
                        s.handles[h],
                        s.passive_events[j],
                    )
            &&& t.handles[h].status != IoHandleStatus::Ready ==> t.handles == s.handles
                && t.passive_events == s.passive_events && t.inbox == s.inbox
        }),
{
    let f = awaited_by(s.handles[h]);
    lemma_find_from(s.passive_events, f, 0);
    assert forall|i: int| 0 <= i < s.passive_events.len() implies (f(#[trigger] s.passive_events[i])
        <==> s.passive_events[i].status == PassiveEventStatus::Inboxed && may_take(
        s.handles[h],
        s.passive_events[i],
    )) by {}
    if let Some(i) = find_from(s.passive_events, f, 0) {
        assert(f(s.passive_events[i]));
        assert forall|j: int| 0 <= j < i implies (#[trigger] s.passive_events[j]).status
            != PassiveEventStatus::Inboxed || !may_take(s.handles[h], s.passive_events[j]) by {
            assert(!f(s.passive_events[j]));
        }
    }
}

proof fn lemma_all_delivered(
    s: ClosureStateView,
    ctx: RuntimeContextView,
    now: Timestamp,
    routed: RoutedPassiveEventView,
    event_id: Seq<char>,
    ids: Seq<Seq<char>>,
    n: int,
)
    requires
        n <= ids.len(),
        forall|i: int| 0 <= i < ids.len() ==> s.handles.contains_key(#[trigger] ids[i]),
    ensures
        s.delivered(ctx, now, routed, event_id, ids, n).1 is Ok,
        s.delivered(ctx, now, routed, event_id, ids, n).0.handles.dom() == s.handles.dom(),
    decreases n,
{
    if n > 0 {
        lemma_all_delivered(s, ctx, now, routed, event_id, ids, n - 1);
        let before = s.delivered(ctx, now, routed, event_id, ids, n - 1).0;
        assert(s.handles.contains_key(ids[n - 1]));
        assert(before.handles.contains_key(ids[n - 1]));
        let t = s.delivered(ctx, now, routed, event_id, ids, n).0;
        assert(t.handles.dom() =~= s.handles.dom());
    }
}

/// An event is refused exactly if it is addressed to another thread than its key, or if the thread that
/// its key names is not there. Refused, it changes nothing.
pub proof fn law_event_is_refused_for_its_address(
    s: ClosureStateView,
    ctx: RuntimeContextView,
    now: Timestamp,
    input: PassiveEventInputView,
)
    requires
        s.filed(),
    ensures
        ({
            let (t, r) = s.received(ctx, now, input);
            let target = match input.event_key {
                Some(key) => key.target_thread_id,
                None => input.target_thread_id,
            };
            &&& r is Ok <==> (input.target_thread_id is Some ==> target == input.target_thread_id)
                && (target is Some ==> s.threads.contains_key(target->0))
            &&& r is Err ==> t == s
        }),
{
    if let Ok(routed) = input.route() {
        let matched = s.matching_passive_handle_ids(routed);
        let recorded = s.event_recorded(ctx, now, routed);
        lemma_matching(s, routed);
        assert forall|i: int| 0 <= i < matched.len() implies recorded.handles.contains_key(
            #[trigger] matched[i],
        ) by {
            assert(matched.contains(matched[i]));
        }
        lemma_all_delivered(
            recorded,
            ctx,
            now,
            routed,
            s.fresh_event_id(),
            matched,
            matched.len() as int,
        );
    }
}

/// An event counts as a duplicate exactly if it has a dedupe key and one that came before has the same.
pub proof fn law_only_repeated_events_are_duplicates(
    s: ClosureStateView,
    ctx: RuntimeContextView,
    now: Timestamp,
    input: PassiveEventInputView,
)
    requires
        s.received(ctx, now, input).1 is Ok,
    ensures
        s.received(ctx, now, input).1->Ok_0.status == PassiveEventStatus::Duplicate <==> (
        input.dedupe_key is Some && exists|i: int|
            0 <= i < s.passive_events.len() && (#[trigger] s.passive_events[i]).dedupe_key
                == input.dedupe_key),
{
    if let Some(key) = input.dedupe_key {
        let f = deduped_by(key);
        lemma_find_from(s.passive_events, f, 0);
        if let Some(i) = find_from(s.passive_events, f, 0) {
            assert(f(s.passive_events[i]));
        } else {
            assert forall|i: int| 0 <= i < s.passive_events.len() implies (
            #[trigger] s.passive_events[i]).dedupe_key != input.dedupe_key by {
                assert(!f(s.passive_events[i]));
            }
        }
    }
}

} // verus!
