//! Parking on waits, taking what came and giving up on what did not.
use vstd::prelude::*;
use crate::clock::Timestamp;
use crate::context::{RuntimeContext, RuntimeContextView};
use crate::entities::{ClosureState, ClosureStateView, EventKey, EventKeyView, InboxItemView, IoHandle, IoHandleView, PassiveEvent, PassiveEventView, ThreadWait, ThreadWaitView};
use crate::error::{outcome, Outcome, QunuxErrorView, Result};
use crate::forest::branching;
use crate::ids::numbered;
use crate::kinds::{IoEventKind, IoHandleKind, IoHandleStatus, PassiveEventStatus, ThreadStatus, WaitMode, WaitStatus};
use crate::matching::{event_matches, passive_event_matches_handle};
use crate::reports::{CancelledWait, CancelledWaitView, ConsumedWait, ConsumedWaitView, ParkedWait, ParkedWaitView, PassiveWait, PassiveWaitView, WaitHandleSnapshot, WaitHandleSnapshotView, WaitSpec, WaitSpecView};
use crate::search::{find_index, position};
use crate::spawning::{access_fault, require_handle_owned_by_current_thread};
use crate::state::{refuse, refused, unknown_handle, unknown_thread, unknown_wait};
use crate::text::{cat2, cat3, cat4, cat8, clone_texts, debug_option_text, group_views, opt_view, option_text_debug, str_eq, texts_contain, views};

verus! {

broadcast use group_views;

/// Inboxed events that a handle waits for.
pub open spec fn awaited_by(handle: IoHandleView) -> spec_fn(PassiveEventView) -> bool {
    |e: PassiveEventView| e.status == PassiveEventStatus::Inboxed && event_matches(e, handle)
}

/// An event that a handle took.
pub open spec fn matched_with(event: PassiveEventView, handle_id: Seq<char>) -> PassiveEventView {
    PassiveEventView {
        status: PassiveEventStatus::Matched,
        matched_handle_ids: if event.matched_handle_ids.contains(handle_id) {
            event.matched_handle_ids
        } else {
            event.matched_handle_ids.push(handle_id)
        },
        ..event
    }
}

/// The inbox after the event was taken: every item of the event is matched.
pub open spec fn items_matched(inbox: Seq<InboxItemView>, event_id: Seq<char>) -> Seq<
    InboxItemView,
> {
    Seq::new(
        inbox.len(),
        |i: int|
            if inbox[i].passive_event_id == event_id {
                InboxItemView { status: PassiveEventStatus::Matched, ..inbox[i] }
            } else {
                inbox[i]
            },
    )
}

impl ClosureStateView {
    /// A handle takes the first inboxed event that it waits for, if there is one.
    pub open spec fn inbox_matched(
        self,
        ctx: RuntimeContextView,
        now: Timestamp,
        handle_id: Seq<char>,
    ) -> (ClosureStateView, Outcome<()>) {
        if !self.handles.contains_key(handle_id) {
            (self, Err(unknown_handle(handle_id)))
        } else {
            let handle = self.handles[handle_id];
            match find_index(self.passive_events, awaited_by(handle)) {
                None => (self, Ok(())),
                Some(at) => {
                    let event = self.passive_events[at];
                    let taken = ClosureStateView {
                        handles: self.handles.insert(
                            handle_id,
                            IoHandleView {
                                status: IoHandleStatus::Ready,
                                resolved_event_id: Some(event.id),
                                payload_ref: event.payload_ref,
                                updated_at: now,
                                ..handle
                            },
                        ),
                        passive_events: match self.event_index(event.id) {
                            Some(i) => self.passive_events.update(
                                i,
                                matched_with(self.passive_events[i], handle_id),
                            ),
                            None => self.passive_events,
                        },
                        inbox: items_matched(self.inbox, event.id),
                        ..self
                    };
                    (
                        taken.refreshed(handle_id, now).woken(handle_id, now).io_logged(
                            ctx,
                            now,
                            IoEventKind::PassiveEventMatched,
                            Some(handle_id),
                            Some(handle.owner_thread_id),
                            "inboxed passive event "@ + event.id
                                + " matched newly created handle "@ + handle_id,
                        ).io_logged(
                            ctx,
                            now,
                            IoEventKind::PassiveHandleReady,
                            Some(handle_id),
                            Some(handle.owner_thread_id),
                            "passive handle is ready from inboxed event"@,
                        ),
                        Ok(()),
                    )
                },
            }
        }
    }

    /// The key that a wait listens for: its own one, or the one that its kind and its words make
    /// for the current thread.
    pub open spec fn wait_key(self, thread_id: Seq<char>, spec: WaitSpecView) -> Outcome<
        EventKeyView,
    > {
        let key = match spec.kind.passive_kind() {
            None => match spec.event_key {
                Some(key) => Ok(key),
                None => Err(refused("event_key wait spec requires event_key"@)),
            },
            Some(kind) => if spec.event_key is Some {
                Err(refused("non-event_key wait specs must not provide event_key"@))
            } else {
                Ok(
                    EventKeyView::passive(
                        kind,
                        spec.condition,
                        spec.source,
                        Some(
                            match spec.target_thread_id {
                                Some(target) => target,
                                None => thread_id,
                            },
                        ),
                    ),
                )
            },
        };
        match key {
            Err(e) => Err(e),
            Ok(key) => match key.target_thread_id {
                None => Ok(key),
                Some(target) => if !self.threads.contains_key(target) {
                    Err(unknown_thread(target))
                } else if target != thread_id {
                    Err(
                        refused(
                            "thread "@ + thread_id + " cannot park a wait targeted at thread "@
                                + target,
                        ),
                    )
                } else {
                    Ok(key)
                },
            },
        }
    }

    /// A handle on the event with the given key.
    pub open spec fn with_passive_handle(
        self,
        thread_id: Seq<char>,
        now: Timestamp,
        key: EventKeyView,
        dedupe_key: Option<Seq<char>>,
    ) -> ClosureStateView {
        let handle_id = self.fresh_handle_id();
        ClosureStateView {
            next_handle_seq: (self.next_handle_seq + 1) as u32,
            handles: self.handles.insert(
                handle_id,
                IoHandleView {
                    id: handle_id,
                    kind: key.passive_kind().handle_kind(),
                    owner_thread_id: thread_id,
                    target_thread_id: None,
                    event_key: Some(key),
                    condition: key.resource,
                    source: key.source,
                    payload_ref: None,
                    dedupe_key,
                    resolved_event_id: None,
                    status: IoHandleStatus::Pending,
                    created_at: now,
                    updated_at: now,
                },
            ),
            ..self
        }
    }

    /// A handle for each of the first `n` things to wait for; stops at the first one that cannot
    /// be waited for.
    pub open spec fn handles_parked(
        self,
        thread_id: Seq<char>,
        now: Timestamp,
        specs: Seq<WaitSpecView>,
        n: int,
    ) -> (ClosureStateView, Outcome<Seq<Seq<char>>>)
        decreases n,
    {
        if n <= 0 {
            (self, Ok(Seq::empty()))
        } else {
            let before = self.handles_parked(thread_id, now, specs, n - 1);
            match before.1 {
                Err(e) => before,
                Ok(ids) => match before.0.wait_key(thread_id, specs[n - 1]) {
                    Err(e) => (before.0, Err(e)),
                    Ok(key) => (
                        before.0.with_passive_handle(
                            thread_id,
                            now,
                            key,
                            specs[n - 1].dedupe_key,
                        ),
                        Ok(ids.push(before.0.fresh_handle_id())),
                    ),
                },
            }
        }
    }

    /// The first `n` handles are announced, and each takes an inboxed event if one is there.
    pub open spec fn waits_announced(
        self,
        ctx: RuntimeContextView,
        now: Timestamp,
        reason: Seq<char>,
        handle_ids: Seq<Seq<char>>,
        n: int,
    ) -> (ClosureStateView, Outcome<()>)
        decreases n,
    {
        if n <= 0 {
            (self, Ok(()))
        } else {
            let before = self.waits_announced(ctx, now, reason, handle_ids, n - 1);
            match before.1 {
                Err(e) => before,
                Ok(_) => before.0.io_logged(
                    ctx,
                    now,
                    IoEventKind::PassiveWaitCreated,
                    Some(handle_ids[n - 1]),
                    Some(ctx.thread_id),
                    "passive wait created: "@ + reason,
                ).inbox_matched(ctx, now, handle_ids[n - 1]),
            }
        }
    }

    /// Why the current thread cannot park.
    pub open spec fn parking_refusal(
        self,
        ctx: RuntimeContextView,
        specs: Seq<WaitSpecView>,
    ) -> Outcome<()> {
        if specs.len() == 0 {
            Err(refused("wait park requires at least one spec"@))
        } else if !self.threads.contains_key(ctx.thread_id) {
            Err(unknown_thread(ctx.thread_id))
        } else if self.threads[ctx.thread_id].status.is_terminal() {
            Err(
                refused(
                    "thread "@ + ctx.thread_id + " cannot create wait from terminal status "@
                        + self.threads[ctx.thread_id].status.name_view(),
                ),
            )
        } else {
            match self.blocking_frontier(ctx) {
                Some(step) => Err(
                    refused(
                        "thread "@ + ctx.thread_id + " cannot wait while runnable action "@
                            + step.action.name_view() + " exists for problem "@
                            + option_text_debug(step.problem_id) + " ticket "@
                            + option_text_debug(step.ticket_id),
                    ),
                ),
                None => Ok(()),
            }
        }
    }

    /// The current thread waits on the given handles.
    pub open spec fn with_thread_wait(
        self,
        ctx: RuntimeContextView,
        now: Timestamp,
        wait_id: Seq<char>,
        mode: WaitMode,
        handle_ids: Seq<Seq<char>>,
    ) -> ClosureStateView {
        ClosureStateView {
            waits: self.waits.insert(
                wait_id,
                ThreadWaitView {
                    id: wait_id,
                    thread_id: ctx.thread_id,
                    handle_ids,
                    mode,
                    status: WaitStatus::Waiting,
                    created_at: now,
                    updated_at: now,
                },
            ),
            ..self
        }.with_thread_status(ctx.thread_id, ThreadStatus::WaitingIo, now)
    }

    /// The current thread parks on one or more things to wait for.
    pub open spec fn parked(
        self,
        ctx: RuntimeContextView,
        now: Timestamp,
        mode: WaitMode,
        reason: Seq<char>,
        specs: Seq<WaitSpecView>,
    ) -> (ClosureStateView, Outcome<ParkedWaitView>) {
        match self.parking_refusal(ctx, specs) {
            Err(e) => (self, Err(e)),
            Ok(_) => {
                let wait_id = self.fresh_wait_id();
                let numbered = ClosureStateView {
                    next_wait_seq: (self.next_wait_seq + 1) as u32,
                    ..self
                };
                let made = numbered.handles_parked(ctx.thread_id, now, specs, specs.len() as int);
                match made.1 {
                    Err(e) => (made.0, Err(e)),
                    Ok(handle_ids) => {
                        let told = made.0.with_thread_wait(
                            ctx,
                            now,
                            wait_id,
                            mode,
                            handle_ids,
                        ).waits_announced(ctx, now, reason, handle_ids, handle_ids.len() as int);
                        match told.1 {
                            Err(e) => (told.0, Err(e)),
                            Ok(_) => (
                                told.0,
                                Ok(
                                    ParkedWaitView {
                                        thread_id: ctx.thread_id,
                                        wait_id,
                                        handle_ids,
                                        mode,
                                        status: if told.0.waits.contains_key(wait_id) {
                                            told.0.waits[wait_id].status
                                        } else {
                                            WaitStatus::Waiting
                                        },
                                    },
                                ),
                            ),
                        }
                    },
                }
            },
        }
    }

    /// The current thread parks on a single thing to wait for.
    pub open spec fn parked_on(
        self,
        ctx: RuntimeContextView,
        now: Timestamp,
        reason: Seq<char>,
        spec: WaitSpecView,
    ) -> (ClosureStateView, Outcome<PassiveWaitView>) {
        let parked = self.parked(ctx, now, WaitMode::All, reason, seq![spec]);
        match parked.1 {
            Err(e) => (parked.0, Err(e)),
            Ok(wait) => if wait.handle_ids.len() == 0 {
                (parked.0, Err(refused("passive wait did not create a handle"@)))
            } else {
                let handle_id = wait.handle_ids[0];
                if !parked.0.handles.contains_key(handle_id) {
                    (parked.0, Err(unknown_handle(handle_id)))
                } else {
                    match parked.0.handles[handle_id].event_key {
                        None => (
                            parked.0,
                            Err(refused("handle "@ + handle_id + " has no event key"@)),
                        ),
                        Some(key) => (
                            parked.0,
                            Ok(
                                PassiveWaitView {
                                    thread_id: wait.thread_id,
                                    handle_id,
                                    wait_id: wait.wait_id,
                                    kind: key.passive_kind(),
                                    event_key: key,
                                    status: wait.status,
                                },
                            ),
                        ),
                    }
                }
            },
        }
    }

    /// A handle of the current thread.
    pub open spec fn own_handle(self, ctx: RuntimeContextView, handle_id: Seq<char>) -> Outcome<
        IoHandleView,
    > {
        if !self.handles.contains_key(handle_id) {
            Err(unknown_handle(handle_id))
        } else {
            match access_fault(ctx, self.handles[handle_id]) {
                Some(e) => Err(e),
                None => Ok(self.handles[handle_id]),
            }
        }
    }

    /// A handle of the current thread and the wait that lists it.
    pub open spec fn wait_snapshot(self, ctx: RuntimeContextView, handle_id: Seq<char>) -> Outcome<
        WaitHandleSnapshotView,
    > {
        match self.own_handle(ctx, handle_id) {
            Err(e) => Err(e),
            Ok(handle) => Ok(
                WaitHandleSnapshotView {
                    handle,
                    wait: match self.wait_id_for_handle(handle_id) {
                        Some(wait_id) if self.waits.contains_key(wait_id) => Some(
                            self.waits[wait_id],
                        ),
                        _ => None,
                    },
                },
            ),
        }
    }

    /// The first `n` of the named handles are given up if they are still pending or ready, but for
    /// the one that was taken.
    pub open spec fn siblings_cancelled(
        self,
        ids: Seq<Seq<char>>,
        n: int,
        taken: Seq<char>,
        now: Timestamp,
    ) -> ClosureStateView
        decreases n,
    {
        if n <= 0 {
            self
        } else {
            let before = self.siblings_cancelled(ids, n - 1, taken, now);
            let id = ids[n - 1];
            if id != taken && before.handles.contains_key(id) && (before.handles[id].status
                == IoHandleStatus::Pending || before.handles[id].status
                == IoHandleStatus::Ready) {
                before.with_handle_status(id, IoHandleStatus::Cancelled, now)
            } else {
                before
            }
        }
    }

    /// All handles of a wait were taken.
    pub open spec fn all_consumed(self, wait: ThreadWaitView) -> bool {
        forall|i: int|
            0 <= i < wait.handle_ids.len() ==> self.handles.contains_key(
                #[trigger] wait.handle_ids[i],
            ) && self.handles[wait.handle_ids[i]].status == IoHandleStatus::Consumed
    }

    /// The wait after one of its handles was taken: a wait for any is over and its other handles
    /// are given up; a wait for all is over once every handle was taken.
    pub open spec fn wait_settled(
        self,
        now: Timestamp,
        handle_id: Seq<char>,
        wait_id: Seq<char>,
    ) -> ClosureStateView {
        let wait = self.waits[wait_id];
        match wait.mode {
            WaitMode::Any => self.siblings_cancelled(
                wait.handle_ids,
                wait.handle_ids.len() as int,
                handle_id,
                now,
            ).with_wait_status(wait_id, WaitStatus::Consumed, now),
            WaitMode::All => {
                let fresh = self.refreshed(handle_id, now);
                if fresh.all_consumed(fresh.waits[wait_id]) {
                    fresh.with_wait_status(wait_id, WaitStatus::Consumed, now)
                } else {
                    fresh
                }
            },
        }
    }

    /// The current thread takes a ready handle; a handle on a child thread joins it.
    pub open spec fn consumed(
        self,
        ctx: RuntimeContextView,
        now: Timestamp,
        handle_id: Seq<char>,
    ) -> (ClosureStateView, Outcome<ConsumedWaitView>) {
        match self.own_handle(ctx, handle_id) {
            Err(e) => (self, Err(e)),
            Ok(handle) => if handle.kind == IoHandleKind::ChildThread {
                match handle.target_thread_id {
                    None => (
                        self,
                        Err(refused("child-thread handle "@ + handle_id + " has no target"@)),
                    ),
                    Some(target) => {
                        let done = self.joined(
                            ctx,
                            now,
                            target,
                            ctx.thread_id,
                            "consumed child-thread wait handle "@ + handle_id,
                        );
                        (
                            done.0,
                            match done.1 {
                                Err(e) => Err(e),
                                Ok(joined) => Ok(
                                    ConsumedWaitView {
                                        thread_id: ctx.thread_id,
                                        handle_id: joined.handle_id,
                                        wait_id: joined.wait_id,
                                        kind: IoHandleKind::ChildThread,
                                        target_thread_id: Some(target),
                                        resolved_event_id: None,
                                        payload_ref: None,
                                        joined_thread: Some(joined),
                                    },
                                ),
                            },
                        )
                    },
                }
            } else if handle.status != IoHandleStatus::Ready {
                (
                    self,
                    Err(
                        refused(
                            "cannot consume handle "@ + handle_id + " while status is "@
                                + handle.status.name_view(),
                        ),
                    ),
                )
            } else {
                match self.wait_id_for_handle(handle_id) {
                    None => (self, Err(refused("handle "@ + handle_id + " has no wait"@))),
                    Some(wait_id) => {
                        let taken = self.with_handle_status(
                            handle_id,
                            IoHandleStatus::Consumed,
                            now,
                        );
                        if !taken.waits.contains_key(wait_id) {
                            (taken, Err(unknown_wait(wait_id)))
                        } else {
                            let settled = taken.wait_settled(now, handle_id, wait_id);
                            let running = if settled.threads.contains_key(ctx.thread_id) {
                                settled.with_thread_status(
                                    ctx.thread_id,
                                    ThreadStatus::Running,
                                    now,
                                )
                            } else {
                                settled
                            };
                            (
                                running.io_logged(
                                    ctx,
                                    now,
                                    IoEventKind::PassiveHandleConsumed,
                                    Some(handle_id),
                                    Some(ctx.thread_id),
                                    "passive wait handle "@ + handle_id + " consumed"@,
                                ),
                                Ok(
                                    ConsumedWaitView {
                                        thread_id: ctx.thread_id,
                                        handle_id,
                                        wait_id,
                                        kind: handle.kind,
                                        target_thread_id: handle.target_thread_id,
                                        resolved_event_id: handle.resolved_event_id,
                                        payload_ref: handle.payload_ref,
                                        joined_thread: None,
                                    },
                                ),
                            )
                        }
                    },
                }
            },
        }
    }

    /// The current thread gives up a passive handle that is pending or ready.
    pub open spec fn cancelled(
        self,
        ctx: RuntimeContextView,
        now: Timestamp,
        handle_id: Seq<char>,
        reason: Seq<char>,
    ) -> (ClosureStateView, Outcome<CancelledWaitView>) {
        match self.own_handle(ctx, handle_id) {
            Err(e) => (self, Err(e)),
            Ok(handle) => if handle.kind == IoHandleKind::ChildThread {
                (
                    self,
                    Err(
                        refused(
                            "cannot cancel child-thread handle "@ + handle_id
                                + "; close or fail the child thread instead"@,
                        ),
                    ),
                )
            } else if handle.status == IoHandleStatus::Consumed || handle.status
                == IoHandleStatus::Failed || handle.status == IoHandleStatus::Cancelled {
                (
                    self,
                    Err(
                        refused(
                            "cannot cancel handle "@ + handle_id + " while status is "@
                                + handle.status.name_view(),
                        ),
                    ),
                )
            } else {
                match self.wait_id_for_handle(handle_id) {
                    None => (self, Err(refused("handle "@ + handle_id + " has no wait"@))),
                    Some(wait_id) => (
                        self.with_handle_status(
                            handle_id,
                            IoHandleStatus::Cancelled,
                            now,
                        ).refreshed(handle_id, now).woken(handle_id, now).io_logged(
                            ctx,
                            now,
                            IoEventKind::PassiveHandleCancelled,
                            Some(handle_id),
                            Some(ctx.thread_id),
                            "passive wait handle "@ + handle_id + " cancelled: "@ + reason,
                        ),
                        Ok(
                            CancelledWaitView {
                                thread_id: ctx.thread_id,
                                handle_id,
                                wait_id,
                                kind: handle.kind,
                            },
                        ),
                    ),
                }
            },
        }
    }
}

impl ClosureState {
    fn match_items(&mut self, event_id: &str)
        requires
            old(self).wf(),
        ensures
            final(self).wf(),
            final(self)@ == (ClosureStateView {
                inbox: items_matched(old(self)@.inbox, event_id@),
                ..old(self)@
            }),
    {
        let ghost before = self@;
        let n: usize = self.inbox.len();
        let mut i: usize = 0;
        while i < n
            invariant
                self.wf(),
                n == self.inbox@.len(),
                n == before.inbox.len(),
                i <= n,
                self@ == (ClosureStateView { inbox: self@.inbox, ..before }),
                forall|j: int|
                    0 <= j < n ==> #[trigger] self@.inbox[j] == (if j < i {
                        items_matched(before.inbox, event_id@)[j]
                    } else {
                        before.inbox[j]
                    }),
            decreases n - i,
        {
            let ghost at_start = self@.inbox;
            assert(at_start[i as int] == self.inbox@[i as int]@);
            if str_eq(self.inbox[i].passive_event_id.as_str(), event_id) {
                self.inbox[i].status = PassiveEventStatus::Matched;
                assert(self@.inbox =~= at_start.update(
                    i as int,
                    InboxItemView {
                        status: PassiveEventStatus::Matched,
                        ..at_start[i as int]
                    },
                ));
            }
            i = i + 1;
        }
        assert(self@.inbox =~= items_matched(before.inbox, event_id@));
    }

    /// Lets a handle take the first inboxed event that it waits for.
    pub(crate) fn match_inboxed_event_for_handle(
        &mut self,
        ctx: &RuntimeContext,
        now: Timestamp,
        handle_id: &str,
    ) -> (r: Result<()>)
        requires
            old(self).wf(),
            old(self)@.next_io_event_seq + 2 <= u32::MAX,
        ensures
            final(self).wf(),
            (final(self)@, outcome(r)) == old(self)@.inbox_matched(ctx@, now, handle_id@),
            final(self)@.next_io_event_seq <= old(self)@.next_io_event_seq + 2,
    {
        let handle = self.require_handle(handle_id)?.clone();
        let awaited = |e: &PassiveEvent| -> (b: bool)
            ensures
                b == (awaited_by(handle@))(e@),
        {
            e.status == PassiveEventStatus::Inboxed && passive_event_matches_handle(e, &handle)
        };
        let at: usize = match position(
            &self.passive_events,
            awaited,
            Ghost(awaited_by(handle@)),
        ) {
            Some(at) => at,
            None => {
                return Ok(());
            },
        };
        let event_id = self.passive_events[at].id.clone();
        let payload_ref = self.passive_events[at].payload_ref.clone();
        if let Some(handle) = self.handles.get_mut(handle_id) {
            handle.status = IoHandleStatus::Ready;
            handle.resolved_event_id = Some(event_id.clone());
            handle.payload_ref = payload_ref;
            handle.updated_at = now;
        }
        if let Some(i) = self.event_index(event_id.as_str()) {
            let ghost events = self@.passive_events;
            let known = texts_contain(&self.passive_events[i].matched_handle_ids, handle_id);
            self.passive_events[i].status = PassiveEventStatus::Matched;
            if !known {
                self.passive_events[i].matched_handle_ids.push(handle_id.to_owned());
            }
            assert(self@.passive_events =~= events.update(
                i as int,
                matched_with(events[i as int], handle_id@),
            ));
        }
        self.match_items(event_id.as_str());
        self.refresh_wait_statuses_for_handle(handle_id, now);
        let _ = self.mark_ready_wait_threads_running(handle_id, now);
        let matched = cat4(
            "inboxed passive event ",
            event_id.as_str(),
            " matched newly created handle ",
            handle_id,
        );
        let _ = self.io_event(
            ctx,
            now,
            IoEventKind::PassiveEventMatched,
            Some(handle_id),
            Some(handle.owner_thread_id.as_str()),
            matched.as_str(),
        );
        let _ = self.io_event(
            ctx,
            now,
            IoEventKind::PassiveHandleReady,
            Some(handle_id),
            Some(handle.owner_thread_id.as_str()),
            "passive handle is ready from inboxed event",
        );
        Ok(())
    }

    /// The key that a wait listens for.
    pub fn event_key_for_wait_spec(&self, current_thread_id: &str, spec: &WaitSpec) -> (r: Result<
        EventKey,
    >)
        requires
            self.wf(),
        ensures
            outcome(r) == self@.wait_key(current_thread_id@, spec@),
    {
        let event_key = match spec.kind.passive_kind() {
            None => match &spec.event_key {
                Some(key) => key.clone(),
                None => {
                    return Err(refuse("event_key wait spec requires event_key".to_owned()));
                },
            },
            Some(kind) => {
                if spec.event_key.is_some() {
                    return Err(
                        refuse("non-event_key wait specs must not provide event_key".to_owned()),
                    );
                }
                let target = match &spec.target_thread_id {
                    Some(target) => target.clone(),
                    None => current_thread_id.to_owned(),
                };
                EventKey::passive(
                    kind,
                    spec.condition.clone(),
                    spec.source.clone(),
                    Some(target),
                )
            },
        };
        if let Some(target_thread_id) = &event_key.target_thread_id {
            let _ = self.require_thread(target_thread_id.as_str())?;
            if !str_eq(target_thread_id.as_str(), current_thread_id) {
                return Err(
                    refuse(
                        cat4(
                            "thread ",
                            current_thread_id,
                            " cannot park a wait targeted at thread ",
                            target_thread_id.as_str(),
                        ),
                    ),
                );
            }
        }
        Ok(event_key)
    }

    fn add_passive_handle(
        &mut self,
        thread_id: &str,
        now: Timestamp,
        key: EventKey,
        dedupe_key: Option<String>,
    ) -> (r: String)
        requires
            old(self).wf(),
            old(self)@.next_handle_seq < u32::MAX,
        ensures
            final(self).wf(),
            r@ == old(self)@.fresh_handle_id(),
            final(self)@ == old(self)@.with_passive_handle(
                thread_id@,
                now,
                key@,
                opt_view(dedupe_key),
            ),
    {
        let handle_id = self.next_handle_id();
        let handle = IoHandle {
            id: handle_id.clone(),
            kind: key.passive_kind().handle_kind(),
            owner_thread_id: thread_id.to_owned(),
            target_thread_id: None,
            condition: key.resource.clone(),
            source: key.source.clone(),
            event_key: Some(key),
            payload_ref: None,
            dedupe_key,
            resolved_event_id: None,
            status: IoHandleStatus::Pending,
            created_at: now,
            updated_at: now,
        };
        self.handles.insert(handle_id.clone(), handle);
        handle_id
    }

    fn park_handles(&mut self, thread_id: &str, now: Timestamp, specs: &Vec<WaitSpec>) -> (r:
        Result<Vec<String>>)
        requires
            old(self).wf(),
            old(self)@.next_handle_seq + specs@.len() <= u32::MAX,
        ensures
            final(self).wf(),
            final(self)@.next_io_event_seq == old(self)@.next_io_event_seq,
            final(self)@.threads == old(self)@.threads,
            match r {
                Ok(ids) => ids@.len() == specs@.len() && (
                    final(self)@,
                    Ok::<Seq<Seq<char>>, QunuxErrorView>(views(ids@)),
                ) == old(self)@.handles_parked(
                    thread_id@,
                    now,
                    views(specs@),
                    specs@.len() as int,
                ),
                Err(e) => (final(self)@, Err::<Seq<Seq<char>>, QunuxErrorView>(e@)) == old(
                    self,
                )@.handles_parked(thread_id@, now, views(specs@), specs@.len() as int),
            },
    {
        let ghost before = self@;
        let mut handle_ids: Vec<String> = Vec::new();
        let mut i: usize = 0;
        while i < specs.len()
            invariant
                self.wf(),
                i <= specs@.len(),
                handle_ids@.len() == i,
                before == old(self)@,
                before.next_handle_seq + specs@.len() <= u32::MAX,
                self@.next_handle_seq == before.next_handle_seq + i,
                self@.next_io_event_seq == before.next_io_event_seq,
                self@.threads == before.threads,
                before.handles_parked(thread_id@, now, views(specs@), i as int) == (
                    self@,
                    Ok::<Seq<Seq<char>>, QunuxErrorView>(views(handle_ids@)),
                ),
            decreases specs@.len() - i,
        {
            assert(views(specs@)[i as int] == specs@[i as int]@);
            match self.event_key_for_wait_spec(thread_id, &specs[i]) {
                Ok(key) => {
                    let handle_id = self.add_passive_handle(
                        thread_id,
                        now,
                        key,
                        specs[i].dedupe_key.clone(),
                    );
                    handle_ids.push(handle_id);
                },
                Err(e) => {
                    proof {
                        lemma_parked_error(
                            before,
                            thread_id@,
                            now,
                            views(specs@),
                            i + 1,
                            specs@.len() as int,
                        );
                    }
                    return Err(e);
                },
            }
            i = i + 1;
        }
        Ok(handle_ids)
    }

    fn announce_waits(
        &mut self,
        ctx: &RuntimeContext,
        now: Timestamp,
        reason: &str,
        handle_ids: &Vec<String>,
    ) -> (r: Result<()>)
        requires
            old(self).wf(),
            old(self)@.next_io_event_seq + 3 * handle_ids@.len() <= u32::MAX,
        ensures
            final(self).wf(),
            (final(self)@, outcome(r)) == old(self)@.waits_announced(
                ctx@,
                now,
                reason@,
                views(handle_ids@),
                handle_ids@.len() as int,
            ),
    {
        let ghost before = self@;
        let ghost ids = views(handle_ids@);
        let text = cat2("passive wait created: ", reason);
        let mut i: usize = 0;
        while i < handle_ids.len()
            invariant
                self.wf(),
                i <= handle_ids@.len(),
                ids == views(handle_ids@),
                before == old(self)@,
                text@ == "passive wait created: "@ + reason@,
                before.next_io_event_seq + 3 * handle_ids@.len() <= u32::MAX,
                self@.next_io_event_seq <= before.next_io_event_seq + 3 * i,
                before.waits_announced(ctx@, now, reason@, ids, i as int) == (
                    self@,
                    Ok::<(), QunuxErrorView>(()),
                ),
            decreases handle_ids@.len() - i,
        {
            assert(ids[i as int] == handle_ids@[i as int]@);
            let _ = self.io_event(
                ctx,
                now,
                IoEventKind::PassiveWaitCreated,
                Some(handle_ids[i].as_str()),
                Some(ctx.thread_id.as_str()),
                text.as_str(),
            );
            match self.match_inboxed_event_for_handle(ctx, now, handle_ids[i].as_str()) {
                Ok(_) => {},
                Err(e) => {
                    proof {
                        lemma_announced_error(
                            before,
                            ctx@,
                            now,
                            reason@,
                            ids,
                            i + 1,
                            handle_ids@.len() as int,
                        );
                    }
                    return Err(e);
                },
            }
            i = i + 1;
        }
        Ok(())
    }

    fn require_parking(&self, ctx: &RuntimeContext, specs: &Vec<WaitSpec>) -> (r: Result<()>)
        requires
            self.wf(),
            branching(self@.problems),
        ensures
            outcome(r) == self@.parking_refusal(ctx@, views(specs@)),
    {
        if specs.is_empty() {
            return Err(refuse("wait park requires at least one spec".to_owned()));
        }
        let thread_status = self.current_thread(ctx)?.status;
        if thread_status.is_terminal() {
            return Err(
                refuse(
                    cat4(
                        "thread ",
                        ctx.thread_id.as_str(),
                        " cannot create wait from terminal status ",
                        thread_status.name(),
                    ),
                ),
            );
        }
        if let Some(frontier) = self.blocking_frontier_for_wait(ctx) {
            let problem = debug_option_text(&frontier.problem_id);
            let ticket = debug_option_text(&frontier.ticket_id);
            return Err(
                refuse(
                    cat8(
                        "thread ",
                        ctx.thread_id.as_str(),
                        " cannot wait while runnable action ",
                        frontier.action.name(),
                        " exists for problem ",
                        problem.as_str(),
                        " ticket ",
                        ticket.as_str(),
                    ),
                ),
            );
        }
        Ok(())
    }

    /// Parks the current thread on one or more things to wait for.
    pub fn park_wait(
        &mut self,
        ctx: &RuntimeContext,
        now: Timestamp,
        mode: WaitMode,
        reason: &str,
        specs: &Vec<WaitSpec>,
    ) -> (r: Result<ParkedWait>)
        requires
            old(self).wf(),
            branching(old(self)@.problems),
            old(self)@.next_wait_seq < u32::MAX,
            old(self)@.next_handle_seq + specs@.len() <= u32::MAX,
            old(self)@.next_io_event_seq + 3 * specs@.len() <= u32::MAX,
        ensures
            final(self).wf(),
            (final(self)@, outcome(r)) == old(self)@.parked(
                ctx@,
                now,
                mode,
                reason@,
                views(specs@),
            ),
    {
        self.require_parking(ctx, specs)?;
        let wait_id = self.next_wait_id();
        let handle_ids = self.park_handles(ctx.thread_id.as_str(), now, specs)?;
        let wait = ThreadWait {
            id: wait_id.clone(),
            thread_id: ctx.thread_id.clone(),
            handle_ids: clone_texts(&handle_ids),
            mode,
            status: WaitStatus::Waiting,
            created_at: now,
            updated_at: now,
        };
        self.waits.insert(wait_id.clone(), wait);
        self.set_thread_status(ctx.thread_id.as_str(), ThreadStatus::WaitingIo, now);
        self.announce_waits(ctx, now, reason, &handle_ids)?;
        let status = match self.waits.get(wait_id.as_str()) {
            Some(wait) => wait.status,
            None => WaitStatus::Waiting,
        };
        Ok(ParkedWait { thread_id: ctx.thread_id.clone(), wait_id, handle_ids, mode, status })
    }

    /// Parks the current thread on a single thing to wait for.
    pub fn park_single_passive_wait(
        &mut self,
        ctx: &RuntimeContext,
        now: Timestamp,
        reason: &str,
        spec: WaitSpec,
    ) -> (r: Result<PassiveWait>)
        requires
            old(self).wf(),
            branching(old(self)@.problems),
            old(self)@.next_wait_seq < u32::MAX,
            old(self)@.next_handle_seq < u32::MAX,
            old(self)@.next_io_event_seq + 3 <= u32::MAX,
        ensures
            final(self).wf(),
            (final(self)@, outcome(r)) == old(self)@.parked_on(ctx@, now, reason@, spec@),
    {
        let mut specs: Vec<WaitSpec> = Vec::new();
        specs.push(spec);
        assert(views(specs@) =~= seq![spec@]);
        let parked = self.park_wait(ctx, now, WaitMode::All, reason, &specs)?;
        if parked.handle_ids.is_empty() {
            return Err(refuse("passive wait did not create a handle".to_owned()));
        }
        let handle_id = parked.handle_ids[0].clone();
        let handle = self.require_handle(handle_id.as_str())?;
        let event_key = match &handle.event_key {
            Some(key) => key.clone(),
            None => {
                return Err(refuse(cat3("handle ", handle_id.as_str(), " has no event key")));
            },
        };
        Ok(
            PassiveWait {
                thread_id: parked.thread_id,
                handle_id,
                wait_id: parked.wait_id,
                kind: event_key.passive_kind(),
                event_key,
                status: parked.status,
            },
        )
    }

    fn require_own_handle(&self, ctx: &RuntimeContext, handle_id: &str) -> (r: Result<IoHandle>)
        requires
            self.wf(),
        ensures
            outcome(r) == self@.own_handle(ctx@, handle_id@),
    {
        let handle = self.require_handle(handle_id)?;
        require_handle_owned_by_current_thread(ctx, handle)?;
        Ok(handle.clone())
    }

    /// A handle of the current thread and the wait that lists it.
    pub fn wait_status(&self, ctx: &RuntimeContext, handle_id: &str) -> (r: Result<
        WaitHandleSnapshot,
    >)
        requires
            self.wf(),
        ensures
            outcome(r) == self@.wait_snapshot(ctx@, handle_id@),
    {
        let handle = self.require_own_handle(ctx, handle_id)?;
        let wait = match self.wait_id_for_handle(handle_id) {
            Some(wait_id) => match self.waits.get(wait_id.as_str()) {
                Some(wait) => Some(wait.clone()),
                None => None,
            },
            None => None,
        };
        Ok(WaitHandleSnapshot { handle, wait })
    }

    fn cancel_siblings(&mut self, ids: &Vec<String>, taken: &str, now: Timestamp)
        requires
            old(self).wf(),
        ensures
            final(self).wf(),
            final(self)@ == old(self)@.siblings_cancelled(
                views(ids@),
                ids@.len() as int,
                taken@,
                now,
            ),
    {
        let ghost before = self@;
        let mut i: usize = 0;
        while i < ids.len()
            invariant
                self.wf(),
                i <= ids@.len(),
                self@ == before.siblings_cancelled(views(ids@), i as int, taken@, now),
            decreases ids@.len() - i,
        {
            assert(views(ids@)[i as int] == ids@[i as int]@);
            if !str_eq(ids[i].as_str(), taken) {
                let open = match self.handles.get(ids[i].as_str()) {
                    Some(sibling) => sibling.status == IoHandleStatus::Pending || sibling.status
                        == IoHandleStatus::Ready,
                    None => false,
                };
                if open {
                    self.set_handle_status(ids[i].as_str(), IoHandleStatus::Cancelled, now);
                }
            }
            i = i + 1;
        }
    }

    fn is_all_consumed(&self, wait: &ThreadWait) -> (r: bool)
        requires
            self.wf(),
        ensures
            r == self@.all_consumed(wait@),
    {
        let mut i: usize = 0;
        while i < wait.handle_ids.len()
            invariant
                self.wf(),
                i <= wait.handle_ids@.len(),
                forall|j: int|
                    0 <= j < i ==> self@.handles.contains_key(#[trigger] wait@.handle_ids[j])
                        && self@.handles[wait@.handle_ids[j]].status == IoHandleStatus::Consumed,
            decreases wait.handle_ids@.len() - i,
        {
            assert(wait@.handle_ids[i as int] == wait.handle_ids@[i as int]@);
            match self.handles.get(wait.handle_ids[i].as_str()) {
                Some(handle) => {
                    if handle.status != IoHandleStatus::Consumed {
                        return false;
                    }
                },
                None => {
                    return false;
                },
            }
            i = i + 1;
        }
        true
    }

    /// Ends a wait if all of its handles were taken.
    fn mark_wait_consumed_if_all_handles_consumed(&mut self, wait_id: &str, now: Timestamp) -> (r:
        Result<()>)
        requires
            old(self).wf(),
        ensures
            final(self).wf(),
            (final(self)@, outcome(r)) == (if !old(self)@.waits.contains_key(wait_id@) {
                (old(self)@, Err::<(), QunuxErrorView>(unknown_wait(wait_id@)))
            } else if old(self)@.all_consumed(old(self)@.waits[wait_id@]) {
                (
                    old(self)@.with_wait_status(wait_id@, WaitStatus::Consumed, now),
                    Ok::<(), QunuxErrorView>(()),
                )
            } else {
                (old(self)@, Ok::<(), QunuxErrorView>(()))
            }),
    {
        let done = match self.waits.get(wait_id) {
            Some(wait) => self.is_all_consumed(wait),
            None => {
                return Err(refuse(cat2("unknown wait ", wait_id)));
            },
        };
        if done {
            self.set_wait_status(wait_id, WaitStatus::Consumed, now);
        }
        Ok(())
    }

    fn settle_wait(&mut self, now: Timestamp, handle_id: &str, wait_id: &str) -> (r: Result<()>)
        requires
            old(self).wf(),
            old(self)@.waits.contains_key(wait_id@),
        ensures
            final(self).wf(),
            final(self)@ == old(self)@.wait_settled(now, handle_id@, wait_id@),
            final(self)@.next_io_event_seq == old(self)@.next_io_event_seq,
            r is Ok,
    {
        let ghost before = self@;
        let (mode, ids) = match self.waits.get(wait_id) {
            Some(wait) => (wait.mode, clone_texts(&wait.handle_ids)),
            None => {
                return Ok(());
            },
        };
        match mode {
            WaitMode::Any => {
                self.cancel_siblings(&ids, handle_id, now);
                proof {
                    lemma_siblings_keep_waits(
                        before,
                        views(ids@),
                        ids@.len() as int,
                        handle_id@,
                        now,
                    );
                }
                self.set_wait_status(wait_id, WaitStatus::Consumed, now);
            },
            WaitMode::All => {
                proof {
                    let listing = before.wait_ids_listing(handle_id@);
                    lemma_refreshed_keeps_waits(
                        before,
                        listing,
                        listing.len() as int,
                        now,
                    );
                }
                self.refresh_wait_statuses_for_handle(handle_id, now);
                self.mark_wait_consumed_if_all_handles_consumed(wait_id, now)?;
            },
        }
        Ok(())
    }

    /// Takes a ready handle of the current thread.
    pub fn consume_wait_handle(
        &mut self,
        ctx: &RuntimeContext,
        now: Timestamp,
        handle_id: &str,
    ) -> (r: Result<ConsumedWait>)
        requires
            old(self).wf(),
            old(self)@.next_io_event_seq + 3 <= u32::MAX,
        ensures
            final(self).wf(),
            (final(self)@, outcome(r)) == old(self)@.consumed(ctx@, now, handle_id@),
    {
        let handle = self.require_own_handle(ctx, handle_id)?;
        if handle.kind == IoHandleKind::ChildThread {
            let target_thread_id = match handle.target_thread_id {
                Some(target) => target,
                None => {
                    return Err(refuse(cat3("child-thread handle ", handle_id, " has no target")));
                },
            };
            let message = cat2("consumed child-thread wait handle ", handle_id);
            let joined = self.join_child_thread_in_state(
                ctx,
                now,
                target_thread_id.as_str(),
                ctx.thread_id.as_str(),
                message.as_str(),
            )?;
            return Ok(
                ConsumedWait {
                    thread_id: ctx.thread_id.clone(),
                    handle_id: joined.handle_id.clone(),
                    wait_id: joined.wait_id.clone(),
                    kind: IoHandleKind::ChildThread,
                    target_thread_id: Some(target_thread_id),
                    resolved_event_id: None,
                    payload_ref: None,
                    joined_thread: Some(joined),
                },
            );
        }
        if handle.status != IoHandleStatus::Ready {
            return Err(
                refuse(
                    cat4(
                        "cannot consume handle ",
                        handle_id,
                        " while status is ",
                        handle.status.name(),
                    ),
                ),
            );
        }
        let wait_id = match self.wait_id_for_handle(handle_id) {
            Some(wait_id) => wait_id,
            None => {
                return Err(refuse(cat3("handle ", handle_id, " has no wait")));
            },
        };
        self.set_handle_status(handle_id, IoHandleStatus::Consumed, now);
        if !self.waits.contains_key(wait_id.as_str()) {
            return Err(refuse(cat2("unknown wait ", wait_id.as_str())));
        }
        self.settle_wait(now, handle_id, wait_id.as_str())?;
        if self.threads.contains_key(ctx.thread_id.as_str()) {
            self.set_thread_status(ctx.thread_id.as_str(), ThreadStatus::Running, now);
        }
        let message = cat3("passive wait handle ", handle_id, " consumed");
        let _ = self.io_event(
            ctx,
            now,
            IoEventKind::PassiveHandleConsumed,
            Some(handle_id),
            Some(ctx.thread_id.as_str()),
            message.as_str(),
        );
        Ok(
            ConsumedWait {
                thread_id: ctx.thread_id.clone(),
                handle_id: handle_id.to_owned(),
                wait_id,
                kind: handle.kind,
                target_thread_id: handle.target_thread_id,
                resolved_event_id: handle.resolved_event_id,
                payload_ref: handle.payload_ref,
                joined_thread: None,
            },
        )
    }

    /// Gives up a passive handle of the current thread.
    pub fn cancel_wait_handle(
        &mut self,
        ctx: &RuntimeContext,
        now: Timestamp,
        handle_id: &str,
        reason: &str,
    ) -> (r: Result<CancelledWait>)
        requires
            old(self).wf(),
            old(self)@.next_io_event_seq < u32::MAX,
        ensures
            final(self).wf(),
            (final(self)@, outcome(r)) == old(self)@.cancelled(ctx@, now, handle_id@, reason@),
    {
        let handle = self.require_own_handle(ctx, handle_id)?;
        if handle.kind == IoHandleKind::ChildThread {
            return Err(
                refuse(
                    cat3(
                        "cannot cancel child-thread handle ",
                        handle_id,
                        "; close or fail the child thread instead",
                    ),
                ),
            );
        }
        match handle.status {
            IoHandleStatus::Consumed | IoHandleStatus::Failed | IoHandleStatus::Cancelled => {
                return Err(
                    refuse(
                        cat4(
                            "cannot cancel handle ",
                            handle_id,
                            " while status is ",
                            handle.status.name(),
                        ),
                    ),
                );
            },
            _ => {},
        }
        let wait_id = match self.wait_id_for_handle(handle_id) {
            Some(wait_id) => wait_id,
            None => {
                return Err(refuse(cat3("handle ", handle_id, " has no wait")));
            },
        };
        self.set_handle_status(handle_id, IoHandleStatus::Cancelled, now);
        self.refresh_wait_statuses_for_handle(handle_id, now);
        let _ = self.mark_ready_wait_threads_running(handle_id, now);
        let message = cat4("passive wait handle ", handle_id, " cancelled: ", reason);
        let _ = self.io_event(
            ctx,
            now,
            IoEventKind::PassiveHandleCancelled,
            Some(handle_id),
            Some(ctx.thread_id.as_str()),
            message.as_str(),
        );
        Ok(
            CancelledWait {
                thread_id: ctx.thread_id.clone(),
                handle_id: handle_id.to_owned(),
                wait_id,
                kind: handle.kind,
            },
        )
    }
}

proof fn lemma_parked_error(
    s: ClosureStateView,
    thread_id: Seq<char>,
    now: Timestamp,
    specs: Seq<WaitSpecView>,
    i: int,
    n: int,
)
    requires
        0 <= i <= n,
        s.handles_parked(thread_id, now, specs, i).1 is Err,
    ensures
        s.handles_parked(thread_id, now, specs, n) == s.handles_parked(thread_id, now, specs, i),
    decreases n,
{
    if i < n {
        lemma_parked_error(s, thread_id, now, specs, i, n - 1);
    }
}

proof fn lemma_announced_error(
    s: ClosureStateView,
    ctx: RuntimeContextView,
    now: Timestamp,
    reason: Seq<char>,
    ids: Seq<Seq<char>>,
    i: int,
    n: int,
)
    requires
        0 <= i <= n,
        s.waits_announced(ctx, now, reason, ids, i).1 is Err,
    ensures
        s.waits_announced(ctx, now, reason, ids, n) == s.waits_announced(
            ctx,
            now,
            reason,
            ids,
            i,
        ),
    decreases n,
{
    if i < n {
        lemma_announced_error(s, ctx, now, reason, ids, i, n - 1);
    }
}

proof fn lemma_siblings_keep_waits(
    s: ClosureStateView,
    ids: Seq<Seq<char>>,
    n: int,
    taken: Seq<char>,
    now: Timestamp,
)
    ensures
        s.siblings_cancelled(ids, n, taken, now) == (ClosureStateView {
            handles: s.siblings_cancelled(ids, n, taken, now).handles,
            ..s
        }),
    decreases n,
{
    if n > 0 {
        lemma_siblings_keep_waits(s, ids, n - 1, taken, now);
    }
}

/// Bringing waits up to date neither adds nor removes one.
pub proof fn lemma_refreshed_keeps_waits(
    s: ClosureStateView,
    ids: Seq<Seq<char>>,
    n: int,
    now: Timestamp,
)
    ensures
        crate::wake::waits_refreshed(s.waits, s.handles, ids, n, now).dom() == s.waits.dom(),
    decreases n,
{
    if n > 0 {
        lemma_refreshed_keeps_waits(s, ids, n - 1, now);
        assert(crate::wake::waits_refreshed(s.waits, s.handles, ids, n, now).dom()
            =~= s.waits.dom());
    }
}

} // verus!
