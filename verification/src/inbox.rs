//! Events from outside, and the inbox of those that nobody was waiting for.
use vstd::prelude::*;
use crate::clock::Timestamp;
use crate::context::{RuntimeContext, RuntimeContextView};
use crate::entities::{ClosureState, ClosureStateView, EventKey, InboxItem, InboxItemView, IoHandleView, PassiveEvent, PassiveEventView, Problem, ProblemView, UserTaskProblem, UserTaskProblemView};
use crate::error::{outcome, Outcome, QunuxErrorView, Result};
use crate::forest::rooted;
use crate::ids::numbered;
use crate::kinds::{IoEventKind, IoHandleStatus, PassiveEventStatus};
use crate::lookup::item_of_event;
use crate::matching::{event_key_from_passive_event, EventRoutingAgent, WaitWakeKernel};
use crate::reports::{PassiveEventInput, PassiveEventInputView, PassiveEventReceipt, PassiveEventReceiptView, RoutedPassiveEvent, RoutedPassiveEventView, RunnableThread, RunnableThreadView, WakeDecision, WakeDecisionView};
use crate::search::{find_index, position};
use crate::state::{refuse, refused, unknown_handle, unknown_thread};
use crate::text::{cat2, cat3, cat4, cat5, cat6, clone_texts, group_views, opt_is, opt_view, views};
use crate::validation::{has_same_source, same_source};
use crate::wake::{dedupe_runnable_threads, one_per_thread};

verus! {

broadcast use group_views;

/// Events with the given dedupe key.
pub open spec fn deduped_by(dedupe_key: Seq<char>) -> spec_fn(PassiveEventView) -> bool {
    |e: PassiveEventView| e.dedupe_key == Some(dedupe_key)
}

/// The receipt for a decision.
pub open spec fn receipt_of(decision: WakeDecisionView) -> PassiveEventReceiptView {
    PassiveEventReceiptView {
        event_id: decision.event_id,
        status: decision.status,
        matched_handle_ids: decision.matched_handle_ids,
        inbox_item_id: decision.inbox_item_id,
        duplicate_of_event_id: decision.duplicate_of_event_id,
        wake_decision: decision,
    }
}

impl ClosureStateView {
    /// The identifier of the next passive event.
    pub open spec fn fresh_event_id(self) -> Seq<char> {
        numbered("PE"@, self.next_passive_event_seq as nat)
    }

    /// The identifier of the next inbox item.
    pub open spec fn fresh_item_id(self) -> Seq<char> {
        numbered("IN"@, self.next_inbox_item_seq as nat)
    }

    /// The event that an incoming one repeats.
    pub open spec fn duplicate_of(self, input: PassiveEventInputView) -> Option<int> {
        match input.dedupe_key {
            Some(dedupe_key) => find_index(self.passive_events, deduped_by(dedupe_key)),
            None => None,
        }
    }

    /// What is answered to an event that repeats a recorded one.
    pub open spec fn duplicate_decision(self, at: int) -> WakeDecisionView {
        let existing = self.passive_events[at];
        WakeDecisionView {
            event_id: existing.id,
            event_key: existing.key(),
            status: PassiveEventStatus::Duplicate,
            matched_handle_ids: existing.matched_handle_ids,
            runnable_threads: Seq::empty(),
            inbox_item_id: match find_index(self.inbox, item_of_event(existing.id)) {
                Some(i) => Some(self.inbox[i].id),
                None => None,
            },
            duplicate_of_event_id: Some(existing.id),
        }
    }

    /// The event is recorded and announced.
    pub open spec fn event_recorded(
        self,
        ctx: RuntimeContextView,
        now: Timestamp,
        routed: RoutedPassiveEventView,
    ) -> ClosureStateView {
        let matched = self.matching_passive_handle_ids(routed);
        ClosureStateView {
            next_passive_event_seq: (self.next_passive_event_seq + 1) as u32,
            passive_events: self.passive_events.push(
                PassiveEventView {
                    id: self.fresh_event_id(),
                    kind: routed.kind,
                    event_key: Some(routed.event_key),
                    status: if matched.len() == 0 {
                        PassiveEventStatus::Inboxed
                    } else {
                        PassiveEventStatus::Matched
                    },
                    target_thread_id: routed.target_thread_id,
                    condition: routed.input.condition,
                    source: routed.input.source,
                    summary: routed.input.summary,
                    payload_ref: routed.input.payload_ref,
                    dedupe_key: routed.input.dedupe_key,
                    matched_handle_ids: matched,
                    created_at: now,
                },
            ),
            ..self
        }.io_logged(
            ctx,
            now,
            IoEventKind::PassiveEventReceived,
            None,
            routed.target_thread_id,
            "passive "@ + routed.kind.name_view() + " event received: "@ + routed.input.summary,
        )
    }

    /// An event that no handle waits for goes to the inbox.
    pub open spec fn event_inboxed(
        self,
        ctx: RuntimeContextView,
        now: Timestamp,
        routed: RoutedPassiveEventView,
        event_id: Seq<char>,
    ) -> ClosureStateView {
        ClosureStateView {
            next_inbox_item_seq: (self.next_inbox_item_seq + 1) as u32,
            inbox: self.inbox.push(
                InboxItemView {
                    id: self.fresh_item_id(),
                    passive_event_id: event_id,
                    event_key: Some(routed.event_key),
                    target_thread_id: routed.target_thread_id,
                    condition: routed.input.condition,
                    source: routed.input.source,
                    summary: routed.input.summary,
                    payload_ref: routed.input.payload_ref,
                    dedupe_key: routed.input.dedupe_key,
                    status: PassiveEventStatus::Inboxed,
                    created_at: now,
                },
            ),
            ..self
        }.io_logged(
            ctx,
            now,
            IoEventKind::PassiveEventInboxed,
            None,
            routed.target_thread_id,
            "passive event "@ + event_id + " had no matching pending handle"@,
        )
    }

    /// A handle becomes ready with an event.
    pub open spec fn handle_resolved(
        self,
        now: Timestamp,
        handle_id: Seq<char>,
        event_id: Seq<char>,
        payload_ref: Option<Seq<char>>,
    ) -> ClosureStateView {
        ClosureStateView {
            handles: self.handles.insert(
                handle_id,
                IoHandleView {
                    status: IoHandleStatus::Ready,
                    payload_ref,
                    resolved_event_id: Some(event_id),
                    updated_at: now,
                    ..self.handles[handle_id]
                },
            ),
            ..self
        }.refreshed(handle_id, now)
    }

    /// The event is delivered to the first `n` of the handles that wait for it. Gives the threads
    /// that it wakes.
    pub open spec fn delivered(
        self,
        ctx: RuntimeContextView,
        now: Timestamp,
        routed: RoutedPassiveEventView,
        event_id: Seq<char>,
        handle_ids: Seq<Seq<char>>,
        n: int,
    ) -> (ClosureStateView, Outcome<Seq<RunnableThreadView>>)
        decreases n,
    {
        if n <= 0 {
            (self, Ok(Seq::empty()))
        } else {
            let before = self.delivered(ctx, now, routed, event_id, handle_ids, n - 1);
            match before.1 {
                Err(e) => before,
                Ok(threads) => {
                    let handle_id = handle_ids[n - 1];
                    if !before.0.handles.contains_key(handle_id) {
                        (before.0, Err(unknown_handle(handle_id)))
                    } else {
                        let ready = before.0.handle_resolved(
                            now,
                            handle_id,
                            event_id,
                            routed.input.payload_ref,
                        );
                        (
                            ready.woken(handle_id, now).io_logged(
                                ctx,
                                now,
                                IoEventKind::PassiveEventMatched,
                                Some(handle_id),
                                routed.target_thread_id,
                                "passive event "@ + event_id + " matched handle "@ + handle_id,
                            ).io_logged(
                                ctx,
                                now,
                                IoEventKind::PassiveHandleReady,
                                Some(handle_id),
                                routed.target_thread_id,
                                "passive handle is ready"@,
                            ),
                            Ok(threads + ready.woken_by(handle_id, now)),
                        )
                    }
                },
            }
        }
    }

    /// An event comes in: a repeated one changes nothing, one that handles wait for is delivered,
    /// any other goes to the inbox.
    pub open spec fn received(
        self,
        ctx: RuntimeContextView,
        now: Timestamp,
        input: PassiveEventInputView,
    ) -> (ClosureStateView, Outcome<PassiveEventReceiptView>) {
        match input.route() {
            Err(e) => (self, Err(e)),
            Ok(routed) => if routed.target_thread_id is Some && !self.threads.contains_key(
                routed.target_thread_id->0,
            ) {
                (self, Err(unknown_thread(routed.target_thread_id->0)))
            } else {
                match self.duplicate_of(input) {
                    Some(at) => (self, Ok(receipt_of(self.duplicate_decision(at)))),
                    None => self.received_fresh(ctx, now, routed),
                }
            },
        }
    }

    /// An event comes in that repeats no other.
    pub open spec fn received_fresh(
        self,
        ctx: RuntimeContextView,
        now: Timestamp,
        routed: RoutedPassiveEventView,
    ) -> (ClosureStateView, Outcome<PassiveEventReceiptView>) {
        let event_id = self.fresh_event_id();
        let matched = self.matching_passive_handle_ids(routed);
        let recorded = self.event_recorded(ctx, now, routed);
        if matched.len() == 0 {
            (
                recorded.event_inboxed(ctx, now, routed, event_id),
                Ok(
                    receipt_of(
                        WakeDecisionView {
                            event_id,
                            event_key: routed.event_key,
                            status: PassiveEventStatus::Inboxed,
                            matched_handle_ids: matched,
                            runnable_threads: one_per_thread(Seq::empty()),
                            inbox_item_id: Some(recorded.fresh_item_id()),
                            duplicate_of_event_id: None,
                        },
                    ),
                ),
            )
        } else {
            let done = recorded.delivered(
                ctx,
                now,
                routed,
                event_id,
                matched,
                matched.len() as int,
            );
            (
                done.0,
                match done.1 {
                    Err(e) => Err(e),
                    Ok(threads) => Ok(
                        receipt_of(
                            WakeDecisionView {
                                event_id,
                                event_key: routed.event_key,
                                status: PassiveEventStatus::Matched,
                                matched_handle_ids: matched,
                                runnable_threads: one_per_thread(threads),
                                inbox_item_id: None,
                                duplicate_of_event_id: None,
                            },
                        ),
                    ),
                },
            )
        }
    }

    /// The inbox item at `at` is handled.
    pub open spec fn item_handled(self, at: int) -> ClosureStateView {
        ClosureStateView {
            inbox: self.inbox.update(
                at,
                InboxItemView { status: PassiveEventStatus::Handled, ..self.inbox[at] },
            ),
            ..self
        }
    }

    /// The event at `at` is handled.
    pub open spec fn event_handled(self, at: int) -> ClosureStateView {
        ClosureStateView {
            passive_events: self.passive_events.update(
                at,
                PassiveEventView {
                    status: PassiveEventStatus::Handled,
                    ..self.passive_events[at]
                },
            ),
            ..self
        }
    }

    /// The place of an inbox item that the current thread may still handle. `what` says what it
    /// wants to do with it.
    pub open spec fn open_item(
        self,
        ctx: RuntimeContextView,
        item_id: Seq<char>,
        what: Seq<char>,
    ) -> Outcome<int> {
        match self.item_index(item_id) {
            None => Err(refused("unknown inbox item "@ + item_id)),
            Some(at) => {
                let item = self.inbox[at];
                if item.target_thread_id is Some && item.target_thread_id->0 != ctx.thread_id {
                    Err(
                        refused(
                            "thread "@ + ctx.thread_id + what + item_id + " targeted at "@
                                + item.target_thread_id->0,
                        ),
                    )
                } else if item.status != PassiveEventStatus::Inboxed {
                    Err(
                        refused(
                            "inbox item "@ + item_id + " is "@ + item.status.name_view()
                                + ", not inboxed"@,
                        ),
                    )
                } else {
                    Ok(at)
                }
            },
        }
    }

    /// The current thread has seen to an inbox item.
    pub open spec fn acknowledged(
        self,
        ctx: RuntimeContextView,
        now: Timestamp,
        item_id: Seq<char>,
        note: Seq<char>,
    ) -> (ClosureStateView, Outcome<InboxItemView>) {
        match self.open_item(ctx, item_id, " cannot acknowledge inbox item "@) {
            Err(e) => (self, Err(e)),
            Ok(at) => {
                let item = self.inbox[at];
                let marked = self.item_handled(at);
                let settled = match self.event_index(item.passive_event_id) {
                    Some(i) if self.passive_events[i].status
                        == PassiveEventStatus::Inboxed => marked.event_handled(i),
                    _ => marked,
                };
                (
                    settled.io_logged(
                        ctx,
                        now,
                        IoEventKind::PassiveEventHandled,
                        None,
                        item.target_thread_id,
                        "inbox item "@ + item_id + " handled: "@ + note,
                    ),
                    Ok(marked.inbox[at]),
                )
            },
        }
    }

    /// The places of an inbox item and of its event from which a task can still be made.
    pub open spec fn task_source(self, ctx: RuntimeContextView, item_id: Seq<char>) -> Outcome<
        (int, int),
    > {
        match self.open_item(ctx, item_id, " cannot create user task from inbox item "@) {
            Err(e) => Err(e),
            Ok(at) => {
                let item = self.inbox[at];
                match self.event_index(item.passive_event_id) {
                    None => Err(
                        refused(
                            "inbox item "@ + item_id + " points to unknown passive event "@
                                + item.passive_event_id,
                        ),
                    ),
                    Some(i) => {
                        let event = self.passive_events[i];
                        if event.status != PassiveEventStatus::Inboxed {
                            Err(
                                refused(
                                    "passive event "@ + event.id + " is "@
                                        + event.status.name_view() + ", not inboxed"@,
                                ),
                            )
                        } else if !same_source(item, event) {
                            Err(
                                refused(
                                    "inbox item "@ + item_id + " does not match passive event "@
                                        + event.id,
                                ),
                            )
                        } else {
                            Ok((at, i))
                        }
                    },
                }
            },
        }
    }

    /// The identifier of the next problem.
    pub open spec fn fresh_problem_id(self) -> Seq<char> {
        numbered("P"@, self.next_problem_seq as nat)
    }

    /// A new problem is added and listed as a child of another one.
    pub open spec fn with_child_problem(
        self,
        now: Timestamp,
        parent_id: Seq<char>,
        problem: ProblemView,
    ) -> ClosureStateView {
        let problems = self.problems.insert(problem.id, problem);
        ClosureStateView {
            next_problem_seq: (self.next_problem_seq + 1) as u32,
            problems: problems.insert(
                parent_id,
                ProblemView {
                    child_problem_ids: problems[parent_id].child_problem_ids.push(problem.id),
                    updated_at: now,
                    ..problems[parent_id]
                },
            ),
            ..self
        }
    }

    /// An inbox item becomes a problem below the one on which the current thread works.
    pub open spec fn user_task_created(
        self,
        ctx: RuntimeContextView,
        now: Timestamp,
        item_id: Seq<char>,
        title: Seq<char>,
        body: Seq<char>,
        note: Seq<char>,
    ) -> (ClosureStateView, Outcome<UserTaskProblemView>) {
        match self.task_source(ctx, item_id) {
            Err(e) => (self, Err(e)),
            Ok((item_at, event_at)) => if !self.threads.contains_key(ctx.thread_id) {
                (self, Err(unknown_thread(ctx.thread_id)))
            } else {
                let parent_id = self.threads[ctx.thread_id].root_problem_id;
                match self.writable(ctx, parent_id) {
                    Err(e) => (self, Err(e)),
                    Ok(_) => {
                        let item = self.inbox[item_at];
                        let event = self.passive_events[event_at];
                        let problem_id = self.fresh_problem_id();
                        (
                            self.with_child_problem(
                                now,
                                parent_id,
                                ProblemView {
                                    created_from_passive_event_id: Some(event.id),
                                    created_from_inbox_item_id: Some(item.id),
                                    created_from_user_task_kind: Some(event.kind),
                                    ..ProblemView::fresh(
                                        problem_id,
                                        title,
                                        body,
                                        ctx.thread_id,
                                        Some(parent_id),
                                        now,
                                    )
                                },
                            ).item_handled(item_at).event_handled(event_at).io_logged(
                                ctx,
                                now,
                                IoEventKind::PassiveEventHandled,
                                None,
                                item.target_thread_id,
                                "inbox item "@ + item_id + " converted to user task "@
                                    + problem_id + ": "@ + note,
                            ).logged(
                                ctx,
                                now,
                                "problem_created"@,
                                problem_id,
                                "created user task from inbox item "@ + item.id
                                    + " passive event "@ + event.id,
                            ),
                            Ok(
                                UserTaskProblemView {
                                    problem_id,
                                    parent_problem_id: parent_id,
                                    inbox_item_id: item.id,
                                    passive_event_id: event.id,
                                    source_kind: event.kind,
                                },
                            ),
                        )
                    },
                }
            },
        }
    }
}

proof fn lemma_delivered_error(
    s: ClosureStateView,
    ctx: RuntimeContextView,
    now: Timestamp,
    routed: RoutedPassiveEventView,
    event_id: Seq<char>,
    ids: Seq<Seq<char>>,
    i: int,
    n: int,
)
    requires
        0 <= i <= n,
        s.delivered(ctx, now, routed, event_id, ids, i).1 is Err,
    ensures
        s.delivered(ctx, now, routed, event_id, ids, n) == s.delivered(
            ctx,
            now,
            routed,
            event_id,
            ids,
            i,
        ),
    decreases n,
{
    if i < n {
        lemma_delivered_error(s, ctx, now, routed, event_id, ids, i, n - 1);
    }
}

proof fn lemma_views_append<T: View>(a: Seq<T>, b: Seq<T>)
    ensures
        views(a + b) == views(a) + views(b),
{
    assert(views(a + b) =~= views(a) + views(b));
}

fn as_str(o: &Option<String>) -> (r: Option<&str>)
    ensures
        crate::state::opt_str(r) == opt_view(*o),
{
    match o {
        Some(s) => Some(s.as_str()),
        None => None,
    }
}

fn answer(
    event_id: String,
    event_key: EventKey,
    status: PassiveEventStatus,
    matched_handle_ids: Vec<String>,
    runnable_threads: Vec<RunnableThread>,
    inbox_item_id: Option<String>,
    duplicate_of_event_id: Option<String>,
) -> (r: PassiveEventReceipt)
    ensures
        r@ == receipt_of(
            WakeDecisionView {
                event_id: event_id@,
                event_key: event_key@,
                status,
                matched_handle_ids: views(matched_handle_ids@),
                runnable_threads: views(runnable_threads@),
                inbox_item_id: opt_view(inbox_item_id),
                duplicate_of_event_id: opt_view(duplicate_of_event_id),
            },
        ),
{
    PassiveEventReceipt {
        event_id: event_id.clone(),
        status,
        matched_handle_ids: clone_texts(&matched_handle_ids),
        inbox_item_id: inbox_item_id.clone(),
        duplicate_of_event_id: duplicate_of_event_id.clone(),
        wake_decision: WakeDecision {
            event_id,
            event_key,
            status,
            matched_handle_ids,
            runnable_threads,
            inbox_item_id,
            duplicate_of_event_id,
        },
    }
}

impl ClosureState {
    fn find_duplicate(&self, input: &PassiveEventInput) -> (r: Option<usize>)
        ensures
            crate::lookup::opt_int(r) == self@.duplicate_of(input@),
            r matches Some(i) ==> i < self.passive_events@.len(),
    {
        match &input.dedupe_key {
            Some(dedupe_key) => {
                let same = |e: &PassiveEvent| -> (b: bool)
                    ensures
                        b == (deduped_by(dedupe_key@))(e@),
                {
                    opt_is(&e.dedupe_key, dedupe_key.as_str())
                };
                position(&self.passive_events, same, Ghost(deduped_by(dedupe_key@)))
            },
            None => None,
        }
    }

    fn answer_duplicate(&self, at: usize) -> (r: PassiveEventReceipt)
        requires
            at < self.passive_events@.len(),
        ensures
            r@ == receipt_of(self@.duplicate_decision(at as int)),
    {
        let existing = &self.passive_events[at];
        assert(existing@ == self@.passive_events[at as int]);
        let of_event = |item: &InboxItem| -> (b: bool)
            ensures
                b == (item_of_event(existing@.id))(item@),
        {
            item.passive_event_id == existing.id
        };
        let inbox_item_id = match position(
            &self.inbox,
            of_event,
            Ghost(item_of_event(existing@.id)),
        ) {
            Some(i) => Some(self.inbox[i].id.clone()),
            None => None,
        };
        answer(
            existing.id.clone(),
            event_key_from_passive_event(existing),
            PassiveEventStatus::Duplicate,
            clone_texts(&existing.matched_handle_ids),
            Vec::new(),
            inbox_item_id,
            Some(existing.id.clone()),
        )
    }

    fn record_event(
        &mut self,
        ctx: &RuntimeContext,
        now: Timestamp,
        routed: &RoutedPassiveEvent,
        matched: &Vec<String>,
    ) -> (r: String)
        requires
            old(self).wf(),
            views(matched@) == old(self)@.matching_passive_handle_ids(routed@),
            old(self)@.next_passive_event_seq < u32::MAX,
            old(self)@.next_io_event_seq < u32::MAX,
        ensures
            final(self).wf(),
            r@ == old(self)@.fresh_event_id(),
            final(self)@ == old(self)@.event_recorded(ctx@, now, routed@),
    {
        let event_id = self.next_passive_event_id();
        let status = if matched.is_empty() {
            PassiveEventStatus::Inboxed
        } else {
            PassiveEventStatus::Matched
        };
        self.passive_events.push(
            PassiveEvent {
                id: event_id.clone(),
                kind: routed.kind,
                event_key: Some(routed.event_key.clone()),
                status,
                target_thread_id: routed.target_thread_id.clone(),
                condition: routed.input.condition.clone(),
                source: routed.input.source.clone(),
                summary: routed.input.summary.clone(),
                payload_ref: routed.input.payload_ref.clone(),
                dedupe_key: routed.input.dedupe_key.clone(),
                matched_handle_ids: clone_texts(matched),
                created_at: now,
            },
        );
        let message = cat4(
            "passive ",
            routed.kind.name(),
            " event received: ",
            routed.input.summary.as_str(),
        );
        let _ = self.io_event(
            ctx,
            now,
            IoEventKind::PassiveEventReceived,
            None,
            as_str(&routed.target_thread_id),
            message.as_str(),
        );
        event_id
    }

    fn put_in_inbox(
        &mut self,
        ctx: &RuntimeContext,
        now: Timestamp,
        routed: &RoutedPassiveEvent,
        event_id: &str,
    ) -> (r: String)
        requires
            old(self).wf(),
            old(self)@.next_inbox_item_seq < u32::MAX,
            old(self)@.next_io_event_seq < u32::MAX,
        ensures
            final(self).wf(),
            r@ == old(self)@.fresh_item_id(),
            final(self)@ == old(self)@.event_inboxed(ctx@, now, routed@, event_id@),
    {
        let id = self.next_inbox_item_id();
        self.inbox.push(
            InboxItem {
                id: id.clone(),
                passive_event_id: event_id.to_owned(),
                event_key: Some(routed.event_key.clone()),
                target_thread_id: routed.target_thread_id.clone(),
                condition: routed.input.condition.clone(),
                source: routed.input.source.clone(),
                summary: routed.input.summary.clone(),
                payload_ref: routed.input.payload_ref.clone(),
                dedupe_key: routed.input.dedupe_key.clone(),
                status: PassiveEventStatus::Inboxed,
                created_at: now,
            },
        );
        let message = cat3("passive event ", event_id, " had no matching pending handle");
        let _ = self.io_event(
            ctx,
            now,
            IoEventKind::PassiveEventInboxed,
            None,
            as_str(&routed.target_thread_id),
            message.as_str(),
        );
        id
    }

    fn deliver(
        &mut self,
        ctx: &RuntimeContext,
        now: Timestamp,
        routed: &RoutedPassiveEvent,
        event_id: &str,
        handle_ids: &Vec<String>,
    ) -> (r: Result<Vec<RunnableThread>>)
        requires
            old(self).wf(),
            old(self)@.next_io_event_seq + 2 * handle_ids@.len() <= u32::MAX,
        ensures
            final(self).wf(),
            match r {
                Ok(threads) => (
                    final(self)@,
                    Ok::<Seq<RunnableThreadView>, QunuxErrorView>(views(threads@)),
                ) == old(self)@.delivered(
                    ctx@,
                    now,
                    routed@,
                    event_id@,
                    views(handle_ids@),
                    handle_ids@.len() as int,
                ),
                Err(e) => (
                    final(self)@,
                    Err::<Seq<RunnableThreadView>, QunuxErrorView>(e@),
                ) == old(self)@.delivered(
                    ctx@,
                    now,
                    routed@,
                    event_id@,
                    views(handle_ids@),
                    handle_ids@.len() as int,
                ),
            },
    {
        let ghost before = self@;
        let ghost ids = views(handle_ids@);
        let mut threads: Vec<RunnableThread> = Vec::new();
        let mut i: usize = 0;
        while i < handle_ids.len()
            invariant
                self.wf(),
                i <= handle_ids@.len(),
                ids == views(handle_ids@),
                before == old(self)@,
                before.next_io_event_seq + 2 * handle_ids@.len() <= u32::MAX,
                self@.next_io_event_seq == before.next_io_event_seq + 2 * i,
                before.delivered(ctx@, now, routed@, event_id@, ids, i as int) == (
                    self@,
                    Ok::<Seq<RunnableThreadView>, QunuxErrorView>(views(threads@)),
                ),
            decreases handle_ids@.len() - i,
        {
            let handle_id = handle_ids[i].as_str();
            assert(ids[i as int] == handle_id@);
            match self.handles.get_mut(handle_id) {
                Some(handle) => {
                    handle.status = IoHandleStatus::Ready;
                    handle.payload_ref = routed.input.payload_ref.clone();
                    handle.resolved_event_id = Some(event_id.to_owned());
                    handle.updated_at = now;
                },
                None => {
                    proof {
                        lemma_delivered_error(
                            before,
                            ctx@,
                            now,
                            routed@,
                            event_id@,
                            ids,
                            i + 1,
                            handle_ids@.len() as int,
                        );
                    }
                    return Err(refuse(cat2("unknown handle ", handle_id)));
                },
            }
            self.refresh_wait_statuses_for_handle(handle_id, now);
            let mut woken = self.mark_ready_wait_threads_running(handle_id, now);
            proof {
                lemma_views_append(threads@, woken@);
            }
            threads.append(&mut woken);
            let matched = cat4("passive event ", event_id, " matched handle ", handle_id);
            let _ = self.io_event(
                ctx,
                now,
                IoEventKind::PassiveEventMatched,
                Some(handle_id),
                as_str(&routed.target_thread_id),
                matched.as_str(),
            );
            let _ = self.io_event(
                ctx,
                now,
                IoEventKind::PassiveHandleReady,
                Some(handle_id),
                as_str(&routed.target_thread_id),
                "passive handle is ready",
            );
            i = i + 1;
        }
        Ok(threads)
    }

    /// Takes in an event from outside.
    pub fn receive_passive_event(
        &mut self,
        ctx: &RuntimeContext,
        now: Timestamp,
        input: PassiveEventInput,
    ) -> (r: Result<PassiveEventReceipt>)
        requires
            old(self).wf(),
            old(self)@.next_passive_event_seq < u32::MAX,
            old(self)@.next_inbox_item_seq < u32::MAX,
            old(self)@.next_io_event_seq + 2 + 2 * old(self)@.handles.len() <= u32::MAX,
        ensures
            final(self).wf(),
            (final(self)@, outcome(r)) == old(self)@.received(ctx@, now, input@),
    {
        let routed = EventRoutingAgent::route_passive_event(input)?;
        if let Some(thread_id) = &routed.target_thread_id {
            let _ = self.require_thread(thread_id.as_str())?;
        }
        if let Some(at) = self.find_duplicate(&routed.input) {
            return Ok(self.answer_duplicate(at));
        }
        let matched_handle_ids = WaitWakeKernel::matching_passive_handle_ids(self, &routed);
        proof {
            self.handles.lemma_order();
            crate::search::lemma_kept(
                crate::strmap::values(self@.handles),
                routed@.wakes(),
                crate::strmap::values(self@.handles).len() as int,
            );
        }
        let event_id = self.record_event(ctx, now, &routed, &matched_handle_ids);
        if matched_handle_ids.is_empty() {
            let mut runnable_threads: Vec<RunnableThread> = Vec::new();
            dedupe_runnable_threads(&mut runnable_threads);
            let item_id = self.put_in_inbox(ctx, now, &routed, event_id.as_str());
            return Ok(
                answer(
                    event_id,
                    routed.event_key,
                    PassiveEventStatus::Inboxed,
                    matched_handle_ids,
                    runnable_threads,
                    Some(item_id),
                    None,
                ),
            );
        }
        let mut runnable_threads = self.deliver(
            ctx,
            now,
            &routed,
            event_id.as_str(),
            &matched_handle_ids,
        )?;
        dedupe_runnable_threads(&mut runnable_threads);
        Ok(
            answer(
                event_id,
                routed.event_key,
                PassiveEventStatus::Matched,
                matched_handle_ids,
                runnable_threads,
                None,
                None,
            ),
        )
    }

    fn require_open_item(&self, ctx: &RuntimeContext, item_id: &str, what: &str) -> (r: Result<
        usize,
    >)
        ensures
            match r {
                Ok(at) => at < self.inbox@.len() && self@.open_item(ctx@, item_id@, what@) == Ok::<
                    int,
                    QunuxErrorView,
                >(at as int),
                Err(e) => self@.open_item(ctx@, item_id@, what@) == Err::<int, QunuxErrorView>(e@),
            },
    {
        let at: usize = match self.item_index(item_id) {
            Some(at) => at,
            None => {
                return Err(refuse(cat2("unknown inbox item ", item_id)));
            },
        };
        let item = &self.inbox[at];
        assert(item@ == self@.inbox[at as int]);
        if let Some(target_thread_id) = &item.target_thread_id {
            if *target_thread_id != ctx.thread_id {
                return Err(
                    refuse(
                        cat6(
                            "thread ",
                            ctx.thread_id.as_str(),
                            what,
                            item_id,
                            " targeted at ",
                            target_thread_id.as_str(),
                        ),
                    ),
                );
            }
        }
        if item.status != PassiveEventStatus::Inboxed {
            return Err(
                refuse(
                    cat5("inbox item ", item_id, " is ", item.status.name(), ", not inboxed"),
                ),
            );
        }
        Ok(at)
    }

    fn mark_item_handled(&mut self, at: usize)
        requires
            old(self).wf(),
            at < old(self)@.inbox.len(),
        ensures
            final(self).wf(),
            final(self)@ == old(self)@.item_handled(at as int),
    {
        self.inbox[at].status = PassiveEventStatus::Handled;
        assert(self@.inbox =~= old(self)@.item_handled(at as int).inbox);
    }

    fn mark_event_handled(&mut self, at: usize)
        requires
            old(self).wf(),
            at < old(self)@.passive_events.len(),
        ensures
            final(self).wf(),
            final(self)@ == old(self)@.event_handled(at as int),
    {
        self.passive_events[at].status = PassiveEventStatus::Handled;
        assert(self@.passive_events =~= old(self)@.event_handled(at as int).passive_events);
    }

    /// Marks an inbox item as seen to.
    pub fn acknowledge_inbox_item(
        &mut self,
        ctx: &RuntimeContext,
        now: Timestamp,
        inbox_item_id: &str,
        note: &str,
    ) -> (r: Result<InboxItem>)
        requires
            old(self).wf(),
            old(self)@.next_io_event_seq < u32::MAX,
        ensures
            final(self).wf(),
            (final(self)@, outcome(r)) == old(self)@.acknowledged(
                ctx@,
                now,
                inbox_item_id@,
                note@,
            ),
    {
        let at: usize = self.require_open_item(
            ctx,
            inbox_item_id,
            " cannot acknowledge inbox item ",
        )?;
        assert(self.inbox@[at as int]@ == self@.inbox[at as int]);
        let event_id = self.inbox[at].passive_event_id.clone();
        let target_thread_id = self.inbox[at].target_thread_id.clone();
        self.mark_item_handled(at);
        if let Some(i) = self.event_index(event_id.as_str()) {
            assert(self.passive_events@[i as int]@ == self@.passive_events[i as int]);
            if self.passive_events[i].status == PassiveEventStatus::Inboxed {
                self.mark_event_handled(i);
            }
        }
        assert(self@.inbox.len() == self.inbox@.len());
        assert(self.inbox@[at as int]@ == self@.inbox[at as int]);
        let item = self.inbox[at].clone();
        let message = cat4("inbox item ", inbox_item_id, " handled: ", note);
        let _ = self.io_event(
            ctx,
            now,
            IoEventKind::PassiveEventHandled,
            None,
            as_str(&target_thread_id),
            message.as_str(),
        );
        Ok(item)
    }

    fn require_task_source(&self, ctx: &RuntimeContext, item_id: &str) -> (r: Result<
        (usize, usize),
    >)
        ensures
            match r {
                Ok((at, i)) => at < self.inbox@.len() && i < self.passive_events@.len()
                    && self@.task_source(ctx@, item_id@) == Ok::<(int, int), QunuxErrorView>(
                    (at as int, i as int),
                ),
                Err(e) => self@.task_source(ctx@, item_id@) == Err::<(int, int), QunuxErrorView>(
                    e@,
                ),
            },
    {
        let at: usize = self.require_open_item(
            ctx,
            item_id,
            " cannot create user task from inbox item ",
        )?;
        let item = &self.inbox[at];
        assert(item@ == self@.inbox[at as int]);
        let i: usize = match self.event_index(item.passive_event_id.as_str()) {
            Some(i) => i,
            None => {
                return Err(
                    refuse(
                        cat4(
                            "inbox item ",
                            item_id,
                            " points to unknown passive event ",
                            item.passive_event_id.as_str(),
                        ),
                    ),
                );
            },
        };
        let event = &self.passive_events[i];
        assert(event@ == self@.passive_events[i as int]);
        if event.status != PassiveEventStatus::Inboxed {
            return Err(
                refuse(
                    cat5(
                        "passive event ",
                        event.id.as_str(),
                        " is ",
                        event.status.name(),
                        ", not inboxed",
                    ),
                ),
            );
        }
        if !has_same_source(item, event) {
            return Err(
                refuse(
                    cat4(
                        "inbox item ",
                        item_id,
                        " does not match passive event ",
                        event.id.as_str(),
                    ),
                ),
            );
        }
        Ok((at, i))
    }

    /// Adds a problem and lists it as a child of another one.
    pub(crate) fn add_child_problem(&mut self, now: Timestamp, parent_id: &str, problem: Problem)
        requires
            old(self).wf(),
            old(self)@.problems.contains_key(parent_id@),
            old(self)@.next_problem_seq < u32::MAX,
        ensures
            final(self).wf(),
            final(self)@ == old(self)@.with_child_problem(now, parent_id@, problem@),
    {
        self.next_problem_seq = self.next_problem_seq + 1;
        let problem_id = problem.id.clone();
        self.problems.insert(problem_id.clone(), problem);
        if let Some(parent) = self.problems.get_mut(parent_id) {
            parent.child_problem_ids.push(problem_id);
            parent.updated_at = now;
        }
    }

    /// Makes a problem out of an inbox item.
    pub fn create_user_task_from_inbox(
        &mut self,
        ctx: &RuntimeContext,
        now: Timestamp,
        inbox_item_id: &str,
        title: &str,
        body: &str,
        note: &str,
    ) -> (r: Result<UserTaskProblem>)
        requires
            old(self).wf(),
            rooted(old(self)@.problems),
            old(self)@.next_problem_seq < u32::MAX,
            old(self)@.next_io_event_seq < u32::MAX,
        ensures
            final(self).wf(),
            (final(self)@, outcome(r)) == old(self)@.user_task_created(
                ctx@,
                now,
                inbox_item_id@,
                title@,
                body@,
                note@,
            ),
    {
        let (item_at, event_at) = self.require_task_source(ctx, inbox_item_id)?;
        assert(self.inbox@[item_at as int]@ == self@.inbox[item_at as int]);
        assert(self.passive_events@[event_at as int]@ == self@.passive_events[event_at as int]);
        let item = self.inbox[item_at].clone();
        let event = self.passive_events[event_at].clone();
        let parent_problem_id = self.current_thread(ctx)?.root_problem_id.clone();
        let _ = self.require_problem_writable(ctx, parent_problem_id.as_str())?;
        let problem_id = crate::ids::numbered_id("P", self.next_problem_seq);
        let mut problem = Problem::fresh(
            problem_id.as_str(),
            title,
            body,
            ctx.thread_id.as_str(),
            Some(parent_problem_id.clone()),
            now,
        );
        problem.created_from_passive_event_id = Some(event.id.clone());
        problem.created_from_inbox_item_id = Some(item.id.clone());
        problem.created_from_user_task_kind = Some(event.kind);
        self.add_child_problem(now, parent_problem_id.as_str(), problem);
        self.mark_item_handled(item_at);
        self.mark_event_handled(event_at);
        let handled = cat6(
            "inbox item ",
            inbox_item_id,
            " converted to user task ",
            problem_id.as_str(),
            ": ",
            note,
        );
        let _ = self.io_event(
            ctx,
            now,
            IoEventKind::PassiveEventHandled,
            None,
            as_str(&item.target_thread_id),
            handled.as_str(),
        );
        let created = cat4(
            "created user task from inbox item ",
            item.id.as_str(),
            " passive event ",
            event.id.as_str(),
        );
        self.event(ctx, now, "problem_created", problem_id.as_str(), created.as_str());
        Ok(
            UserTaskProblem {
                problem_id,
                parent_problem_id,
                inbox_item_id: item.id,
                passive_event_id: event.id,
                source_kind: event.kind,
            },
        )
    }
}

} // verus!
