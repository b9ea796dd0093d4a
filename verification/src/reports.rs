//! What the operations of the runtime take and return.
use vstd::prelude::*;
use crate::context::{RuntimeContext, RuntimeContextView};
use crate::entities::{EventKey, EventKeyView, IoHandle, IoHandleView, ThreadWait, ThreadWaitView};
use crate::kinds::{IoHandleKind, NextAction, NextDisposition, PassiveEventKind, PassiveEventStatus, ThreadStatus, WaitMode, WaitSpecKind, WaitStatus};
use crate::text::{opt_view, views};

verus! {

/// The next thing for the current thread to do.
#[derive(Debug, PartialEq, Eq)]
pub struct NextStep {
    pub action: NextAction,
    pub disposition: NextDisposition,
    pub thread_id: String,
    pub target_thread_id: Option<String>,
    pub problem_id: Option<String>,
    pub ticket_id: Option<String>,
    pub instruction: String,
    pub reason: String,
}

/// What a [`NextStep`] says.
#[verifier::ext_equal]
pub struct NextStepView {
    pub action: NextAction,
    pub disposition: NextDisposition,
    pub thread_id: Seq<char>,
    pub target_thread_id: Option<Seq<char>>,
    pub problem_id: Option<Seq<char>>,
    pub ticket_id: Option<Seq<char>>,
    pub instruction: Seq<char>,
    pub reason: Seq<char>,
}

impl View for NextStep {
    type V = NextStepView;

    open spec fn view(&self) -> NextStepView {
        NextStepView {
            action: self.action,
            disposition: self.disposition,
            thread_id: self.thread_id@,
            target_thread_id: opt_view(self.target_thread_id),
            problem_id: opt_view(self.problem_id),
            ticket_id: opt_view(self.ticket_id),
            instruction: self.instruction@,
            reason: self.reason@,
        }
    }
}

impl Clone for NextStep {
    fn clone(&self) -> (r: Self)
        ensures
            r@ == self@,
    {
        NextStep {
            action: self.action,
            disposition: self.disposition,
            thread_id: self.thread_id.clone(),
            target_thread_id: self.target_thread_id.clone(),
            problem_id: self.problem_id.clone(),
            ticket_id: self.ticket_id.clone(),
            instruction: self.instruction.clone(),
            reason: self.reason.clone(),
        }
    }
}

/// Counts over the state, seen from the current thread.
#[derive(Clone, Debug, PartialEq, Eq)]
pub struct RuntimeStatus {
    pub process_id: String,
    pub thread_id: String,
    pub thread_status: ThreadStatus,
    pub root_problem_id: String,
    pub thread_root_problem_id: String,
    pub total_threads: usize,
    pub open_threads: usize,
    pub total_problems: usize,
    pub open_problems: usize,
    pub total_tickets: usize,
    pub total_results: usize,
    pub total_checks: usize,
    pub total_handles: usize,
    pub pending_handles: usize,
    pub ready_handles: usize,
    pub failed_threads: usize,
    pub failed_handles: usize,
    pub waiting_threads: usize,
    pub passive_events: usize,
    pub inbox_items: usize,
    pub pending_inbox_items: usize,
    pub valid: bool,
}

/// What a [`RuntimeStatus`] says.
#[verifier::ext_equal]
pub struct RuntimeStatusView {
    pub process_id: Seq<char>,
    pub thread_id: Seq<char>,
    pub thread_status: ThreadStatus,
    pub root_problem_id: Seq<char>,
    pub thread_root_problem_id: Seq<char>,
    pub total_threads: usize,
    pub open_threads: usize,
    pub total_problems: usize,
    pub open_problems: usize,
    pub total_tickets: usize,
    pub total_results: usize,
    pub total_checks: usize,
    pub total_handles: usize,
    pub pending_handles: usize,
    pub ready_handles: usize,
    pub failed_threads: usize,
    pub failed_handles: usize,
    pub waiting_threads: usize,
    pub passive_events: usize,
    pub inbox_items: usize,
    pub pending_inbox_items: usize,
    pub valid: bool,
}

impl View for RuntimeStatus {
    type V = RuntimeStatusView;

    open spec fn view(&self) -> RuntimeStatusView {
        RuntimeStatusView {
            process_id: self.process_id@,
            thread_id: self.thread_id@,
            thread_status: self.thread_status,
            root_problem_id: self.root_problem_id@,
            thread_root_problem_id: self.thread_root_problem_id@,
            total_threads: self.total_threads,
            open_threads: self.open_threads,
            total_problems: self.total_problems,
            open_problems: self.open_problems,
            total_tickets: self.total_tickets,
            total_results: self.total_results,
            total_checks: self.total_checks,
            total_handles: self.total_handles,
            pending_handles: self.pending_handles,
            ready_handles: self.ready_handles,
            failed_threads: self.failed_threads,
            failed_handles: self.failed_handles,
            waiting_threads: self.waiting_threads,
            passive_events: self.passive_events,
            inbox_items: self.inbox_items,
            pending_inbox_items: self.pending_inbox_items,
            valid: self.valid,
        }
    }
}

/// Context, status and next step together.
#[derive(Clone, Debug, PartialEq, Eq)]
pub struct CurrentState {
    pub context: RuntimeContext,
    pub status: RuntimeStatus,
    pub next: NextStep,
}

/// What a [`CurrentState`] says.
#[verifier::ext_equal]
pub struct CurrentStateView {
    pub context: RuntimeContextView,
    pub status: RuntimeStatusView,
    pub next: NextStepView,
}

impl View for CurrentState {
    type V = CurrentStateView;

    open spec fn view(&self) -> CurrentStateView {
        CurrentStateView {
            context: self.context@,
            status: self.status@,
            next: self.next@,
        }
    }
}

/// A child thread that was just made, with the handle and the wait of its parent.
#[derive(Clone, Debug, PartialEq, Eq)]
pub struct SpawnedThread {
    pub thread_id: String,
    pub root_problem_id: String,
    pub handle_id: String,
    pub wait_id: String,
    pub bootstrap_instruction: String,
}

/// What a [`SpawnedThread`] says.
#[verifier::ext_equal]
pub struct SpawnedThreadView {
    pub thread_id: Seq<char>,
    pub root_problem_id: Seq<char>,
    pub handle_id: Seq<char>,
    pub wait_id: Seq<char>,
    pub bootstrap_instruction: Seq<char>,
}

impl View for SpawnedThread {
    type V = SpawnedThreadView;

    open spec fn view(&self) -> SpawnedThreadView {
        SpawnedThreadView {
            thread_id: self.thread_id@,
            root_problem_id: self.root_problem_id@,
            handle_id: self.handle_id@,
            wait_id: self.wait_id@,
            bootstrap_instruction: self.bootstrap_instruction@,
        }
    }
}

/// A finished child thread that its parent took back.
#[derive(Debug, PartialEq, Eq)]
pub struct JoinedThread {
    pub thread_id: String,
    pub root_problem_id: String,
    pub parent_thread_id: String,
    pub handle_id: String,
    pub wait_id: String,
}

/// What a [`JoinedThread`] says.
#[verifier::ext_equal]
pub struct JoinedThreadView {
    pub thread_id: Seq<char>,
    pub root_problem_id: Seq<char>,
    pub parent_thread_id: Seq<char>,
    pub handle_id: Seq<char>,
    pub wait_id: Seq<char>,
}

impl View for JoinedThread {
    type V = JoinedThreadView;

    open spec fn view(&self) -> JoinedThreadView {
        JoinedThreadView {
            thread_id: self.thread_id@,
            root_problem_id: self.root_problem_id@,
            parent_thread_id: self.parent_thread_id@,
            handle_id: self.handle_id@,
            wait_id: self.wait_id@,
        }
    }
}

impl Clone for JoinedThread {
    fn clone(&self) -> (r: Self)
        ensures
            r@ == self@,
    {
        JoinedThread {
            thread_id: self.thread_id.clone(),
            root_problem_id: self.root_problem_id.clone(),
            parent_thread_id: self.parent_thread_id.clone(),
            handle_id: self.handle_id.clone(),
            wait_id: self.wait_id.clone(),
        }
    }
}

/// A failed child thread whose subtree went back to the parent.
#[derive(Clone, Debug, PartialEq, Eq)]
pub struct RecoveredThread {
    pub thread_id: String,
    pub root_problem_id: String,
    pub parent_thread_id: String,
    pub handle_id: String,
    pub wait_id: String,
}

/// What a [`RecoveredThread`] says.
#[verifier::ext_equal]
pub struct RecoveredThreadView {
    pub thread_id: Seq<char>,
    pub root_problem_id: Seq<char>,
    pub parent_thread_id: Seq<char>,
    pub handle_id: Seq<char>,
    pub wait_id: Seq<char>,
}

impl View for RecoveredThread {
    type V = RecoveredThreadView;

    open spec fn view(&self) -> RecoveredThreadView {
        RecoveredThreadView {
            thread_id: self.thread_id@,
            root_problem_id: self.root_problem_id@,
            parent_thread_id: self.parent_thread_id@,
            handle_id: self.handle_id@,
            wait_id: self.wait_id@,
        }
    }
}

/// A passive event as it is handed in.
#[derive(Debug, PartialEq, Eq)]
pub struct PassiveEventInput {
    pub kind: PassiveEventKind,
    pub event_key: Option<EventKey>,
    pub target_thread_id: Option<String>,
    pub condition: Option<String>,
    pub source: Option<String>,
    pub summary: String,
    pub payload_ref: Option<String>,
    pub dedupe_key: Option<String>,
}

/// What a [`PassiveEventInput`] says.
#[verifier::ext_equal]
pub struct PassiveEventInputView {
    pub kind: PassiveEventKind,
    pub event_key: Option<EventKeyView>,
    pub target_thread_id: Option<Seq<char>>,
    pub condition: Option<Seq<char>>,
    pub source: Option<Seq<char>>,
    pub summary: Seq<char>,
    pub payload_ref: Option<Seq<char>>,
    pub dedupe_key: Option<Seq<char>>,
}

impl View for PassiveEventInput {
    type V = PassiveEventInputView;

    open spec fn view(&self) -> PassiveEventInputView {
        PassiveEventInputView {
            kind: self.kind,
            event_key: opt_view(self.event_key),
            target_thread_id: opt_view(self.target_thread_id),
            condition: opt_view(self.condition),
            source: opt_view(self.source),
            summary: self.summary@,
            payload_ref: opt_view(self.payload_ref),
            dedupe_key: opt_view(self.dedupe_key),
        }
    }
}

impl Clone for PassiveEventInput {
    fn clone(&self) -> (r: Self)
        ensures
            r@ == self@,
    {
        PassiveEventInput {
            kind: self.kind,
            event_key: self.event_key.clone(),
            target_thread_id: self.target_thread_id.clone(),
            condition: self.condition.clone(),
            source: self.source.clone(),
            summary: self.summary.clone(),
            payload_ref: self.payload_ref.clone(),
            dedupe_key: self.dedupe_key.clone(),
        }
    }
}

/// A passive event with the key and the target it is matched by.
#[derive(Clone, Debug, PartialEq, Eq)]
pub struct RoutedPassiveEvent {
    pub kind: PassiveEventKind,
    pub event_key: EventKey,
    pub target_thread_id: Option<String>,
    pub input: PassiveEventInput,
}

/// What a [`RoutedPassiveEvent`] says.
#[verifier::ext_equal]
pub struct RoutedPassiveEventView {
    pub kind: PassiveEventKind,
    pub event_key: EventKeyView,
    pub target_thread_id: Option<Seq<char>>,
    pub input: PassiveEventInputView,
}

impl View for RoutedPassiveEvent {
    type V = RoutedPassiveEventView;

    open spec fn view(&self) -> RoutedPassiveEventView {
        RoutedPassiveEventView {
            kind: self.kind,
            event_key: self.event_key@,
            target_thread_id: opt_view(self.target_thread_id),
            input: self.input@,
        }
    }
}

/// A thread that an event woke.
#[derive(Debug, PartialEq, Eq)]
pub struct RunnableThread {
    pub thread_id: String,
    pub root_problem_id: String,
    pub wake_reason: String,
}

/// What a [`RunnableThread`] says.
#[verifier::ext_equal]
pub struct RunnableThreadView {
    pub thread_id: Seq<char>,
    pub root_problem_id: Seq<char>,
    pub wake_reason: Seq<char>,
}

impl View for RunnableThread {
    type V = RunnableThreadView;

    open spec fn view(&self) -> RunnableThreadView {
        RunnableThreadView {
            thread_id: self.thread_id@,
            root_problem_id: self.root_problem_id@,
            wake_reason: self.wake_reason@,
        }
    }
}

impl Clone for RunnableThread {
    fn clone(&self) -> (r: Self)
        ensures
            r@ == self@,
    {
        RunnableThread {
            thread_id: self.thread_id.clone(),
            root_problem_id: self.root_problem_id.clone(),
            wake_reason: self.wake_reason.clone(),
        }
    }
}

/// What an incoming event did.
#[derive(Clone, Debug, PartialEq, Eq)]
pub struct WakeDecision {
    pub event_id: String,
    pub event_key: EventKey,
    pub status: PassiveEventStatus,
    pub matched_handle_ids: Vec<String>,
    pub runnable_threads: Vec<RunnableThread>,
    pub inbox_item_id: Option<String>,
    pub duplicate_of_event_id: Option<String>,
}

/// What a [`WakeDecision`] says.
#[verifier::ext_equal]
pub struct WakeDecisionView {
    pub event_id: Seq<char>,
    pub event_key: EventKeyView,
    pub status: PassiveEventStatus,
    pub matched_handle_ids: Seq<Seq<char>>,
    pub runnable_threads: Seq<RunnableThreadView>,
    pub inbox_item_id: Option<Seq<char>>,
    pub duplicate_of_event_id: Option<Seq<char>>,
}

impl View for WakeDecision {
    type V = WakeDecisionView;

    open spec fn view(&self) -> WakeDecisionView {
        WakeDecisionView {
            event_id: self.event_id@,
            event_key: self.event_key@,
            status: self.status,
            matched_handle_ids: views(self.matched_handle_ids@),
            runnable_threads: views(self.runnable_threads@),
            inbox_item_id: opt_view(self.inbox_item_id),
            duplicate_of_event_id: opt_view(self.duplicate_of_event_id),
        }
    }
}

/// The answer to an incoming event.
#[derive(Clone, Debug, PartialEq, Eq)]
pub struct PassiveEventReceipt {
    pub event_id: String,
    pub status: PassiveEventStatus,
    pub matched_handle_ids: Vec<String>,
    pub inbox_item_id: Option<String>,
    pub duplicate_of_event_id: Option<String>,
    pub wake_decision: WakeDecision,
}

/// What a [`PassiveEventReceipt`] says.
#[verifier::ext_equal]
pub struct PassiveEventReceiptView {
    pub event_id: Seq<char>,
    pub status: PassiveEventStatus,
    pub matched_handle_ids: Seq<Seq<char>>,
    pub inbox_item_id: Option<Seq<char>>,
    pub duplicate_of_event_id: Option<Seq<char>>,
    pub wake_decision: WakeDecisionView,
}

impl View for PassiveEventReceipt {
    type V = PassiveEventReceiptView;

    open spec fn view(&self) -> PassiveEventReceiptView {
        PassiveEventReceiptView {
            event_id: self.event_id@,
            status: self.status,
            matched_handle_ids: views(self.matched_handle_ids@),
            inbox_item_id: opt_view(self.inbox_item_id),
            duplicate_of_event_id: opt_view(self.duplicate_of_event_id),
            wake_decision: self.wake_decision@,
        }
    }
}

/// A wait on a single passive handle.
#[derive(Clone, Debug, PartialEq, Eq)]
pub struct PassiveWait {
    pub thread_id: String,
    pub handle_id: String,
    pub wait_id: String,
    pub kind: PassiveEventKind,
    pub event_key: EventKey,
    pub status: WaitStatus,
}

/// What a [`PassiveWait`] says.
#[verifier::ext_equal]
pub struct PassiveWaitView {
    pub thread_id: Seq<char>,
    pub handle_id: Seq<char>,
    pub wait_id: Seq<char>,
    pub kind: PassiveEventKind,
    pub event_key: EventKeyView,
    pub status: WaitStatus,
}

impl View for PassiveWait {
    type V = PassiveWaitView;

    open spec fn view(&self) -> PassiveWaitView {
        PassiveWaitView {
            thread_id: self.thread_id@,
            handle_id: self.handle_id@,
            wait_id: self.wait_id@,
            kind: self.kind,
            event_key: self.event_key@,
            status: self.status,
        }
    }
}

/// One thing to wait for, as it is asked for.
#[derive(Clone, Debug, PartialEq, Eq)]
pub struct WaitSpec {
    pub kind: WaitSpecKind,
    pub event_key: Option<EventKey>,
    pub target_thread_id: Option<String>,
    pub condition: Option<String>,
    pub source: Option<String>,
    pub dedupe_key: Option<String>,
}

/// What a [`WaitSpec`] says.
#[verifier::ext_equal]
pub struct WaitSpecView {
    pub kind: WaitSpecKind,
    pub event_key: Option<EventKeyView>,
    pub target_thread_id: Option<Seq<char>>,
    pub condition: Option<Seq<char>>,
    pub source: Option<Seq<char>>,
    pub dedupe_key: Option<Seq<char>>,
}

impl View for WaitSpec {
    type V = WaitSpecView;

    open spec fn view(&self) -> WaitSpecView {
        WaitSpecView {
            kind: self.kind,
            event_key: opt_view(self.event_key),
            target_thread_id: opt_view(self.target_thread_id),
            condition: opt_view(self.condition),
            source: opt_view(self.source),
            dedupe_key: opt_view(self.dedupe_key),
        }
    }
}

/// A wait that was just parked.
#[derive(Clone, Debug, PartialEq, Eq)]
pub struct ParkedWait {
    pub thread_id: String,
    pub wait_id: String,
    pub handle_ids: Vec<String>,
    pub mode: WaitMode,
    pub status: WaitStatus,
}

/// What a [`ParkedWait`] says.
#[verifier::ext_equal]
pub struct ParkedWaitView {
    pub thread_id: Seq<char>,
    pub wait_id: Seq<char>,
    pub handle_ids: Seq<Seq<char>>,
    pub mode: WaitMode,
    pub status: WaitStatus,
}

impl View for ParkedWait {
    type V = ParkedWaitView;

    open spec fn view(&self) -> ParkedWaitView {
        ParkedWaitView {
            thread_id: self.thread_id@,
            wait_id: self.wait_id@,
            handle_ids: views(self.handle_ids@),
            mode: self.mode,
            status: self.status,
        }
    }
}

/// A handle and the wait that lists it.
#[derive(Clone, Debug, PartialEq, Eq)]
pub struct WaitHandleSnapshot {
    pub handle: IoHandle,
    pub wait: Option<ThreadWait>,
}

/// What a [`WaitHandleSnapshot`] says.
#[verifier::ext_equal]
pub struct WaitHandleSnapshotView {
    pub handle: IoHandleView,
    pub wait: Option<ThreadWaitView>,
}

impl View for WaitHandleSnapshot {
    type V = WaitHandleSnapshotView;

    open spec fn view(&self) -> WaitHandleSnapshotView {
        WaitHandleSnapshotView {
            handle: self.handle@,
            wait: opt_view(self.wait),
        }
    }
}

/// A ready handle that its thread took.
#[derive(Clone, Debug, PartialEq, Eq)]
pub struct ConsumedWait {
    pub thread_id: String,
    pub handle_id: String,
    pub wait_id: String,
    pub kind: IoHandleKind,
    pub target_thread_id: Option<String>,
    pub resolved_event_id: Option<String>,
    pub payload_ref: Option<String>,
    pub joined_thread: Option<JoinedThread>,
}

/// What a [`ConsumedWait`] says.
#[verifier::ext_equal]
pub struct ConsumedWaitView {
    pub thread_id: Seq<char>,
    pub handle_id: Seq<char>,
    pub wait_id: Seq<char>,
    pub kind: IoHandleKind,
    pub target_thread_id: Option<Seq<char>>,
    pub resolved_event_id: Option<Seq<char>>,
    pub payload_ref: Option<Seq<char>>,
    pub joined_thread: Option<JoinedThreadView>,
}

impl View for ConsumedWait {
    type V = ConsumedWaitView;

    open spec fn view(&self) -> ConsumedWaitView {
        ConsumedWaitView {
            thread_id: self.thread_id@,
            handle_id: self.handle_id@,
            wait_id: self.wait_id@,
            kind: self.kind,
            target_thread_id: opt_view(self.target_thread_id),
            resolved_event_id: opt_view(self.resolved_event_id),
            payload_ref: opt_view(self.payload_ref),
            joined_thread: opt_view(self.joined_thread),
        }
    }
}

/// A handle that its thread gave up.
#[derive(Clone, Debug, PartialEq, Eq)]
pub struct CancelledWait {
    pub thread_id: String,
    pub handle_id: String,
    pub wait_id: String,
    pub kind: IoHandleKind,
}

/// What a [`CancelledWait`] says.
#[verifier::ext_equal]
pub struct CancelledWaitView {
    pub thread_id: Seq<char>,
    pub handle_id: Seq<char>,
    pub wait_id: Seq<char>,
    pub kind: IoHandleKind,
}

impl View for CancelledWait {
    type V = CancelledWaitView;

    open spec fn view(&self) -> CancelledWaitView {
        CancelledWaitView {
            thread_id: self.thread_id@,
            handle_id: self.handle_id@,
            wait_id: self.wait_id@,
            kind: self.kind,
        }
    }
}

/// A request on waits.
#[derive(Clone, Debug, PartialEq, Eq)]
pub enum WaitCommand {
    Park { mode: WaitMode, reason: String, specs: Vec<WaitSpec> },
    Status { handle_id: String },
    Consume { handle_id: String },
    Cancel { handle_id: String, reason: String },
    Wake { event: PassiveEventInput },
}

/// What a [`WaitCommand`] asks.
#[verifier::ext_equal]
pub enum WaitCommandView {
    Park { mode: WaitMode, reason: Seq<char>, specs: Seq<WaitSpecView> },
    Status { handle_id: Seq<char> },
    Consume { handle_id: Seq<char> },
    Cancel { handle_id: Seq<char>, reason: Seq<char> },
    Wake { event: PassiveEventInputView },
}

impl View for WaitCommand {
    type V = WaitCommandView;

    open spec fn view(&self) -> WaitCommandView {
        match self {
            WaitCommand::Park { mode, reason, specs } => WaitCommandView::Park {
                mode: *mode,
                reason: reason@,
                specs: views(specs@),
            },
            WaitCommand::Status { handle_id } => WaitCommandView::Status { handle_id: handle_id@ },
            WaitCommand::Consume { handle_id } => WaitCommandView::Consume { handle_id: handle_id@ },
            WaitCommand::Cancel { handle_id, reason } => WaitCommandView::Cancel {
                handle_id: handle_id@,
                reason: reason@,
            },
            WaitCommand::Wake { event } => WaitCommandView::Wake { event: event@ },
        }
    }
}

impl WaitCommand {
    /// The word for the operation.
    pub fn op_name(&self) -> (r: &'static str)
        ensures
            r@ == (match self@ {
                WaitCommandView::Park { .. } => "park"@,
                WaitCommandView::Status { .. } => "status"@,
                WaitCommandView::Consume { .. } => "consume"@,
                WaitCommandView::Cancel { .. } => "cancel"@,
                WaitCommandView::Wake { .. } => "wake"@,
            }),
    {
        match self {
            WaitCommand::Park { .. } => "park",
            WaitCommand::Status { .. } => "status",
            WaitCommand::Consume { .. } => "consume",
            WaitCommand::Cancel { .. } => "cancel",
            WaitCommand::Wake { .. } => "wake",
        }
    }
}

/// The answer to a [`WaitCommand`].
#[derive(Clone, Debug, PartialEq, Eq)]
pub enum WaitResult {
    Parked { wait: ParkedWait },
    Status { snapshot: WaitHandleSnapshot },
    Consumed { consumed: ConsumedWait },
    Cancelled { cancelled: CancelledWait },
    Woke { receipt: PassiveEventReceipt },
}

/// What a [`WaitResult`] says.
#[verifier::ext_equal]
pub enum WaitResultView {
    Parked { wait: ParkedWaitView },
    Status { snapshot: WaitHandleSnapshotView },
    Consumed { consumed: ConsumedWaitView },
    Cancelled { cancelled: CancelledWaitView },
    Woke { receipt: PassiveEventReceiptView },
}

impl View for WaitResult {
    type V = WaitResultView;

    open spec fn view(&self) -> WaitResultView {
        match self {
            WaitResult::Parked { wait } => WaitResultView::Parked { wait: wait@ },
            WaitResult::Status { snapshot } => WaitResultView::Status { snapshot: snapshot@ },
            WaitResult::Consumed { consumed } => WaitResultView::Consumed { consumed: consumed@ },
            WaitResult::Cancelled { cancelled } => WaitResultView::Cancelled {
                cancelled: cancelled@,
            },
            WaitResult::Woke { receipt } => WaitResultView::Woke { receipt: receipt@ },
        }
    }
}

} // verus!
