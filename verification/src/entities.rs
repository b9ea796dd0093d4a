//! The entities that a process holds.
use vstd::prelude::*;
use crate::clock::Timestamp;
use crate::kinds::{CheckStatus, ContextForkPolicy, IoEventKind, IoHandleKind, IoHandleStatus, PassiveEventKind, PassiveEventStatus, ProblemStatus, ThreadStatus, TicketChildMode, TicketClassification, TicketStatus, WaitMode, WaitStatus};
use crate::strmap::StrMap;
use crate::text::{clone_texts, opt_view, views};

verus! {

/// What a passive wait listens for and what a passive event announces.
#[derive(Debug, PartialEq, Eq)]
pub struct EventKey {
    pub kind: String,
    pub resource: Option<String>,
    pub source: Option<String>,
    pub target_thread_id: Option<String>,
}

/// What a [`EventKey`] says.
#[verifier::ext_equal]
pub struct EventKeyView {
    pub kind: Seq<char>,
    pub resource: Option<Seq<char>>,
    pub source: Option<Seq<char>>,
    pub target_thread_id: Option<Seq<char>>,
}

impl View for EventKey {
    type V = EventKeyView;

    open spec fn view(&self) -> EventKeyView {
        EventKeyView {
            kind: self.kind@,
            resource: opt_view(self.resource),
            source: opt_view(self.source),
            target_thread_id: opt_view(self.target_thread_id),
        }
    }
}

impl Clone for EventKey {
    fn clone(&self) -> (r: Self)
        ensures
            r@ == self@,
    {
        EventKey {
            kind: self.kind.clone(),
            resource: self.resource.clone(),
            source: self.source.clone(),
            target_thread_id: self.target_thread_id.clone(),
        }
    }
}

/// An event from outside the process: user input, a timer or an external signal.
#[derive(Debug, PartialEq, Eq)]
pub struct PassiveEvent {
    pub id: String,
    pub kind: PassiveEventKind,
    pub event_key: Option<EventKey>,
    pub status: PassiveEventStatus,
    pub target_thread_id: Option<String>,
    pub condition: Option<String>,
    pub source: Option<String>,
    pub summary: String,
    pub payload_ref: Option<String>,
    pub dedupe_key: Option<String>,
    pub matched_handle_ids: Vec<String>,
    pub created_at: Timestamp,
}

/// What a [`PassiveEvent`] says.
#[verifier::ext_equal]
pub struct PassiveEventView {
    pub id: Seq<char>,
    pub kind: PassiveEventKind,
    pub event_key: Option<EventKeyView>,
    pub status: PassiveEventStatus,
    pub target_thread_id: Option<Seq<char>>,
    pub condition: Option<Seq<char>>,
    pub source: Option<Seq<char>>,
    pub summary: Seq<char>,
    pub payload_ref: Option<Seq<char>>,
    pub dedupe_key: Option<Seq<char>>,
    pub matched_handle_ids: Seq<Seq<char>>,
    pub created_at: Timestamp,
}

impl View for PassiveEvent {
    type V = PassiveEventView;

    open spec fn view(&self) -> PassiveEventView {
        PassiveEventView {
            id: self.id@,
            kind: self.kind,
            event_key: opt_view(self.event_key),
            status: self.status,
            target_thread_id: opt_view(self.target_thread_id),
            condition: opt_view(self.condition),
            source: opt_view(self.source),
            summary: self.summary@,
            payload_ref: opt_view(self.payload_ref),
            dedupe_key: opt_view(self.dedupe_key),
            matched_handle_ids: views(self.matched_handle_ids@),
            created_at: self.created_at,
        }
    }
}

impl Clone for PassiveEvent {
    fn clone(&self) -> (r: Self)
        ensures
            r@ == self@,
    {
        PassiveEvent {
            id: self.id.clone(),
            kind: self.kind,
            event_key: self.event_key.clone(),
            status: self.status,
            target_thread_id: self.target_thread_id.clone(),
            condition: self.condition.clone(),
            source: self.source.clone(),
            summary: self.summary.clone(),
            payload_ref: self.payload_ref.clone(),
            dedupe_key: self.dedupe_key.clone(),
            matched_handle_ids: clone_texts(&self.matched_handle_ids),
            created_at: self.created_at,
        }
    }
}

/// A passive event that met no pending handle when it came in.
#[derive(Debug, PartialEq, Eq)]
pub struct InboxItem {
    pub id: String,
    pub passive_event_id: String,
    pub event_key: Option<EventKey>,
    pub target_thread_id: Option<String>,
    pub condition: Option<String>,
    pub source: Option<String>,
    pub summary: String,
    pub payload_ref: Option<String>,
    pub dedupe_key: Option<String>,
    pub status: PassiveEventStatus,
    pub created_at: Timestamp,
}

/// What a [`InboxItem`] says.
#[verifier::ext_equal]
pub struct InboxItemView {
    pub id: Seq<char>,
    pub passive_event_id: Seq<char>,
    pub event_key: Option<EventKeyView>,
    pub target_thread_id: Option<Seq<char>>,
    pub condition: Option<Seq<char>>,
    pub source: Option<Seq<char>>,
    pub summary: Seq<char>,
    pub payload_ref: Option<Seq<char>>,
    pub dedupe_key: Option<Seq<char>>,
    pub status: PassiveEventStatus,
    pub created_at: Timestamp,
}

impl View for InboxItem {
    type V = InboxItemView;

    open spec fn view(&self) -> InboxItemView {
        InboxItemView {
            id: self.id@,
            passive_event_id: self.passive_event_id@,
            event_key: opt_view(self.event_key),
            target_thread_id: opt_view(self.target_thread_id),
            condition: opt_view(self.condition),
            source: opt_view(self.source),
            summary: self.summary@,
            payload_ref: opt_view(self.payload_ref),
            dedupe_key: opt_view(self.dedupe_key),
            status: self.status,
            created_at: self.created_at,
        }
    }
}

impl Clone for InboxItem {
    fn clone(&self) -> (r: Self)
        ensures
            r@ == self@,
    {
        InboxItem {
            id: self.id.clone(),
            passive_event_id: self.passive_event_id.clone(),
            event_key: self.event_key.clone(),
            target_thread_id: self.target_thread_id.clone(),
            condition: self.condition.clone(),
            source: self.source.clone(),
            summary: self.summary.clone(),
            payload_ref: self.payload_ref.clone(),
            dedupe_key: self.dedupe_key.clone(),
            status: self.status,
            created_at: self.created_at,
        }
    }
}

/// One thing that a thread waits for.
#[derive(Debug, PartialEq, Eq)]
pub struct IoHandle {
    pub id: String,
    pub kind: IoHandleKind,
    pub owner_thread_id: String,
    pub target_thread_id: Option<String>,
    pub event_key: Option<EventKey>,
    pub condition: Option<String>,
    pub source: Option<String>,
    pub payload_ref: Option<String>,
    pub dedupe_key: Option<String>,
    pub resolved_event_id: Option<String>,
    pub status: IoHandleStatus,
    pub created_at: Timestamp,
    pub updated_at: Timestamp,
}

/// What a [`IoHandle`] says.
#[verifier::ext_equal]
pub struct IoHandleView {
    pub id: Seq<char>,
    pub kind: IoHandleKind,
    pub owner_thread_id: Seq<char>,
    pub target_thread_id: Option<Seq<char>>,
    pub event_key: Option<EventKeyView>,
    pub condition: Option<Seq<char>>,
    pub source: Option<Seq<char>>,
    pub payload_ref: Option<Seq<char>>,
    pub dedupe_key: Option<Seq<char>>,
    pub resolved_event_id: Option<Seq<char>>,
    pub status: IoHandleStatus,
    pub created_at: Timestamp,
    pub updated_at: Timestamp,
}

impl View for IoHandle {
    type V = IoHandleView;

    open spec fn view(&self) -> IoHandleView {
        IoHandleView {
            id: self.id@,
            kind: self.kind,
            owner_thread_id: self.owner_thread_id@,
            target_thread_id: opt_view(self.target_thread_id),
            event_key: opt_view(self.event_key),
            condition: opt_view(self.condition),
            source: opt_view(self.source),
            payload_ref: opt_view(self.payload_ref),
            dedupe_key: opt_view(self.dedupe_key),
            resolved_event_id: opt_view(self.resolved_event_id),
            status: self.status,
            created_at: self.created_at,
            updated_at: self.updated_at,
        }
    }
}

impl Clone for IoHandle {
    fn clone(&self) -> (r: Self)
        ensures
            r@ == self@,
    {
        IoHandle {
            id: self.id.clone(),
            kind: self.kind,
            owner_thread_id: self.owner_thread_id.clone(),
            target_thread_id: self.target_thread_id.clone(),
            event_key: self.event_key.clone(),
            condition: self.condition.clone(),
            source: self.source.clone(),
            payload_ref: self.payload_ref.clone(),
            dedupe_key: self.dedupe_key.clone(),
            resolved_event_id: self.resolved_event_id.clone(),
            status: self.status,
            created_at: self.created_at,
            updated_at: self.updated_at,
        }
    }
}

/// A thread parked on one or more handles.
#[derive(Debug, PartialEq, Eq)]
pub struct ThreadWait {
    pub id: String,
    pub thread_id: String,
    pub handle_ids: Vec<String>,
    pub mode: WaitMode,
    pub status: WaitStatus,
    pub created_at: Timestamp,
    pub updated_at: Timestamp,
}

/// What a [`ThreadWait`] says.
#[verifier::ext_equal]
pub struct ThreadWaitView {
    pub id: Seq<char>,
    pub thread_id: Seq<char>,
    pub handle_ids: Seq<Seq<char>>,
    pub mode: WaitMode,
    pub status: WaitStatus,
    pub created_at: Timestamp,
    pub updated_at: Timestamp,
}

impl View for ThreadWait {
    type V = ThreadWaitView;

    open spec fn view(&self) -> ThreadWaitView {
        ThreadWaitView {
            id: self.id@,
            thread_id: self.thread_id@,
            handle_ids: views(self.handle_ids@),
            mode: self.mode,
            status: self.status,
            created_at: self.created_at,
            updated_at: self.updated_at,
        }
    }
}

impl Clone for ThreadWait {
    fn clone(&self) -> (r: Self)
        ensures
            r@ == self@,
    {
        ThreadWait {
            id: self.id.clone(),
            thread_id: self.thread_id.clone(),
            handle_ids: clone_texts(&self.handle_ids),
            mode: self.mode,
            status: self.status,
            created_at: self.created_at,
            updated_at: self.updated_at,
        }
    }
}

/// An entry of the I/O log.
#[derive(Debug, PartialEq, Eq)]
pub struct IoEvent {
    pub id: String,
    pub kind: IoEventKind,
    pub handle_id: Option<String>,
    pub thread_id: Option<String>,
    pub message: String,
    pub actor_thread_id: String,
    pub actor_session_id: Option<String>,
    pub created_at: Timestamp,
}

/// What a [`IoEvent`] says.
#[verifier::ext_equal]
pub struct IoEventView {
    pub id: Seq<char>,
    pub kind: IoEventKind,
    pub handle_id: Option<Seq<char>>,
    pub thread_id: Option<Seq<char>>,
    pub message: Seq<char>,
    pub actor_thread_id: Seq<char>,
    pub actor_session_id: Option<Seq<char>>,
    pub created_at: Timestamp,
}

impl View for IoEvent {
    type V = IoEventView;

    open spec fn view(&self) -> IoEventView {
        IoEventView {
            id: self.id@,
            kind: self.kind,
            handle_id: opt_view(self.handle_id),
            thread_id: opt_view(self.thread_id),
            message: self.message@,
            actor_thread_id: self.actor_thread_id@,
            actor_session_id: opt_view(self.actor_session_id),
            created_at: self.created_at,
        }
    }
}

impl Clone for IoEvent {
    fn clone(&self) -> (r: Self)
        ensures
            r@ == self@,
    {
        IoEvent {
            id: self.id.clone(),
            kind: self.kind,
            handle_id: self.handle_id.clone(),
            thread_id: self.thread_id.clone(),
            message: self.message.clone(),
            actor_thread_id: self.actor_thread_id.clone(),
            actor_session_id: self.actor_session_id.clone(),
            created_at: self.created_at,
        }
    }
}

/// What a thread takes over from the thread that spawned it.
#[derive(Debug, PartialEq, Eq)]
pub struct ContextFork {
    pub policy: ContextForkPolicy,
    pub parent_thread_id: Option<String>,
    pub parent_actor_session_id: Option<String>,
    pub fork_turn_id: Option<String>,
    pub bootstrap_instruction: String,
    pub inherited_cwd: Option<String>,
    pub inherited_model: Option<String>,
    pub inherited_tools: Vec<String>,
}

/// What a [`ContextFork`] says.
#[verifier::ext_equal]
pub struct ContextForkView {
    pub policy: ContextForkPolicy,
    pub parent_thread_id: Option<Seq<char>>,
    pub parent_actor_session_id: Option<Seq<char>>,
    pub fork_turn_id: Option<Seq<char>>,
    pub bootstrap_instruction: Seq<char>,
    pub inherited_cwd: Option<Seq<char>>,
    pub inherited_model: Option<Seq<char>>,
    pub inherited_tools: Seq<Seq<char>>,
}

impl View for ContextFork {
    type V = ContextForkView;

    open spec fn view(&self) -> ContextForkView {
        ContextForkView {
            policy: self.policy,
            parent_thread_id: opt_view(self.parent_thread_id),
            parent_actor_session_id: opt_view(self.parent_actor_session_id),
            fork_turn_id: opt_view(self.fork_turn_id),
            bootstrap_instruction: self.bootstrap_instruction@,
            inherited_cwd: opt_view(self.inherited_cwd),
            inherited_model: opt_view(self.inherited_model),
            inherited_tools: views(self.inherited_tools@),
        }
    }
}

impl Clone for ContextFork {
    fn clone(&self) -> (r: Self)
        ensures
            r@ == self@,
    {
        ContextFork {
            policy: self.policy,
            parent_thread_id: self.parent_thread_id.clone(),
            parent_actor_session_id: self.parent_actor_session_id.clone(),
            fork_turn_id: self.fork_turn_id.clone(),
            bootstrap_instruction: self.bootstrap_instruction.clone(),
            inherited_cwd: self.inherited_cwd.clone(),
            inherited_model: self.inherited_model.clone(),
            inherited_tools: clone_texts(&self.inherited_tools),
        }
    }
}

/// A thread of the process, bound to the subtree of one problem.
#[derive(Debug, PartialEq, Eq)]
pub struct Thread {
    pub id: String,
    pub process_id: String,
    pub parent_thread_id: Option<String>,
    pub root_problem_id: String,
    pub status: ThreadStatus,
    pub context_fork: ContextFork,
    pub child_thread_ids: Vec<String>,
    pub created_from_problem_id: String,
    pub created_from_ticket_id: Option<String>,
    pub created_from_check_id: Option<String>,
    pub actor_session_id: Option<String>,
    pub codex_thread_id: Option<String>,
    pub joined_at: Option<Timestamp>,
    pub created_at: Timestamp,
    pub updated_at: Timestamp,
}

/// What a [`Thread`] says.
#[verifier::ext_equal]
pub struct ThreadView {
    pub id: Seq<char>,
    pub process_id: Seq<char>,
    pub parent_thread_id: Option<Seq<char>>,
    pub root_problem_id: Seq<char>,
    pub status: ThreadStatus,
    pub context_fork: ContextForkView,
    pub child_thread_ids: Seq<Seq<char>>,
    pub created_from_problem_id: Seq<char>,
    pub created_from_ticket_id: Option<Seq<char>>,
    pub created_from_check_id: Option<Seq<char>>,
    pub actor_session_id: Option<Seq<char>>,
    pub codex_thread_id: Option<Seq<char>>,
    pub joined_at: Option<Timestamp>,
    pub created_at: Timestamp,
    pub updated_at: Timestamp,
}

impl View for Thread {
    type V = ThreadView;

    open spec fn view(&self) -> ThreadView {
        ThreadView {
            id: self.id@,
            process_id: self.process_id@,
            parent_thread_id: opt_view(self.parent_thread_id),
            root_problem_id: self.root_problem_id@,
            status: self.status,
            context_fork: self.context_fork@,
            child_thread_ids: views(self.child_thread_ids@),
            created_from_problem_id: self.created_from_problem_id@,
            created_from_ticket_id: opt_view(self.created_from_ticket_id),
            created_from_check_id: opt_view(self.created_from_check_id),
            actor_session_id: opt_view(self.actor_session_id),
            codex_thread_id: opt_view(self.codex_thread_id),
            joined_at: self.joined_at,
            created_at: self.created_at,
            updated_at: self.updated_at,
        }
    }
}

impl Clone for Thread {
    fn clone(&self) -> (r: Self)
        ensures
            r@ == self@,
    {
        Thread {
            id: self.id.clone(),
            process_id: self.process_id.clone(),
            parent_thread_id: self.parent_thread_id.clone(),
            root_problem_id: self.root_problem_id.clone(),
            status: self.status,
            context_fork: self.context_fork.clone(),
            child_thread_ids: clone_texts(&self.child_thread_ids),
            created_from_problem_id: self.created_from_problem_id.clone(),
            created_from_ticket_id: self.created_from_ticket_id.clone(),
            created_from_check_id: self.created_from_check_id.clone(),
            actor_session_id: self.actor_session_id.clone(),
            codex_thread_id: self.codex_thread_id.clone(),
            joined_at: self.joined_at,
            created_at: self.created_at,
            updated_at: self.updated_at,
        }
    }
}

/// How the actor that runs a thread is reached.
#[derive(Clone, Debug, PartialEq, Eq)]
pub struct ThreadActorRoute {
    pub thread_id: String,
    pub is_current_thread: bool,
    pub actor_session_id: Option<String>,
    pub codex_thread_id: Option<String>,
}

/// What a [`ThreadActorRoute`] says.
#[verifier::ext_equal]
pub struct ThreadActorRouteView {
    pub thread_id: Seq<char>,
    pub is_current_thread: bool,
    pub actor_session_id: Option<Seq<char>>,
    pub codex_thread_id: Option<Seq<char>>,
}

impl View for ThreadActorRoute {
    type V = ThreadActorRouteView;

    open spec fn view(&self) -> ThreadActorRouteView {
        ThreadActorRouteView {
            thread_id: self.thread_id@,
            is_current_thread: self.is_current_thread,
            actor_session_id: opt_view(self.actor_session_id),
            codex_thread_id: opt_view(self.codex_thread_id),
        }
    }
}

/// A node of the problem tree.
#[derive(Debug, PartialEq, Eq)]
pub struct Problem {
    pub id: String,
    pub title: String,
    pub body: String,
    pub status: ProblemStatus,
    pub owner_thread_id: String,
    pub parent_id: Option<String>,
    pub created_from_ticket_id: Option<String>,
    pub created_from_ticket_mode: Option<TicketChildMode>,
    pub created_from_check_id: Option<String>,
    pub created_from_passive_event_id: Option<String>,
    pub created_from_inbox_item_id: Option<String>,
    pub created_from_user_task_kind: Option<PassiveEventKind>,
    pub ticket_id: Option<String>,
    pub child_problem_ids: Vec<String>,
    pub followup_problem_ids: Vec<String>,
    pub result_ids: Vec<String>,
    pub check_ids: Vec<String>,
    pub created_at: Timestamp,
    pub updated_at: Timestamp,
}

/// What a [`Problem`] says.
#[verifier::ext_equal]
pub struct ProblemView {
    pub id: Seq<char>,
    pub title: Seq<char>,
    pub body: Seq<char>,
    pub status: ProblemStatus,
    pub owner_thread_id: Seq<char>,
    pub parent_id: Option<Seq<char>>,
    pub created_from_ticket_id: Option<Seq<char>>,
    pub created_from_ticket_mode: Option<TicketChildMode>,
    pub created_from_check_id: Option<Seq<char>>,
    pub created_from_passive_event_id: Option<Seq<char>>,
    pub created_from_inbox_item_id: Option<Seq<char>>,
    pub created_from_user_task_kind: Option<PassiveEventKind>,
    pub ticket_id: Option<Seq<char>>,
    pub child_problem_ids: Seq<Seq<char>>,
    pub followup_problem_ids: Seq<Seq<char>>,
    pub result_ids: Seq<Seq<char>>,
    pub check_ids: Seq<Seq<char>>,
    pub created_at: Timestamp,
    pub updated_at: Timestamp,
}

impl View for Problem {
    type V = ProblemView;

    open spec fn view(&self) -> ProblemView {
        ProblemView {
            id: self.id@,
            title: self.title@,
            body: self.body@,
            status: self.status,
            owner_thread_id: self.owner_thread_id@,
            parent_id: opt_view(self.parent_id),
            created_from_ticket_id: opt_view(self.created_from_ticket_id),
            created_from_ticket_mode: self.created_from_ticket_mode,
            created_from_check_id: opt_view(self.created_from_check_id),
            created_from_passive_event_id: opt_view(self.created_from_passive_event_id),
            created_from_inbox_item_id: opt_view(self.created_from_inbox_item_id),
            created_from_user_task_kind: self.created_from_user_task_kind,
            ticket_id: opt_view(self.ticket_id),
            child_problem_ids: views(self.child_problem_ids@),
            followup_problem_ids: views(self.followup_problem_ids@),
            result_ids: views(self.result_ids@),
            check_ids: views(self.check_ids@),
            created_at: self.created_at,
            updated_at: self.updated_at,
        }
    }
}

impl Clone for Problem {
    fn clone(&self) -> (r: Self)
        ensures
            r@ == self@,
    {
        Problem {
            id: self.id.clone(),
            title: self.title.clone(),
            body: self.body.clone(),
            status: self.status,
            owner_thread_id: self.owner_thread_id.clone(),
            parent_id: self.parent_id.clone(),
            created_from_ticket_id: self.created_from_ticket_id.clone(),
            created_from_ticket_mode: self.created_from_ticket_mode,
            created_from_check_id: self.created_from_check_id.clone(),
            created_from_passive_event_id: self.created_from_passive_event_id.clone(),
            created_from_inbox_item_id: self.created_from_inbox_item_id.clone(),
            created_from_user_task_kind: self.created_from_user_task_kind,
            ticket_id: self.ticket_id.clone(),
            child_problem_ids: clone_texts(&self.child_problem_ids),
            followup_problem_ids: clone_texts(&self.followup_problem_ids),
            result_ids: clone_texts(&self.result_ids),
            check_ids: clone_texts(&self.check_ids),
            created_at: self.created_at,
            updated_at: self.updated_at,
        }
    }
}

/// The one solution ticket of a problem.
#[derive(Debug, PartialEq, Eq)]
pub struct Ticket {
    pub id: String,
    pub problem_id: String,
    pub title: String,
    pub body: String,
    pub status: TicketStatus,
    pub classification: Option<TicketClassification>,
    pub classification_reason: Option<String>,
    pub result_id: Option<String>,
    pub created_at: Timestamp,
    pub updated_at: Timestamp,
}

/// What a [`Ticket`] says.
#[verifier::ext_equal]
pub struct TicketView {
    pub id: Seq<char>,
    pub problem_id: Seq<char>,
    pub title: Seq<char>,
    pub body: Seq<char>,
    pub status: TicketStatus,
    pub classification: Option<TicketClassification>,
    pub classification_reason: Option<Seq<char>>,
    pub result_id: Option<Seq<char>>,
    pub created_at: Timestamp,
    pub updated_at: Timestamp,
}

impl View for Ticket {
    type V = TicketView;

    open spec fn view(&self) -> TicketView {
        TicketView {
            id: self.id@,
            problem_id: self.problem_id@,
            title: self.title@,
            body: self.body@,
            status: self.status,
            classification: self.classification,
            classification_reason: opt_view(self.classification_reason),
            result_id: opt_view(self.result_id),
            created_at: self.created_at,
            updated_at: self.updated_at,
        }
    }
}

impl Clone for Ticket {
    fn clone(&self) -> (r: Self)
        ensures
            r@ == self@,
    {
        Ticket {
            id: self.id.clone(),
            problem_id: self.problem_id.clone(),
            title: self.title.clone(),
            body: self.body.clone(),
            status: self.status,
            classification: self.classification,
            classification_reason: self.classification_reason.clone(),
            result_id: self.result_id.clone(),
            created_at: self.created_at,
            updated_at: self.updated_at,
        }
    }
}

/// What working a ticket gave.
#[derive(Debug, PartialEq, Eq)]
pub struct ExecutionResult {
    pub id: String,
    pub ticket_id: String,
    pub problem_id: String,
    pub title: String,
    pub body: String,
    pub created_at: Timestamp,
}

/// What a [`ExecutionResult`] says.
#[verifier::ext_equal]
pub struct ExecutionResultView {
    pub id: Seq<char>,
    pub ticket_id: Seq<char>,
    pub problem_id: Seq<char>,
    pub title: Seq<char>,
    pub body: Seq<char>,
    pub created_at: Timestamp,
}

impl View for ExecutionResult {
    type V = ExecutionResultView;

    open spec fn view(&self) -> ExecutionResultView {
        ExecutionResultView {
            id: self.id@,
            ticket_id: self.ticket_id@,
            problem_id: self.problem_id@,
            title: self.title@,
            body: self.body@,
            created_at: self.created_at,
        }
    }
}

impl Clone for ExecutionResult {
    fn clone(&self) -> (r: Self)
        ensures
            r@ == self@,
    {
        ExecutionResult {
            id: self.id.clone(),
            ticket_id: self.ticket_id.clone(),
            problem_id: self.problem_id.clone(),
            title: self.title.clone(),
            body: self.body.clone(),
            created_at: self.created_at,
        }
    }
}

/// A judgement on the recorded results of a problem.
#[derive(Debug, PartialEq, Eq)]
pub struct Check {
    pub id: String,
    pub problem_id: String,
    pub status: CheckStatus,
    pub title: String,
    pub body: String,
    pub result_ids: Vec<String>,
    pub followup_problem_id: Option<String>,
    pub created_at: Timestamp,
}

/// What a [`Check`] says.
#[verifier::ext_equal]
pub struct CheckView {
    pub id: Seq<char>,
    pub problem_id: Seq<char>,
    pub status: CheckStatus,
    pub title: Seq<char>,
    pub body: Seq<char>,
    pub result_ids: Seq<Seq<char>>,
    pub followup_problem_id: Option<Seq<char>>,
    pub created_at: Timestamp,
}

impl View for Check {
    type V = CheckView;

    open spec fn view(&self) -> CheckView {
        CheckView {
            id: self.id@,
            problem_id: self.problem_id@,
            status: self.status,
            title: self.title@,
            body: self.body@,
            result_ids: views(self.result_ids@),
            followup_problem_id: opt_view(self.followup_problem_id),
            created_at: self.created_at,
        }
    }
}

impl Clone for Check {
    fn clone(&self) -> (r: Self)
        ensures
            r@ == self@,
    {
        Check {
            id: self.id.clone(),
            problem_id: self.problem_id.clone(),
            status: self.status,
            title: self.title.clone(),
            body: self.body.clone(),
            result_ids: clone_texts(&self.result_ids),
            followup_problem_id: self.followup_problem_id.clone(),
            created_at: self.created_at,
        }
    }
}

/// A problem made from an inbox item.
#[derive(Clone, Debug, PartialEq, Eq)]
pub struct UserTaskProblem {
    pub problem_id: String,
    pub parent_problem_id: String,
    pub inbox_item_id: String,
    pub passive_event_id: String,
    pub source_kind: PassiveEventKind,
}

/// What a [`UserTaskProblem`] says.
#[verifier::ext_equal]
pub struct UserTaskProblemView {
    pub problem_id: Seq<char>,
    pub parent_problem_id: Seq<char>,
    pub inbox_item_id: Seq<char>,
    pub passive_event_id: Seq<char>,
    pub source_kind: PassiveEventKind,
}

impl View for UserTaskProblem {
    type V = UserTaskProblemView;

    open spec fn view(&self) -> UserTaskProblemView {
        UserTaskProblemView {
            problem_id: self.problem_id@,
            parent_problem_id: self.parent_problem_id@,
            inbox_item_id: self.inbox_item_id@,
            passive_event_id: self.passive_event_id@,
            source_kind: self.source_kind,
        }
    }
}

/// A problem made from an inbox item, with its first ticket.
#[derive(Clone, Debug, PartialEq, Eq)]
pub struct ScaffoldedTask {
    pub problem_id: String,
    pub parent_problem_id: String,
    pub ticket_id: String,
    pub inbox_item_id: Option<String>,
    pub passive_event_id: Option<String>,
    pub source_kind: Option<PassiveEventKind>,
}

/// What a [`ScaffoldedTask`] says.
#[verifier::ext_equal]
pub struct ScaffoldedTaskView {
    pub problem_id: Seq<char>,
    pub parent_problem_id: Seq<char>,
    pub ticket_id: Seq<char>,
    pub inbox_item_id: Option<Seq<char>>,
    pub passive_event_id: Option<Seq<char>>,
    pub source_kind: Option<PassiveEventKind>,
}

impl View for ScaffoldedTask {
    type V = ScaffoldedTaskView;

    open spec fn view(&self) -> ScaffoldedTaskView {
        ScaffoldedTaskView {
            problem_id: self.problem_id@,
            parent_problem_id: self.parent_problem_id@,
            ticket_id: self.ticket_id@,
            inbox_item_id: opt_view(self.inbox_item_id),
            passive_event_id: opt_view(self.passive_event_id),
            source_kind: self.source_kind,
        }
    }
}

/// An entry of the process log.
#[derive(Debug, PartialEq, Eq)]
pub struct Event {
    pub kind: String,
    pub entity_id: String,
    pub message: String,
    pub actor_thread_id: String,
    pub actor_session_id: Option<String>,
    pub created_at: Timestamp,
}

/// What a [`Event`] says.
#[verifier::ext_equal]
pub struct EventView {
    pub kind: Seq<char>,
    pub entity_id: Seq<char>,
    pub message: Seq<char>,
    pub actor_thread_id: Seq<char>,
    pub actor_session_id: Option<Seq<char>>,
    pub created_at: Timestamp,
}

impl View for Event {
    type V = EventView;

    open spec fn view(&self) -> EventView {
        EventView {
            kind: self.kind@,
            entity_id: self.entity_id@,
            message: self.message@,
            actor_thread_id: self.actor_thread_id@,
            actor_session_id: opt_view(self.actor_session_id),
            created_at: self.created_at,
        }
    }
}

impl Clone for Event {
    fn clone(&self) -> (r: Self)
        ensures
            r@ == self@,
    {
        Event {
            kind: self.kind.clone(),
            entity_id: self.entity_id.clone(),
            message: self.message.clone(),
            actor_thread_id: self.actor_thread_id.clone(),
            actor_session_id: self.actor_session_id.clone(),
            created_at: self.created_at,
        }
    }
}

/// What identifies the process.
#[derive(Debug, PartialEq, Eq)]
pub struct ProcessMetadata {
    pub id: String,
    pub root_actor_session_id: Option<String>,
    pub main_thread_id: String,
    pub created_at: Timestamp,
    pub updated_at: Timestamp,
}

/// What a [`ProcessMetadata`] says.
#[verifier::ext_equal]
pub struct ProcessMetadataView {
    pub id: Seq<char>,
    pub root_actor_session_id: Option<Seq<char>>,
    pub main_thread_id: Seq<char>,
    pub created_at: Timestamp,
    pub updated_at: Timestamp,
}

impl View for ProcessMetadata {
    type V = ProcessMetadataView;

    open spec fn view(&self) -> ProcessMetadataView {
        ProcessMetadataView {
            id: self.id@,
            root_actor_session_id: opt_view(self.root_actor_session_id),
            main_thread_id: self.main_thread_id@,
            created_at: self.created_at,
            updated_at: self.updated_at,
        }
    }
}

impl Clone for ProcessMetadata {
    fn clone(&self) -> (r: Self)
        ensures
            r@ == self@,
    {
        ProcessMetadata {
            id: self.id.clone(),
            root_actor_session_id: self.root_actor_session_id.clone(),
            main_thread_id: self.main_thread_id.clone(),
            created_at: self.created_at,
            updated_at: self.updated_at,
        }
    }
}

/// The whole durable state of a process.
#[derive(Clone, Debug, PartialEq, Eq)]
pub struct ClosureState {
    pub schema_version: u32,
    pub process_id: String,
    pub main_thread_id: String,
    pub process: ProcessMetadata,
    pub root_problem_id: String,
    pub next_thread_seq: u32,
    pub next_handle_seq: u32,
    pub next_wait_seq: u32,
    pub next_io_event_seq: u32,
    pub next_passive_event_seq: u32,
    pub next_inbox_item_seq: u32,
    pub next_problem_seq: u32,
    pub next_ticket_seq: u32,
    pub next_result_seq: u32,
    pub next_check_seq: u32,
    pub threads: StrMap<Thread>,
    pub handles: StrMap<IoHandle>,
    pub waits: StrMap<ThreadWait>,
    pub problems: StrMap<Problem>,
    pub tickets: StrMap<Ticket>,
    pub results: StrMap<ExecutionResult>,
    pub checks: StrMap<Check>,
    pub passive_events: Vec<PassiveEvent>,
    pub inbox: Vec<InboxItem>,
    pub io_events: Vec<IoEvent>,
    pub events: Vec<Event>,
}

/// What a [`ClosureState`] says.
#[verifier::ext_equal]
pub struct ClosureStateView {
    pub schema_version: u32,
    pub process_id: Seq<char>,
    pub main_thread_id: Seq<char>,
    pub process: ProcessMetadataView,
    pub root_problem_id: Seq<char>,
    pub next_thread_seq: u32,
    pub next_handle_seq: u32,
    pub next_wait_seq: u32,
    pub next_io_event_seq: u32,
    pub next_passive_event_seq: u32,
    pub next_inbox_item_seq: u32,
    pub next_problem_seq: u32,
    pub next_ticket_seq: u32,
    pub next_result_seq: u32,
    pub next_check_seq: u32,
    pub threads: Map<Seq<char>, ThreadView>,
    pub handles: Map<Seq<char>, IoHandleView>,
    pub waits: Map<Seq<char>, ThreadWaitView>,
    pub problems: Map<Seq<char>, ProblemView>,
    pub tickets: Map<Seq<char>, TicketView>,
    pub results: Map<Seq<char>, ExecutionResultView>,
    pub checks: Map<Seq<char>, CheckView>,
    pub passive_events: Seq<PassiveEventView>,
    pub inbox: Seq<InboxItemView>,
    pub io_events: Seq<IoEventView>,
    pub events: Seq<EventView>,
}

impl View for ClosureState {
    type V = ClosureStateView;

    open spec fn view(&self) -> ClosureStateView {
        ClosureStateView {
            schema_version: self.schema_version,
            process_id: self.process_id@,
            main_thread_id: self.main_thread_id@,
            process: self.process@,
            root_problem_id: self.root_problem_id@,
            next_thread_seq: self.next_thread_seq,
            next_handle_seq: self.next_handle_seq,
            next_wait_seq: self.next_wait_seq,
            next_io_event_seq: self.next_io_event_seq,
            next_passive_event_seq: self.next_passive_event_seq,
            next_inbox_item_seq: self.next_inbox_item_seq,
            next_problem_seq: self.next_problem_seq,
            next_ticket_seq: self.next_ticket_seq,
            next_result_seq: self.next_result_seq,
            next_check_seq: self.next_check_seq,
            threads: self.threads@,
            handles: self.handles@,
            waits: self.waits@,
            problems: self.problems@,
            tickets: self.tickets@,
            results: self.results@,
            checks: self.checks@,
            passive_events: views(self.passive_events@),
            inbox: views(self.inbox@),
            io_events: views(self.io_events@),
            events: views(self.events@),
        }
    }
}

} // verus!
