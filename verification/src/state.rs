//! The state of a process: how it begins, its logs and its numbered identifiers.
use vstd::prelude::*;
use crate::clock::{now, Timestamp};
use crate::context::{RuntimeContext, RuntimeContextView};
use crate::entities::{Check, ClosureState, ClosureStateView, ContextFork, ContextForkView, Event, EventView, ExecutionResult, IoEvent, IoEventView, IoHandle, Problem, ProblemView, ProcessMetadata, ProcessMetadataView, Thread, ThreadView, Ticket};
use crate::error::{Outcome, QunuxError, QunuxErrorView, Result};
use crate::forest::{descends, is_descendant_or_self, rooted, unknown_problem};
use crate::ids::{numbered, numbered_id};
use crate::kinds::{ContextForkPolicy, IoEventKind, ProblemStatus, ThreadStatus};
use crate::strmap::StrMap;
use crate::text::{cat2, cat6, group_views, opt_view};

verus! {

broadcast use group_views;

pub const SCHEMA_VERSION: u32 = 8;

pub const DEFAULT_ROOT_PROBLEM_TITLE: &'static str = "Serve the user well in this Qunux process";

pub const DEFAULT_ROOT_PROBLEM_BODY: &'static str = r#"# Serve the user well in this Qunux process

## Problem

This Qunux process exists to help the user effectively, safely, and continuously for the lifetime of this Codex session. It is a headless-first Agent OS process: the TUI cockpit, chat transcript, shell, files, tools, timers, webhooks, and external systems are all world I/O surfaces around the same durable runtime state.

At process birth, Qunux creates exactly this root problem as ordinary PTRC state. Qunux does not pre-create a ticket, pre-classify the problem, create child problems, record results or checks, or decide whether the process should wait. The LLM agent reads this problem, the current world event, and the runtime frontier, then decides the next legal PTRC move.

This root problem is a lifecycle mission, not an initialization task. Do not close it just because the process is ready. When there is no concrete demand from the user or world, park the thread with `qunux.wait` for user input, timer, external signal, child completion, or another relevant wake event. Close this root only for an explicit shutdown/end-of-process request.

## Success Criteria

- Understand whether each world input is conversational, clarifying, actionable, background signal, or absent.
- For actionable work, use the normal problem -> ticket -> result -> check closure loop.
- For broad or risky work, split into child problems instead of pretending the root is one-go.
- For pure small talk, narrow meta questions, acknowledgements, or "wait for my next message", answer visibly in the current thread and then wait; do not create a routing child problem or spawn a child thread merely to handle conversation plumbing.
- For unclear input, ask a focused clarification or wait instead of inventing work.
- For no current demand, wait for user input, timer, external signal, child completion, or another relevant wake event.
- Readiness, initialization, or absence of current work are not success conditions for closing the root problem.
- Keep visible user replies separate from Qunux state mutation: assistant messages are output; Qunux tools update runtime state.
- Preserve useful preferences, context, and evidence when they help future work.
- Avoid false completion: success requires evidence, criteria mapping, stress testing, and explicit residual-risk review.
"#;

/// A refusal with the given words.
pub open spec fn refused(text: Seq<char>) -> QunuxErrorView {
    QunuxErrorView::InvalidState(text)
}

/// A refusal with the given words.
pub fn refuse(text: String) -> (r: QunuxError)
    ensures
        r@ == refused(text@),
{
    QunuxError::InvalidState(text)
}

/// The view of an optional string slice.
pub open spec fn opt_str(o: Option<&str>) -> Option<Seq<char>> {
    match o {
        Some(s) => Some(s@),
        None => None,
    }
}

fn opt_owned(o: Option<&str>) -> (r: Option<String>)
    ensures
        opt_view(r) == opt_str(o),
{
    match o {
        Some(s) => Some(s.to_owned()),
        None => None,
    }
}

impl ProblemView {
    /// A problem on which nothing has been done.
    pub open spec fn fresh(
        id: Seq<char>,
        title: Seq<char>,
        body: Seq<char>,
        owner_thread_id: Seq<char>,
        parent_id: Option<Seq<char>>,
        now: Timestamp,
    ) -> ProblemView {
        ProblemView {
            id,
            title,
            body,
            status: ProblemStatus::Todo,
            owner_thread_id,
            parent_id,
            created_from_ticket_id: None,
            created_from_ticket_mode: None,
            created_from_check_id: None,
            created_from_passive_event_id: None,
            created_from_inbox_item_id: None,
            created_from_user_task_kind: None,
            ticket_id: None,
            child_problem_ids: Seq::empty(),
            followup_problem_ids: Seq::empty(),
            result_ids: Seq::empty(),
            check_ids: Seq::empty(),
            created_at: now,
            updated_at: now,
        }
    }
}

impl Problem {
    /// A problem on which nothing has been done.
    pub(crate) fn fresh(
        id: &str,
        title: &str,
        body: &str,
        owner_thread_id: &str,
        parent_id: Option<String>,
        now: Timestamp,
    ) -> (r: Problem)
        ensures
            r@ == ProblemView::fresh(
                id@,
                title@,
                body@,
                owner_thread_id@,
                opt_view(parent_id),
                now,
            ),
    {
        Problem {
            id: id.to_owned(),
            title: title.to_owned(),
            body: body.to_owned(),
            status: ProblemStatus::Todo,
            owner_thread_id: owner_thread_id.to_owned(),
            parent_id,
            created_from_ticket_id: None,
            created_from_ticket_mode: None,
            created_from_check_id: None,
            created_from_passive_event_id: None,
            created_from_inbox_item_id: None,
            created_from_user_task_kind: None,
            ticket_id: None,
            child_problem_ids: Vec::new(),
            followup_problem_ids: Vec::new(),
            result_ids: Vec::new(),
            check_ids: Vec::new(),
            created_at: now,
            updated_at: now,
        }
    }
}

impl ClosureStateView {
    /// The state of a process that has just begun: one running thread on one open problem.
    pub open spec fn new_root(
        process_id: Seq<char>,
        main_thread_id: Seq<char>,
        actor_session_id: Option<Seq<char>>,
        title: Seq<char>,
        body: Seq<char>,
        now: Timestamp,
    ) -> ClosureStateView {
        ClosureStateView {
            schema_version: SCHEMA_VERSION,
            process_id,
            main_thread_id,
            process: ProcessMetadataView {
                id: process_id,
                root_actor_session_id: actor_session_id,
                main_thread_id,
                created_at: now,
                updated_at: now,
            },
            root_problem_id: "P000"@,
            next_thread_seq: 1,
            next_handle_seq: 0,
            next_wait_seq: 0,
            next_io_event_seq: 0,
            next_passive_event_seq: 0,
            next_inbox_item_seq: 0,
            next_problem_seq: 1,
            next_ticket_seq: 0,
            next_result_seq: 0,
            next_check_seq: 0,
            threads: Map::empty().insert(
                main_thread_id,
                ThreadView {
                    id: main_thread_id,
                    process_id,
                    parent_thread_id: None,
                    root_problem_id: "P000"@,
                    status: ThreadStatus::Running,
                    context_fork: ContextForkView {
                        policy: ContextForkPolicy::FullContext,
                        parent_thread_id: None,
                        parent_actor_session_id: None,
                        fork_turn_id: None,
                        bootstrap_instruction: "Root Qunux thread."@,
                        inherited_cwd: None,
                        inherited_model: None,
                        inherited_tools: Seq::empty(),
                    },
                    child_thread_ids: Seq::empty(),
                    created_from_problem_id: "P000"@,
                    created_from_ticket_id: None,
                    created_from_check_id: None,
                    actor_session_id,
                    codex_thread_id: actor_session_id,
                    joined_at: None,
                    created_at: now,
                    updated_at: now,
                },
            ),
            handles: Map::empty(),
            waits: Map::empty(),
            problems: Map::empty().insert(
                "P000"@,
                ProblemView::fresh("P000"@, title, body, main_thread_id, None, now),
            ),
            tickets: Map::empty(),
            results: Map::empty(),
            checks: Map::empty(),
            passive_events: Seq::empty(),
            inbox: Seq::empty(),
            io_events: Seq::empty(),
            events: seq![
                EventView {
                    kind: "process_created"@,
                    entity_id: "P000"@,
                    message: "Qunux closure process initialized"@,
                    actor_thread_id: main_thread_id,
                    actor_session_id,
                    created_at: now,
                },
            ],
        }
    }

    /// The state with one more entry in the log.
    pub open spec fn logged(
        self,
        ctx: RuntimeContextView,
        now: Timestamp,
        kind: Seq<char>,
        entity_id: Seq<char>,
        message: Seq<char>,
    ) -> ClosureStateView {
        ClosureStateView {
            events: self.events.push(
                EventView {
                    kind,
                    entity_id,
                    message,
                    actor_thread_id: ctx.thread_id,
                    actor_session_id: ctx.actor_session_id,
                    created_at: now,
                },
            ),
            ..self
        }
    }

    /// The identifier of the next entry in the I/O log.
    pub open spec fn fresh_io_event_id(self) -> Seq<char> {
        numbered("IO"@, self.next_io_event_seq as nat)
    }

    /// The state with one more entry in the I/O log.
    pub open spec fn io_logged(
        self,
        ctx: RuntimeContextView,
        now: Timestamp,
        kind: IoEventKind,
        handle_id: Option<Seq<char>>,
        thread_id: Option<Seq<char>>,
        message: Seq<char>,
    ) -> ClosureStateView {
        ClosureStateView {
            next_io_event_seq: (self.next_io_event_seq + 1) as u32,
            io_events: self.io_events.push(
                IoEventView {
                    id: self.fresh_io_event_id(),
                    kind,
                    handle_id,
                    thread_id,
                    message,
                    actor_thread_id: ctx.thread_id,
                    actor_session_id: ctx.actor_session_id,
                    created_at: now,
                },
            ),
            ..self
        }
    }

    /// The problem, if the current thread may change it: it owns the problem and works on a tree
    /// that holds it.
    pub open spec fn writable(self, ctx: RuntimeContextView, id: Seq<char>) -> Outcome<
        ProblemView,
    > {
        if !self.problems.contains_key(id) {
            Err(unknown_problem(id))
        } else if !self.threads.contains_key(ctx.thread_id) {
            Err(unknown_thread(ctx.thread_id))
        } else if self.problems[id].owner_thread_id != ctx.thread_id {
            Err(
                refused(
                    "thread "@ + ctx.thread_id + " cannot mutate problem "@ + id + " owned by "@
                        + self.problems[id].owner_thread_id,
                ),
            )
        } else {
            let thread = self.threads[ctx.thread_id];
            match descends(self.problems, id, thread.root_problem_id) {
                Err(e) => Err(e),
                Ok(true) => Ok(self.problems[id]),
                Ok(false) => Err(
                    refused(
                        "problem "@ + id + " is not inside thread "@ + thread.id
                            + " subtree rooted at "@ + thread.root_problem_id,
                    ),
                ),
            }
        }
    }
}

/// A thread that is not there.
pub open spec fn unknown_thread(id: Seq<char>) -> QunuxErrorView {
    refused("unknown thread "@ + id)
}

/// A ticket that is not there.
pub open spec fn unknown_ticket(id: Seq<char>) -> QunuxErrorView {
    refused("unknown ticket "@ + id)
}

/// A result that is not there.
pub open spec fn unknown_result(id: Seq<char>) -> QunuxErrorView {
    refused("unknown result "@ + id)
}

/// A check that is not there.
pub open spec fn unknown_check(id: Seq<char>) -> QunuxErrorView {
    refused("unknown check "@ + id)
}

/// A handle that is not there.
pub open spec fn unknown_handle(id: Seq<char>) -> QunuxErrorView {
    refused("unknown handle "@ + id)
}

/// A wait that is not there.
pub open spec fn unknown_wait(id: Seq<char>) -> QunuxErrorView {
    refused("unknown wait "@ + id)
}

impl ClosureState {
    /// Every map is in order.
    pub open spec fn wf(&self) -> bool {
        &&& self.threads.wf()
        &&& self.handles.wf()
        &&& self.waits.wf()
        &&& self.problems.wf()
        &&& self.tickets.wf()
        &&& self.results.wf()
        &&& self.checks.wf()
    }

    /// The state of a process that begins now.
    pub fn new_root(
        process_id: String,
        main_thread_id: String,
        actor_session_id: Option<String>,
        title: String,
        body: String,
    ) -> (r: Self)
        ensures
            r.wf(),
            exists|at: Timestamp|
                r@ == #[trigger] ClosureStateView::new_root(
                    process_id@,
                    main_thread_id@,
                    opt_view(actor_session_id),
                    title@,
                    body@,
                    at,
                ),
    {
        ClosureState::new_root_at(process_id, main_thread_id, actor_session_id, title, body, now())
    }

    /// The state of a process that begins at `now`.
    pub fn new_root_at(
        process_id: String,
        main_thread_id: String,
        actor_session_id: Option<String>,
        title: String,
        body: String,
        now: Timestamp,
    ) -> (r: Self)
        ensures
            r.wf(),
            r@ == ClosureStateView::new_root(
                process_id@,
                main_thread_id@,
                opt_view(actor_session_id),
                title@,
                body@,
                now,
            ),
    {
        let root_problem_id = "P000".to_owned();
        let process = ProcessMetadata {
            id: process_id.clone(),
            root_actor_session_id: actor_session_id.clone(),
            main_thread_id: main_thread_id.clone(),
            created_at: now,
            updated_at: now,
        };
        let root_thread = Thread {
            id: main_thread_id.clone(),
            process_id: process_id.clone(),
            parent_thread_id: None,
            root_problem_id: root_problem_id.clone(),
            status: ThreadStatus::Running,
            context_fork: ContextFork {
                policy: ContextForkPolicy::FullContext,
                parent_thread_id: None,
                parent_actor_session_id: None,
                fork_turn_id: None,
                bootstrap_instruction: "Root Qunux thread.".to_owned(),
                inherited_cwd: None,
                inherited_model: None,
                inherited_tools: Vec::new(),
            },
            child_thread_ids: Vec::new(),
            created_from_problem_id: root_problem_id.clone(),
            created_from_ticket_id: None,
            created_from_check_id: None,
            actor_session_id: actor_session_id.clone(),
            codex_thread_id: actor_session_id.clone(),
            joined_at: None,
            created_at: now,
            updated_at: now,
        };
        let mut threads: StrMap<Thread> = StrMap::new();
        threads.insert(main_thread_id.clone(), root_thread);
        let mut problems: StrMap<Problem> = StrMap::new();
        problems.insert(
            root_problem_id.clone(),
            Problem::fresh(
                root_problem_id.as_str(),
                title.as_str(),
                body.as_str(),
                main_thread_id.as_str(),
                None,
                now,
            ),
        );
        let mut events: Vec<Event> = Vec::new();
        events.push(
            Event {
                kind: "process_created".to_owned(),
                entity_id: "P000".to_owned(),
                message: "Qunux closure process initialized".to_owned(),
                actor_thread_id: main_thread_id.clone(),
                actor_session_id: actor_session_id.clone(),
                created_at: now,
            },
        );
        ClosureState {
            schema_version: SCHEMA_VERSION,
            process_id,
            main_thread_id,
            process,
            root_problem_id,
            next_thread_seq: 1,
            next_handle_seq: 0,
            next_wait_seq: 0,
            next_io_event_seq: 0,
            next_passive_event_seq: 0,
            next_inbox_item_seq: 0,
            next_problem_seq: 1,
            next_ticket_seq: 0,
            next_result_seq: 0,
            next_check_seq: 0,
            threads,
            handles: StrMap::new(),
            waits: StrMap::new(),
            problems,
            tickets: StrMap::new(),
            results: StrMap::new(),
            checks: StrMap::new(),
            passive_events: Vec::new(),
            inbox: Vec::new(),
            io_events: Vec::new(),
            events,
        }
    }

    /// Adds an entry to the log.
    pub(crate) fn event(
        &mut self,
        ctx: &RuntimeContext,
        now: Timestamp,
        kind: &str,
        entity_id: &str,
        message: &str,
    )
        requires
            old(self).wf(),
        ensures
            final(self).wf(),
            final(self)@ == old(self)@.logged(ctx@, now, kind@, entity_id@, message@),
    {
        self.events.push(
            Event {
                kind: kind.to_owned(),
                entity_id: entity_id.to_owned(),
                message: message.to_owned(),
                actor_thread_id: ctx.thread_id.clone(),
                actor_session_id: ctx.actor_session_id.clone(),
                created_at: now,
            },
        );
    }

    /// Adds an entry to the I/O log.
    pub(crate) fn io_event(
        &mut self,
        ctx: &RuntimeContext,
        now: Timestamp,
        kind: IoEventKind,
        handle_id: Option<&str>,
        thread_id: Option<&str>,
        message: &str,
    ) -> (r: String)
        requires
            old(self).wf(),
            old(self)@.next_io_event_seq < u32::MAX,
        ensures
            final(self).wf(),
            r@ == old(self)@.fresh_io_event_id(),
            final(self)@ == old(self)@.io_logged(
                ctx@,
                now,
                kind,
                opt_str(handle_id),
                opt_str(thread_id),
                message@,
            ),
    {
        let event_id = self.next_io_event_id();
        self.io_events.push(
            IoEvent {
                id: event_id.clone(),
                kind,
                handle_id: opt_owned(handle_id),
                thread_id: opt_owned(thread_id),
                message: message.to_owned(),
                actor_thread_id: ctx.thread_id.clone(),
                actor_session_id: ctx.actor_session_id.clone(),
                created_at: now,
            },
        );
        event_id
    }

    /// Takes the next problem identifier.
    pub(crate) fn next_problem_id(&mut self) -> (r: String)
        requires
            old(self).wf(),
            old(self)@.next_problem_seq < u32::MAX,
        ensures
            final(self).wf(),
            r@ == numbered("P"@, old(self)@.next_problem_seq as nat),
            final(self)@ == (ClosureStateView {
                next_problem_seq: (old(self)@.next_problem_seq + 1) as u32,
                ..old(self)@
            }),
    {
        let id = numbered_id("P", self.next_problem_seq);
        self.next_problem_seq = self.next_problem_seq + 1;
        id
    }

    /// Takes the next thread identifier.
    pub(crate) fn next_thread_id(&mut self) -> (r: String)
        requires
            old(self).wf(),
            old(self)@.next_thread_seq < u32::MAX,
        ensures
            final(self).wf(),
            r@ == numbered("QT"@, old(self)@.next_thread_seq as nat),
            final(self)@ == (ClosureStateView {
                next_thread_seq: (old(self)@.next_thread_seq + 1) as u32,
                ..old(self)@
            }),
    {
        let id = numbered_id("QT", self.next_thread_seq);
        self.next_thread_seq = self.next_thread_seq + 1;
        id
    }

    /// Takes the next handle identifier.
    pub(crate) fn next_handle_id(&mut self) -> (r: String)
        requires
            old(self).wf(),
            old(self)@.next_handle_seq < u32::MAX,
        ensures
            final(self).wf(),
            r@ == numbered("H"@, old(self)@.next_handle_seq as nat),
            final(self)@ == (ClosureStateView {
                next_handle_seq: (old(self)@.next_handle_seq + 1) as u32,
                ..old(self)@
            }),
    {
        let id = numbered_id("H", self.next_handle_seq);
        self.next_handle_seq = self.next_handle_seq + 1;
        id
    }

    /// Takes the next wait identifier.
    pub(crate) fn next_wait_id(&mut self) -> (r: String)
        requires
            old(self).wf(),
            old(self)@.next_wait_seq < u32::MAX,
        ensures
            final(self).wf(),
            r@ == numbered("W"@, old(self)@.next_wait_seq as nat),
            final(self)@ == (ClosureStateView {
                next_wait_seq: (old(self)@.next_wait_seq + 1) as u32,
                ..old(self)@
            }),
    {
        let id = numbered_id("W", self.next_wait_seq);
        self.next_wait_seq = self.next_wait_seq + 1;
        id
    }

    /// Takes the next io event identifier.
    pub(crate) fn next_io_event_id(&mut self) -> (r: String)
        requires
            old(self).wf(),
            old(self)@.next_io_event_seq < u32::MAX,
        ensures
            final(self).wf(),
            r@ == numbered("IO"@, old(self)@.next_io_event_seq as nat),
            final(self)@ == (ClosureStateView {
                next_io_event_seq: (old(self)@.next_io_event_seq + 1) as u32,
                ..old(self)@
            }),
    {
        let id = numbered_id("IO", self.next_io_event_seq);
        self.next_io_event_seq = self.next_io_event_seq + 1;
        id
    }

    /// Takes the next passive event identifier.
    pub(crate) fn next_passive_event_id(&mut self) -> (r: String)
        requires
            old(self).wf(),
            old(self)@.next_passive_event_seq < u32::MAX,
        ensures
            final(self).wf(),
            r@ == numbered("PE"@, old(self)@.next_passive_event_seq as nat),
            final(self)@ == (ClosureStateView {
                next_passive_event_seq: (old(self)@.next_passive_event_seq + 1) as u32,
                ..old(self)@
            }),
    {
        let id = numbered_id("PE", self.next_passive_event_seq);
        self.next_passive_event_seq = self.next_passive_event_seq + 1;
        id
    }

    /// Takes the next inbox item identifier.
    pub(crate) fn next_inbox_item_id(&mut self) -> (r: String)
        requires
            old(self).wf(),
            old(self)@.next_inbox_item_seq < u32::MAX,
        ensures
            final(self).wf(),
            r@ == numbered("IN"@, old(self)@.next_inbox_item_seq as nat),
            final(self)@ == (ClosureStateView {
                next_inbox_item_seq: (old(self)@.next_inbox_item_seq + 1) as u32,
                ..old(self)@
            }),
    {
        let id = numbered_id("IN", self.next_inbox_item_seq);
        self.next_inbox_item_seq = self.next_inbox_item_seq + 1;
        id
    }

    /// Takes the next ticket identifier.
    pub(crate) fn next_ticket_id(&mut self) -> (r: String)
        requires
            old(self).wf(),
            old(self)@.next_ticket_seq < u32::MAX,
        ensures
            final(self).wf(),
            r@ == numbered("T"@, old(self)@.next_ticket_seq as nat),
            final(self)@ == (ClosureStateView {
                next_ticket_seq: (old(self)@.next_ticket_seq + 1) as u32,
                ..old(self)@
            }),
    {
        let id = numbered_id("T", self.next_ticket_seq);
        self.next_ticket_seq = self.next_ticket_seq + 1;
        id
    }

    /// Takes the next result identifier.
    pub(crate) fn next_result_id(&mut self) -> (r: String)
        requires
            old(self).wf(),
            old(self)@.next_result_seq < u32::MAX,
        ensures
            final(self).wf(),
            r@ == numbered("R"@, old(self)@.next_result_seq as nat),
            final(self)@ == (ClosureStateView {
                next_result_seq: (old(self)@.next_result_seq + 1) as u32,
                ..old(self)@
            }),
    {
        let id = numbered_id("R", self.next_result_seq);
        self.next_result_seq = self.next_result_seq + 1;
        id
    }

    /// Takes the next check identifier.
    pub(crate) fn next_check_id(&mut self) -> (r: String)
        requires
            old(self).wf(),
            old(self)@.next_check_seq < u32::MAX,
        ensures
            final(self).wf(),
            r@ == numbered("C"@, old(self)@.next_check_seq as nat),
            final(self)@ == (ClosureStateView {
                next_check_seq: (old(self)@.next_check_seq + 1) as u32,
                ..old(self)@
            }),
    {
        let id = numbered_id("C", self.next_check_seq);
        self.next_check_seq = self.next_check_seq + 1;
        id
    }

    pub(crate) fn require_thread(&self, thread_id: &str) -> (r: Result<&Thread>)
        requires
            self.threads.wf(),
        ensures
            match r {
                Ok(x) => self@.threads.contains_key(thread_id@) && x@ == self@.threads[thread_id@],
                Err(e) => !self@.threads.contains_key(thread_id@) && e@ == unknown_thread(thread_id@),
            },
    {
        match self.threads.get(thread_id) {
            Some(x) => Ok(x),
            None => Err(refuse(cat2("unknown thread ", thread_id))),
        }
    }

    pub(crate) fn require_problem(&self, problem_id: &str) -> (r: Result<&Problem>)
        requires
            self.problems.wf(),
        ensures
            match r {
                Ok(x) => self@.problems.contains_key(problem_id@) && x@ == self@.problems[problem_id@],
                Err(e) => !self@.problems.contains_key(problem_id@) && e@ == unknown_problem(problem_id@),
            },
    {
        match self.problems.get(problem_id) {
            Some(x) => Ok(x),
            None => Err(refuse(cat2("unknown problem ", problem_id))),
        }
    }

    pub(crate) fn require_ticket(&self, ticket_id: &str) -> (r: Result<&Ticket>)
        requires
            self.tickets.wf(),
        ensures
            match r {
                Ok(x) => self@.tickets.contains_key(ticket_id@) && x@ == self@.tickets[ticket_id@],
                Err(e) => !self@.tickets.contains_key(ticket_id@) && e@ == unknown_ticket(ticket_id@),
            },
    {
        match self.tickets.get(ticket_id) {
            Some(x) => Ok(x),
            None => Err(refuse(cat2("unknown ticket ", ticket_id))),
        }
    }

    pub(crate) fn require_result(&self, result_id: &str) -> (r: Result<&ExecutionResult>)
        requires
            self.results.wf(),
        ensures
            match r {
                Ok(x) => self@.results.contains_key(result_id@) && x@ == self@.results[result_id@],
                Err(e) => !self@.results.contains_key(result_id@) && e@ == unknown_result(result_id@),
            },
    {
        match self.results.get(result_id) {
            Some(x) => Ok(x),
            None => Err(refuse(cat2("unknown result ", result_id))),
        }
    }

    pub(crate) fn require_check(&self, check_id: &str) -> (r: Result<&Check>)
        requires
            self.checks.wf(),
        ensures
            match r {
                Ok(x) => self@.checks.contains_key(check_id@) && x@ == self@.checks[check_id@],
                Err(e) => !self@.checks.contains_key(check_id@) && e@ == unknown_check(check_id@),
            },
    {
        match self.checks.get(check_id) {
            Some(x) => Ok(x),
            None => Err(refuse(cat2("unknown check ", check_id))),
        }
    }

    pub(crate) fn require_handle(&self, handle_id: &str) -> (r: Result<&IoHandle>)
        requires
            self.handles.wf(),
        ensures
            match r {
                Ok(x) => self@.handles.contains_key(handle_id@) && x@ == self@.handles[handle_id@],
                Err(e) => !self@.handles.contains_key(handle_id@) && e@ == unknown_handle(handle_id@),
            },
    {
        match self.handles.get(handle_id) {
            Some(x) => Ok(x),
            None => Err(refuse(cat2("unknown handle ", handle_id))),
        }
    }

    /// The thread that a context acts as.
    pub(crate) fn current_thread(&self, ctx: &RuntimeContext) -> (r: Result<&Thread>)
        requires
            self.threads.wf(),
        ensures
            match r {
                Ok(x) => self@.threads.contains_key(ctx@.thread_id) && x@
                    == self@.threads[ctx@.thread_id],
                Err(e) => !self@.threads.contains_key(ctx@.thread_id) && e@ == unknown_thread(
                    ctx@.thread_id,
                ),
            },
    {
        self.require_thread(ctx.thread_id.as_str())
    }

    /// The problem, if the current thread may change it.
    pub(crate) fn require_problem_writable(
        &self,
        ctx: &RuntimeContext,
        problem_id: &str,
    ) -> (r: Result<&Problem>)
        requires
            self.wf(),
            rooted(self@.problems),
        ensures
            match r {
                Ok(x) => self@.writable(ctx@, problem_id@) == Ok::<ProblemView, QunuxErrorView>(
                    x@,
                ),
                Err(e) => self@.writable(ctx@, problem_id@) == Err::<ProblemView, QunuxErrorView>(
                    e@,
                ),
            },
    {
        let problem = self.require_problem(problem_id)?;
        let thread = self.current_thread(ctx)?;
        if problem.owner_thread_id != ctx.thread_id {
            return Err(
                refuse(
                    cat6(
                        "thread ",
                        ctx.thread_id.as_str(),
                        " cannot mutate problem ",
                        problem_id,
                        " owned by ",
                        problem.owner_thread_id.as_str(),
                    ),
                ),
            );
        }
        match is_descendant_or_self(&self.problems, problem_id, thread.root_problem_id.as_str()) {
            Err(e) => Err(e),
            Ok(inside) => {
                if inside {
                    Ok(problem)
                } else {
                    Err(
                        refuse(
                            cat6(
                                "problem ",
                                problem_id,
                                " is not inside thread ",
                                thread.id.as_str(),
                                " subtree rooted at ",
                                thread.root_problem_id.as_str(),
                            ),
                        ),
                    )
                }
            },
        }
    }
}

} // verus!
