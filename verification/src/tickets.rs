//! Problems, tickets, results and checks: the loop by which a problem is closed.
use vstd::prelude::*;
use crate::clock::Timestamp;
use crate::closing::{fault_of, Fault};
use crate::context::{RuntimeContext, RuntimeContextView};
use crate::entities::{Check, CheckView, ClosureState, ClosureStateView, ExecutionResult, ExecutionResultView, Problem, ProblemView, ScaffoldedTask, ScaffoldedTaskView, Ticket, TicketView};
use crate::error::{outcome, Outcome, QunuxErrorView, Result};
use crate::forest::{rooted, unknown_problem};
use crate::ids::{numbered, numbered_id};
use crate::kinds::{CheckStatus, EntityKind, ProblemStatus, ThreadStatus, TicketChildMode, TicketClassification, TicketStatus};
use crate::soundness::law_user_task_created_sound;
use crate::state::{refuse, refused, unknown_result, unknown_thread, unknown_ticket};
use crate::text::{cat2, cat3, cat4, cat6, group_views, join, joined, opt_view, str_eq, views};
use crate::validation::first_fault;

verus! {

broadcast use group_views;

/// The title of a root problem that was never given one.
pub const LEGACY_DEFAULT_ROOT_PROBLEM_TITLE: &'static str = "Qunux root task";

/// How an optional classification is shown.
pub open spec fn classification_shown(c: Option<TicketClassification>) -> Seq<char> {
    match c {
        Some(c) => "Some("@ + c.name_view() + ")"@,
        None => "None"@,
    }
}

pub(crate) fn show_classification(c: Option<TicketClassification>) -> (r: String)
    ensures
        r@ == classification_shown(c),
{
    match c {
        Some(c) => cat3("Some(", c.name(), ")"),
        None => "None".to_owned(),
    }
}

impl ProblemView {
    /// Nothing has been done on the problem.
    pub open spec fn is_pristine(self) -> bool {
        &&& self.status == ProblemStatus::Todo
        &&& self.ticket_id is None
        &&& self.child_problem_ids.len() == 0
        &&& self.followup_problem_ids.len() == 0
        &&& self.result_ids.len() == 0
        &&& self.check_ids.len() == 0
    }
}

fn is_pristine(problem: &Problem) -> (r: bool)
    ensures
        r == problem@.is_pristine(),
{
    problem.status == ProblemStatus::Todo && problem.ticket_id.is_none()
        && problem.child_problem_ids.is_empty() && problem.followup_problem_ids.is_empty()
        && problem.result_ids.is_empty() && problem.check_ids.is_empty()
}

/// The given text, if there is one, else the one that stands.
pub open spec fn or_else(new: Option<Seq<char>>, standing: Seq<char>) -> Seq<char> {
    match new {
        Some(text) => text,
        None => standing,
    }
}

impl ClosureStateView {
    /// The root problem gets its title and its body while nothing has been done on it.
    pub open spec fn root_initialized(
        self,
        ctx: RuntimeContextView,
        now: Timestamp,
        title: Option<Seq<char>>,
        body: Option<Seq<char>>,
    ) -> (ClosureStateView, Outcome<()>) {
        let id = self.root_problem_id;
        if title is None && body is None {
            (self, Ok(()))
        } else if !self.problems.contains_key(id) {
            (self, Err(unknown_problem(id)))
        } else if !self.problems[id].is_pristine() {
            (self, Ok(()))
        } else {
            (
                ClosureStateView {
                    problems: self.problems.insert(
                        id,
                        ProblemView {
                            title: or_else(title, self.problems[id].title),
                            body: or_else(body, self.problems[id].body),
                            updated_at: now,
                            ..self.problems[id]
                        },
                    ),
                    ..self
                }.logged(
                    ctx,
                    now,
                    "root_problem_initialized"@,
                    id,
                    "root problem content initialized"@,
                ),
                Ok(()),
            )
        }
    }

    /// A root problem that was never given a title gets the current one while nothing has been
    /// done on it.
    pub open spec fn root_upgraded(
        self,
        ctx: RuntimeContextView,
        now: Timestamp,
        title: Seq<char>,
        body: Seq<char>,
    ) -> (ClosureStateView, Outcome<()>) {
        let id = self.root_problem_id;
        if !self.problems.contains_key(id) {
            (self, Err(unknown_problem(id)))
        } else if !self.problems[id].is_pristine() || self.problems[id].title
            != "Qunux root task"@ {
            (self, Ok(()))
        } else {
            (
                ClosureStateView {
                    problems: self.problems.insert(
                        id,
                        ProblemView { title, body, updated_at: now, ..self.problems[id] },
                    ),
                    ..self
                }.logged(
                    ctx,
                    now,
                    "root_problem_upgraded"@,
                    id,
                    "legacy pristine root problem upgraded to process mission"@,
                ),
                Ok(()),
            )
        }
    }

    /// Why a ticket cannot give a child problem.
    pub open spec fn child_mode_fault(
        self,
        parent_id: Seq<char>,
        ticket_id: Seq<char>,
        mode: TicketChildMode,
    ) -> Fault {
        let ticket = self.tickets[ticket_id];
        match mode {
            TicketChildMode::Split => if ticket.classification != Some(
                TicketClassification::Split,
            ) {
                Some(refused("ticket "@ + ticket_id + " is not classified as split"@))
            } else if ticket.status != TicketStatus::Splitting {
                Some(
                    refused(
                        "ticket "@ + ticket_id
                            + " must be splitting before creating split child problems"@,
                    ),
                )
            } else {
                None
            },
            TicketChildMode::Spawn => if self.problems[parent_id].status
                != ProblemStatus::Doing {
                Some(
                    refused(
                        "problem "@ + parent_id
                            + " must be doing before spawning runtime child problems"@,
                    ),
                )
            } else if ticket.classification != Some(TicketClassification::OneGo) {
                Some(refused("ticket "@ + ticket_id + " is not classified as one_go"@))
            } else if ticket.status != TicketStatus::Executing {
                Some(
                    refused(
                        "ticket "@ + ticket_id
                            + " must be executing before spawning runtime child problems"@,
                    ),
                )
            } else {
                None
            },
        }
    }

    /// A child problem comes out of a ticket of its parent.
    pub open spec fn child_created(
        self,
        ctx: RuntimeContextView,
        now: Timestamp,
        parent_id: Seq<char>,
        ticket_id: Seq<char>,
        mode: TicketChildMode,
        title: Seq<char>,
        body: Seq<char>,
    ) -> (ClosureStateView, Outcome<Seq<char>>) {
        match self.writable(ctx, parent_id) {
            Err(e) => (self, Err(e)),
            Ok(_) => if !self.tickets.contains_key(ticket_id) {
                (self, Err(unknown_ticket(ticket_id)))
            } else if self.tickets[ticket_id].problem_id != parent_id {
                (
                    self,
                    Err(
                        refused(
                            "ticket "@ + ticket_id + " does not belong to problem "@ + parent_id,
                        ),
                    ),
                )
            } else {
                match self.child_mode_fault(parent_id, ticket_id, mode) {
                    Some(e) => (self, Err(e)),
                    None => {
                        let problem_id = self.fresh_problem_id();
                        (
                            self.with_child_problem(
                                now,
                                parent_id,
                                ProblemView {
                                    created_from_ticket_id: Some(ticket_id),
                                    created_from_ticket_mode: Some(mode),
                                    ..ProblemView::fresh(
                                        problem_id,
                                        title,
                                        body,
                                        ctx.thread_id,
                                        Some(parent_id),
                                        now,
                                    )
                                },
                            ).logged(
                                ctx,
                                now,
                                "problem_created"@,
                                problem_id,
                                "created from "@ + mode.name_view() + " ticket "@ + ticket_id,
                            ),
                            Ok(problem_id),
                        )
                    },
                }
            },
        }
    }

    /// The identifier of the next ticket.
    pub open spec fn fresh_ticket_id(self) -> Seq<char> {
        numbered("T"@, self.next_ticket_seq as nat)
    }

    /// A problem gets its one ticket.
    pub open spec fn ticket_created(
        self,
        ctx: RuntimeContextView,
        now: Timestamp,
        problem_id: Seq<char>,
        title: Seq<char>,
        body: Seq<char>,
    ) -> (ClosureStateView, Outcome<Seq<char>>) {
        match self.writable(ctx, problem_id) {
            Err(e) => (self, Err(e)),
            Ok(problem) => if problem.status == ProblemStatus::Done {
                (
                    self,
                    Err(refused("cannot create ticket for done problem "@ + problem_id)),
                )
            } else if problem.ticket_id is Some {
                (
                    self,
                    Err(
                        refused(
                            "problem "@ + problem_id + " already has ticket "@
                                + problem.ticket_id->0,
                        ),
                    ),
                )
            } else {
                let ticket_id = self.fresh_ticket_id();
                (
                    ClosureStateView {
                        next_ticket_seq: (self.next_ticket_seq + 1) as u32,
                        tickets: self.tickets.insert(
                            ticket_id,
                            TicketView {
                                id: ticket_id,
                                problem_id,
                                title,
                                body,
                                status: TicketStatus::Defined,
                                classification: None,
                                classification_reason: None,
                                result_id: None,
                                created_at: now,
                                updated_at: now,
                            },
                        ),
                        problems: self.problems.insert(
                            problem_id,
                            ProblemView {
                                ticket_id: Some(ticket_id),
                                updated_at: now,
                                ..problem
                            },
                        ),
                        ..self
                    }.logged(
                        ctx,
                        now,
                        "ticket_created"@,
                        ticket_id,
                        "solution ticket defined"@,
                    ),
                    Ok(ticket_id),
                )
            },
        }
    }

    /// An inbox item becomes a problem with its ticket.
    pub open spec fn user_task_scaffolded(
        self,
        ctx: RuntimeContextView,
        now: Timestamp,
        item_id: Seq<char>,
        problem_title: Seq<char>,
        problem_body: Seq<char>,
        ticket_title: Seq<char>,
        ticket_body: Seq<char>,
        note: Seq<char>,
    ) -> (ClosureStateView, Outcome<ScaffoldedTaskView>) {
        let task = self.user_task_created(ctx, now, item_id, problem_title, problem_body, note);
        match task.1 {
            Err(e) => (task.0, Err(e)),
            Ok(made) => {
                let ticket = task.0.ticket_created(
                    ctx,
                    now,
                    made.problem_id,
                    ticket_title,
                    ticket_body,
                );
                (
                    ticket.0,
                    match ticket.1 {
                        Err(e) => Err(e),
                        Ok(ticket_id) => Ok(
                            ScaffoldedTaskView {
                                problem_id: made.problem_id,
                                parent_problem_id: made.parent_problem_id,
                                ticket_id,
                                inbox_item_id: Some(made.inbox_item_id),
                                passive_event_id: Some(made.passive_event_id),
                                source_kind: Some(made.source_kind),
                            },
                        ),
                    },
                )
            },
        }
    }

    /// A defined ticket is classified.
    pub open spec fn ticket_classified(
        self,
        ctx: RuntimeContextView,
        now: Timestamp,
        ticket_id: Seq<char>,
        classification: TicketClassification,
        reason: Seq<char>,
    ) -> (ClosureStateView, Outcome<()>) {
        if !self.tickets.contains_key(ticket_id) {
            (self, Err(unknown_ticket(ticket_id)))
        } else {
            let ticket = self.tickets[ticket_id];
            match self.writable(ctx, ticket.problem_id) {
                Err(e) => (self, Err(e)),
                Ok(_) => if ticket.status != TicketStatus::Defined {
                    (
                        self,
                        Err(
                            refused(
                                "cannot classify ticket "@ + ticket_id + " while status is "@
                                    + ticket.status.name_view(),
                            ),
                        ),
                    )
                } else {
                    (
                        ClosureStateView {
                            tickets: self.tickets.insert(
                                ticket_id,
                                TicketView {
                                    classification: Some(classification),
                                    classification_reason: Some(reason),
                                    status: TicketStatus::Classified,
                                    updated_at: now,
                                    ..ticket
                                },
                            ),
                            ..self
                        }.logged(
                            ctx,
                            now,
                            "ticket_classified"@,
                            ticket_id,
                            classification.name_view(),
                        ),
                        Ok(()),
                    )
                },
            }
        }
    }

    /// A classified ticket is taken up in the way of its class.
    pub open spec fn ticket_activated(
        self,
        ctx: RuntimeContextView,
        now: Timestamp,
        ticket_id: Seq<char>,
        status: TicketStatus,
    ) -> (ClosureStateView, Outcome<()>) {
        if !self.tickets.contains_key(ticket_id) {
            (self, Err(unknown_ticket(ticket_id)))
        } else {
            let ticket = self.tickets[ticket_id];
            if ticket.status != TicketStatus::Classified {
                (
                    self,
                    Err(
                        refused(
                            "ticket "@ + ticket_id + " must be classified before entering "@
                                + status.name_view(),
                        ),
                    ),
                )
            } else if !((status == TicketStatus::Executing && ticket.classification == Some(
                TicketClassification::OneGo,
            )) || (status == TicketStatus::Splitting && ticket.classification == Some(
                TicketClassification::Split,
            ))) {
                (
                    self,
                    Err(
                        refused(
                            "ticket "@ + ticket_id + " classification "@ + classification_shown(
                                ticket.classification,
                            ) + " cannot enter "@ + status.name_view(),
                        ),
                    ),
                )
            } else {
                (
                    ClosureStateView {
                        tickets: self.tickets.insert(
                            ticket_id,
                            TicketView { status, updated_at: now, ..ticket },
                        ),
                        ..self
                    }.logged(
                        ctx,
                        now,
                        "ticket_status_changed"@,
                        ticket_id,
                        status.name_view(),
                    ),
                    Ok(()),
                )
            }
        }
    }

    /// A problem is taken up.
    pub open spec fn problem_taken_up(
        self,
        ctx: RuntimeContextView,
        now: Timestamp,
        id: Seq<char>,
    ) -> (ClosureStateView, Outcome<()>) {
        if !self.problems.contains_key(id) {
            (self, Err(unknown_problem(id)))
        } else {
            let problem = self.problems[id];
            if problem.owner_thread_id != ctx.thread_id {
                (
                    self,
                    Err(
                        refused(
                            "thread "@ + ctx.thread_id + " cannot mutate problem "@ + id
                                + " owned by "@ + problem.owner_thread_id,
                        ),
                    ),
                )
            } else if problem.status == ProblemStatus::Done {
                (self, Err(refused("cannot reopen done problem "@ + id)))
            } else {
                (
                    ClosureStateView {
                        problems: self.problems.insert(
                            id,
                            ProblemView {
                                status: ProblemStatus::Doing,
                                updated_at: now,
                                ..problem
                            },
                        ),
                        ..self
                    }.logged(ctx, now, "problem_status_changed"@, id, "doing"@),
                    Ok(()),
                )
            }
        }
    }

    /// The status that a word asks of a ticket.
    pub open spec fn ticket_status_asked(status: Seq<char>) -> Option<TicketStatus> {
        if status == "executing"@ {
            Some(TicketStatus::Executing)
        } else if status == "splitting"@ {
            Some(TicketStatus::Splitting)
        } else {
            None
        }
    }

    /// A problem or a ticket is taken up.
    pub open spec fn status_set(
        self,
        ctx: RuntimeContextView,
        now: Timestamp,
        kind: EntityKind,
        id: Seq<char>,
        status: Seq<char>,
    ) -> (ClosureStateView, Outcome<()>) {
        match kind {
            EntityKind::Problem => if status != "doing"@ {
                (self, Err(refused("public problem status change only allows doing"@)))
            } else {
                self.problem_taken_up(ctx, now, id)
            },
            EntityKind::Ticket => match ClosureStateView::ticket_status_asked(status) {
                None => (
                    self,
                    Err(refused("public ticket status change does not allow "@ + status)),
                ),
                Some(next) => if !self.tickets.contains_key(id) {
                    (self, Err(unknown_ticket(id)))
                } else {
                    match self.writable(ctx, self.tickets[id].problem_id) {
                        Err(e) => (self, Err(e)),
                        Ok(_) => self.ticket_activated(ctx, now, id, next),
                    }
                },
            },
        }
    }

    /// Why no result can be recorded yet on a ticket whose problem the current thread may change.
    pub open spec fn result_fault(self, ticket_id: Seq<char>) -> Fault {
        let ticket = self.tickets[ticket_id];
        let status = self.problems[ticket.problem_id].status;
        if status == ProblemStatus::Todo {
            Some(
                refused(
                    "problem "@ + ticket.problem_id + " must be doing before recording a result"@,
                ),
            )
        } else if status == ProblemStatus::Done {
            Some(refused("cannot record result for done problem "@ + ticket.problem_id))
        } else if ticket.status == TicketStatus::Done {
            Some(refused("ticket "@ + ticket_id + " already has a result"@))
        } else if ticket.status == TicketStatus::Classified && ticket.classification is None {
            Some(refused("ticket "@ + ticket_id + " is classified without a classification"@))
        } else {
            None
        }
    }

    /// A classified ticket is taken up by itself.
    pub open spec fn ticket_started(
        self,
        ctx: RuntimeContextView,
        now: Timestamp,
        ticket_id: Seq<char>,
    ) -> (ClosureStateView, Outcome<()>) {
        let ticket = self.tickets[ticket_id];
        if ticket.status == TicketStatus::Classified {
            self.ticket_activated(
                ctx,
                now,
                ticket_id,
                if ticket.classification == Some(TicketClassification::OneGo) {
                    TicketStatus::Executing
                } else {
                    TicketStatus::Splitting
                },
            )
        } else {
            (self, Ok(()))
        }
    }

    /// Why the result of a ticket that was taken up cannot be recorded: it is at the wrong stage,
    /// or its child problems are missing or open.
    pub open spec fn active_result_fault(self, ticket_id: Seq<char>) -> Fault {
        let status = self.tickets[ticket_id].status;
        let children = self.child_problem_ids_from_ticket(ticket_id);
        if status != TicketStatus::Executing && status != TicketStatus::Splitting {
            Some(
                refused(
                    "cannot record result for ticket "@ + ticket_id + " while status is "@
                        + status.name_view(),
                ),
            )
        } else if status == TicketStatus::Splitting && children.len() == 0 {
            Some(
                refused(
                    "cannot finish split ticket "@ + ticket_id
                        + "; create at least one child problem first"@,
                ),
            )
        } else if self.open_problems_among(children).len() > 0 {
            Some(
                refused(
                    "cannot finish ticket "@ + ticket_id + "; child problems still open: "@
                        + joined(self.open_problems_among(children), ", "@),
                ),
            )
        } else {
            None
        }
    }

    /// The identifier of the next result.
    pub open spec fn fresh_result_id(self) -> Seq<char> {
        numbered("R"@, self.next_result_seq as nat)
    }

    /// The ticket is done with a result.
    pub open spec fn with_result(
        self,
        ctx: RuntimeContextView,
        now: Timestamp,
        ticket_id: Seq<char>,
        problem_id: Seq<char>,
        title: Seq<char>,
        body: Seq<char>,
    ) -> ClosureStateView {
        let result_id = self.fresh_result_id();
        ClosureStateView {
            next_result_seq: (self.next_result_seq + 1) as u32,
            results: self.results.insert(
                result_id,
                ExecutionResultView {
                    id: result_id,
                    ticket_id,
                    problem_id,
                    title,
                    body,
                    created_at: now,
                },
            ),
            tickets: self.tickets.insert(
                ticket_id,
                TicketView {
                    result_id: Some(result_id),
                    status: TicketStatus::Done,
                    updated_at: now,
                    ..self.tickets[ticket_id]
                },
            ),
            problems: self.problems.insert(
                problem_id,
                ProblemView {
                    result_ids: self.problems[problem_id].result_ids.push(result_id),
                    updated_at: now,
                    ..self.problems[problem_id]
                },
            ),
            ..self
        }.logged(
            ctx,
            now,
            "result_recorded"@,
            result_id,
            "recorded for ticket "@ + ticket_id,
        )
    }

    /// The result of working a ticket is recorded.
    pub open spec fn result_recorded(
        self,
        ctx: RuntimeContextView,
        now: Timestamp,
        ticket_id: Seq<char>,
        title: Seq<char>,
        body: Seq<char>,
    ) -> (ClosureStateView, Outcome<Seq<char>>) {
        if !self.tickets.contains_key(ticket_id) {
            (self, Err(unknown_ticket(ticket_id)))
        } else {
            let problem_id = self.tickets[ticket_id].problem_id;
            match self.writable(ctx, problem_id) {
                Err(e) => (self, Err(e)),
                Ok(_) => match self.result_fault(ticket_id) {
                    Some(e) => (self, Err(e)),
                    None => {
                        let started = self.ticket_started(ctx, now, ticket_id);
                        match started.1 {
                            Err(e) => (started.0, Err(e)),
                            Ok(_) => match started.0.active_result_fault(ticket_id) {
                                Some(e) => (started.0, Err(e)),
                                None => (
                                    started.0.with_result(
                                        ctx,
                                        now,
                                        ticket_id,
                                        problem_id,
                                        title,
                                        body,
                                    ),
                                    Ok(started.0.fresh_result_id()),
                                ),
                            },
                        }
                    },
                },
            }
        }
    }

    pub open spec fn known_result_faults(self) -> spec_fn(Seq<char>) -> Fault {
        |id: Seq<char>|
            if self.results.contains_key(id) {
                None::<QunuxErrorView>
            } else {
                Some(unknown_result(id))
            }
    }

    /// Why a problem cannot be checked with the given verdict.
    pub open spec fn check_fault(
        self,
        problem_id: Seq<char>,
        status: CheckStatus,
        result_ids: Seq<Seq<char>>,
        has_followup: bool,
    ) -> Fault {
        if self.problems[problem_id].status == ProblemStatus::Done {
            Some(refused("problem "@ + problem_id + " is done and cannot be checked again"@))
        } else if result_ids.len() == 0 {
            Some(refused("check requires at least one result id"@))
        } else if first_fault(result_ids, self.known_result_faults(), 0) is Some {
            first_fault(result_ids, self.known_result_faults(), 0)
        } else {
            match status {
                CheckStatus::NotSuccess => if self.open_followup_ids(problem_id).len() > 0 {
                    Some(
                        refused(
                            "cannot create another follow-up while open follow-ups remain: "@
                                + joined(self.open_followup_ids(problem_id), ", "@),
                        ),
                    )
                } else if !has_followup {
                    Some(refused("not_success check requires a follow-up problem"@))
                } else {
                    None
                },
                CheckStatus::Success => if self.closing_fault(problem_id) is Some {
                    self.closing_fault(problem_id)
                } else if has_followup {
                    Some(refused("success check cannot include a follow-up"@))
                } else {
                    None
                },
            }
        }
    }

    /// The identifier of the next check.
    pub open spec fn fresh_check_id(self) -> Seq<char> {
        numbered("C"@, self.next_check_seq as nat)
    }

    /// A follow-up problem is added, which a check asks for.
    pub open spec fn with_followup(
        self,
        ctx: RuntimeContextView,
        now: Timestamp,
        problem_id: Seq<char>,
        check_id: Seq<char>,
        title: Seq<char>,
        body: Seq<char>,
    ) -> ClosureStateView {
        let followup_id = self.fresh_problem_id();
        let problems = self.problems.insert(
            followup_id,
            ProblemView {
                created_from_check_id: Some(check_id),
                ..ProblemView::fresh(
                    followup_id,
                    title,
                    body,
                    ctx.thread_id,
                    Some(problem_id),
                    now,
                )
            },
        );
        ClosureStateView {
            next_problem_seq: (self.next_problem_seq + 1) as u32,
            problems: problems.insert(
                problem_id,
                ProblemView {
                    followup_problem_ids: problems[problem_id].followup_problem_ids.push(
                        followup_id,
                    ),
                    ..problems[problem_id]
                },
            ),
            ..self
        }
    }

    /// The check is recorded and the problem is done, or waits for its follow-up.
    pub open spec fn with_check(
        self,
        now: Timestamp,
        problem_id: Seq<char>,
        check: CheckView,
    ) -> ClosureStateView {
        ClosureStateView {
            checks: self.checks.insert(check.id, check),
            problems: self.problems.insert(
                problem_id,
                ProblemView {
                    check_ids: self.problems[problem_id].check_ids.push(check.id),
                    status: match check.status {
                        CheckStatus::Success => ProblemStatus::Done,
                        CheckStatus::NotSuccess => ProblemStatus::Followup,
                    },
                    updated_at: now,
                    ..self.problems[problem_id]
                },
            ),
            ..self
        }
    }

    /// The current thread is done once the problem is on which it works; its parent learns of it.
    pub open spec fn thread_finished(
        self,
        ctx: RuntimeContextView,
        now: Timestamp,
        problem_id: Seq<char>,
    ) -> (ClosureStateView, Outcome<()>) {
        if !self.threads.contains_key(ctx.thread_id) {
            (self, Err(unknown_thread(ctx.thread_id)))
        } else if self.threads[ctx.thread_id].root_problem_id != problem_id {
            (self, Ok(()))
        } else {
            let done = self.with_thread_status(ctx.thread_id, ThreadStatus::Done, now);
            if self.threads[ctx.thread_id].parent_thread_id is None {
                (done, Ok(()))
            } else {
                let told = done.child_ready(
                    ctx,
                    now,
                    ctx.thread_id,
                    "child Qunux thread root problem is done"@,
                );
                (
                    told.0,
                    match told.1 {
                        Err(e) => Err(e),
                        Ok(_) => Ok(()),
                    },
                )
            }
        }
    }

    /// A check is written down: its problem is done, or has a follow-up problem.
    pub open spec fn check_written(
        self,
        ctx: RuntimeContextView,
        now: Timestamp,
        problem_id: Seq<char>,
        status: CheckStatus,
        result_ids: Seq<Seq<char>>,
        title: Seq<char>,
        body: Seq<char>,
        followup: Option<(Seq<char>, Seq<char>)>,
    ) -> ClosureStateView {
        let check_id = self.fresh_check_id();
        let numbered = ClosureStateView {
            next_check_seq: (self.next_check_seq + 1) as u32,
            ..self
        };
        let prepared = match followup {
            Some((followup_title, followup_body)) => numbered.with_followup(
                ctx,
                now,
                problem_id,
                check_id,
                followup_title,
                followup_body,
            ),
            None => numbered,
        };
        prepared.with_check(
            now,
            problem_id,
            CheckView {
                id: check_id,
                problem_id,
                status,
                title,
                body,
                result_ids,
                followup_problem_id: match followup {
                    Some(_) => Some(self.fresh_problem_id()),
                    None => None,
                },
                created_at: now,
            },
        )
    }

    /// The recorded results of a problem are judged: it is done, or a follow-up problem is added.
    pub open spec fn checked(
        self,
        ctx: RuntimeContextView,
        now: Timestamp,
        problem_id: Seq<char>,
        status: CheckStatus,
        result_ids: Seq<Seq<char>>,
        title: Seq<char>,
        body: Seq<char>,
        followup: Option<(Seq<char>, Seq<char>)>,
    ) -> (ClosureStateView, Outcome<Seq<char>>) {
        match self.writable(ctx, problem_id) {
            Err(e) => (self, Err(e)),
            Ok(_) => match self.check_fault(problem_id, status, result_ids, followup is Some) {
                Some(e) => (self, Err(e)),
                None => {
                    let recorded = self.check_written(
                        ctx,
                        now,
                        problem_id,
                        status,
                        result_ids,
                        title,
                        body,
                        followup,
                    );
                    let told = match status {
                        CheckStatus::Success => recorded.thread_finished(ctx, now, problem_id),
                        CheckStatus::NotSuccess => (recorded, Ok(())),
                    };
                    match told.1 {
                        Err(e) => (told.0, Err(e)),
                        Ok(_) => (
                            told.0.logged(
                                ctx,
                                now,
                                "check_recorded"@,
                                self.fresh_check_id(),
                                status.name_view(),
                            ),
                            Ok(self.fresh_check_id()),
                        ),
                    }
                },
            },
        }
    }
}

impl ClosureState {
    /// Gives the root problem its title and its body.
    pub fn initialize_root_problem(
        &mut self,
        ctx: &RuntimeContext,
        now: Timestamp,
        title: Option<String>,
        body: Option<String>,
    ) -> (r: Result<()>)
        requires
            old(self).wf(),
        ensures
            final(self).wf(),
            (final(self)@, outcome(r)) == old(self)@.root_initialized(
                ctx@,
                now,
                opt_view(title),
                opt_view(body),
            ),
    {
        if title.is_none() && body.is_none() {
            return Ok(());
        }
        let root_problem_id = self.root_problem_id.clone();
        if !is_pristine(self.require_problem(root_problem_id.as_str())?) {
            return Ok(());
        }
        if let Some(root) = self.problems.get_mut(root_problem_id.as_str()) {
            if let Some(title) = title {
                root.title = title;
            }
            if let Some(body) = body {
                root.body = body;
            }
            root.updated_at = now;
        }
        self.event(
            ctx,
            now,
            "root_problem_initialized",
            root_problem_id.as_str(),
            "root problem content initialized",
        );
        Ok(())
    }

    /// Gives a root problem that was never given a title the current one.
    pub fn upgrade_legacy_pristine_root_problem(
        &mut self,
        ctx: &RuntimeContext,
        now: Timestamp,
        current_default_title: &str,
        current_default_body: &str,
    ) -> (r: Result<()>)
        requires
            old(self).wf(),
        ensures
            final(self).wf(),
            (final(self)@, outcome(r)) == old(self)@.root_upgraded(
                ctx@,
                now,
                current_default_title@,
                current_default_body@,
            ),
    {
        let root_problem_id = self.root_problem_id.clone();
        let root = self.require_problem(root_problem_id.as_str())?;
        if !is_pristine(root) || !str_eq(root.title.as_str(), LEGACY_DEFAULT_ROOT_PROBLEM_TITLE) {
            return Ok(());
        }
        if let Some(root) = self.problems.get_mut(root_problem_id.as_str()) {
            root.title = current_default_title.to_owned();
            root.body = current_default_body.to_owned();
            root.updated_at = now;
        }
        self.event(
            ctx,
            now,
            "root_problem_upgraded",
            root_problem_id.as_str(),
            "legacy pristine root problem upgraded to process mission",
        );
        Ok(())
    }

    fn require_child_mode(&self, parent_id: &str, ticket_id: &str, mode: TicketChildMode) -> (r:
        Result<()>)
        requires
            self.wf(),
            self@.problems.contains_key(parent_id@),
            self@.tickets.contains_key(ticket_id@),
        ensures
            fault_of(r) == self@.child_mode_fault(parent_id@, ticket_id@, mode),
    {
        let ticket = self.require_ticket(ticket_id)?;
        match mode {
            TicketChildMode::Split => {
                if ticket.classification != Some(TicketClassification::Split) {
                    return Err(
                        refuse(cat3("ticket ", ticket_id, " is not classified as split")),
                    );
                }
                if ticket.status != TicketStatus::Splitting {
                    return Err(
                        refuse(
                            cat3(
                                "ticket ",
                                ticket_id,
                                " must be splitting before creating split child problems",
                            ),
                        ),
                    );
                }
            },
            TicketChildMode::Spawn => {
                if self.require_problem(parent_id)?.status != ProblemStatus::Doing {
                    return Err(
                        refuse(
                            cat3(
                                "problem ",
                                parent_id,
                                " must be doing before spawning runtime child problems",
                            ),
                        ),
                    );
                }
                if ticket.classification != Some(TicketClassification::OneGo) {
                    return Err(
                        refuse(cat3("ticket ", ticket_id, " is not classified as one_go")),
                    );
                }
                if ticket.status != TicketStatus::Executing {
                    return Err(
                        refuse(
                            cat3(
                                "ticket ",
                                ticket_id,
                                " must be executing before spawning runtime child problems",
                            ),
                        ),
                    );
                }
            },
        }
        Ok(())
    }

    /// Makes a child problem out of a ticket of its parent.
    pub fn create_problem_from_ticket_with_mode(
        &mut self,
        ctx: &RuntimeContext,
        now: Timestamp,
        parent_id: &str,
        ticket_id: &str,
        mode: TicketChildMode,
        title: &str,
        body: &str,
    ) -> (r: Result<String>)
        requires
            old(self).wf(),
            rooted(old(self)@.problems),
            old(self)@.next_problem_seq < u32::MAX,
        ensures
            final(self).wf(),
            (final(self)@, outcome(r)) == old(self)@.child_created(
                ctx@,
                now,
                parent_id@,
                ticket_id@,
                mode,
                title@,
                body@,
            ),
    {
        let _ = self.require_problem_writable(ctx, parent_id)?;
        let ticket = self.require_ticket(ticket_id)?;
        if !str_eq(ticket.problem_id.as_str(), parent_id) {
            return Err(
                refuse(cat4("ticket ", ticket_id, " does not belong to problem ", parent_id)),
            );
        }
        self.require_child_mode(parent_id, ticket_id, mode)?;
        let problem_id = numbered_id("P", self.next_problem_seq);
        let mut problem = Problem::fresh(
            problem_id.as_str(),
            title,
            body,
            ctx.thread_id.as_str(),
            Some(parent_id.to_owned()),
            now,
        );
        problem.created_from_ticket_id = Some(ticket_id.to_owned());
        problem.created_from_ticket_mode = Some(mode);
        self.add_child_problem(now, parent_id, problem);
        let message = cat4("created from ", mode.name(), " ticket ", ticket_id);
        self.event(ctx, now, "problem_created", problem_id.as_str(), message.as_str());
        Ok(problem_id)
    }

    /// Gives a problem its one ticket.
    pub fn create_ticket(
        &mut self,
        ctx: &RuntimeContext,
        now: Timestamp,
        problem_id: &str,
        title: &str,
        body: &str,
    ) -> (r: Result<String>)
        requires
            old(self).wf(),
            rooted(old(self)@.problems),
            old(self)@.next_ticket_seq < u32::MAX,
        ensures
            final(self).wf(),
            (final(self)@, outcome(r)) == old(self)@.ticket_created(
                ctx@,
                now,
                problem_id@,
                title@,
                body@,
            ),
    {
        let problem = self.require_problem_writable(ctx, problem_id)?;
        if problem.status == ProblemStatus::Done {
            return Err(refuse(cat2("cannot create ticket for done problem ", problem_id)));
        }
        if let Some(existing) = &problem.ticket_id {
            return Err(
                refuse(
                    cat4("problem ", problem_id, " already has ticket ", existing.as_str()),
                ),
            );
        }
        let ticket_id = self.next_ticket_id();
        let ticket = Ticket {
            id: ticket_id.clone(),
            problem_id: problem_id.to_owned(),
            title: title.to_owned(),
            body: body.to_owned(),
            status: TicketStatus::Defined,
            classification: None,
            classification_reason: None,
            result_id: None,
            created_at: now,
            updated_at: now,
        };
        self.tickets.insert(ticket_id.clone(), ticket);
        if let Some(problem) = self.problems.get_mut(problem_id) {
            problem.ticket_id = Some(ticket_id.clone());
            problem.updated_at = now;
        }
        self.event(
            ctx,
            now,
            "ticket_created",
            ticket_id.as_str(),
            "solution ticket defined",
        );
        Ok(ticket_id)
    }

    /// Makes a problem with its ticket out of an inbox item.
    pub fn scaffold_user_task_from_inbox(
        &mut self,
        ctx: &RuntimeContext,
        now: Timestamp,
        inbox_item_id: &str,
        problem_title: &str,
        problem_body: &str,
        ticket_title: &str,
        ticket_body: &str,
        note: &str,
    ) -> (r: Result<ScaffoldedTask>)
        requires
            old(self).wf(),
            old(self)@.sound(),
            old(self)@.next_problem_seq < u32::MAX,
            old(self)@.next_ticket_seq < u32::MAX,
            old(self)@.next_io_event_seq < u32::MAX,
        ensures
            final(self).wf(),
            (final(self)@, outcome(r)) == old(self)@.user_task_scaffolded(
                ctx@,
                now,
                inbox_item_id@,
                problem_title@,
                problem_body@,
                ticket_title@,
                ticket_body@,
                note@,
            ),
    {
        proof {
            law_user_task_created_sound(
                self@,
                ctx@,
                now,
                inbox_item_id@,
                problem_title@,
                problem_body@,
                note@,
            );
        }
        let task = self.create_user_task_from_inbox(
            ctx,
            now,
            inbox_item_id,
            problem_title,
            problem_body,
            note,
        )?;
        let ticket_id = self.create_ticket(
            ctx,
            now,
            task.problem_id.as_str(),
            ticket_title,
            ticket_body,
        )?;
        Ok(
            ScaffoldedTask {
                problem_id: task.problem_id,
                parent_problem_id: task.parent_problem_id,
                ticket_id,
                inbox_item_id: Some(task.inbox_item_id),
                passive_event_id: Some(task.passive_event_id),
                source_kind: Some(task.source_kind),
            },
        )
    }

    /// Classifies a defined ticket.
    pub fn classify_ticket(
        &mut self,
        ctx: &RuntimeContext,
        now: Timestamp,
        ticket_id: &str,
        classification: TicketClassification,
        reason: &str,
    ) -> (r: Result<()>)
        requires
            old(self).wf(),
            rooted(old(self)@.problems),
        ensures
            final(self).wf(),
            (final(self)@, outcome(r)) == old(self)@.ticket_classified(
                ctx@,
                now,
                ticket_id@,
                classification,
                reason@,
            ),
    {
        let ticket = self.require_ticket(ticket_id)?;
        let _ = self.require_problem_writable(ctx, ticket.problem_id.as_str())?;
        if ticket.status != TicketStatus::Defined {
            return Err(
                refuse(
                    cat4(
                        "cannot classify ticket ",
                        ticket_id,
                        " while status is ",
                        ticket.status.name(),
                    ),
                ),
            );
        }
        if let Some(ticket) = self.tickets.get_mut(ticket_id) {
            ticket.classification = Some(classification);
            ticket.classification_reason = Some(reason.to_owned());
            ticket.status = TicketStatus::Classified;
            ticket.updated_at = now;
        }
        self.event(ctx, now, "ticket_classified", ticket_id, classification.name());
        Ok(())
    }

    fn transition_ticket_to_active_status(
        &mut self,
        ctx: &RuntimeContext,
        now: Timestamp,
        ticket_id: &str,
        status: TicketStatus,
    ) -> (r: Result<()>)
        requires
            old(self).wf(),
        ensures
            final(self).wf(),
            (final(self)@, outcome(r)) == old(self)@.ticket_activated(
                ctx@,
                now,
                ticket_id@,
                status,
            ),
    {
        let ticket = self.require_ticket(ticket_id)?;
        if ticket.status != TicketStatus::Classified {
            return Err(
                refuse(
                    cat4(
                        "ticket ",
                        ticket_id,
                        " must be classified before entering ",
                        status.name(),
                    ),
                ),
            );
        }
        match (status, ticket.classification) {
            (TicketStatus::Executing, Some(TicketClassification::OneGo))
            | (TicketStatus::Splitting, Some(TicketClassification::Split)) => {},
            _ => {
                let shown = show_classification(ticket.classification);
                return Err(
                    refuse(
                        cat6(
                            "ticket ",
                            ticket_id,
                            " classification ",
                            shown.as_str(),
                            " cannot enter ",
                            status.name(),
                        ),
                    ),
                );
            },
        }
        if let Some(ticket) = self.tickets.get_mut(ticket_id) {
            ticket.status = status;
            ticket.updated_at = now;
        }
        self.event(ctx, now, "ticket_status_changed", ticket_id, status.name());
        Ok(())
    }

    fn take_up_problem(&mut self, ctx: &RuntimeContext, now: Timestamp, id: &str) -> (r: Result<()>)
        requires
            old(self).wf(),
        ensures
            final(self).wf(),
            (final(self)@, outcome(r)) == old(self)@.problem_taken_up(ctx@, now, id@),
    {
        let problem = self.require_problem(id)?;
        if problem.owner_thread_id != ctx.thread_id {
            return Err(
                refuse(
                    cat6(
                        "thread ",
                        ctx.thread_id.as_str(),
                        " cannot mutate problem ",
                        id,
                        " owned by ",
                        problem.owner_thread_id.as_str(),
                    ),
                ),
            );
        }
        if problem.status == ProblemStatus::Done {
            return Err(refuse(cat2("cannot reopen done problem ", id)));
        }
        if let Some(problem) = self.problems.get_mut(id) {
            problem.status = ProblemStatus::Doing;
            problem.updated_at = now;
        }
        self.event(ctx, now, "problem_status_changed", id, "doing");
        Ok(())
    }

    /// Takes up a problem or a ticket.
    pub fn set_status(
        &mut self,
        ctx: &RuntimeContext,
        now: Timestamp,
        kind: EntityKind,
        id: &str,
        status: &str,
    ) -> (r: Result<()>)
        requires
            old(self).wf(),
            rooted(old(self)@.problems),
        ensures
            final(self).wf(),
            (final(self)@, outcome(r)) == old(self)@.status_set(ctx@, now, kind, id@, status@),
    {
        match kind {
            EntityKind::Problem => {
                if !str_eq(status, "doing") {
                    return Err(
                        refuse("public problem status change only allows doing".to_owned()),
                    );
                }
                self.take_up_problem(ctx, now, id)
            },
            EntityKind::Ticket => {
                let next_status = if str_eq(status, "executing") {
                    TicketStatus::Executing
                } else if str_eq(status, "splitting") {
                    TicketStatus::Splitting
                } else {
                    return Err(
                        refuse(cat2("public ticket status change does not allow ", status)),
                    );
                };
                let problem_id = self.require_ticket(id)?.problem_id.clone();
                let _ = self.require_problem_writable(ctx, problem_id.as_str())?;
                self.transition_ticket_to_active_status(ctx, now, id, next_status)
            },
        }
    }

    fn require_result_possible(&self, ticket_id: &str) -> (r: Result<()>)
        requires
            self.wf(),
            self@.tickets.contains_key(ticket_id@),
            self@.problems.contains_key(self@.tickets[ticket_id@].problem_id),
        ensures
            fault_of(r) == self@.result_fault(ticket_id@),
    {
        let ticket = self.require_ticket(ticket_id)?;
        let problem_id = ticket.problem_id.as_str();
        let problem_status = self.require_problem(problem_id)?.status;
        if problem_status == ProblemStatus::Todo {
            return Err(
                refuse(
                    cat3("problem ", problem_id, " must be doing before recording a result"),
                ),
            );
        }
        if problem_status == ProblemStatus::Done {
            return Err(refuse(cat2("cannot record result for done problem ", problem_id)));
        }
        if ticket.status == TicketStatus::Done {
            return Err(refuse(cat3("ticket ", ticket_id, " already has a result")));
        }
        if ticket.status == TicketStatus::Classified && ticket.classification.is_none() {
            return Err(
                refuse(cat3("ticket ", ticket_id, " is classified without a classification")),
            );
        }
        Ok(())
    }

    fn start_ticket(&mut self, ctx: &RuntimeContext, now: Timestamp, ticket_id: &str) -> (r: Result<
        (),
    >)
        requires
            old(self).wf(),
            old(self)@.tickets.contains_key(ticket_id@),
        ensures
            final(self).wf(),
            (final(self)@, outcome(r)) == old(self)@.ticket_started(ctx@, now, ticket_id@),
            final(self)@.next_result_seq == old(self)@.next_result_seq,
            final(self)@.problems == old(self)@.problems,
            final(self)@.tickets.contains_key(ticket_id@),
    {
        let ticket = self.require_ticket(ticket_id)?;
        if ticket.status == TicketStatus::Classified {
            let status = if ticket.classification == Some(TicketClassification::OneGo) {
                TicketStatus::Executing
            } else {
                TicketStatus::Splitting
            };
            self.transition_ticket_to_active_status(ctx, now, ticket_id, status)?;
        }
        Ok(())
    }

    fn require_active_result_possible(&self, ticket_id: &str) -> (r: Result<()>)
        requires
            self.wf(),
            self@.tickets.contains_key(ticket_id@),
        ensures
            fault_of(r) == self@.active_result_fault(ticket_id@),
    {
        let active_status = self.require_ticket(ticket_id)?.status;
        if active_status != TicketStatus::Executing && active_status != TicketStatus::Splitting {
            return Err(
                refuse(
                    cat4(
                        "cannot record result for ticket ",
                        ticket_id,
                        " while status is ",
                        active_status.name(),
                    ),
                ),
            );
        }
        let children = self.child_problem_ids_from_ticket(ticket_id);
        if active_status == TicketStatus::Splitting && children.is_empty() {
            return Err(
                refuse(
                    cat3(
                        "cannot finish split ticket ",
                        ticket_id,
                        "; create at least one child problem first",
                    ),
                ),
            );
        }
        let open_children = self.open_problems_among(&children);
        if !open_children.is_empty() {
            let list = join(&open_children, ", ");
            return Err(
                refuse(
                    cat4(
                        "cannot finish ticket ",
                        ticket_id,
                        "; child problems still open: ",
                        list.as_str(),
                    ),
                ),
            );
        }
        Ok(())
    }

    fn add_result(
        &mut self,
        ctx: &RuntimeContext,
        now: Timestamp,
        ticket_id: &str,
        problem_id: &str,
        title: &str,
        body: &str,
    ) -> (r: String)
        requires
            old(self).wf(),
            old(self)@.tickets.contains_key(ticket_id@),
            old(self)@.problems.contains_key(problem_id@),
            old(self)@.next_result_seq < u32::MAX,
        ensures
            final(self).wf(),
            r@ == old(self)@.fresh_result_id(),
            final(self)@ == old(self)@.with_result(
                ctx@,
                now,
                ticket_id@,
                problem_id@,
                title@,
                body@,
            ),
    {
        let result_id = self.next_result_id();
        let result = ExecutionResult {
            id: result_id.clone(),
            ticket_id: ticket_id.to_owned(),
            problem_id: problem_id.to_owned(),
            title: title.to_owned(),
            body: body.to_owned(),
            created_at: now,
        };
        self.results.insert(result_id.clone(), result);
        if let Some(ticket) = self.tickets.get_mut(ticket_id) {
            ticket.result_id = Some(result_id.clone());
            ticket.status = TicketStatus::Done;
            ticket.updated_at = now;
        }
        if let Some(problem) = self.problems.get_mut(problem_id) {
            problem.result_ids.push(result_id.clone());
            problem.updated_at = now;
        }
        let message = cat2("recorded for ticket ", ticket_id);
        self.event(ctx, now, "result_recorded", result_id.as_str(), message.as_str());
        result_id
    }

    /// Records the result of working a ticket.
    pub fn record_result(
        &mut self,
        ctx: &RuntimeContext,
        now: Timestamp,
        ticket_id: &str,
        title: &str,
        body: &str,
    ) -> (r: Result<String>)
        requires
            old(self).wf(),
            rooted(old(self)@.problems),
            old(self)@.next_result_seq < u32::MAX,
        ensures
            final(self).wf(),
            (final(self)@, outcome(r)) == old(self)@.result_recorded(
                ctx@,
                now,
                ticket_id@,
                title@,
                body@,
            ),
    {
        let problem_id = self.require_ticket(ticket_id)?.problem_id.clone();
        let _ = self.require_problem_writable(ctx, problem_id.as_str())?;
        self.require_result_possible(ticket_id)?;
        self.start_ticket(ctx, now, ticket_id)?;
        self.require_active_result_possible(ticket_id)?;
        let result_id = self.add_result(
            ctx,
            now,
            ticket_id,
            problem_id.as_str(),
            title,
            body,
        );
        Ok(result_id)
    }

    fn require_known_results(&self, result_ids: &Vec<String>) -> (r: Result<()>)
        requires
            self.wf(),
        ensures
            fault_of(r) == first_fault(views(result_ids@), self@.known_result_faults(), 0),
    {
        let mut i: usize = 0;
        while i < result_ids.len()
            invariant
                self.wf(),
                i <= result_ids@.len(),
                first_fault(views(result_ids@), self@.known_result_faults(), 0) == first_fault(
                    views(result_ids@),
                    self@.known_result_faults(),
                    i as int,
                ),
            decreases result_ids@.len() - i,
        {
            assert(views(result_ids@)[i as int] == result_ids@[i as int]@);
            let _ = self.require_result(result_ids[i].as_str())?;
            i = i + 1;
        }
        Ok(())
    }

    fn require_checkable(
        &self,
        problem_id: &str,
        status: CheckStatus,
        result_ids: &Vec<String>,
        has_followup: bool,
    ) -> (r: Result<()>)
        requires
            self.wf(),
            self@.problems.contains_key(problem_id@),
        ensures
            fault_of(r) == self@.check_fault(
                problem_id@,
                status,
                views(result_ids@),
                has_followup,
            ),
    {
        if self.require_problem(problem_id)?.status == ProblemStatus::Done {
            return Err(
                refuse(cat3("problem ", problem_id, " is done and cannot be checked again")),
            );
        }
        if result_ids.is_empty() {
            return Err(refuse("check requires at least one result id".to_owned()));
        }
        self.require_known_results(result_ids)?;
        match status {
            CheckStatus::NotSuccess => {
                let open_followups = self.open_followup_ids(problem_id);
                if !open_followups.is_empty() {
                    let list = join(&open_followups, ", ");
                    return Err(
                        refuse(
                            cat2(
                                "cannot create another follow-up while open follow-ups remain: ",
                                list.as_str(),
                            ),
                        ),
                    );
                }
                if !has_followup {
                    return Err(
                        refuse("not_success check requires a follow-up problem".to_owned()),
                    );
                }
            },
            CheckStatus::Success => {
                self.require_problem_closable(problem_id)?;
                if has_followup {
                    return Err(refuse("success check cannot include a follow-up".to_owned()));
                }
            },
        }
        Ok(())
    }

    fn add_followup(
        &mut self,
        ctx: &RuntimeContext,
        now: Timestamp,
        problem_id: &str,
        check_id: &str,
        title: &str,
        body: &str,
    ) -> (r: String)
        requires
            old(self).wf(),
            old(self)@.problems.contains_key(problem_id@),
            old(self)@.next_problem_seq < u32::MAX,
        ensures
            final(self).wf(),
            r@ == old(self)@.fresh_problem_id(),
            final(self)@ == old(self)@.with_followup(
                ctx@,
                now,
                problem_id@,
                check_id@,
                title@,
                body@,
            ),
    {
        let followup_id = self.next_problem_id();
        let mut followup = Problem::fresh(
            followup_id.as_str(),
            title,
            body,
            ctx.thread_id.as_str(),
            Some(problem_id.to_owned()),
            now,
        );
        followup.created_from_check_id = Some(check_id.to_owned());
        self.problems.insert(followup_id.clone(), followup);
        if let Some(problem) = self.problems.get_mut(problem_id) {
            problem.followup_problem_ids.push(followup_id.clone());
        }
        followup_id
    }

    fn add_check(&mut self, now: Timestamp, problem_id: &str, check: Check)
        requires
            old(self).wf(),
            old(self)@.problems.contains_key(problem_id@),
        ensures
            final(self).wf(),
            final(self)@ == old(self)@.with_check(now, problem_id@, check@),
    {
        let check_id = check.id.clone();
        let status = check.status;
        self.checks.insert(check_id.clone(), check);
        if let Some(problem) = self.problems.get_mut(problem_id) {
            problem.check_ids.push(check_id);
            problem.status = match status {
                CheckStatus::Success => ProblemStatus::Done,
                CheckStatus::NotSuccess => ProblemStatus::Followup,
            };
            problem.updated_at = now;
        }
    }

    fn finish_thread(&mut self, ctx: &RuntimeContext, now: Timestamp, problem_id: &str) -> (r:
        Result<()>)
        requires
            old(self).wf(),
            old(self)@.next_io_event_seq + 2 <= u32::MAX,
        ensures
            final(self).wf(),
            (final(self)@, outcome(r)) == old(self)@.thread_finished(ctx@, now, problem_id@),
    {
        let thread = self.current_thread(ctx)?;
        if !str_eq(thread.root_problem_id.as_str(), problem_id) {
            return Ok(());
        }
        let has_parent = thread.parent_thread_id.is_some();
        self.set_thread_status(ctx.thread_id.as_str(), ThreadStatus::Done, now);
        if has_parent {
            let _ = self.mark_child_thread_ready_in_state(
                ctx,
                now,
                ctx.thread_id.as_str(),
                "child Qunux thread root problem is done",
            )?;
        }
        Ok(())
    }

    /// Judges the recorded results of a problem.
    pub fn check(
        &mut self,
        ctx: &RuntimeContext,
        now: Timestamp,
        problem_id: &str,
        status: CheckStatus,
        result_ids: Vec<String>,
        title: &str,
        body: &str,
        followup: Option<(String, String)>,
    ) -> (r: Result<String>)
        requires
            old(self).wf(),
            rooted(old(self)@.problems),
            old(self)@.next_check_seq < u32::MAX,
            old(self)@.next_problem_seq < u32::MAX,
            old(self)@.next_io_event_seq + 2 <= u32::MAX,
        ensures
            final(self).wf(),
            (final(self)@, outcome(r)) == old(self)@.checked(
                ctx@,
                now,
                problem_id@,
                status,
                views(result_ids@),
                title@,
                body@,
                opt_view(followup),
            ),
    {
        let _ = self.require_problem_writable(ctx, problem_id)?;
        self.require_checkable(problem_id, status, &result_ids, followup.is_some())?;
        let check_id = self.next_check_id();
        let followup_problem_id = match followup {
            Some((followup_title, followup_body)) => Some(
                self.add_followup(
                    ctx,
                    now,
                    problem_id,
                    check_id.as_str(),
                    followup_title.as_str(),
                    followup_body.as_str(),
                ),
            ),
            None => None,
        };
        let check = Check {
            id: check_id.clone(),
            problem_id: problem_id.to_owned(),
            status,
            title: title.to_owned(),
            body: body.to_owned(),
            result_ids,
            followup_problem_id,
            created_at: now,
        };
        self.add_check(now, problem_id, check);
        if status == CheckStatus::Success {
            self.finish_thread(ctx, now, problem_id)?;
        }
        self.event(ctx, now, "check_recorded", check_id.as_str(), status.name());
        Ok(check_id)
    }
}

} // verus!
