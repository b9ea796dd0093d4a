//! What the current thread has to do next.
use vstd::prelude::*;
use crate::context::{RuntimeContext, RuntimeContextView};
use crate::entities::{ClosureState, ClosureStateView, InboxItem, InboxItemView, Problem, Thread, ThreadView, ThreadWait, ThreadWaitView};
use crate::forest::{below, branching, height, lemma_height};
use crate::kinds::{IoHandleKind, IoHandleStatus, NextAction, NextDisposition, PassiveEventStatus, ProblemStatus, ThreadStatus, TicketClassification, TicketStatus, WaitStatus};
use crate::reports::{NextStep, NextStepView};
use crate::search::{find_first, find_index, position};
use crate::state::opt_str;
use crate::strmap::values;
use crate::text::{cat3, cat4, cat9, group_views, opt_is, opt_view};

verus! {

broadcast use group_views;

/// The first thing that `f` gives for an element from place `i` on.
pub open spec fn first_some<T, R>(s: Seq<T>, f: spec_fn(T) -> Option<R>, i: int) -> Option<R>
    decreases s.len() - i,
{
    if i < 0 || i >= s.len() {
        None
    } else if f(s[i]) is Some {
        f(s[i])
    } else {
        first_some(s, f, i + 1)
    }
}

impl NextStepView {
    /// A step of the thread that a context acts as.
    pub open spec fn of(
        ctx: RuntimeContextView,
        action: NextAction,
        target_thread_id: Option<Seq<char>>,
        problem_id: Option<Seq<char>>,
        ticket_id: Option<Seq<char>>,
        instruction: Seq<char>,
        reason: Seq<char>,
    ) -> NextStepView {
        NextStepView {
            action,
            disposition: NextDisposition::for_action(action),
            thread_id: ctx.thread_id,
            target_thread_id,
            problem_id,
            ticket_id,
            instruction,
            reason,
        }
    }
}

/// A step of the thread that a context acts as.
fn step(
    ctx: &RuntimeContext,
    action: NextAction,
    target_thread_id: Option<&str>,
    problem_id: Option<&str>,
    ticket_id: Option<&str>,
    instruction: &str,
    reason: &str,
) -> (r: NextStep)
    ensures
        r@ == NextStepView::of(
            ctx@,
            action,
            opt_str(target_thread_id),
            opt_str(problem_id),
            opt_str(ticket_id),
            instruction@,
            reason@,
        ),
{
    NextStep {
        action,
        disposition: NextDisposition::for_action(action),
        thread_id: ctx.thread_id.clone(),
        target_thread_id: match target_thread_id {
            Some(s) => Some(s.to_owned()),
            None => None,
        },
        problem_id: match problem_id {
            Some(s) => Some(s.to_owned()),
            None => None,
        },
        ticket_id: match ticket_id {
            Some(s) => Some(s.to_owned()),
            None => None,
        },
        instruction: instruction.to_owned(),
        reason: reason.to_owned(),
    }
}

/// What to do about the thread that works on a child problem: nothing once it was joined, else
/// join, recover or wait for it.
pub open spec fn child_thread_step(
    ctx: RuntimeContextView,
    thread: ThreadView,
    problem_id: Seq<char>,
) -> Option<NextStepView> {
    if thread.status == ThreadStatus::Done && thread.joined_at is Some {
        None
    } else if thread.status == ThreadStatus::Done {
        Some(
            NextStepView::of(
                ctx,
                NextAction::JoinThread,
                Some(thread.id),
                Some(problem_id),
                None,
                "Join the completed child thread before summarizing the parent ticket."@,
                "child thread is done but not joined"@,
            ),
        )
    } else if thread.status == ThreadStatus::Failed || thread.status == ThreadStatus::Cancelled {
        Some(
            NextStepView::of(
                ctx,
                NextAction::RecoverThread,
                Some(thread.id),
                Some(problem_id),
                None,
                "Recover the failed child thread before the parent ticket can be summarized."@,
                "child thread failed before closing its subtree"@,
            ),
        )
    } else {
        Some(
            NextStepView::of(
                ctx,
                NextAction::WaitThread,
                Some(thread.id),
                Some(problem_id),
                None,
                "Wait for the child thread to close its bound subtree, then join it."@,
                "child thread is still running"@,
            ),
        )
    }
}

fn step_for_child_thread(ctx: &RuntimeContext, thread: &Thread, problem_id: &str) -> (r: Option<
    NextStep,
>)
    ensures
        opt_view(r) == child_thread_step(ctx@, thread@, problem_id@),
{
    if thread.status == ThreadStatus::Done && thread.joined_at.is_some() {
        return None;
    }
    if thread.status == ThreadStatus::Done {
        return Some(
            step(
                ctx,
                NextAction::JoinThread,
                Some(thread.id.as_str()),
                Some(problem_id),
                None,
                "Join the completed child thread before summarizing the parent ticket.",
                "child thread is done but not joined",
            ),
        );
    }
    if thread.status == ThreadStatus::Failed || thread.status == ThreadStatus::Cancelled {
        return Some(
            step(
                ctx,
                NextAction::RecoverThread,
                Some(thread.id.as_str()),
                Some(problem_id),
                None,
                "Recover the failed child thread before the parent ticket can be summarized.",
                "child thread failed before closing its subtree",
            ),
        );
    }
    Some(
        step(
            ctx,
            NextAction::WaitThread,
            Some(thread.id.as_str()),
            Some(problem_id),
            None,
            "Wait for the child thread to close its bound subtree, then join it.",
            "child thread is still running",
        ),
    )
}

/// What to do about the thread that works on a follow-up problem.
pub open spec fn followup_thread_step(
    ctx: RuntimeContextView,
    thread: ThreadView,
    problem_id: Seq<char>,
) -> Option<NextStepView> {
    if thread.status == ThreadStatus::Done && thread.joined_at is Some {
        None
    } else if thread.status == ThreadStatus::Done {
        Some(
            NextStepView::of(
                ctx,
                NextAction::JoinThread,
                Some(thread.id),
                Some(problem_id),
                None,
                "Join the completed follow-up thread before re-checking the parent problem."@,
                "follow-up thread is done but not joined"@,
            ),
        )
    } else if thread.status == ThreadStatus::Failed || thread.status == ThreadStatus::Cancelled {
        Some(
            NextStepView::of(
                ctx,
                NextAction::RecoverThread,
                Some(thread.id),
                Some(problem_id),
                None,
                "Recover the failed follow-up thread before re-checking the parent problem."@,
                "follow-up thread failed before closing its subtree"@,
            ),
        )
    } else {
        Some(
            NextStepView::of(
                ctx,
                NextAction::WaitThread,
                Some(thread.id),
                Some(problem_id),
                None,
                "Wait for the follow-up thread to close its bound subtree, then join it."@,
                "follow-up thread is still running"@,
            ),
        )
    }
}

fn step_for_followup_thread(
    ctx: &RuntimeContext,
    thread: &Thread,
    problem_id: &str,
) -> (r: Option<NextStep>)
    ensures
        opt_view(r) == followup_thread_step(ctx@, thread@, problem_id@),
{
    if thread.status == ThreadStatus::Done && thread.joined_at.is_some() {
        return None;
    }
    if thread.status == ThreadStatus::Done {
        return Some(
            step(
                ctx,
                NextAction::JoinThread,
                Some(thread.id.as_str()),
                Some(problem_id),
                None,
                "Join the completed follow-up thread before re-checking the parent problem.",
                "follow-up thread is done but not joined",
            ),
        );
    }
    if thread.status == ThreadStatus::Failed || thread.status == ThreadStatus::Cancelled {
        return Some(
            step(
                ctx,
                NextAction::RecoverThread,
                Some(thread.id.as_str()),
                Some(problem_id),
                None,
                "Recover the failed follow-up thread before re-checking the parent problem.",
                "follow-up thread failed before closing its subtree",
            ),
        );
    }
    Some(
        step(
            ctx,
            NextAction::WaitThread,
            Some(thread.id.as_str()),
            Some(problem_id),
            None,
            "Wait for the follow-up thread to close its bound subtree, then join it.",
            "follow-up thread is still running",
        ),
    )
}

impl ClosureStateView {
    /// What a child problem asks of the current thread: to see to the thread that works on it, or
    /// to spawn one.
    pub open spec fn child_step(self, ctx: RuntimeContextView, child_id: Seq<char>) -> Option<
        NextStepView,
    > {
        if !self.problems.contains_key(child_id) {
            None
        } else {
            let child = self.problems[child_id];
            match self.thread_for_root_problem(child_id) {
                Some(thread) if thread.id != ctx.thread_id => child_thread_step(
                    ctx,
                    thread,
                    child_id,
                ),
                _ => if child.status != ProblemStatus::Done && child.owner_thread_id
                    == ctx.thread_id {
                    Some(
                        NextStepView::of(
                            ctx,
                            NextAction::SpawnThread,
                            None,
                            Some(child_id),
                            None,
                            "Spawn a child Qunux thread bound to this child problem subtree."@,
                            "child problem is not assigned to a child thread"@,
                        ),
                    )
                } else {
                    None
                },
            }
        }
    }

    pub open spec fn child_steps(self, ctx: RuntimeContextView) -> spec_fn(Seq<char>) -> Option<
        NextStepView,
    > {
        |child_id: Seq<char>| self.child_step(ctx, child_id)
    }

    /// What the ticket of a problem asks for.
    pub open spec fn ticket_step(self, ctx: RuntimeContextView, problem_id: Seq<char>) -> Option<
        NextStepView,
    > {
        let about = Some(problem_id);
        match self.problems[problem_id].ticket_id {
            None => Some(
                NextStepView::of(
                    ctx,
                    NextAction::CreateSolutionTicket,
                    None,
                    about,
                    None,
                    "Create exactly one solution ticket for this problem."@,
                    "problem has no solution ticket"@,
                ),
            ),
            Some(ticket_id) => if !self.tickets.contains_key(ticket_id) {
                None
            } else {
                let ticket = self.tickets[ticket_id];
                match ticket.status {
                    TicketStatus::Created => Some(
                        NextStepView::of(
                            ctx,
                            NextAction::DefineTicket,
                            None,
                            about,
                            Some(ticket_id),
                            "Complete the current ticket definition."@,
                            "ticket is created but not defined"@,
                        ),
                    ),
                    TicketStatus::Defined => Some(
                        NextStepView::of(
                            ctx,
                            NextAction::ClassifyTicket,
                            None,
                            about,
                            Some(ticket_id),
                            "Classify the ticket as one_go or split; prefer split unless the work is clearly bounded."@,
                            "ticket is defined but not classified"@,
                        ),
                    ),
                    TicketStatus::Classified => match ticket.classification {
                        Some(TicketClassification::OneGo) => Some(
                            NextStepView::of(
                                ctx,
                                NextAction::ExecuteTicket,
                                None,
                                about,
                                Some(ticket_id),
                                "Execute the ticket; record the actual result, or create a runtime-spawned child problem if execution discovers a blocking subprogram."@,
                                "ticket is classified one_go"@,
                            ),
                        ),
                        Some(TicketClassification::Split) => Some(
                            NextStepView::of(
                                ctx,
                                NextAction::SplitTicket,
                                None,
                                about,
                                Some(ticket_id),
                                "Move the ticket to splitting and create child problems."@,
                                "ticket is classified split"@,
                            ),
                        ),
                        None => Some(
                            NextStepView::of(
                                ctx,
                                NextAction::ClassifyTicket,
                                None,
                                about,
                                Some(ticket_id),
                                "Repair the missing ticket classification."@,
                                "ticket classification is missing"@,
                            ),
                        ),
                    },
                    TicketStatus::Executing => Some(
                        NextStepView::of(
                            ctx,
                            NextAction::RecordResult,
                            None,
                            about,
                            Some(ticket_id),
                            "Record the result for the current executing ticket, unless it still needs a runtime-spawned child problem."@,
                            "ticket is executing"@,
                        ),
                    ),
                    TicketStatus::Splitting => if self.child_problem_ids_from_ticket(
                        ticket_id,
                    ).len() == 0 {
                        Some(
                            NextStepView::of(
                                ctx,
                                NextAction::SplitTicket,
                                None,
                                about,
                                Some(ticket_id),
                                "Create at least one child problem from this splitting ticket."@,
                                "split ticket has no child problems"@,
                            ),
                        )
                    } else {
                        Some(
                            NextStepView::of(
                                ctx,
                                NextAction::RecordResult,
                                None,
                                about,
                                Some(ticket_id),
                                "Record the parent ticket summary result after all children created from this ticket are done."@,
                                "ticket children are closed"@,
                            ),
                        )
                    },
                    TicketStatus::Done => Some(
                        NextStepView::of(
                            ctx,
                            NextAction::CheckSuccess,
                            None,
                            about,
                            Some(ticket_id),
                            "Run strict problem-level check_success using recorded result IDs."@,
                            "ticket is done and problem needs success check"@,
                        ),
                    ),
                }
            },
        }
    }

    /// What an open problem of the current thread asks for: first its children are seen to, then
    /// its follow-ups, then its own ticket.
    pub open spec fn next_for_problem(
        self,
        ctx: RuntimeContextView,
        problem_id: Seq<char>,
    ) -> Option<NextStepView>
        decreases
                height(self.problems, problem_id),
                self.problems[problem_id].followup_problem_ids.len() + 1,
        when branching(self.problems)
    {
        if !self.problems.contains_key(problem_id) {
            None
        } else {
            let problem = self.problems[problem_id];
            if problem.owner_thread_id != ctx.thread_id || problem.status == ProblemStatus::Done {
                None
            } else {
                match first_some(problem.child_problem_ids, self.child_steps(ctx), 0) {
                    Some(step) => Some(step),
                    None => match self.followup_step(ctx, problem_id, 0) {
                        Some(step) => Some(step),
                        None => self.ticket_step(ctx, problem_id),
                    },
                }
            }
        }
    }

    /// What the follow-ups of a problem ask for, from place `i` on: the own ones by what is to be
    /// done on them, the others by the thread that works on them.
    pub open spec fn followup_step(
        self,
        ctx: RuntimeContextView,
        problem_id: Seq<char>,
        i: int,
    ) -> Option<NextStepView>
        decreases
                height(self.problems, problem_id),
                self.problems[problem_id].followup_problem_ids.len() - i,
        when branching(self.problems) && self.problems.contains_key(problem_id) && 0 <= i
        via Self::followup_step_decreases
    {
        let ids = self.problems[problem_id].followup_problem_ids;
        if i >= ids.len() {
            None
        } else {
            let id = ids[i];
            let found = if !self.problems.contains_key(id) {
                None
            } else if self.problems[id].owner_thread_id == ctx.thread_id {
                self.next_for_problem(ctx, id)
            } else {
                match self.thread_for_root_problem(id) {
                    Some(thread) => followup_thread_step(ctx, thread, id),
                    None => None,
                }
            };
            match found {
                Some(step) => Some(step),
                None => self.followup_step(ctx, problem_id, i + 1),
            }
        }
    }

    #[via_fn]
    proof fn followup_step_decreases(
        self,
        ctx: RuntimeContextView,
        problem_id: Seq<char>,
        i: int,
    ) {
        let ids = self.problems[problem_id].followup_problem_ids;
        if i < ids.len() {
            assert(below(self.problems[problem_id], ids[i]));
            lemma_height(self.problems, problem_id, ids[i]);
        }
    }

    /// What the problem asks for on which the current thread works; a thread that is not there
    /// works on the root problem.
    pub open spec fn next_for_current_root(self, ctx: RuntimeContextView) -> Option<NextStepView> {
        self.next_for_problem(ctx, self.current_root(ctx))
    }

    /// The problem on which the current thread works.
    pub open spec fn current_root(self, ctx: RuntimeContextView) -> Seq<char> {
        if self.threads.contains_key(ctx.thread_id) {
            self.threads[ctx.thread_id].root_problem_id
        } else {
            self.root_problem_id
        }
    }

    /// The step asks for a ticket on the root problem of the process, which needs none while there
    /// is nothing to do.
    pub open spec fn is_idle_root_step(self, ctx: RuntimeContextView, step: NextStepView) -> bool {
        &&& step.action == NextAction::CreateSolutionTicket
        &&& self.threads.contains_key(ctx.thread_id)
        &&& step.problem_id == Some(self.root_problem_id)
        &&& self.threads[ctx.thread_id].root_problem_id == self.root_problem_id
        &&& self.problems.contains_key(self.root_problem_id)
        &&& self.problems[self.root_problem_id].ticket_id is None
    }

    /// What the current thread can work on.
    pub open spec fn runnable_frontier(self, ctx: RuntimeContextView) -> Option<NextStepView> {
        match self.next_for_current_root(ctx) {
            Some(step) if !self.is_idle_root_step(ctx, step) => Some(step),
            _ => None,
        }
    }

    /// What keeps the current thread from waiting: anything it can work on but recording a result.
    pub open spec fn blocking_frontier(self, ctx: RuntimeContextView) -> Option<NextStepView> {
        match self.runnable_frontier(ctx) {
            Some(step) if step.action != NextAction::RecordResult => Some(step),
            _ => None,
        }
    }

    /// An inbox item that a thread has to see to.
    pub open spec fn pending_for(thread_id: Seq<char>) -> spec_fn(InboxItemView) -> bool {
        |item: InboxItemView|
            item.status == PassiveEventStatus::Inboxed && (item.target_thread_id is None
                || item.target_thread_id == Some(thread_id))
    }

    /// The first inbox item that the current thread has to see to.
    pub open spec fn next_pending_inbox(self, ctx: RuntimeContextView) -> Option<NextStepView> {
        if !self.threads.contains_key(ctx.thread_id) {
            None
        } else {
            let thread = self.threads[ctx.thread_id];
            match find_first(self.inbox, ClosureStateView::pending_for(thread.id)) {
                None => None,
                Some(item) => {
                    let summary = match self.event_index(item.passive_event_id) {
                        Some(i) => self.passive_events[i].summary,
                        None => item.summary,
                    };
                    Some(
                        NextStepView::of(
                            ctx,
                            NextAction::HandleInbox,
                            None,
                            Some(thread.root_problem_id),
                            None,
                            "Handle pending inbox item "@ + item.id + " from passive event "@
                                + item.passive_event_id + ": "@ + summary
                                + ". First triage the input. If it is actionable work (solve, implement, investigate, run, fix, design, review, or other durable task), prefer `qunux.scaffold_user_task` with this inbox item id, a child problem title/body, a default ticket title/body, and a handling note; then follow the next Qunux frontier. Use `qunux.ingest_user_task` only when the ticket must be authored separately. If it is pure small talk, acknowledgement, narrow meta question, clarification, or an explicit idle/wait instruction, emit any needed visible assistant reply in this turn, then call `qunux.ack_inbox` for "@
                                + item.id
                                + " so the same input is not dispatched again. `qunux.ack_inbox` is state-only and not visible to the user; do not claim a visible reply in the ack note unless one was actually emitted. If the right next step is waiting, call `qunux.wait` only after the inbox item is incorporated. Do not close the lifecycle root merely because the process is ready or idle."@,
                            "pending inbox item "@ + item.id + " can create a scheduler frontier"@,
                        ),
                    )
                },
            }
        }
    }

    /// Handles on passive events that have not come yet.
    pub open spec fn pending_passive(self) -> spec_fn(Seq<char>) -> bool {
        |id: Seq<char>|
            self.handles.contains_key(id) && self.handles[id].kind != IoHandleKind::ChildThread
                && self.handles[id].status == IoHandleStatus::Pending
    }

    /// Handles that have not come yet.
    pub open spec fn pending_any(self) -> spec_fn(Seq<char>) -> bool {
        |id: Seq<char>|
            self.handles.contains_key(id) && self.handles[id].status == IoHandleStatus::Pending
    }

    /// Waits of a thread that are held up by a passive handle.
    pub open spec fn parked_wait(self, thread_id: Seq<char>) -> spec_fn(ThreadWaitView) -> bool {
        |w: ThreadWaitView|
            w.thread_id == thread_id && w.status == WaitStatus::Waiting && find_index(
                w.handle_ids,
                self.pending_passive(),
            ) is Some
    }

    /// The wait on which the current thread is parked.
    pub open spec fn next_passive_io_wait(self, ctx: RuntimeContextView) -> Option<NextStepView> {
        if !self.threads.contains_key(ctx.thread_id) {
            None
        } else {
            let thread = self.threads[ctx.thread_id];
            if thread.status != ThreadStatus::WaitingIo {
                None
            } else {
                match find_first(values(self.waits), self.parked_wait(thread.id)) {
                    None => None,
                    Some(wait) => {
                        let what = match find_index(wait.handle_ids, self.pending_any()) {
                            Some(i) => self.handles[wait.handle_ids[i]].kind.name_view(),
                            None => "passive IO"@,
                        };
                        Some(
                            NextStepView::of(
                                ctx,
                                NextAction::WaitIo,
                                None,
                                Some(thread.root_problem_id),
                                None,
                                "Thread is parked on "@ + what
                                    + "; do not build LLM context until a passive event wakes this wait."@,
                                "thread "@ + thread.id + " has pending passive wait "@ + wait.id,
                            ),
                        )
                    },
                }
            }
        }
    }

    /// What the current thread has to do next: an inbox item goes first, then what it can work on,
    /// then the wait that it is parked on, then the idle root.
    pub open spec fn next(self, ctx: RuntimeContextView) -> NextStepView {
        match self.next_pending_inbox(ctx) {
            Some(step) => step,
            None => match self.runnable_frontier(ctx) {
                Some(step) => step,
                None => match self.next_passive_io_wait(ctx) {
                    Some(step) => step,
                    None => match self.next_for_current_root(ctx) {
                        Some(step) => step,
                        None => NextStepView::of(
                            ctx,
                            NextAction::NoAction,
                            None,
                            None,
                            None,
                            "No runnable Qunux action remains; validate, render, status, and summarize."@,
                            "current thread subtree is closed or waiting"@,
                        ),
                    },
                },
            },
        }
    }
}

impl ClosureState {
    fn child_step(&self, ctx: &RuntimeContext, child_id: &str) -> (r: Option<NextStep>)
        requires
            self.wf(),
        ensures
            opt_view(r) == self@.child_step(ctx@, child_id@),
    {
        let child = match self.problems.get(child_id) {
            Some(child) => child,
            None => {
                return None;
            },
        };
        if let Some(child_thread) = self.thread_for_root_problem(child_id) {
            if child_thread.id != ctx.thread_id {
                return step_for_child_thread(ctx, child_thread, child_id);
            }
        }
        if child.status == ProblemStatus::Done {
            return None;
        }
        if child.owner_thread_id == ctx.thread_id {
            return Some(
                step(
                    ctx,
                    NextAction::SpawnThread,
                    None,
                    Some(child_id),
                    None,
                    "Spawn a child Qunux thread bound to this child problem subtree.",
                    "child problem is not assigned to a child thread",
                ),
            );
        }
        None
    }

    fn ticket_step(&self, ctx: &RuntimeContext, problem_id: &str, problem: &Problem) -> (r: Option<
        NextStep,
    >)
        requires
            self.wf(),
            self@.problems.contains_key(problem_id@),
            problem@ == self@.problems[problem_id@],
        ensures
            opt_view(r) == self@.ticket_step(ctx@, problem_id@),
    {
        let about = Some(problem_id);
        let ticket_id = match &problem.ticket_id {
            Some(ticket_id) => ticket_id.as_str(),
            None => {
                return Some(
                    step(
                        ctx,
                        NextAction::CreateSolutionTicket,
                        None,
                        about,
                        None,
                        "Create exactly one solution ticket for this problem.",
                        "problem has no solution ticket",
                    ),
                );
            },
        };
        let ticket = match self.tickets.get(ticket_id) {
            Some(ticket) => ticket,
            None => {
                return None;
            },
        };
        let (action, instruction, reason) = match ticket.status {
            TicketStatus::Created => (
                NextAction::DefineTicket,
                "Complete the current ticket definition.",
                "ticket is created but not defined",
            ),
            TicketStatus::Defined => (
                NextAction::ClassifyTicket,
                "Classify the ticket as one_go or split; prefer split unless the work is clearly bounded.",
                "ticket is defined but not classified",
            ),
            TicketStatus::Classified => match ticket.classification {
                Some(TicketClassification::OneGo) => (
                    NextAction::ExecuteTicket,
                    "Execute the ticket; record the actual result, or create a runtime-spawned child problem if execution discovers a blocking subprogram.",
                    "ticket is classified one_go",
                ),
                Some(TicketClassification::Split) => (
                    NextAction::SplitTicket,
                    "Move the ticket to splitting and create child problems.",
                    "ticket is classified split",
                ),
                None => (
                    NextAction::ClassifyTicket,
                    "Repair the missing ticket classification.",
                    "ticket classification is missing",
                ),
            },
            TicketStatus::Executing => (
                NextAction::RecordResult,
                "Record the result for the current executing ticket, unless it still needs a runtime-spawned child problem.",
                "ticket is executing",
            ),
            TicketStatus::Splitting => {
                if self.child_problem_ids_from_ticket(ticket_id).is_empty() {
                    (
                        NextAction::SplitTicket,
                        "Create at least one child problem from this splitting ticket.",
                        "split ticket has no child problems",
                    )
                } else {
                    (
                        NextAction::RecordResult,
                        "Record the parent ticket summary result after all children created from this ticket are done.",
                        "ticket children are closed",
                    )
                }
            },
            TicketStatus::Done => (
                NextAction::CheckSuccess,
                "Run strict problem-level check_success using recorded result IDs.",
                "ticket is done and problem needs success check",
            ),
        };
        Some(step(ctx, action, None, about, Some(ticket_id), instruction, reason))
    }

    /// What an open problem of the current thread asks for.
    pub fn next_for_problem(&self, ctx: &RuntimeContext, problem_id: &str) -> (r: Option<NextStep>)
        requires
            self.wf(),
            branching(self@.problems),
        ensures
            opt_view(r) == self@.next_for_problem(ctx@, problem_id@),
        decreases height(self@.problems, problem_id@),
    {
        let problem = match self.problems.get(problem_id) {
            Some(problem) => problem,
            None => {
                return None;
            },
        };
        if problem.owner_thread_id != ctx.thread_id {
            return None;
        }
        if problem.status == ProblemStatus::Done {
            return None;
        }
        let mut i: usize = 0;
        while i < problem.child_problem_ids.len()
            invariant
                self.wf(),
                branching(self@.problems),
                i <= problem.child_problem_ids@.len(),
                self@.problems.contains_key(problem_id@),
                problem@ == self@.problems[problem_id@],
                problem@.owner_thread_id == ctx@.thread_id,
                problem@.status != ProblemStatus::Done,
                first_some(problem@.child_problem_ids, self@.child_steps(ctx@), 0) == first_some(
                    problem@.child_problem_ids,
                    self@.child_steps(ctx@),
                    i as int,
                ),
            decreases problem.child_problem_ids@.len() - i,
        {
            let found = self.child_step(ctx, problem.child_problem_ids[i].as_str());
            if found.is_some() {
                return found;
            }
            i = i + 1;
        }
        let mut k: usize = 0;
        while k < problem.followup_problem_ids.len()
            invariant
                self.wf(),
                branching(self@.problems),
                k <= problem.followup_problem_ids@.len(),
                self@.problems.contains_key(problem_id@),
                problem@ == self@.problems[problem_id@],
                problem@.owner_thread_id == ctx@.thread_id,
                problem@.status != ProblemStatus::Done,
                first_some(problem@.child_problem_ids, self@.child_steps(ctx@), 0) is None,
                self@.followup_step(ctx@, problem_id@, 0) == self@.followup_step(
                    ctx@,
                    problem_id@,
                    k as int,
                ),
            decreases problem.followup_problem_ids@.len() - k,
        {
            let followup_id = problem.followup_problem_ids[k].as_str();
            assert(followup_id@ == self@.problems[problem_id@].followup_problem_ids[k as int]);
            proof {
                assert(below(self@.problems[problem_id@], followup_id@));
                lemma_height(self@.problems, problem_id@, followup_id@);
            }
            if let Some(followup) = self.problems.get(followup_id) {
                if followup.owner_thread_id == ctx.thread_id {
                    let found = self.next_for_problem(ctx, followup_id);
                    if found.is_some() {
                        return found;
                    }
                } else if let Some(followup_thread) = self.thread_for_root_problem(followup_id) {
                    let found = step_for_followup_thread(ctx, followup_thread, followup_id);
                    if found.is_some() {
                        return found;
                    }
                }
            }
            k = k + 1;
        }
        self.ticket_step(ctx, problem_id, problem)
    }

    fn next_for_current_thread_root(&self, ctx: &RuntimeContext) -> (r: Option<NextStep>)
        requires
            self.wf(),
            branching(self@.problems),
        ensures
            opt_view(r) == self@.next_for_current_root(ctx@),
    {
        match self.threads.get(ctx.thread_id.as_str()) {
            Some(thread) => self.next_for_problem(ctx, thread.root_problem_id.as_str()),
            None => self.next_for_problem(ctx, self.root_problem_id.as_str()),
        }
    }

    fn is_bare_lifecycle_root_create_ticket(&self, ctx: &RuntimeContext, step: &NextStep) -> (r:
        bool)
        requires
            self.wf(),
        ensures
            r == self@.is_idle_root_step(ctx@, step@),
    {
        if step.action != NextAction::CreateSolutionTicket {
            return false;
        }
        let thread = match self.threads.get(ctx.thread_id.as_str()) {
            Some(thread) => thread,
            None => {
                return false;
            },
        };
        opt_is(&step.problem_id, self.root_problem_id.as_str()) && thread.root_problem_id
            == self.root_problem_id && (match self.problems.get(self.root_problem_id.as_str()) {
            Some(problem) => problem.ticket_id.is_none(),
            None => false,
        })
    }

    /// What the current thread can work on.
    pub fn runnable_frontier_for_current_thread(&self, ctx: &RuntimeContext) -> (r: Option<
        NextStep,
    >)
        requires
            self.wf(),
            branching(self@.problems),
        ensures
            opt_view(r) == self@.runnable_frontier(ctx@),
    {
        match self.next_for_current_thread_root(ctx) {
            Some(step) => if self.is_bare_lifecycle_root_create_ticket(ctx, &step) {
                None
            } else {
                Some(step)
            },
            None => None,
        }
    }

    /// What keeps the current thread from waiting.
    pub fn blocking_frontier_for_wait(&self, ctx: &RuntimeContext) -> (r: Option<NextStep>)
        requires
            self.wf(),
            branching(self@.problems),
        ensures
            opt_view(r) == self@.blocking_frontier(ctx@),
    {
        match self.runnable_frontier_for_current_thread(ctx) {
            Some(step) => if step.action != NextAction::RecordResult {
                Some(step)
            } else {
                None
            },
            None => None,
        }
    }

    fn next_pending_inbox(&self, ctx: &RuntimeContext) -> (r: Option<NextStep>)
        requires
            self.wf(),
        ensures
            opt_view(r) == self@.next_pending_inbox(ctx@),
    {
        let thread = match self.threads.get(ctx.thread_id.as_str()) {
            Some(thread) => thread,
            None => {
                return None;
            },
        };
        let pending = |item: &InboxItem| -> (b: bool)
            ensures
                b == (ClosureStateView::pending_for(thread@.id))(item@),
        {
            item.status == PassiveEventStatus::Inboxed && (item.target_thread_id.is_none()
                || opt_is(&item.target_thread_id, thread.id.as_str()))
        };
        let item = match position(
            &self.inbox,
            pending,
            Ghost(ClosureStateView::pending_for(thread@.id)),
        ) {
            Some(i) => &self.inbox[i],
            None => {
                return None;
            },
        };
        let summary = match self.event_index(item.passive_event_id.as_str()) {
            Some(i) => self.passive_events[i].summary.as_str(),
            None => item.summary.as_str(),
        };
        let instruction = cat9(
            "Handle pending inbox item ",
            item.id.as_str(),
            " from passive event ",
            item.passive_event_id.as_str(),
            ": ",
            summary,
            ". First triage the input. If it is actionable work (solve, implement, investigate, run, fix, design, review, or other durable task), prefer `qunux.scaffold_user_task` with this inbox item id, a child problem title/body, a default ticket title/body, and a handling note; then follow the next Qunux frontier. Use `qunux.ingest_user_task` only when the ticket must be authored separately. If it is pure small talk, acknowledgement, narrow meta question, clarification, or an explicit idle/wait instruction, emit any needed visible assistant reply in this turn, then call `qunux.ack_inbox` for ",
            item.id.as_str(),
            " so the same input is not dispatched again. `qunux.ack_inbox` is state-only and not visible to the user; do not claim a visible reply in the ack note unless one was actually emitted. If the right next step is waiting, call `qunux.wait` only after the inbox item is incorporated. Do not close the lifecycle root merely because the process is ready or idle.",
        );
        let reason = cat3(
            "pending inbox item ",
            item.id.as_str(),
            " can create a scheduler frontier",
        );
        Some(
            step(
                ctx,
                NextAction::HandleInbox,
                None,
                Some(thread.root_problem_id.as_str()),
                None,
                instruction.as_str(),
                reason.as_str(),
            ),
        )
    }

    fn next_passive_io_wait(&self, ctx: &RuntimeContext) -> (r: Option<NextStep>)
        requires
            self.wf(),
        ensures
            opt_view(r) == self@.next_passive_io_wait(ctx@),
    {
        let thread = match self.threads.get(ctx.thread_id.as_str()) {
            Some(thread) => thread,
            None => {
                return None;
            },
        };
        if thread.status != ThreadStatus::WaitingIo {
            return None;
        }
        let pending_passive = |id: &String| -> (b: bool)
            ensures
                b == (self@.pending_passive())(id@),
        {
            match self.handles.get(id.as_str()) {
                Some(handle) => handle.kind != IoHandleKind::ChildThread && handle.status
                    == IoHandleStatus::Pending,
                None => false,
            }
        };
        let pending_any = |id: &String| -> (b: bool)
            ensures
                b == (self@.pending_any())(id@),
        {
            match self.handles.get(id.as_str()) {
                Some(handle) => handle.status == IoHandleStatus::Pending,
                None => false,
            }
        };
        let parked = |w: &ThreadWait| -> (b: bool)
            ensures
                b == (self@.parked_wait(thread@.id))(w@),
        {
            w.thread_id == thread.id && w.status == WaitStatus::Waiting && position(
                &w.handle_ids,
                pending_passive,
                Ghost(self@.pending_passive()),
            ).is_some()
        };
        let wait = match self.waits.find(parked, Ghost(self@.parked_wait(thread@.id))) {
            Some(wait) => wait,
            None => {
                return None;
            },
        };
        let what = match position(&wait.handle_ids, pending_any, Ghost(self@.pending_any())) {
            Some(i) => {
                proof {
                    crate::search::lemma_find_from(wait@.handle_ids, self@.pending_any(), 0);
                }
                match self.handles.get(wait.handle_ids[i].as_str()) {
                    Some(handle) => handle.kind.name(),
                    None => "passive IO",
                }
            },
            None => "passive IO",
        };
        let instruction = cat3(
            "Thread is parked on ",
            what,
            "; do not build LLM context until a passive event wakes this wait.",
        );
        let reason = cat4(
            "thread ",
            thread.id.as_str(),
            " has pending passive wait ",
            wait.id.as_str(),
        );
        Some(
            step(
                ctx,
                NextAction::WaitIo,
                None,
                Some(thread.root_problem_id.as_str()),
                None,
                instruction.as_str(),
                reason.as_str(),
            ),
        )
    }

    /// What the current thread has to do next.
    pub fn next(&self, ctx: &RuntimeContext) -> (r: NextStep)
        requires
            self.wf(),
            branching(self@.problems),
        ensures
            r@ == self@.next(ctx@),
    {
        if let Some(inbox_step) = self.next_pending_inbox(ctx) {
            return inbox_step;
        }
        if let Some(frontier_step) = self.runnable_frontier_for_current_thread(ctx) {
            return frontier_step;
        }
        if let Some(wait_step) = self.next_passive_io_wait(ctx) {
            return wait_step;
        }
        match self.next_for_current_thread_root(ctx) {
            Some(step) => step,
            None => step(
                ctx,
                NextAction::NoAction,
                None,
                None,
                None,
                "No runnable Qunux action remains; validate, render, status, and summarize.",
                "current thread subtree is closed or waiting",
            ),
        }
    }
}

} // verus!
