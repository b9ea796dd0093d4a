//! The state at a glance: counts, lists and the problem tree as text.
use vstd::prelude::*;
use crate::context::{RuntimeContext, RuntimeContextView};
use crate::entities::{ClosureState, ClosureStateView, InboxItem, InboxItemView, IoHandle, IoHandleView, Problem, ProblemView, Thread, ThreadView};
use crate::forest::{branching, height, lemma_height, lemma_listed_below, listed, rooted};
use crate::kinds::{IoHandleStatus, PassiveEventStatus, ProblemStatus, ThreadStatus, TicketStatus};
use crate::reports::{CurrentState, CurrentStateView, RuntimeStatus, RuntimeStatusView};
use crate::search::{count, count_in};
use crate::strmap::{keys, values};
use crate::text::{cat2, cat7, cat9, group_views, views};
use crate::tickets::{classification_shown, show_classification};

verus! {

broadcast use group_views;

/// Threads that have not ended.
pub open spec fn running_threads() -> spec_fn(ThreadView) -> bool {
    |t: ThreadView| !t.status.is_terminal()
}

/// Threads that wait for children or for I/O.
pub open spec fn waiting_threads() -> spec_fn(ThreadView) -> bool {
    |t: ThreadView|
        t.status == ThreadStatus::WaitingChildren || t.status == ThreadStatus::WaitingIo
}

/// Threads with the given status.
pub open spec fn threads_that_are(status: ThreadStatus) -> spec_fn(ThreadView) -> bool {
    |t: ThreadView| t.status == status
}

/// Problems that are not done.
pub open spec fn open_problems() -> spec_fn(ProblemView) -> bool {
    |p: ProblemView| p.status != ProblemStatus::Done
}

/// Handles with the given status.
pub open spec fn handles_that_are(status: IoHandleStatus) -> spec_fn(IoHandleView) -> bool {
    |h: IoHandleView| h.status == status
}

/// Inbox items that nobody has seen to.
pub open spec fn pending_items() -> spec_fn(InboxItemView) -> bool {
    |item: InboxItemView| item.status == PassiveEventStatus::Inboxed
}

impl ClosureStateView {
    /// Counts over the state, seen from the current thread.
    pub open spec fn status(self, ctx: RuntimeContextView) -> RuntimeStatusView {
        RuntimeStatusView {
            process_id: ctx.process_id,
            thread_id: ctx.thread_id,
            thread_status: if self.threads.contains_key(ctx.thread_id) {
                self.threads[ctx.thread_id].status
            } else {
                ThreadStatus::Failed
            },
            root_problem_id: self.root_problem_id,
            thread_root_problem_id: self.current_root(ctx),
            total_threads: self.threads.len() as usize,
            open_threads: count(values(self.threads), running_threads()) as usize,
            total_problems: self.problems.len() as usize,
            open_problems: count(values(self.problems), open_problems()) as usize,
            total_tickets: self.tickets.len() as usize,
            total_results: self.results.len() as usize,
            total_checks: self.checks.len() as usize,
            total_handles: self.handles.len() as usize,
            pending_handles: count(
                values(self.handles),
                handles_that_are(IoHandleStatus::Pending),
            ) as usize,
            ready_handles: count(
                values(self.handles),
                handles_that_are(IoHandleStatus::Ready),
            ) as usize,
            failed_threads: count(
                values(self.threads),
                threads_that_are(ThreadStatus::Failed),
            ) as usize,
            failed_handles: count(
                values(self.handles),
                handles_that_are(IoHandleStatus::Failed),
            ) as usize,
            waiting_threads: count(values(self.threads), waiting_threads()) as usize,
            passive_events: self.passive_events.len() as usize,
            inbox_items: self.inbox.len() as usize,
            pending_inbox_items: count(self.inbox, pending_items()) as usize,
            valid: self.fault() is None,
        }
    }
}

/// The word for the status of a problem.
pub open spec fn problem_status_word(status: ProblemStatus) -> Seq<char> {
    match status {
        ProblemStatus::Todo => "todo"@,
        ProblemStatus::Doing => "doing"@,
        ProblemStatus::Checking => "checking"@,
        ProblemStatus::Followup => "followup"@,
        ProblemStatus::Done => "done"@,
    }
}

/// The word for the status of a problem.
pub fn status_name(status: ProblemStatus) -> (r: &'static str)
    ensures
        r@ == problem_status_word(status),
{
    match status {
        ProblemStatus::Todo => "todo",
        ProblemStatus::Doing => "doing",
        ProblemStatus::Checking => "checking",
        ProblemStatus::Followup => "followup",
        ProblemStatus::Done => "done",
    }
}

/// The word for the status of a ticket.
pub open spec fn ticket_status_word(status: TicketStatus) -> Seq<char> {
    match status {
        TicketStatus::Created => "created"@,
        TicketStatus::Defined => "defined"@,
        TicketStatus::Classified => "classified"@,
        TicketStatus::Executing => "executing"@,
        TicketStatus::Splitting => "splitting"@,
        TicketStatus::Done => "done"@,
    }
}

/// The word for the status of a ticket.
pub fn ticket_status_name(status: TicketStatus) -> (r: &'static str)
    ensures
        r@ == ticket_status_word(status),
{
    match status {
        TicketStatus::Created => "created",
        TicketStatus::Defined => "defined",
        TicketStatus::Classified => "classified",
        TicketStatus::Executing => "executing",
        TicketStatus::Splitting => "splitting",
        TicketStatus::Done => "done",
    }
}

impl ClosureStateView {
    /// The line of a problem.
    pub open spec fn problem_line(self, problem_id: Seq<char>, indent: Seq<char>) -> Seq<char> {
        let problem = self.problems[problem_id];
        indent + "- "@ + problem.id + " ["@ + problem_status_word(problem.status) + " owner="@
            + problem.owner_thread_id + "] "@ + (problem.title + "\n"@)
    }

    /// The line of the ticket of a problem, if it has one.
    pub open spec fn ticket_line(self, problem_id: Seq<char>, indent: Seq<char>) -> Seq<char> {
        match self.problems[problem_id].ticket_id {
            Some(ticket_id) if self.tickets.contains_key(ticket_id) => {
                let ticket = self.tickets[ticket_id];
                indent + "  ticket "@ + ticket.id + " ["@ + ticket_status_word(ticket.status)
                    + "] "@ + (classification_shown(ticket.classification) + "\n"@)
            },
            _ => Seq::empty(),
        }
    }

    /// The tree below a problem as text, each level two blanks further in.
    pub open spec fn rendered(self, problem_id: Seq<char>, indent: Seq<char>) -> Seq<char>
        decreases height(self.problems, problem_id), listed(self.problems[problem_id]).len() + 1,
        when branching(self.problems)
    {
        if !self.problems.contains_key(problem_id) {
            Seq::empty()
        } else {
            self.problem_line(problem_id, indent) + self.ticket_line(problem_id, indent)
                + self.rendered_below(problem_id, indent, 0)
        }
    }

    /// What a problem lists from place `i` on, as text.
    pub open spec fn rendered_below(
        self,
        problem_id: Seq<char>,
        indent: Seq<char>,
        i: int,
    ) -> Seq<char>
        decreases height(self.problems, problem_id), listed(self.problems[problem_id]).len() - i,
        when branching(self.problems) && self.problems.contains_key(problem_id) && 0 <= i
        via Self::rendered_below_decreases
    {
        let ids = listed(self.problems[problem_id]);
        if i >= ids.len() {
            Seq::empty()
        } else {
            self.rendered(ids[i], indent + "  "@) + self.rendered_below(problem_id, indent, i + 1)
        }
    }

    #[via_fn]
    proof fn rendered_below_decreases(self, problem_id: Seq<char>, indent: Seq<char>, i: int) {
        let ids = listed(self.problems[problem_id]);
        if i < ids.len() {
            lemma_listed_below(self.problems[problem_id], i);
            lemma_height(self.problems, problem_id, ids[i]);
        }
    }
}

impl ClosureState {
    /// Counts over the state, seen from the current thread.
    pub fn status(&self, ctx: &RuntimeContext) -> (r: RuntimeStatus)
        requires
            self.wf(),
            rooted(self@.problems),
        ensures
            r@ == self@.status(ctx@),
    {
        let (thread_status, thread_root_problem_id) = match self.threads.get(
            ctx.thread_id.as_str(),
        ) {
            Some(thread) => (thread.status, thread.root_problem_id.clone()),
            None => (ThreadStatus::Failed, self.root_problem_id.clone()),
        };
        let running = |t: &Thread| -> (b: bool)
            ensures
                b == (running_threads())(t@),
        {
            !t.status.is_terminal()
        };
        let waiting = |t: &Thread| -> (b: bool)
            ensures
                b == (waiting_threads())(t@),
        {
            t.status == ThreadStatus::WaitingChildren || t.status == ThreadStatus::WaitingIo
        };
        let failed = |t: &Thread| -> (b: bool)
            ensures
                b == (threads_that_are(ThreadStatus::Failed))(t@),
        {
            t.status == ThreadStatus::Failed
        };
        let unsolved = |p: &Problem| -> (b: bool)
            ensures
                b == (open_problems())(p@),
        {
            p.status != ProblemStatus::Done
        };
        let unseen = |item: &InboxItem| -> (b: bool)
            ensures
                b == (pending_items())(item@),
        {
            item.status == PassiveEventStatus::Inboxed
        };
        RuntimeStatus {
            process_id: ctx.process_id.clone(),
            thread_id: ctx.thread_id.clone(),
            thread_status,
            root_problem_id: self.root_problem_id.clone(),
            thread_root_problem_id,
            total_threads: self.threads.len(),
            open_threads: self.threads.count(running, Ghost(running_threads())),
            total_problems: self.problems.len(),
            open_problems: self.problems.count(unsolved, Ghost(open_problems())),
            total_tickets: self.tickets.len(),
            total_results: self.results.len(),
            total_checks: self.checks.len(),
            total_handles: self.handles.len(),
            pending_handles: self.count_handles(IoHandleStatus::Pending),
            ready_handles: self.count_handles(IoHandleStatus::Ready),
            failed_threads: self.threads.count(
                failed,
                Ghost(threads_that_are(ThreadStatus::Failed)),
            ),
            failed_handles: self.count_handles(IoHandleStatus::Failed),
            waiting_threads: self.threads.count(waiting, Ghost(waiting_threads())),
            passive_events: self.passive_events.len(),
            inbox_items: self.inbox.len(),
            pending_inbox_items: count_in(&self.inbox, unseen, Ghost(pending_items())),
            valid: self.validate().is_ok(),
        }
    }

    fn count_handles(&self, status: IoHandleStatus) -> (r: usize)
        requires
            self.wf(),
        ensures
            r == count(values(self@.handles), handles_that_are(status)),
    {
        let is_such = |h: &IoHandle| -> (b: bool)
            ensures
                b == (handles_that_are(status))(h@),
        {
            h.status == status
        };
        self.handles.count(is_such, Ghost(handles_that_are(status)))
    }

    /// Context, status and next step together.
    pub fn current(&self, ctx: &RuntimeContext) -> (r: CurrentState)
        requires
            self.wf(),
            rooted(self@.problems),
            branching(self@.problems),
        ensures
            r@ == (CurrentStateView {
                context: ctx@,
                status: self@.status(ctx@),
                next: self@.next(ctx@),
            }),
    {
        CurrentState { context: ctx.clone(), status: self.status(ctx), next: self.next(ctx) }
    }

    /// All threads, ascending.
    pub fn list_threads(&self) -> (r: Vec<Thread>)
        requires
            self.wf(),
        ensures
            views(r@) == values(self@.threads),
    {
        let mut out: Vec<Thread> = Vec::new();
        let n: usize = self.threads.len();
        let mut i: usize = 0;
        while i < n
            invariant
                self.wf(),
                n == keys(self@.threads).len(),
                n == values(self@.threads).len(),
                i <= n,
                views(out@) == values(self@.threads).take(i as int),
            decreases n - i,
        {
            out.push(self.threads.value_at(i).clone());
            i = i + 1;
            assert(views(out@) =~= values(self@.threads).take(i as int));
        }
        assert(values(self@.threads).take(n as int) =~= values(self@.threads));
        out
    }

    /// All handles, ascending.
    pub fn list_handles(&self) -> (r: Vec<IoHandle>)
        requires
            self.wf(),
        ensures
            views(r@) == values(self@.handles),
    {
        let mut out: Vec<IoHandle> = Vec::new();
        let n: usize = self.handles.len();
        let mut i: usize = 0;
        while i < n
            invariant
                self.wf(),
                n == keys(self@.handles).len(),
                n == values(self@.handles).len(),
                i <= n,
                views(out@) == values(self@.handles).take(i as int),
            decreases n - i,
        {
            out.push(self.handles.value_at(i).clone());
            i = i + 1;
            assert(views(out@) =~= values(self@.handles).take(i as int));
        }
        assert(values(self@.handles).take(n as int) =~= values(self@.handles));
        out
    }

    fn render_problem(&self, problem_id: &str, indent: &str, output: &mut String)
        requires
            self.wf(),
            branching(self@.problems),
        ensures
            final(output)@ == old(output)@ + self@.rendered(problem_id@, indent@),
        decreases height(self@.problems, problem_id@),
    {
        let ghost start = output@;
        let problem = match self.problems.get(problem_id) {
            Some(problem) => problem,
            None => {
                assert(start + Seq::<char>::empty() =~= start);
                return ;
            },
        };
        let title = cat2(problem.title.as_str(), "\n");
        let line = cat9(
            indent,
            "- ",
            problem.id.as_str(),
            " [",
            status_name(problem.status),
            " owner=",
            problem.owner_thread_id.as_str(),
            "] ",
            title.as_str(),
        );
        output.append(line.as_str());
        let ghost with_line = output@;
        assert(with_line == start + self@.problem_line(problem_id@, indent@));
        if let Some(ticket_id) = &problem.ticket_id {
            if let Some(ticket) = self.tickets.get(ticket_id.as_str()) {
                let class = show_classification(ticket.classification);
                let shown = cat2(class.as_str(), "\n");
                let line = cat7(
                    indent,
                    "  ticket ",
                    ticket.id.as_str(),
                    " [",
                    ticket_status_name(ticket.status),
                    "] ",
                    shown.as_str(),
                );
                output.append(line.as_str());
            }
        }
        let ghost head = output@;
        assert(head =~= with_line + self@.ticket_line(problem_id@, indent@));
        let inner = cat2(indent, "  ");
        let n: usize = problem.child_problem_ids.len();
        let mut i: usize = 0;
        while i < n
            invariant
                self.wf(),
                branching(self@.problems),
                self@.problems.contains_key(problem_id@),
                problem@ == self@.problems[problem_id@],
                n == problem.child_problem_ids@.len(),
                i <= n,
                inner@ == indent@ + "  "@,
                output@ + self@.rendered_below(problem_id@, indent@, i as int) == head
                    + self@.rendered_below(problem_id@, indent@, 0),
            decreases n - i,
        {
            let child_id = problem.child_problem_ids[i].as_str();
            proof {
                lemma_listed_below(problem@, i as int);
                lemma_height(self@.problems, problem_id@, listed(problem@)[i as int]);
                assert(child_id@ == listed(problem@)[i as int]);
                assert((output@ + self@.rendered(child_id@, inner@)) + self@.rendered_below(
                    problem_id@,
                    indent@,
                    i + 1,
                ) =~= output@ + (self@.rendered(child_id@, inner@) + self@.rendered_below(
                    problem_id@,
                    indent@,
                    i + 1,
                )));
            }
            self.render_problem(child_id, inner.as_str(), output);
            i = i + 1;
        }
        let m: usize = problem.followup_problem_ids.len();
        let mut k: usize = 0;
        while k < m
            invariant
                self.wf(),
                branching(self@.problems),
                self@.problems.contains_key(problem_id@),
                problem@ == self@.problems[problem_id@],
                n == problem.child_problem_ids@.len(),
                m == problem.followup_problem_ids@.len(),
                k <= m,
                inner@ == indent@ + "  "@,
                output@ + self@.rendered_below(problem_id@, indent@, n + k) == head
                    + self@.rendered_below(problem_id@, indent@, 0),
            decreases m - k,
        {
            let child_id = problem.followup_problem_ids[k].as_str();
            proof {
                lemma_listed_below(problem@, n + k);
                lemma_height(self@.problems, problem_id@, listed(problem@)[n + k]);
                assert(child_id@ == listed(problem@)[n + k]);
                assert((output@ + self@.rendered(child_id@, inner@)) + self@.rendered_below(
                    problem_id@,
                    indent@,
                    n + k + 1,
                ) =~= output@ + (self@.rendered(child_id@, inner@) + self@.rendered_below(
                    problem_id@,
                    indent@,
                    n + k + 1,
                )));
            }
            self.render_problem(child_id, inner.as_str(), output);
            k = k + 1;
        }
        proof {
            assert(output@ + Seq::<char>::empty() =~= output@);
            assert(start + self@.rendered(problem_id@, indent@) =~= head + self@.rendered_below(
                problem_id@,
                indent@,
                0,
            ));
        }
    }

    /// The problem tree as text.
    pub fn render(&self) -> (r: String)
        requires
            self.wf(),
            branching(self@.problems),
        ensures
            r@ == self@.rendered(self@.root_problem_id, ""@),
    {
        let mut output = String::new();
        self.render_problem(self.root_problem_id.as_str(), "", &mut output);
        assert(Seq::<char>::empty() + self@.rendered(self@.root_problem_id, ""@)
            =~= self@.rendered(self@.root_problem_id, ""@));
        output
    }
}

} // verus!
