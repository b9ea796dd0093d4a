//! What is asked for next fits what is there, and comes in its order.
use vstd::prelude::*;
use crate::context::RuntimeContextView;
use crate::entities::ClosureStateView;
use crate::forest::{below, branching, height, lemma_height};
use crate::frontier::first_some;
use crate::kinds::{IoHandleKind, IoHandleStatus, NextAction, NextDisposition, PassiveEventStatus, ProblemStatus, ThreadStatus, TicketClassification, TicketStatus, WaitStatus};
use crate::lookup::{bound_to, made_from_ticket};
use crate::order::lex_lt;
use crate::reports::{NextStepView, WaitSpecView};
use crate::search::{find_from, lemma_find_from, lemma_kept, select};
use crate::strmap::{keys, lemma_listed, values};

verus! {

/// The thread that works on a problem is the first that is bound to it and was not recovered; none
/// is found exactly if there is none.
pub proof fn law_bound_thread_is_found(s: ClosureStateView, problem_id: Seq<char>)
    requires
        s.threads.dom().finite(),
    ensures
        match s.thread_for_root_problem(problem_id) {
            Some(thread) => exists|k: Seq<char>| #[trigger]
                s.threads.contains_key(k) && s.threads[k] == thread && thread.root_problem_id
                    == problem_id && thread.status != ThreadStatus::Recovered && forall|
                    other: Seq<char>,
                | #[trigger]
                    s.threads.contains_key(other) && s.threads[other].root_problem_id == problem_id
                        && s.threads[other].status != ThreadStatus::Recovered ==> other == k
                        || lex_lt(k, other),
            None => forall|k: Seq<char>| #[trigger]
                s.threads.contains_key(k) ==> s.threads[k].root_problem_id != problem_id
                    || s.threads[k].status == ThreadStatus::Recovered,
        },
{
    let f = bound_to(problem_id);
    let ks = keys(s.threads);
    let vs = values(s.threads);
    lemma_listed(s.threads);
    lemma_find_from(vs, f, 0);
    match find_from(vs, f, 0) {
        Some(i) => {
            let k = ks[i];
            assert(s.threads.contains_key(k));
            assert forall|other: Seq<char>| #[trigger]
                s.threads.contains_key(other) && s.threads[other].root_problem_id == problem_id
                    && s.threads[other].status != ThreadStatus::Recovered implies other == k
                || lex_lt(k, other) by {
                let j = ks.index_of(other);
                assert(ks[j] == other);
                assert(f(vs[j]));
                if j < i {
                    assert(!f(vs[j]));
                }
                if i < j {
                    assert(lex_lt(ks[i], ks[j]));
                }
            }
        },
        None => {
            assert forall|k: Seq<char>| #[trigger] s.threads.contains_key(k) implies
                s.threads[k].root_problem_id != problem_id || s.threads[k].status
                == ThreadStatus::Recovered by {
                let j = ks.index_of(k);
                assert(ks[j] == k);
                assert(!f(vs[j]));
            }
        },
    }
}

/// A problem came out of a ticket.
pub open spec fn has_child_problems(s: ClosureStateView, ticket_id: Seq<char>) -> bool {
    exists|id: Seq<char>| #[trigger]
        s.problems.contains_key(id) && s.problems[id].created_from_ticket_id == Some(ticket_id)
}

/// The problems that came out of a ticket are found exactly if there are any.
pub proof fn law_children_of_a_ticket_are_found(s: ClosureStateView, ticket_id: Seq<char>)
    requires
        s.problems.dom().finite(),
    ensures
        s.child_problem_ids_from_ticket(ticket_id).len() > 0 <==> has_child_problems(s, ticket_id),
        forall|id: Seq<char>|
            s.problems.contains_key(id) && s.problems[id].id == id
                && s.problems[id].created_from_ticket_id == Some(ticket_id)
                ==> #[trigger] s.child_problem_ids_from_ticket(ticket_id).contains(id),
        forall|id: Seq<char>| #[trigger]
            s.child_problem_ids_from_ticket(ticket_id).contains(id) ==> exists|k: Seq<char>|
                #[trigger] s.problems.contains_key(k) && s.problems[k].id == id
                    && s.problems[k].created_from_ticket_id == Some(ticket_id),
{
    let f = made_from_ticket(ticket_id);
    let ks = keys(s.problems);
    let vs = values(s.problems);
    let found = select(vs, f);
    let ids = s.child_problem_ids_from_ticket(ticket_id);
    lemma_listed(s.problems);
    lemma_kept(vs, f, vs.len() as int);
    if has_child_problems(s, ticket_id) {
        let id = choose|id: Seq<char>| #[trigger]
            s.problems.contains_key(id) && s.problems[id].created_from_ticket_id == Some(ticket_id);
        let k = ks.index_of(id);
        assert(ks[k] == id);
        assert(f(vs[k]));
        assert(found.contains(vs[k]));
    }
    if ids.len() > 0 {
        assert(found.contains(found[0]));
        let k = vs.index_of(found[0]);
        assert(s.problems.contains_key(ks[k]));
    }
    assert forall|id: Seq<char>|
        s.problems.contains_key(id) && s.problems[id].id == id
            && s.problems[id].created_from_ticket_id == Some(ticket_id) implies #[trigger] ids.contains(
        id,
    ) by {
        let k = ks.index_of(id);
        assert(ks[k] == id);
        assert(f(vs[k]));
        let i = found.index_of(vs[k]);
        assert(found.contains(vs[k]));
        assert(ids[i] == id);
    }
    assert forall|id: Seq<char>| #[trigger] ids.contains(id) implies exists|k: Seq<char>| #[trigger]
        s.problems.contains_key(k) && s.problems[k].id == id && s.problems[k].created_from_ticket_id
            == Some(ticket_id) by {
        let i = ids.index_of(id);
        assert(found.contains(found[i]));
        let k = vs.index_of(found[i]);
        assert(s.problems.contains_key(ks[k]));
    }
}

/// The step is about a thread that works on a problem, and asks for what the thread needs: to be
/// joined once it is done, to be recovered once it failed or was cancelled, and to be waited for
/// before.
pub open spec fn fits_thread(s: ClosureStateView, step: NextStepView) -> bool {
    exists|k: Seq<char>| #[trigger]
        s.threads.contains_key(k) && {
            let thread = s.threads[k];
            &&& step.target_thread_id == Some(thread.id)
            &&& step.problem_id == Some(thread.root_problem_id)
            &&& step.ticket_id is None
            &&& thread.status != ThreadStatus::Recovered
            &&& match thread.status {
                ThreadStatus::Done => step.action == NextAction::JoinThread
                    && thread.joined_at is None,
                ThreadStatus::Failed | ThreadStatus::Cancelled => step.action
                    == NextAction::RecoverThread,
                _ => step.action == NextAction::WaitThread,
            }
        }
}

/// The step is about an open problem of the acting thread and asks for what its ticket needs.
pub open spec fn fits_ticket(s: ClosureStateView, ctx: RuntimeContextView, step: NextStepView) -> bool {
    &&& step.target_thread_id is None
    &&& step.problem_id matches Some(p) && s.problems.contains_key(p) && {
        let problem = s.problems[p];
        &&& problem.owner_thread_id == ctx.thread_id
        &&& problem.status != ProblemStatus::Done
        &&& step.ticket_id == problem.ticket_id
        &&& match problem.ticket_id {
            None => step.action == NextAction::CreateSolutionTicket,
            Some(t) => s.tickets.contains_key(t) && {
                let ticket = s.tickets[t];
                match step.action {
                    NextAction::DefineTicket => ticket.status == TicketStatus::Created,
                    NextAction::ClassifyTicket => ticket.status == TicketStatus::Defined || (
                    ticket.status == TicketStatus::Classified && ticket.classification is None),
                    NextAction::ExecuteTicket => ticket.status == TicketStatus::Classified
                        && ticket.classification == Some(TicketClassification::OneGo),
                    NextAction::SplitTicket => (ticket.status == TicketStatus::Classified
                        && ticket.classification == Some(TicketClassification::Split)) || (
                    ticket.status == TicketStatus::Splitting && !has_child_problems(s, t)),
                    NextAction::RecordResult => ticket.status == TicketStatus::Executing || (
                    ticket.status == TicketStatus::Splitting && has_child_problems(s, t)),
                    NextAction::CheckSuccess => ticket.status == TicketStatus::Done,
                    _ => false,
                }
            },
        }
    }
}

/// The step is about an open problem of the acting thread on which no other thread works, and asks
/// for one.
pub open spec fn fits_child(s: ClosureStateView, ctx: RuntimeContextView, step: NextStepView) -> bool {
    &&& step.action == NextAction::SpawnThread
    &&& step.target_thread_id is None
    &&& step.ticket_id is None
    &&& step.problem_id matches Some(p) && s.problems.contains_key(p)
        && s.problems[p].owner_thread_id == ctx.thread_id && s.problems[p].status
        != ProblemStatus::Done && (forall|k: Seq<char>| #[trigger]
        s.threads.contains_key(k) && s.threads[k].root_problem_id == p && s.threads[k].status
            != ThreadStatus::Recovered && s.threads[k].id != ctx.thread_id ==> exists|j: Seq<char>|
            #[trigger] s.threads.contains_key(j) && s.threads[j].root_problem_id == p
                && s.threads[j].id == ctx.thread_id)
}

/// The step is one on a problem and fits the state.
pub open spec fn fits(s: ClosureStateView, ctx: RuntimeContextView, step: NextStepView) -> bool {
    &&& step.thread_id == ctx.thread_id
    &&& step.disposition == if step.action == NextAction::WaitThread {
        NextDisposition::IoWait
    } else {
        NextDisposition::Runnable
    }
    &&& fits_thread(s, step) || fits_ticket(s, ctx, step) || fits_child(s, ctx, step)
}

proof fn lemma_child_fits(s: ClosureStateView, ctx: RuntimeContextView, child_id: Seq<char>)
    requires
        s.threads.dom().finite(),
    ensures
        s.child_step(ctx, child_id) matches Some(step) ==> fits(s, ctx, step),
{
    law_bound_thread_is_found(s, child_id);
    if let Some(step) = s.child_step(ctx, child_id) {
        if let Some(thread) = s.thread_for_root_problem(child_id) {
            let k = choose|k: Seq<char>| #[trigger]
                s.threads.contains_key(k) && s.threads[k] == thread && thread.root_problem_id
                    == child_id && thread.status != ThreadStatus::Recovered;
            assert(s.threads.contains_key(k));
            if thread.id != ctx.thread_id {
                assert(fits_thread(s, step));
            } else {
                assert(fits_child(s, ctx, step));
            }
        } else {
            assert(fits_child(s, ctx, step));
        }
    }
}

proof fn lemma_children_fit(
    s: ClosureStateView,
    ctx: RuntimeContextView,
    ids: Seq<Seq<char>>,
    i: int,
)
    requires
        s.threads.dom().finite(),
    ensures
        first_some(ids, s.child_steps(ctx), i) matches Some(step) ==> fits(s, ctx, step),
    decreases ids.len() - i,
{
    if 0 <= i < ids.len() {
        lemma_child_fits(s, ctx, ids[i]);
        lemma_children_fit(s, ctx, ids, i + 1);
    }
}

proof fn lemma_ticket_fits(s: ClosureStateView, ctx: RuntimeContextView, id: Seq<char>)
    requires
        s.problems.dom().finite(),
        s.problems.contains_key(id),
        s.problems[id].owner_thread_id == ctx.thread_id,
        s.problems[id].status != ProblemStatus::Done,
    ensures
        s.ticket_step(ctx, id) matches Some(step) ==> fits(s, ctx, step),
{
    if let Some(t) = s.problems[id].ticket_id {
        law_children_of_a_ticket_are_found(s, t);
    }
    if let Some(step) = s.ticket_step(ctx, id) {
        assert(fits_ticket(s, ctx, step));
    }
}

proof fn lemma_problem_fits(s: ClosureStateView, ctx: RuntimeContextView, id: Seq<char>)
    requires
        s.threads.dom().finite(),
        s.problems.dom().finite(),
        branching(s.problems),
    ensures
        s.next_for_problem(ctx, id) matches Some(step) ==> fits(s, ctx, step),
    decreases height(s.problems, id), s.problems[id].followup_problem_ids.len() + 1,
{
    if s.problems.contains_key(id) && s.problems[id].owner_thread_id == ctx.thread_id
        && s.problems[id].status != ProblemStatus::Done {
        lemma_children_fit(s, ctx, s.problems[id].child_problem_ids, 0);
        lemma_followups_fit(s, ctx, id, 0);
        lemma_ticket_fits(s, ctx, id);
    }
}

proof fn lemma_followups_fit(s: ClosureStateView, ctx: RuntimeContextView, id: Seq<char>, i: int)
    requires
        s.threads.dom().finite(),
        s.problems.dom().finite(),
        branching(s.problems),
        s.problems.contains_key(id),
        0 <= i,
    ensures
        s.followup_step(ctx, id, i) matches Some(step) ==> fits(s, ctx, step),
    decreases height(s.problems, id), s.problems[id].followup_problem_ids.len() - i,
{
    let ids = s.problems[id].followup_problem_ids;
    if i < ids.len() {
        assert(below(s.problems[id], ids[i]));
        lemma_height(s.problems, id, ids[i]);
        lemma_problem_fits(s, ctx, ids[i]);
        lemma_followups_fit(s, ctx, id, i + 1);
        law_bound_thread_is_found(s, ids[i]);
        if let Some(thread) = s.thread_for_root_problem(ids[i]) {
            let k = choose|k: Seq<char>| #[trigger]
                s.threads.contains_key(k) && s.threads[k] == thread && thread.root_problem_id
                    == ids[i] && thread.status != ThreadStatus::Recovered;
            assert(s.threads.contains_key(k));
            if let Some(step) = crate::frontier::followup_thread_step(ctx, thread, ids[i]) {
                assert(fits_thread(s, step));
            }
        }
    }
}

/// A thread waits for something from outside that has not come.
pub open spec fn is_parked(s: ClosureStateView, thread_id: Seq<char>) -> bool {
    exists|w: Seq<char>, i: int|
        s.waits.contains_key(w) && s.waits[w].thread_id == thread_id && s.waits[w].status
            == WaitStatus::Waiting && 0 <= i < s.waits[w].handle_ids.len()
            && s.handles.contains_key(#[trigger] s.waits[w].handle_ids[i])
            && s.handles[s.waits[w].handle_ids[i]].kind != IoHandleKind::ChildThread
            && s.handles[s.waits[w].handle_ids[i]].status == IoHandleStatus::Pending
}

proof fn lemma_parked_step(s: ClosureStateView, ctx: RuntimeContextView)
    requires
        s.waits.dom().finite(),
    ensures
        s.next_passive_io_wait(ctx) is Some <==> s.threads.contains_key(ctx.thread_id)
            && s.threads[ctx.thread_id].status == ThreadStatus::WaitingIo && is_parked(
            s,
            s.threads[ctx.thread_id].id,
        ),
        s.next_passive_io_wait(ctx) matches Some(step) ==> step.action == NextAction::WaitIo
            && step.disposition == NextDisposition::IoWait && step.thread_id == ctx.thread_id
            && step.target_thread_id is None && step.ticket_id is None && step.problem_id == Some(
            s.threads[ctx.thread_id].root_problem_id,
        ),
{
    if s.threads.contains_key(ctx.thread_id) {
        let id = s.threads[ctx.thread_id].id;
        let f = s.parked_wait(id);
        let ks = keys(s.waits);
        let vs = values(s.waits);
        lemma_listed(s.waits);
        lemma_find_from(vs, f, 0);
        if is_parked(s, id) {
            let (w, i) = choose|w: Seq<char>, i: int|
                s.waits.contains_key(w) && s.waits[w].thread_id == id && s.waits[w].status
                    == WaitStatus::Waiting && 0 <= i < s.waits[w].handle_ids.len()
                    && s.handles.contains_key(#[trigger] s.waits[w].handle_ids[i])
                    && s.handles[s.waits[w].handle_ids[i]].kind != IoHandleKind::ChildThread
                    && s.handles[s.waits[w].handle_ids[i]].status == IoHandleStatus::Pending;
            let k = ks.index_of(w);
            assert(ks[k] == w);
            lemma_find_from(s.waits[w].handle_ids, s.pending_passive(), 0);
            assert(s.pending_passive()(s.waits[w].handle_ids[i]));
            assert(f(vs[k]));
        }
        if let Some(at) = find_from(vs, f, 0) {
            let w = ks[at];
            lemma_find_from(s.waits[w].handle_ids, s.pending_passive(), 0);
            let i = find_from(s.waits[w].handle_ids, s.pending_passive(), 0)->0;
            assert(s.waits.contains_key(w));
            assert(s.handles.contains_key(s.waits[w].handle_ids[i]));
        }
    }
}

/// Whatever a thread is asked to do next fits the state: an inbox item is waiting, a thread below
/// is to be joined, recovered or waited for, an open problem of its own needs a thread or what its
/// ticket calls for; or it waits for something from outside; or nothing is asked for.
pub proof fn law_next_fits_the_state(s: ClosureStateView, ctx: RuntimeContextView)
    requires
        s.threads.dom().finite(),
        s.problems.dom().finite(),
        s.waits.dom().finite(),
        branching(s.problems),
    ensures
        ({
            let step = s.next(ctx);
            &&& step.thread_id == ctx.thread_id
            &&& match step.action {
                NextAction::HandleInbox => step.disposition == NextDisposition::Runnable
                    && step.ticket_id is None && step.target_thread_id is None
                    && s.threads.contains_key(ctx.thread_id) && step.problem_id == Some(
                    s.threads[ctx.thread_id].root_problem_id,
                ) && exists|i: int|
                    0 <= i < s.inbox.len() && (#[trigger] s.inbox[i]).status
                        == PassiveEventStatus::Inboxed && (s.inbox[i].target_thread_id is None
                        || s.inbox[i].target_thread_id == Some(s.threads[ctx.thread_id].id)),
                NextAction::WaitIo => step.disposition == NextDisposition::IoWait
                    && s.threads.contains_key(ctx.thread_id) && s.threads[ctx.thread_id].status
                    == ThreadStatus::WaitingIo && is_parked(s, s.threads[ctx.thread_id].id),
                NextAction::NoAction => step.disposition == NextDisposition::Terminal
                    && step.problem_id is None && step.ticket_id is None
                    && step.target_thread_id is None,
                _ => fits(s, ctx, step),
            }
        }),
{
    lemma_problem_fits(s, ctx, s.current_root(ctx));
    lemma_parked_step(s, ctx);
    if s.threads.contains_key(ctx.thread_id) {
        let f = ClosureStateView::pending_for(s.threads[ctx.thread_id].id);
        lemma_find_from(s.inbox, f, 0);
        if let Some(i) = find_from(s.inbox, f, 0) {
            assert(f(s.inbox[i]));
        }
    }
}

/// Nothing is asked for on behalf of a problem below: it is not there, another thread was joined on
/// it, or no other thread works on it and it is closed or belongs to another thread.
pub open spec fn child_is_quiet(s: ClosureStateView, ctx: RuntimeContextView, id: Seq<char>) -> bool {
    s.problems.contains_key(id) ==> match s.thread_for_root_problem(id) {
        Some(thread) if thread.id != ctx.thread_id => thread.status == ThreadStatus::Done
            && thread.joined_at is Some,
        _ => s.problems[id].status == ProblemStatus::Done || s.problems[id].owner_thread_id
            != ctx.thread_id,
    }
}

/// Nothing is asked for on behalf of a follow-up: it is not there, it is the thread's own and
/// closed, or it is another's and no thread works on it or that thread was joined.
pub open spec fn followup_is_quiet(s: ClosureStateView, ctx: RuntimeContextView, id: Seq<char>) -> bool {
    s.problems.contains_key(id) ==> if s.problems[id].owner_thread_id == ctx.thread_id {
        s.problems[id].status == ProblemStatus::Done
    } else {
        s.thread_for_root_problem(id) matches Some(thread) ==> thread.status == ThreadStatus::Done
            && thread.joined_at is Some
    }
}

proof fn lemma_quiet_children(
    s: ClosureStateView,
    ctx: RuntimeContextView,
    ids: Seq<Seq<char>>,
    from: int,
    n: int,
)
    requires
        0 <= from <= n <= ids.len(),
        forall|i: int| from <= i < n ==> child_is_quiet(s, ctx, #[trigger] ids[i]),
    ensures
        first_some(ids, s.child_steps(ctx), from) == first_some(ids, s.child_steps(ctx), n),
    decreases n - from,
{
    if from < n {
        assert(child_is_quiet(s, ctx, ids[from]));
        assert(s.child_step(ctx, ids[from]) is None);
        lemma_quiet_children(s, ctx, ids, from + 1, n);
    }
}

proof fn lemma_quiet_followups(
    s: ClosureStateView,
    ctx: RuntimeContextView,
    id: Seq<char>,
    from: int,
    n: int,
)
    requires
        branching(s.problems),
        s.problems.contains_key(id),
        0 <= from <= n <= s.problems[id].followup_problem_ids.len(),
        forall|i: int|
            from <= i < n ==> followup_is_quiet(
                s,
                ctx,
                #[trigger] s.problems[id].followup_problem_ids[i],
            ),
    ensures
        s.followup_step(ctx, id, from) == s.followup_step(ctx, id, n),
    decreases n - from,
{
    if from < n {
        let f = s.problems[id].followup_problem_ids[from];
        assert(followup_is_quiet(s, ctx, f));
        if s.problems.contains_key(f) && s.problems[f].owner_thread_id == ctx.thread_id {
            assert(s.next_for_problem(ctx, f) is None);
        }
        lemma_quiet_followups(s, ctx, id, from + 1, n);
    }
}

impl ClosureStateView {
    /// The acting thread is there and works on this open problem of its own, and nothing in the
    /// inbox is for it.
    pub open spec fn works_on(self, ctx: RuntimeContextView, root: Seq<char>) -> bool {
        &&& branching(self.problems)
        &&& self.threads.dom().finite()
        &&& self.problems.dom().finite()
        &&& self.waits.dom().finite()
        &&& self.threads.contains_key(ctx.thread_id)
        &&& self.threads[ctx.thread_id].root_problem_id == root
        &&& self.problems.contains_key(root)
        &&& self.problems[root].owner_thread_id == ctx.thread_id
        &&& self.problems[root].status != ProblemStatus::Done
        &&& forall|i: int|
            0 <= i < self.inbox.len() ==> (#[trigger] self.inbox[i]).status
                != PassiveEventStatus::Inboxed || (self.inbox[i].target_thread_id is Some
                && self.inbox[i].target_thread_id != Some(self.threads[ctx.thread_id].id))
    }
}

proof fn lemma_no_inbox(s: ClosureStateView, ctx: RuntimeContextView, root: Seq<char>)
    requires
        s.works_on(ctx, root),
    ensures
        s.next_pending_inbox(ctx) is None,
{
    let f = ClosureStateView::pending_for(s.threads[ctx.thread_id].id);
    lemma_find_from(s.inbox, f, 0);
    if let Some(i) = find_from(s.inbox, f, 0) {
        assert(f(s.inbox[i]));
    }
}

/// Where nothing in the inbox is for a thread and no problem below its own asks for anything, what
/// it is asked to do next is fixed by the ticket of its problem. Only a thread on the root of the
/// process that has no ticket may instead wait for something from outside.
pub proof fn law_next_follows_the_ticket(s: ClosureStateView, ctx: RuntimeContextView, root: Seq<char>)
    requires
        s.works_on(ctx, root),
        forall|i: int|
            0 <= i < s.problems[root].child_problem_ids.len() ==> child_is_quiet(
                s,
                ctx,
                #[trigger] s.problems[root].child_problem_ids[i],
            ),
        forall|i: int|
            0 <= i < s.problems[root].followup_problem_ids.len() ==> followup_is_quiet(
                s,
                ctx,
                #[trigger] s.problems[root].followup_problem_ids[i],
            ),
    ensures
        ({
            let step = s.next(ctx);
            match s.problems[root].ticket_id {
                None => if root == s.root_problem_id && s.threads[ctx.thread_id].status
                    == ThreadStatus::WaitingIo && is_parked(s, s.threads[ctx.thread_id].id) {
                    step.action == NextAction::WaitIo
                } else {
                    step.action == NextAction::CreateSolutionTicket && step.problem_id == Some(root)
                        && step.ticket_id is None
                },
                Some(t) => s.tickets.contains_key(t) ==> step.problem_id == Some(root)
                    && step.ticket_id == Some(t) && step.action == match s.tickets[t].status {
                    TicketStatus::Created => NextAction::DefineTicket,
                    TicketStatus::Defined => NextAction::ClassifyTicket,
                    TicketStatus::Classified => match s.tickets[t].classification {
                        Some(TicketClassification::OneGo) => NextAction::ExecuteTicket,
                        Some(TicketClassification::Split) => NextAction::SplitTicket,
                        None => NextAction::ClassifyTicket,
                    },
                    TicketStatus::Executing => NextAction::RecordResult,
                    TicketStatus::Splitting => if has_child_problems(s, t) {
                        NextAction::RecordResult
                    } else {
                        NextAction::SplitTicket
                    },
                    TicketStatus::Done => NextAction::CheckSuccess,
                },
            }
        }),
{
    let problem = s.problems[root];
    let children = problem.child_problem_ids;
    lemma_no_inbox(s, ctx, root);
    lemma_quiet_children(s, ctx, children, 0, children.len() as int);
    lemma_quiet_followups(s, ctx, root, 0, problem.followup_problem_ids.len() as int);
    lemma_parked_step(s, ctx);
    if let Some(t) = problem.ticket_id {
        law_children_of_a_ticket_are_found(s, t);
    }
}

/// The first child that asks for something goes before the follow-ups and the ticket: a thread on it
/// is to be joined, recovered or waited for; without one a thread is to be spawned.
pub proof fn law_next_follows_the_first_child(
    s: ClosureStateView,
    ctx: RuntimeContextView,
    root: Seq<char>,
    at: int,
)
    requires
        s.works_on(ctx, root),
        0 <= at < s.problems[root].child_problem_ids.len(),
        forall|i: int|
            0 <= i < at ==> child_is_quiet(
                s,
                ctx,
                #[trigger] s.problems[root].child_problem_ids[i],
            ),
        !child_is_quiet(s, ctx, s.problems[root].child_problem_ids[at]),
    ensures
        ({
            let step = s.next(ctx);
            let child = s.problems[root].child_problem_ids[at];
            &&& step.problem_id == Some(child)
            &&& match s.thread_for_root_problem(child) {
                Some(thread) if thread.id != ctx.thread_id => step.target_thread_id == Some(
                    thread.id,
                ) && step.action == match thread.status {
                    ThreadStatus::Done => NextAction::JoinThread,
                    ThreadStatus::Failed | ThreadStatus::Cancelled => NextAction::RecoverThread,
                    _ => NextAction::WaitThread,
                },
                _ => step.action == NextAction::SpawnThread,
            }
        }),
{
    let ids = s.problems[root].child_problem_ids;
    lemma_no_inbox(s, ctx, root);
    lemma_quiet_children(s, ctx, ids, 0, at);
    law_bound_thread_is_found(s, ids[at]);
    assert(s.child_steps(ctx)(ids[at]) == s.child_step(ctx, ids[at]));
    assert(s.child_step(ctx, ids[at]) is Some);
}

/// Where no child asks for anything, the first follow-up that does goes before the ticket: one of the
/// thread's own is worked on as its own problem is, a thread on another is to be joined, recovered or
/// waited for.
pub proof fn law_next_follows_the_first_followup(
    s: ClosureStateView,
    ctx: RuntimeContextView,
    root: Seq<char>,
    at: int,
)
    requires
        s.works_on(ctx, root),
        forall|i: int|
            0 <= i < s.problems[root].child_problem_ids.len() ==> child_is_quiet(
                s,
                ctx,
                #[trigger] s.problems[root].child_problem_ids[i],
            ),
        0 <= at < s.problems[root].followup_problem_ids.len(),
        forall|i: int|
            0 <= i < at ==> followup_is_quiet(
                s,
                ctx,
                #[trigger] s.problems[root].followup_problem_ids[i],
            ),
        !followup_is_quiet(s, ctx, s.problems[root].followup_problem_ids[at]),
    ensures
        ({
            let f = s.problems[root].followup_problem_ids[at];
            if s.problems[f].owner_thread_id == ctx.thread_id {
                s.next_for_problem(ctx, f) is Some ==> s.next_for_problem(ctx, root)
                    == s.next_for_problem(ctx, f)
            } else {
                let step = s.next(ctx);
                let thread = s.thread_for_root_problem(f)->0;
                &&& step.problem_id == Some(f)
                &&& step.target_thread_id == Some(thread.id)
                &&& step.action == match thread.status {
                    ThreadStatus::Done => NextAction::JoinThread,
                    ThreadStatus::Failed | ThreadStatus::Cancelled => NextAction::RecoverThread,
                    _ => NextAction::WaitThread,
                }
            }
        }),
{
    let problem = s.problems[root];
    let children = problem.child_problem_ids;
    lemma_no_inbox(s, ctx, root);
    lemma_quiet_children(s, ctx, children, 0, children.len() as int);
    lemma_quiet_followups(s, ctx, root, 0, at);
    law_bound_thread_is_found(s, problem.followup_problem_ids[at]);
}

/// A follow-up of the thread's own that asks for nothing but its ticket is told what its ticket
/// calls for, just as a root is.
pub proof fn law_own_followup_is_told_its_ticket(
    s: ClosureStateView,
    ctx: RuntimeContextView,
    id: Seq<char>,
)
    requires
        branching(s.problems),
        s.problems.dom().finite(),
        s.problems.contains_key(id),
        s.problems[id].owner_thread_id == ctx.thread_id,
        s.problems[id].status != ProblemStatus::Done,
        forall|i: int|
            0 <= i < s.problems[id].child_problem_ids.len() ==> child_is_quiet(
                s,
                ctx,
                #[trigger] s.problems[id].child_problem_ids[i],
            ),
        forall|i: int|
            0 <= i < s.problems[id].followup_problem_ids.len() ==> followup_is_quiet(
                s,
                ctx,
                #[trigger] s.problems[id].followup_problem_ids[i],
            ),
    ensures
        match s.problems[id].ticket_id {
            None => s.next_for_problem(ctx, id) matches Some(step) && step.action
                == NextAction::CreateSolutionTicket && step.problem_id == Some(id),
            Some(t) => s.tickets.contains_key(t) ==> (s.next_for_problem(ctx, id) matches Some(step)
                && fits_ticket(s, ctx, step) && step.problem_id == Some(id)),
        },
{
    let problem = s.problems[id];
    let children = problem.child_problem_ids;
    lemma_quiet_children(s, ctx, children, 0, children.len() as int);
    lemma_quiet_followups(s, ctx, id, 0, problem.followup_problem_ids.len() as int);
    lemma_ticket_fits(s, ctx, id);
}

/// Nothing is asked of a thread whose own problem is closed or another's, and whose inbox holds
/// nothing, unless it waits for something from outside.
pub proof fn law_closed_thread_has_nothing_next(s: ClosureStateView, ctx: RuntimeContextView)
    requires
        branching(s.problems),
        s.waits.dom().finite(),
        s.threads.contains_key(ctx.thread_id),
        forall|i: int|
            0 <= i < s.inbox.len() ==> (#[trigger] s.inbox[i]).status
                != PassiveEventStatus::Inboxed || (s.inbox[i].target_thread_id is Some
                && s.inbox[i].target_thread_id != Some(s.threads[ctx.thread_id].id)),
        ({
            let root = s.threads[ctx.thread_id].root_problem_id;
            !s.problems.contains_key(root) || s.problems[root].status == ProblemStatus::Done
                || s.problems[root].owner_thread_id != ctx.thread_id
        }),
    ensures
        s.next(ctx).action == if s.threads[ctx.thread_id].status == ThreadStatus::WaitingIo
            && is_parked(s, s.threads[ctx.thread_id].id) {
            NextAction::WaitIo
        } else {
            NextAction::NoAction
        },
{
    let f = ClosureStateView::pending_for(s.threads[ctx.thread_id].id);
    lemma_find_from(s.inbox, f, 0);
    if let Some(i) = find_from(s.inbox, f, 0) {
        assert(f(s.inbox[i]));
    }
    lemma_parked_step(s, ctx);
}

/// A thread may park while no problem below its own asks for anything exactly if it has not ended and
/// there is nothing else for it to do: its ticket is being executed, or was split into problems, or its
/// problem is the root of the process and has no ticket.
pub proof fn law_busy_threads_do_not_park(
    s: ClosureStateView,
    ctx: RuntimeContextView,
    root: Seq<char>,
    specs: Seq<WaitSpecView>,
)
    requires
        s.works_on(ctx, root),
        forall|i: int|
            0 <= i < s.problems[root].child_problem_ids.len() ==> child_is_quiet(
                s,
                ctx,
                #[trigger] s.problems[root].child_problem_ids[i],
            ),
        forall|i: int|
            0 <= i < s.problems[root].followup_problem_ids.len() ==> followup_is_quiet(
                s,
                ctx,
                #[trigger] s.problems[root].followup_problem_ids[i],
            ),
        s.problems[root].ticket_id matches Some(t) ==> s.tickets.contains_key(t),
    ensures
        s.parking_refusal(ctx, specs) is Ok <==> {
            let status = s.threads[ctx.thread_id].status;
            &&& specs.len() > 0
            &&& status == ThreadStatus::Running || status == ThreadStatus::WaitingChildren || status
                == ThreadStatus::WaitingIo
            &&& match s.problems[root].ticket_id {
                None => root == s.root_problem_id,
                Some(t) => s.tickets[t].status == TicketStatus::Executing || (s.tickets[t].status
                    == TicketStatus::Splitting && has_child_problems(s, t)),
            }
        },
{
    let p = s.problems[root];
    lemma_quiet_children(s, ctx, p.child_problem_ids, 0, p.child_problem_ids.len() as int);
    lemma_quiet_followups(s, ctx, root, 0, p.followup_problem_ids.len() as int);
    assert(s.next_for_problem(ctx, root) == s.ticket_step(ctx, root));
    if let Some(t) = p.ticket_id {
        law_children_of_a_ticket_are_found(s, t);
    }
}

/// Every step that a ticket asks for is for the acting thread, about the problem, and says why.
pub proof fn law_ticket_step_says_why(s: ClosureStateView, ctx: RuntimeContextView, id: Seq<char>)
    requires
        s.problems.contains_key(id),
        s.problems.dom().finite(),
    ensures
        ({
            let step = s.ticket_step(ctx, id)->0;
            match s.problems[id].ticket_id {
                None => s.ticket_step(ctx, id) is Some && step.thread_id == ctx.thread_id
                    && step.problem_id == Some(id) && step.ticket_id is None && step.reason
                    == "problem has no solution ticket"@ && step.instruction
                    == "Create exactly one solution ticket for this problem."@,
                Some(t) => if s.tickets.contains_key(t) {
                    &&& s.ticket_step(ctx, id) is Some
                    &&& step.thread_id == ctx.thread_id
                    &&& step.problem_id == Some(id)
                    &&& step.ticket_id == Some(t)
                    &&& step.target_thread_id is None
                    &&& step.reason == match s.tickets[t].status {
                        TicketStatus::Created => "ticket is created but not defined"@,
                        TicketStatus::Defined => "ticket is defined but not classified"@,
                        TicketStatus::Classified => match s.tickets[t].classification {
                            Some(TicketClassification::OneGo) => "ticket is classified one_go"@,
                            Some(TicketClassification::Split) => "ticket is classified split"@,
                            None => "ticket classification is missing"@,
                        },
                        TicketStatus::Executing => "ticket is executing"@,
                        TicketStatus::Splitting => if has_child_problems(s, t) {
                            "ticket children are closed"@
                        } else {
                            "split ticket has no child problems"@
                        },
                        TicketStatus::Done => "ticket is done and problem needs success check"@,
                    }
                } else {
                    s.ticket_step(ctx, id) is None
                },
            }
        }),
{
    if let Some(t) = s.problems[id].ticket_id {
        law_children_of_a_ticket_are_found(s, t);
    }
}

} // verus!
