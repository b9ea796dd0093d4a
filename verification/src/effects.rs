//! What each operation writes down, and on which inputs it is accepted.
use vstd::prelude::*;
use crate::clock::Timestamp;
use crate::context::RuntimeContextView;
use crate::entities::{CheckView, ClosureStateView, ExecutionResultView, ProblemView, ThreadView, TicketView};
use crate::error::QunuxErrorView;
use crate::forest::{branching, depth, descends, handed_over, handed_over_below, height, lemma_depth, lemma_height, lemma_listed_below, listed, rooted, Problems};
use crate::guidance::has_child_problems;
use crate::guidance::{law_bound_thread_is_found, law_children_of_a_ticket_are_found};
use crate::ids::numbered;
use crate::kinds::{CheckStatus, ContextForkPolicy, EntityKind, IoHandleKind, IoHandleStatus, ProblemStatus, ThreadStatus, TicketChildMode, TicketClassification, TicketStatus, WaitMode, WaitStatus};
use crate::search::lemma_kept;
use crate::validation::first_fault;

verus! {

/// The problem that stands `n` levels above another.
pub open spec fn above(problems: Problems, id: Seq<char>, n: nat) -> Option<Seq<char>>
    decreases n,
{
    if n == 0 {
        Some(id)
    } else {
        match above(problems, id, (n - 1) as nat) {
            Some(a) if problems.contains_key(a) => problems[a].parent_id,
            _ => None,
        }
    }
}

proof fn lemma_above(problems: Problems, id: Seq<char>, p: Seq<char>, n: nat)
    requires
        problems.contains_key(id),
        problems[id].parent_id == Some(p),
    ensures
        above(problems, id, n + 1) == above(problems, p, n),
    decreases n,
{
    if n > 0 {
        lemma_above(problems, id, p, (n - 1) as nat);
    } else {
        assert(above(problems, id, 0) == Some(id));
    }
}

proof fn lemma_above_nothing(problems: Problems, id: Seq<char>, n: nat)
    requires
        n > 0,
        !problems.contains_key(id) || problems[id].parent_id is None,
    ensures
        above(problems, id, n) is None,
    decreases n,
{
    if n > 1 {
        lemma_above_nothing(problems, id, (n - 1) as nat);
    } else {
        assert(above(problems, id, 0) == Some(id));
    }
}

/// A problem lies in the subtree of another exactly if that one stands some levels above it.
pub proof fn law_subtree_is_what_lies_below(problems: Problems, id: Seq<char>, root: Seq<char>)
    requires
        rooted(problems),
    ensures
        descends(problems, id, root) == Ok::<bool, QunuxErrorView>(true) <==> exists|n: nat|
            #[trigger] above(problems, id, n) == Some(root),
    decreases depth(problems, id),
{
    if id == root {
        assert(above(problems, id, 0) == Some(root));
    } else if problems.contains_key(id) && problems[id].parent_id is Some {
        let p = problems[id].parent_id->0;
        if problems.contains_key(p) {
            lemma_depth(problems, id, p);
            law_subtree_is_what_lies_below(problems, p, root);
        }
        assert(descends(problems, id, root) == descends(problems, p, root));
        if !problems.contains_key(p) {
            assert(descends(problems, p, root) == Ok::<bool, QunuxErrorView>(true) <==> p == root);
            assert forall|n: nat| p != root implies #[trigger] above(problems, p, n) != Some(
                root,
            ) by {
                if n > 0 {
                    lemma_above_nothing(problems, p, n);
                }
            }
            assert(above(problems, p, 0) == Some(p));
        }
        if exists|n: nat| #[trigger] above(problems, p, n) == Some(root) {
            let n = choose|n: nat| #[trigger] above(problems, p, n) == Some(root);
            lemma_above(problems, id, p, n);
            assert(above(problems, id, n + 1) == Some(root));
        }
        if exists|n: nat| #[trigger] above(problems, id, n) == Some(root) {
            let n = choose|n: nat| #[trigger] above(problems, id, n) == Some(root);
            assert(n > 0);
            lemma_above(problems, id, p, (n - 1) as nat);
            assert(above(problems, p, (n - 1) as nat) == Some(root));
        }
    } else {
        assert forall|n: nat| #[trigger] above(problems, id, n) != Some(root) by {
            if n > 0 {
                lemma_above_nothing(problems, id, n);
            }
        }
    }
}

impl ClosureStateView {
    /// The acting thread may change a problem: both are there, the thread owns the problem, and the
    /// problem is that of the thread or lies below it.
    pub open spec fn may_change(self, ctx: RuntimeContextView, id: Seq<char>) -> bool {
        &&& self.problems.contains_key(id)
        &&& self.threads.contains_key(ctx.thread_id)
        &&& self.problems[id].owner_thread_id == ctx.thread_id
        &&& exists|n: nat| #[trigger]
            above(self.problems, id, n) == Some(self.threads[ctx.thread_id].root_problem_id)
    }
}

/// A problem is open to changes by just the thread that owns it and works on it or above it.
pub proof fn law_writable_is_own_and_below(s: ClosureStateView, ctx: RuntimeContextView, id: Seq<char>)
    requires
        rooted(s.problems),
    ensures
        s.writable(ctx, id) is Ok <==> s.may_change(ctx, id),
        s.writable(ctx, id) matches Ok(problem) ==> problem == s.problems[id],
{
    if s.threads.contains_key(ctx.thread_id) {
        law_subtree_is_what_lies_below(
            s.problems,
            id,
            s.threads[ctx.thread_id].root_problem_id,
        );
    }
}

/// The only change to a map of records is at one key.
pub open spec fn changed_at<T>(a: Map<Seq<char>, T>, b: Map<Seq<char>, T>, key: Seq<char>) -> bool {
    &&& b.dom() == a.dom().insert(key)
    &&& forall|k: Seq<char>| #[trigger] a.contains_key(k) && k != key ==> b[k] == a[k]
}

/// A problem gets a ticket exactly if the thread may change it, it is open and has none. The ticket
/// says what was asked, belongs to the problem and is defined; the problem names it; nothing else
/// changes.
pub proof fn law_ticket_says_what_was_asked(
    s: ClosureStateView,
    ctx: RuntimeContextView,
    now: Timestamp,
    problem_id: Seq<char>,
    title: Seq<char>,
    body: Seq<char>,
)
    requires
        rooted(s.problems),
    ensures
        ({
            let (t, r) = s.ticket_created(ctx, now, problem_id, title, body);
            &&& r is Ok <==> s.may_change(ctx, problem_id) && s.problems[problem_id].status
                != ProblemStatus::Done && s.problems[problem_id].ticket_id is None
            &&& r is Err ==> t == s
            &&& r matches Ok(id) ==> {
                &&& id == numbered("T"@, s.next_ticket_seq as nat)
                &&& changed_at(s.tickets, t.tickets, id)
                &&& t.tickets[id].id == id
                &&& t.tickets[id].problem_id == problem_id
                &&& t.tickets[id].title == title
                &&& t.tickets[id].body == body
                &&& t.tickets[id].status == TicketStatus::Defined
                &&& t.tickets[id].classification is None
                &&& t.tickets[id].classification_reason is None
                &&& t.tickets[id].result_id is None
                &&& t.tickets[id].created_at == now
                &&& changed_at(s.problems, t.problems, problem_id)
                &&& t.problems[problem_id] == (ProblemView {
                    ticket_id: Some(id),
                    updated_at: now,
                    ..s.problems[problem_id]
                })
                &&& t == (ClosureStateView {
                    tickets: t.tickets,
                    problems: t.problems,
                    next_ticket_seq: t.next_ticket_seq,
                    events: t.events,
                    ..s
                })
                &&& t.events.drop_last() == s.events
                &&& t.events.last().entity_id == id && t.events.last().actor_thread_id
                    == ctx.thread_id && t.events.last().kind == "ticket_created"@
            }
        }),
{
    law_writable_is_own_and_below(s, ctx, problem_id);
    let (t, r) = s.ticket_created(ctx, now, problem_id, title, body);
    if let Ok(id) = r {
        assert(t.tickets.dom() =~= s.tickets.dom().insert(id));
        assert(t.problems.dom() =~= s.problems.dom().insert(problem_id));
        assert(t.events.drop_last() =~= s.events);
    }
}

/// A ticket is classified exactly if the thread may change its problem and the ticket is defined. It
/// then holds the classification and the reason that were given, and nothing else changes.
pub proof fn law_classification_is_kept(
    s: ClosureStateView,
    ctx: RuntimeContextView,
    now: Timestamp,
    ticket_id: Seq<char>,
    classification: TicketClassification,
    reason: Seq<char>,
)
    requires
        rooted(s.problems),
    ensures
        ({
            let (t, r) = s.ticket_classified(ctx, now, ticket_id, classification, reason);
            &&& r is Ok <==> s.tickets.contains_key(ticket_id) && s.may_change(
                ctx,
                s.tickets[ticket_id].problem_id,
            ) && s.tickets[ticket_id].status == TicketStatus::Defined
            &&& r is Err ==> t == s
            &&& r is Ok ==> {
                &&& changed_at(s.tickets, t.tickets, ticket_id)
                &&& t.tickets[ticket_id] == (TicketView {
                    classification: Some(classification),
                    classification_reason: Some(reason),
                    status: TicketStatus::Classified,
                    updated_at: now,
                    ..s.tickets[ticket_id]
                })
                &&& t == (ClosureStateView { tickets: t.tickets, events: t.events, ..s })
                &&& t.events.drop_last() == s.events
                &&& t.events.last().entity_id == ticket_id && t.events.last().actor_thread_id
                    == ctx.thread_id
            }
        }),
{
    if s.tickets.contains_key(ticket_id) {
        law_writable_is_own_and_below(s, ctx, s.tickets[ticket_id].problem_id);
    }
    let (t, r) = s.ticket_classified(ctx, now, ticket_id, classification, reason);
    if r is Ok {
        assert(t.tickets.dom() =~= s.tickets.dom().insert(ticket_id));
        assert(t.events.drop_last() =~= s.events);
    }
}

/// A problem is taken up exactly by its owner, while it is open, with the word `doing`.
pub proof fn law_problem_is_taken_up(
    s: ClosureStateView,
    ctx: RuntimeContextView,
    now: Timestamp,
    id: Seq<char>,
    status: Seq<char>,
)
    ensures
        ({
            let (t, r) = s.status_set(ctx, now, EntityKind::Problem, id, status);
            &&& r is Ok <==> status == "doing"@ && s.problems.contains_key(id)
                && s.problems[id].owner_thread_id == ctx.thread_id && s.problems[id].status
                != ProblemStatus::Done
            &&& r is Err ==> t == s
            &&& r is Ok ==> {
                &&& changed_at(s.problems, t.problems, id)
                &&& t.problems[id] == (ProblemView {
                    status: ProblemStatus::Doing,
                    updated_at: now,
                    ..s.problems[id]
                })
                &&& t == (ClosureStateView { problems: t.problems, events: t.events, ..s })
                &&& t.events.drop_last() == s.events
                &&& t.events.last().entity_id == id
            }
        }),
{
    let (t, r) = s.status_set(ctx, now, EntityKind::Problem, id, status);
    if r is Ok {
        assert(t.problems.dom() =~= s.problems.dom().insert(id));
        assert(t.events.drop_last() =~= s.events);
    }
}

/// A ticket is executed exactly if it is classified for one go, and split exactly if it is classified
/// so, by the thread that may change its problem, with the words `executing` and `splitting`.
pub proof fn law_ticket_is_started_as_classified(
    s: ClosureStateView,
    ctx: RuntimeContextView,
    now: Timestamp,
    id: Seq<char>,
    status: Seq<char>,
)
    requires
        rooted(s.problems),
    ensures
        ({
            let (t, r) = s.status_set(ctx, now, EntityKind::Ticket, id, status);
            let ticket = s.tickets[id];
            &&& r is Ok <==> s.tickets.contains_key(id) && s.may_change(ctx, ticket.problem_id)
                && ticket.status == TicketStatus::Classified && ((status == "executing"@
                && ticket.classification == Some(TicketClassification::OneGo)) || (status
                == "splitting"@ && ticket.classification == Some(TicketClassification::Split)))
            &&& r is Err ==> t == s
            &&& r is Ok ==> {
                &&& changed_at(s.tickets, t.tickets, id)
                &&& t.tickets[id] == (TicketView {
                    status: if ticket.classification == Some(TicketClassification::OneGo) {
                        TicketStatus::Executing
                    } else {
                        TicketStatus::Splitting
                    },
                    updated_at: now,
                    ..ticket
                })
                &&& t == (ClosureStateView { tickets: t.tickets, events: t.events, ..s })
                &&& t.events.drop_last() == s.events
                &&& t.events.last().entity_id == id
            }
        }),
{
    reveal_strlit("executing");
    reveal_strlit("splitting");
    assert("executing"@[0] == 'e' && "splitting"@[0] == 's');
    if s.tickets.contains_key(id) {
        law_writable_is_own_and_below(s, ctx, s.tickets[id].problem_id);
    }
    let (t, r) = s.status_set(ctx, now, EntityKind::Ticket, id, status);
    if r is Ok {
        assert(t.tickets.dom() =~= s.tickets.dom().insert(id));
        assert(t.events.drop_last() =~= s.events);
    }
}

/// Every problem that came out of a ticket is closed.
pub open spec fn children_closed(s: ClosureStateView, ticket_id: Seq<char>) -> bool {
    forall|id: Seq<char>| #[trigger]
        s.problems.contains_key(id) && s.problems[id].created_from_ticket_id == Some(ticket_id)
            ==> s.problems[id].status == ProblemStatus::Done
}

pub proof fn lemma_no_open_children(s: ClosureStateView, ticket_id: Seq<char>)
    requires
        s.filed(),
    ensures
        s.open_problems_among(s.child_problem_ids_from_ticket(ticket_id)).len() == 0
            <==> children_closed(s, ticket_id),
{
    let ids = s.child_problem_ids_from_ticket(ticket_id);
    let f = crate::lookup::still_open(s.problems);
    let open = s.open_problems_among(ids);
    law_children_of_a_ticket_are_found(s, ticket_id);
    lemma_kept(ids, f, ids.len() as int);
    if open.len() == 0 {
        assert forall|id: Seq<char>| #[trigger]
            s.problems.contains_key(id) && s.problems[id].created_from_ticket_id == Some(ticket_id)
            implies s.problems[id].status == ProblemStatus::Done by {
            assert(ids.contains(id));
            let i = ids.index_of(id);
            assert(ids[i] == id);
            if f(ids[i]) {
                assert(open.contains(ids[i]));
            }
        }
    } else {
        assert(open.contains(open[0]));
        assert(ids.contains(open[0]));
        let k = choose|k: Seq<char>| #[trigger]
            s.problems.contains_key(k) && s.problems[k].id == open[0]
                && s.problems[k].created_from_ticket_id == Some(ticket_id);
        assert(s.problems.contains_key(k));
    }
}

/// A result is recorded exactly if the thread may change the problem of the ticket, the problem was
/// taken up and is open, the ticket is being executed or split or classified for it, a split ticket has
/// children, and all children of the ticket are closed. The result says what was given and belongs to
/// ticket and problem; the ticket is done with it, and the problem lists it last.
pub proof fn law_result_says_what_was_given(
    s: ClosureStateView,
    ctx: RuntimeContextView,
    now: Timestamp,
    ticket_id: Seq<char>,
    title: Seq<char>,
    body: Seq<char>,
)
    requires
        s.filed(),
        rooted(s.problems),
    ensures
        ({
            let (t, r) = s.result_recorded(ctx, now, ticket_id, title, body);
            let ticket = s.tickets[ticket_id];
            let p = ticket.problem_id;
            let splits = ticket.status == TicketStatus::Splitting || (ticket.status
                == TicketStatus::Classified && ticket.classification == Some(
                TicketClassification::Split,
            ));
            let executes = ticket.status == TicketStatus::Executing || (ticket.status
                == TicketStatus::Classified && ticket.classification == Some(
                TicketClassification::OneGo,
            ));
            &&& r is Ok <==> s.tickets.contains_key(ticket_id) && s.may_change(ctx, p)
                && s.problems[p].status != ProblemStatus::Todo && s.problems[p].status
                != ProblemStatus::Done && (executes || (splits && has_child_problems(s, ticket_id)))
                && children_closed(s, ticket_id)
            &&& r is Err ==> t.problems == s.problems && t.results == s.results
            &&& r matches Ok(id) ==> {
                &&& id == numbered("R"@, s.next_result_seq as nat)
                &&& changed_at(s.results, t.results, id)
                &&& t.results[id] == (ExecutionResultView {
                    id,
                    ticket_id,
                    problem_id: p,
                    title,
                    body,
                    created_at: now,
                })
                &&& changed_at(s.tickets, t.tickets, ticket_id)
                &&& t.tickets[ticket_id] == (TicketView {
                    result_id: Some(id),
                    status: TicketStatus::Done,
                    updated_at: now,
                    ..ticket
                })
                &&& changed_at(s.problems, t.problems, p)
                &&& t.problems[p] == (ProblemView {
                    result_ids: s.problems[p].result_ids.push(id),
                    updated_at: now,
                    ..s.problems[p]
                })
                &&& t.events.last().entity_id == id
            }
        }),
{
    let (t, r) = s.result_recorded(ctx, now, ticket_id, title, body);
    if s.tickets.contains_key(ticket_id) {
        let p = s.tickets[ticket_id].problem_id;
        law_writable_is_own_and_below(s, ctx, p);
        law_children_of_a_ticket_are_found(s, ticket_id);
        lemma_no_open_children(s, ticket_id);
        let started = s.ticket_started(ctx, now, ticket_id).0;
        assert(started.problems == s.problems);
        assert(started.child_problem_ids_from_ticket(ticket_id)
            == s.child_problem_ids_from_ticket(ticket_id));
        if let Ok(id) = r {
            assert(t.results.dom() =~= s.results.dom().insert(id));
            assert(t.tickets.dom() =~= s.tickets.dom().insert(ticket_id));
            assert(t.problems.dom() =~= s.problems.dom().insert(p));
        }
    }
}

/// A child problem is made out of a ticket exactly if the thread may change the parent, the ticket is
/// that of the parent, and it is being split, or is being executed in one go while the parent was
/// taken up. The child says what was asked, belongs to the thread, stands below the parent and names
/// the ticket; the parent lists it last.
pub proof fn law_child_problem_says_what_was_asked(
    s: ClosureStateView,
    ctx: RuntimeContextView,
    now: Timestamp,
    parent_id: Seq<char>,
    ticket_id: Seq<char>,
    mode: TicketChildMode,
    title: Seq<char>,
    body: Seq<char>,
)
    requires
        rooted(s.problems),
        !s.problems.contains_key(s.fresh_problem_id()),
    ensures
        ({
            let (t, r) = s.child_created(ctx, now, parent_id, ticket_id, mode, title, body);
            let ticket = s.tickets[ticket_id];
            &&& r is Ok <==> s.may_change(ctx, parent_id) && s.tickets.contains_key(ticket_id)
                && ticket.problem_id == parent_id && match mode {
                TicketChildMode::Split => ticket.classification == Some(
                    TicketClassification::Split,
                ) && ticket.status == TicketStatus::Splitting,
                TicketChildMode::Spawn => ticket.classification == Some(
                    TicketClassification::OneGo,
                ) && ticket.status == TicketStatus::Executing && s.problems[parent_id].status
                    == ProblemStatus::Doing,
            }
            &&& r is Err ==> t == s
            &&& r matches Ok(id) ==> {
                &&& id == numbered("P"@, s.next_problem_seq as nat)
                &&& t.problems.dom() == s.problems.dom().insert(id)
                &&& t.problems[id].id == id
                &&& t.problems[id].title == title
                &&& t.problems[id].body == body
                &&& t.problems[id].status == ProblemStatus::Todo
                &&& t.problems[id].owner_thread_id == ctx.thread_id
                &&& t.problems[id].parent_id == Some(parent_id)
                &&& t.problems[id].created_from_ticket_id == Some(ticket_id)
                &&& t.problems[id].created_from_ticket_mode == Some(mode)
                &&& t.problems[id].created_from_check_id is None
                &&& t.problems[id].ticket_id is None
                &&& t.problems[id].child_problem_ids.len() == 0
                &&& t.problems[id].followup_problem_ids.len() == 0
                &&& t.problems[id].result_ids.len() == 0
                &&& t.problems[id].check_ids.len() == 0
                &&& t.problems[parent_id] == (ProblemView {
                    child_problem_ids: s.problems[parent_id].child_problem_ids.push(id),
                    updated_at: now,
                    ..s.problems[parent_id]
                })
                &&& forall|k: Seq<char>| #[trigger]
                    s.problems.contains_key(k) && k != parent_id ==> t.problems[k] == s.problems[k]
                &&& t == (ClosureStateView {
                    problems: t.problems,
                    next_problem_seq: t.next_problem_seq,
                    events: t.events,
                    ..s
                })
                &&& t.events.last().entity_id == id
            }
        }),
{
    law_writable_is_own_and_below(s, ctx, parent_id);
    let (t, r) = s.child_created(ctx, now, parent_id, ticket_id, mode, title, body);
    if let Ok(id) = r {
        assert(t.problems.dom() =~= s.problems.dom().insert(id));
    }
}

/// Every one of the problems is closed or not there.
pub open spec fn none_open(s: ClosureStateView, ids: Seq<Seq<char>>) -> bool {
    forall|i: int|
        0 <= i < ids.len() && s.problems.contains_key(#[trigger] ids[i]) ==> s.problems[ids[i]].status
            == ProblemStatus::Done
}

pub proof fn lemma_none_open(s: ClosureStateView, ids: Seq<Seq<char>>)
    ensures
        s.open_problems_among(ids).len() == 0 <==> none_open(s, ids),
{
    let f = crate::lookup::still_open(s.problems);
    let open = s.open_problems_among(ids);
    lemma_kept(ids, f, ids.len() as int);
    if open.len() == 0 {
        assert forall|i: int|
            0 <= i < ids.len() && s.problems.contains_key(#[trigger] ids[i]) implies
            s.problems[ids[i]].status == ProblemStatus::Done by {
            if f(ids[i]) {
                assert(open.contains(ids[i]));
            }
        }
    } else {
        assert(open.contains(open[0]));
        let i = ids.index_of(open[0]);
        assert(ids[i] == open[0]);
    }
}

proof fn lemma_known_results(s: ClosureStateView, ids: Seq<Seq<char>>, i: int)
    requires
        0 <= i,
    ensures
        first_fault(ids, s.known_result_faults(), i) is None <==> forall|k: int|
            i <= k < ids.len() ==> s.results.contains_key(#[trigger] ids[k]),
    decreases ids.len() - i,
{
    if i < ids.len() {
        lemma_known_results(s, ids, i + 1);
        if first_fault(ids, s.known_result_faults(), i) is None {
            assert forall|k: int| i <= k < ids.len() implies s.results.contains_key(
                #[trigger] ids[k],
            ) by {}
        } else if forall|k: int| i <= k < ids.len() ==> s.results.contains_key(#[trigger] ids[k]) {
            assert(s.results.contains_key(ids[i]));
        }
    }
}

/// What a check asks for before it is recorded: the thread may change the problem, which is open; there
/// are results and all are known; a success needs a done ticket, nothing open below and no follow-up,
/// anything else a follow-up and none that is still open.
pub open spec fn may_check(
    s: ClosureStateView,
    ctx: RuntimeContextView,
    problem_id: Seq<char>,
    status: CheckStatus,
    result_ids: Seq<Seq<char>>,
    has_followup: bool,
) -> bool {
    let problem = s.problems[problem_id];
    &&& s.may_change(ctx, problem_id)
    &&& problem.status != ProblemStatus::Done
    &&& result_ids.len() > 0
    &&& forall|k: int| 0 <= k < result_ids.len() ==> s.results.contains_key(#[trigger] result_ids[k])
    &&& none_open(s, problem.followup_problem_ids)
    &&& status == CheckStatus::Success ==> !has_followup && none_open(s, problem.child_problem_ids)
        && (problem.ticket_id matches Some(t) && s.tickets.contains_key(t) && s.tickets[t].status
        == TicketStatus::Done)
    &&& status == CheckStatus::NotSuccess ==> has_followup
}

/// A check that is in order has nothing against it.
pub proof fn lemma_check_is_fine(
    s: ClosureStateView,
    ctx: RuntimeContextView,
    problem_id: Seq<char>,
    result_ids: Seq<Seq<char>>,
)
    requires
        may_check(s, ctx, problem_id, CheckStatus::Success, result_ids, false),
    ensures
        s.check_fault(problem_id, CheckStatus::Success, result_ids, false) is None,
{
    lemma_known_results(s, result_ids, 0);
    lemma_none_open(s, s.problems[problem_id].followup_problem_ids);
    lemma_none_open(s, s.problems[problem_id].child_problem_ids);
}

/// A check is recorded only if it is in order, and then says what was given; a success closes the
/// problem, anything else leaves it with a follow-up. What was not in order changes nothing.
pub proof fn law_check_says_what_was_given(
    s: ClosureStateView,
    ctx: RuntimeContextView,
    now: Timestamp,
    problem_id: Seq<char>,
    status: CheckStatus,
    result_ids: Seq<Seq<char>>,
    title: Seq<char>,
    body: Seq<char>,
    followup: Option<(Seq<char>, Seq<char>)>,
)
    requires
        rooted(s.problems),
        !s.problems.contains_key(s.fresh_problem_id()),
    ensures
        ({
            let (t, r) = s.checked(ctx, now, problem_id, status, result_ids, title, body, followup);
            let fine = may_check(s, ctx, problem_id, status, result_ids, followup is Some);
            let followup_id = numbered("P"@, s.next_problem_seq as nat);
            let problem = s.problems[problem_id];
            &&& !fine ==> r is Err && t == s
            &&& fine && (status == CheckStatus::NotSuccess
                || s.threads[ctx.thread_id].root_problem_id != problem_id
                || s.threads[ctx.thread_id].parent_thread_id is None) ==> r is Ok
            &&& r matches Ok(id) ==> {
                &&& id == numbered("C"@, s.next_check_seq as nat)
                &&& changed_at(s.checks, t.checks, id)
                &&& t.checks[id] == (CheckView {
                    id,
                    problem_id,
                    status,
                    title,
                    body,
                    result_ids,
                    followup_problem_id: if followup is Some {
                        Some(followup_id)
                    } else {
                        None
                    },
                    created_at: now,
                })
                &&& t.problems[problem_id] == (ProblemView {
                    status: match status {
                        CheckStatus::Success => ProblemStatus::Done,
                        CheckStatus::NotSuccess => ProblemStatus::Followup,
                    },
                    check_ids: problem.check_ids.push(id),
                    followup_problem_ids: if followup is Some {
                        problem.followup_problem_ids.push(followup_id)
                    } else {
                        problem.followup_problem_ids
                    },
                    updated_at: now,
                    ..problem
                })
                &&& forall|k: Seq<char>| #[trigger]
                    s.problems.contains_key(k) && k != problem_id ==> t.problems[k]
                        == s.problems[k]
                &&& followup is None ==> t.problems.dom() == s.problems.dom()
                &&& followup matches Some(asked) ==> {
                    let made = t.problems[followup_id];
                    &&& t.problems.dom() == s.problems.dom().insert(followup_id)
                    &&& made.id == followup_id
                    &&& made.title == asked.0
                    &&& made.body == asked.1
                    &&& made.status == ProblemStatus::Todo
                    &&& made.owner_thread_id == ctx.thread_id
                    &&& made.parent_id == Some(problem_id)
                    &&& made.created_from_check_id == Some(id)
                    &&& made.created_from_ticket_id is None
                    &&& made.ticket_id is None
                }
                &&& status == CheckStatus::Success && s.threads[ctx.thread_id].root_problem_id
                    == problem_id ==> t.threads[ctx.thread_id].status == ThreadStatus::Done
                &&& status == CheckStatus::NotSuccess || s.threads[ctx.thread_id].root_problem_id
                    != problem_id ==> t.threads == s.threads && t.handles == s.handles && t.waits
                    == s.waits
                &&& t.tickets == s.tickets && t.results == s.results
                &&& t.events.last().entity_id == id
            }
        }),
{
    law_writable_is_own_and_below(s, ctx, problem_id);
    lemma_known_results(s, result_ids, 0);
    if s.problems.contains_key(problem_id) {
        lemma_none_open(s, s.problems[problem_id].followup_problem_ids);
        lemma_none_open(s, s.problems[problem_id].child_problem_ids);
    }
    let (t, r) = s.checked(ctx, now, problem_id, status, result_ids, title, body, followup);
    if let Ok(id) = r {
        let w = s.check_written(ctx, now, problem_id, status, result_ids, title, body, followup);
        assert(t.problems == w.problems && t.checks == w.checks);
        assert(t.checks.dom() =~= s.checks.dom().insert(id));
        if followup is Some {
            assert(t.problems.dom() =~= s.problems.dom().insert(s.fresh_problem_id()));
        } else {
            assert(t.problems.dom() =~= s.problems.dom());
        }
    }
}

/// Every problem that another lists is there.
pub open spec fn lists_are_known(problems: Problems) -> bool {
    forall|id: Seq<char>, i: int|
        #![trigger listed(problems[id])[i]]
        problems.contains_key(id) && 0 <= i < listed(problems[id]).len() ==> problems.contains_key(
            listed(problems[id])[i],
        )
}

proof fn lemma_all_handed_over(
    base: Problems,
    acc: Problems,
    id: Seq<char>,
    owner: Seq<char>,
    now: Timestamp,
)
    requires
        branching(base),
        lists_are_known(base),
        base.contains_key(id),
    ensures
        handed_over(base, acc, id, owner, now).1 is None,
    decreases height(base, id), listed(base[id]).len() + 1,
{
    lemma_all_handed_over_below(
        base,
        acc.insert(id, ProblemView { owner_thread_id: owner, updated_at: now, ..acc[id] }),
        id,
        owner,
        now,
        0,
    );
}

proof fn lemma_all_handed_over_below(
    base: Problems,
    acc: Problems,
    id: Seq<char>,
    owner: Seq<char>,
    now: Timestamp,
    i: int,
)
    requires
        branching(base),
        lists_are_known(base),
        base.contains_key(id),
        0 <= i,
    ensures
        handed_over_below(base, acc, id, owner, now, i).1 is None,
    decreases height(base, id), listed(base[id]).len() - i,
{
    if i < listed(base[id]).len() {
        let child = listed(base[id])[i];
        lemma_listed_below(base[id], i);
        lemma_height(base, id, child);
        lemma_all_handed_over(base, acc, child, owner, now);
        lemma_all_handed_over_below(
            base,
            handed_over(base, acc, child, owner, now).0,
            id,
            owner,
            now,
            i + 1,
        );
    }
}

/// A problem gets a thread of its own exactly if the acting thread may change it, works on another one
/// and no thread that was not taken back is bound to it. Refused, nothing changes.
pub proof fn law_spawn_is_for_own_unbound_problems(
    s: ClosureStateView,
    ctx: RuntimeContextView,
    now: Timestamp,
    problem_id: Seq<char>,
    policy: ContextForkPolicy,
    bootstrap_instruction: Seq<char>,
    inherited_cwd: Option<Seq<char>>,
    inherited_model: Option<Seq<char>>,
    inherited_tools: Seq<Seq<char>>,
)
    requires
        s.filed(),
        rooted(s.problems),
        branching(s.problems),
        lists_are_known(s.problems),
        s.threads.dom().finite(),
    ensures
        ({
            let (t, r) = s.spawned(
                ctx,
                now,
                problem_id,
                policy,
                bootstrap_instruction,
                inherited_cwd,
                inherited_model,
                inherited_tools,
            );
            &&& r is Ok <==> s.may_change(ctx, problem_id) && problem_id
                != s.threads[ctx.thread_id].root_problem_id && forall|k: Seq<char>| #[trigger]
                s.threads.contains_key(k) ==> s.threads[k].root_problem_id != problem_id
                    || s.threads[k].status == ThreadStatus::Recovered
            &&& r is Err ==> t == s
        }),
{
    law_writable_is_own_and_below(s, ctx, problem_id);
    law_bound_thread_is_found(s, problem_id);
    if s.writable(ctx, problem_id) is Ok {
        lemma_all_handed_over(s.problems, s.problems, problem_id, s.fresh_thread_id(), now);
    }
}

/// What a spawned thread is given: the context it forks from holds the policy, the instruction, the
/// directory, the model and the tools that were asked for, and names the parent and its session. The
/// thread is bound to the problem and runs; the parent lists it and waits; a pending handle of the
/// parent stands for it, and one wait for that handle alone; the receipt names them all.
pub proof fn law_spawned_thread_gets_what_was_asked(
    s: ClosureStateView,
    ctx: RuntimeContextView,
    now: Timestamp,
    problem_id: Seq<char>,
    policy: ContextForkPolicy,
    bootstrap_instruction: Seq<char>,
    inherited_cwd: Option<Seq<char>>,
    inherited_model: Option<Seq<char>>,
    inherited_tools: Seq<Seq<char>>,
)
    requires
        !s.threads.contains_key(s.fresh_thread_id()),
        s.spawned(
            ctx,
            now,
            problem_id,
            policy,
            bootstrap_instruction,
            inherited_cwd,
            inherited_model,
            inherited_tools,
        ).1 is Ok,
    ensures
        ({
            let (t, outcome) = s.spawned(
                ctx,
                now,
                problem_id,
                policy,
                bootstrap_instruction,
                inherited_cwd,
                inherited_model,
                inherited_tools,
            );
            let r = outcome->Ok_0;
            let child = t.threads[r.thread_id];
            let parent = s.threads[ctx.thread_id];
            let problem = s.problems[problem_id];
            let handle = t.handles[r.handle_id];
            let wait = t.waits[r.wait_id];
            &&& r.thread_id == numbered("QT"@, s.next_thread_seq as nat)
            &&& r.handle_id == numbered("H"@, s.next_handle_seq as nat)
            &&& r.wait_id == numbered("W"@, s.next_wait_seq as nat)
            &&& r.root_problem_id == problem_id
            &&& r.bootstrap_instruction == bootstrap_instruction
            &&& child.context_fork.policy == policy
            &&& child.context_fork.bootstrap_instruction == bootstrap_instruction
            &&& child.context_fork.inherited_cwd == inherited_cwd
            &&& child.context_fork.inherited_model == inherited_model
            &&& child.context_fork.inherited_tools == inherited_tools
            &&& child.context_fork.parent_thread_id == Some(ctx.thread_id)
            &&& child.context_fork.parent_actor_session_id == ctx.actor_session_id
            &&& child.context_fork.fork_turn_id is None
            &&& child.id == r.thread_id
            &&& child.process_id == s.process_id
            &&& child.parent_thread_id == Some(ctx.thread_id)
            &&& child.root_problem_id == problem_id
            &&& child.created_from_problem_id == problem_id
            &&& child.created_from_ticket_id == problem.created_from_ticket_id
            &&& child.created_from_check_id == problem.created_from_check_id
            &&& child.status == ThreadStatus::Running
            &&& child.child_thread_ids.len() == 0
            &&& child.actor_session_id is None && child.codex_thread_id is None
            &&& child.joined_at is None
            &&& child.created_at == now && child.updated_at == now
            &&& t.threads.dom() == s.threads.dom().insert(r.thread_id)
            &&& t.threads[ctx.thread_id] == (ThreadView {
                child_thread_ids: parent.child_thread_ids.push(r.thread_id),
                status: ThreadStatus::WaitingChildren,
                ..parent
            })
            &&& forall|k: Seq<char>| #[trigger]
                s.threads.contains_key(k) && k != ctx.thread_id ==> t.threads[k] == s.threads[k]
            &&& changed_at(s.handles, t.handles, r.handle_id)
            &&& handle.id == r.handle_id
            &&& handle.kind == IoHandleKind::ChildThread
            &&& handle.owner_thread_id == ctx.thread_id
            &&& handle.target_thread_id == Some(r.thread_id)
            &&& handle.status == IoHandleStatus::Pending
            &&& handle.event_key is None && handle.condition is None && handle.source is None
            &&& handle.payload_ref is None && handle.dedupe_key is None
                && handle.resolved_event_id is None
            &&& changed_at(s.waits, t.waits, r.wait_id)
            &&& wait.id == r.wait_id
            &&& wait.thread_id == ctx.thread_id
            &&& wait.handle_ids == seq![r.handle_id]
            &&& wait.mode == WaitMode::All
            &&& wait.status == WaitStatus::Waiting
            &&& t.next_thread_seq == (s.next_thread_seq + 1) as u32
            &&& t.next_handle_seq == (s.next_handle_seq + 1) as u32
            &&& t.next_wait_seq == (s.next_wait_seq + 1) as u32
            &&& t.tickets == s.tickets && t.results == s.results && t.checks == s.checks
            &&& t.inbox == s.inbox && t.passive_events == s.passive_events
            &&& t.events.drop_last() == s.events
            &&& t.events.last().entity_id == r.thread_id && t.events.last().actor_thread_id
                == ctx.thread_id
            &&& t.io_events.drop_last() == s.io_events
            &&& t.io_events.last().handle_id == Some(r.handle_id)
            &&& t.io_events.last().thread_id == Some(r.thread_id)
        }),
{
    let (t, outcome) = s.spawned(
        ctx,
        now,
        problem_id,
        policy,
        bootstrap_instruction,
        inherited_cwd,
        inherited_model,
        inherited_tools,
    );
    let r = outcome->Ok_0;
    assert(s.threads.contains_key(ctx.thread_id));
    assert(t.threads.dom() =~= s.threads.dom().insert(r.thread_id));
    assert(t.handles.dom() =~= s.handles.dom().insert(r.handle_id));
    assert(t.waits.dom() =~= s.waits.dom().insert(r.wait_id));
    assert(t.events.drop_last() =~= s.events);
    assert(t.io_events.drop_last() =~= s.io_events);
}

} // verus!
