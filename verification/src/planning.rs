//! What keeps problems and tickets free of faults while others change.
use vstd::prelude::*;
use crate::context::RuntimeContextView;
use crate::entities::ClosureStateView;
use crate::forest::{depth, descends, lemma_depth, rooted, Problems};
use crate::history::{problem_kept, ticket_kept};
use crate::kinds::{PassiveEventStatus, ProblemStatus, TicketStatus};
use crate::lookup::{event_named, item_named, made_from_ticket, still_open};
use crate::search::{lemma_find_from, lemma_kept, select};
use crate::strmap::{keys, lemma_listed, values};
use crate::validation::lemma_first_fault;

verus! {

/// What stands below a problem still does where parents stay as they are.
pub proof fn lemma_descends_kept(a: Problems, b: Problems, id: Seq<char>, root: Seq<char>)
    requires
        rooted(a),
        rooted(b),
        forall|x: Seq<char>| #[trigger]
            a.contains_key(x) ==> b.contains_key(x) && b[x].parent_id == a[x].parent_id,
        descends(a, id, root) is Ok,
    ensures
        descends(b, id, root) == descends(a, id, root),
    decreases depth(a, id),
{
    if id != root {
        assert(a.contains_key(id));
        if let Some(p) = a[id].parent_id {
            lemma_depth(a, id, p);
            lemma_descends_kept(a, b, p, root);
        }
    }
}

/// What stands below something that stands below a problem stands below that problem.
pub proof fn lemma_descends_through(
    problems: Problems,
    id: Seq<char>,
    middle: Seq<char>,
    root: Seq<char>,
)
    requires
        rooted(problems),
        descends(problems, id, middle) == Ok::<bool, crate::error::QunuxErrorView>(true),
        descends(problems, middle, root) == Ok::<bool, crate::error::QunuxErrorView>(true),
    ensures
        descends(problems, id, root) == Ok::<bool, crate::error::QunuxErrorView>(true),
    decreases depth(problems, id),
{
    if id != middle && id != root {
        let p = problems[id].parent_id->0;
        lemma_depth(problems, id, p);
        lemma_descends_through(problems, p, middle, root);
    }
}

/// None of the listed problems is open exactly if each that is there is done.
pub proof fn lemma_none_open(s: ClosureStateView, ids: Seq<Seq<char>>)
    ensures
        s.open_problems_among(ids).len() == 0 <==> forall|i: int|
            0 <= i < ids.len() && s.problems.contains_key(#[trigger] ids[i])
                ==> s.problems[ids[i]].status == ProblemStatus::Done,
{
    let f = still_open(s.problems);
    let open = s.open_problems_among(ids);
    lemma_kept(ids, f, ids.len() as int);
    if open.len() == 0 {
        assert forall|i: int|
            0 <= i < ids.len() && s.problems.contains_key(#[trigger] ids[i]) implies s.problems[ids[i]].status
            == ProblemStatus::Done by {
            if f(ids[i]) {
                assert(open.contains(ids[i]));
            }
        }
    } else {
        assert(open.contains(open[0]));
        let i = ids.index_of(open[0]);
        assert(ids[i] == open[0]);
    }
}

/// No problem made from a ticket is open exactly if each is done.
pub proof fn lemma_none_open_from(s: ClosureStateView, ticket_id: Seq<char>)
    requires
        s.filed(),
    ensures
        s.open_problems_among(s.child_problem_ids_from_ticket(ticket_id)).len() == 0
            <==> forall|id: Seq<char>| #[trigger]
            s.problems.contains_key(id) && s.problems[id].created_from_ticket_id == Some(ticket_id)
                ==> s.problems[id].status == ProblemStatus::Done,
{
    let vs = values(s.problems);
    let f = made_from_ticket(ticket_id);
    let made = select(vs, f);
    let ids = s.child_problem_ids_from_ticket(ticket_id);
    lemma_listed(s.problems);
    lemma_kept(vs, f, vs.len() as int);
    lemma_none_open(s, ids);
    if s.open_problems_among(ids).len() == 0 {
        assert forall|id: Seq<char>| #[trigger]
            s.problems.contains_key(id) && s.problems[id].created_from_ticket_id == Some(
                ticket_id,
            ) implies s.problems[id].status == ProblemStatus::Done by {
            let k = keys(s.problems).index_of(id);
            assert(keys(s.problems)[k] == id);
            assert(f(vs[k]));
            let m = made.index_of(vs[k]);
            assert(made[m] == vs[k]);
            assert(ids[m] == id);
        }
    }
    if forall|id: Seq<char>| #[trigger]
        s.problems.contains_key(id) && s.problems[id].created_from_ticket_id == Some(ticket_id)
            ==> s.problems[id].status == ProblemStatus::Done {
        assert forall|i: int|
            0 <= i < ids.len() && s.problems.contains_key(#[trigger] ids[i]) implies s.problems[ids[i]].status
            == ProblemStatus::Done by {
            assert(made.contains(made[i]));
            let k = vs.index_of(made[i]);
            assert(vs[k] == made[i]);
            assert(s.problems.contains_key(keys(s.problems)[k]));
            assert(ids[i] == keys(s.problems)[k]);
        }
    }
}

impl ClosureStateView {
    /// Tickets that were taken up keep how they are worked, and only move on to being done.
    pub open spec fn tickets_advance(self, later: ClosureStateView) -> bool {
        forall|id: Seq<char>| #[trigger]
            self.tickets.contains_key(id) && (self.tickets[id].status == TicketStatus::Executing
                || self.tickets[id].status == TicketStatus::Splitting || self.tickets[id].status
                == TicketStatus::Done) ==> later.tickets[id].classification
                == self.tickets[id].classification && (later.tickets[id].status
                == self.tickets[id].status || later.tickets[id].status == TicketStatus::Done)
    }

    /// What is new in the lists of a problem points back to it.
    pub open spec fn lists_grow(self, later: ClosureStateView, id: Seq<char>) -> bool {
        let p = self.problems[id];
        let q = later.problems[id];
        &&& forall|i: int|
            p.child_problem_ids.len() <= i < q.child_problem_ids.len() ==> (later.backlink_faults(
                "child "@,
                id,
            ))(#[trigger] q.child_problem_ids[i]) is None
        &&& forall|i: int|
            p.followup_problem_ids.len() <= i < q.followup_problem_ids.len() ==> (
            later.backlink_faults("follow-up "@, id))(#[trigger] q.followup_problem_ids[i]) is None
        &&& forall|i: int|
            p.result_ids.len() <= i < q.result_ids.len() ==> (later.listed_result_faults(id))(
                #[trigger] q.result_ids[i],
            ) is None
        &&& forall|i: int|
            p.check_ids.len() <= i < q.check_ids.len() ==> (later.listed_check_faults(id))(
                #[trigger] q.check_ids[i],
            ) is None
    }
}

/// An owner stays an owner.
pub proof fn lemma_owner_stays(a: ClosureStateView, b: ClosureStateView, id: Seq<char>)
    requires
        rooted(a.problems),
        rooted(b.problems),
        a.keeps_records(b),
        a.problems.contains_key(id),
        a.owner_fault(id) is None,
        b.problems[id].owner_thread_id == a.problems[id].owner_thread_id,
    ensures
        b.owner_fault(id) is None,
{
    let owner = a.problems[id].owner_thread_id;
    assert(a.threads.contains_key(owner));
    assert(b.threads[owner].root_problem_id == a.threads[owner].root_problem_id);
    lemma_descends_kept(a.problems, b.problems, id, a.threads[owner].root_problem_id);
}

/// Where a problem came from stays what it is.
pub proof fn lemma_source_stays(a: ClosureStateView, b: ClosureStateView, id: Seq<char>)
    requires
        a.keeps_records(b),
        a.tickets_advance(b),
        a.problems.contains_key(id),
        a.source_fault(id) is None,
        b.problems[id].is_user_task() ==> b.user_task_fault(id) is None,
    ensures
        b.source_fault(id) is None,
{
    let p = a.problems[id];
    assert(problem_kept(p, b.problems[id]));
    if let Some(ticket_id) = p.created_from_ticket_id {
        assert(a.tickets.contains_key(ticket_id));
        assert(ticket_kept(a.tickets[ticket_id], b.tickets[ticket_id]));
    }
    if let Some(check_id) = p.created_from_check_id {
        assert(a.checks.contains_key(check_id));
    }
}

/// What a problem lists stays in order.
pub proof fn lemma_lists_stay(a: ClosureStateView, b: ClosureStateView, id: Seq<char>)
    requires
        a.keeps_records(b),
        a.problems.contains_key(id),
        a.lists_fault(id) is None,
        a.lists_grow(b, id),
    ensures
        b.lists_fault(id) is None,
{
    let p = a.problems[id];
    let q = b.problems[id];
    assert(problem_kept(p, q));
    lemma_first_fault(p.child_problem_ids, a.backlink_faults("child "@, id), 0);
    lemma_first_fault(p.followup_problem_ids, a.backlink_faults("follow-up "@, id), 0);
    lemma_first_fault(p.result_ids, a.listed_result_faults(id), 0);
    lemma_first_fault(p.check_ids, a.listed_check_faults(id), 0);
    lemma_first_fault(q.child_problem_ids, b.backlink_faults("child "@, id), 0);
    lemma_first_fault(q.followup_problem_ids, b.backlink_faults("follow-up "@, id), 0);
    lemma_first_fault(q.result_ids, b.listed_result_faults(id), 0);
    lemma_first_fault(q.check_ids, b.listed_check_faults(id), 0);
    assert forall|i: int| 0 <= i < q.child_problem_ids.len() implies (b.backlink_faults(
        "child "@,
        id,
    ))(#[trigger] q.child_problem_ids[i]) is None by {
        if i < p.child_problem_ids.len() {
            assert(q.child_problem_ids[i] == p.child_problem_ids[i]);
            assert((a.backlink_faults("child "@, id))(p.child_problem_ids[i]) is None);
            assert(a.problems.contains_key(p.child_problem_ids[i]));
        }
    }
    assert forall|i: int| 0 <= i < q.followup_problem_ids.len() implies (b.backlink_faults(
        "follow-up "@,
        id,
    ))(#[trigger] q.followup_problem_ids[i]) is None by {
        if i < p.followup_problem_ids.len() {
            assert(q.followup_problem_ids[i] == p.followup_problem_ids[i]);
            assert((a.backlink_faults("follow-up "@, id))(p.followup_problem_ids[i]) is None);
            assert(a.problems.contains_key(p.followup_problem_ids[i]));
        }
    }
    assert forall|i: int| 0 <= i < q.result_ids.len() implies (b.listed_result_faults(id))(
        #[trigger] q.result_ids[i],
    ) is None by {
        if i < p.result_ids.len() {
            assert(q.result_ids[i] == p.result_ids[i]);
            assert((a.listed_result_faults(id))(p.result_ids[i]) is None);
            assert(a.results.contains_key(p.result_ids[i]));
        }
    }
    assert forall|i: int| 0 <= i < q.check_ids.len() implies (b.listed_check_faults(id))(
        #[trigger] q.check_ids[i],
    ) is None by {
        if i < p.check_ids.len() {
            assert(q.check_ids[i] == p.check_ids[i]);
            assert((a.listed_check_faults(id))(p.check_ids[i]) is None);
            lemma_check_stays(a, b, id, p.check_ids[i]);
        }
    }
}

/// A listed check stays in order.
proof fn lemma_check_stays(a: ClosureStateView, b: ClosureStateView, id: Seq<char>, check_id: Seq<char>)
    requires
        a.keeps_records(b),
        a.problems.contains_key(id),
        a.listed_check_fault(id, check_id) is None,
    ensures
        b.listed_check_fault(id, check_id) is None,
{
    let p = a.problems[id];
    let q = b.problems[id];
    assert(problem_kept(p, q));
    assert(a.checks.contains_key(check_id));
    if let Some(f) = a.checks[check_id].followup_problem_id {
        if a.problems.contains_key(f) {
            assert(problem_kept(a.problems[f], b.problems[f]));
        }
        if p.followup_problem_ids.contains(f) {
            let k = p.followup_problem_ids.index_of(f);
            assert(q.followup_problem_ids[k] == f);
        }
    }
}

/// A problem that is done stays closed.
pub proof fn lemma_done_stays(a: ClosureStateView, b: ClosureStateView, id: Seq<char>)
    requires
        a.keeps_records(b),
        a.problems.contains_key(id),
        a.lists_fault(id) is None,
        a.problems[id].status == ProblemStatus::Done,
        a.done_fault(id) is None,
        b.problems[id].child_problem_ids == a.problems[id].child_problem_ids,
        b.problems[id].followup_problem_ids == a.problems[id].followup_problem_ids,
    ensures
        b.done_fault(id) is None,
{
    let p = a.problems[id];
    let q = b.problems[id];
    assert(problem_kept(p, q));
    assert(a.closing_fault(id) is None);
    assert(ticket_kept(a.tickets[p.ticket_id->0], b.tickets[p.ticket_id->0]));
    lemma_first_fault(p.child_problem_ids, a.backlink_faults("child "@, id), 0);
    lemma_first_fault(p.followup_problem_ids, a.backlink_faults("follow-up "@, id), 0);
    lemma_none_open(a, p.child_problem_ids);
    lemma_none_open(a, p.followup_problem_ids);
    lemma_none_open(b, p.child_problem_ids);
    lemma_none_open(b, p.followup_problem_ids);
    assert forall|i: int|
        0 <= i < p.child_problem_ids.len() && b.problems.contains_key(
            #[trigger] p.child_problem_ids[i],
        ) implies b.problems[p.child_problem_ids[i]].status == ProblemStatus::Done by {
        let c = p.child_problem_ids[i];
        assert((a.backlink_faults("child "@, id))(c) is None);
        assert(a.problems.contains_key(c));
        assert(problem_kept(a.problems[c], b.problems[c]));
    }
    assert forall|i: int|
        0 <= i < p.followup_problem_ids.len() && b.problems.contains_key(
            #[trigger] p.followup_problem_ids[i],
        ) implies b.problems[p.followup_problem_ids[i]].status == ProblemStatus::Done by {
        let c = p.followup_problem_ids[i];
        assert((a.backlink_faults("follow-up "@, id))(c) is None);
        assert(a.problems.contains_key(c));
        assert(problem_kept(a.problems[c], b.problems[c]));
    }
    assert(b.has_success_check(id)) by {
        let i = choose|i: int|
            0 <= i < p.check_ids.len() && a.checks.contains_key(#[trigger] p.check_ids[i])
                && a.checks[p.check_ids[i]].status == crate::kinds::CheckStatus::Success;
        assert(q.check_ids[i] == p.check_ids[i]);
        assert(b.checks.contains_key(q.check_ids[i]));
    }
}

/// A problem that was free of faults is so still, as far as it changes in an orderly way.
pub proof fn lemma_problem_stays(a: ClosureStateView, b: ClosureStateView, id: Seq<char>)
    requires
        rooted(a.problems),
        rooted(b.problems),
        a.keeps_records(b),
        a.tickets_advance(b),
        a.problems.contains_key(id),
        a.problem_fault(id) is None,
        b.problems[id].owner_thread_id == a.problems[id].owner_thread_id || b.owner_fault(
            id,
        ) is None,
        b.problems[id].is_user_task() ==> b.user_task_fault(id) is None,
        b.problems[id].ticket_id == a.problems[id].ticket_id || b.own_ticket_fault(id) is None,
        a.lists_grow(b, id),
        b.problems[id].status == ProblemStatus::Done ==> b.done_fault(id) is None || (
        a.problems[id].status == ProblemStatus::Done && b.problems[id].child_problem_ids
            == a.problems[id].child_problem_ids && b.problems[id].followup_problem_ids
            == a.problems[id].followup_problem_ids),
    ensures
        b.problem_fault(id) is None,
{
    let p = a.problems[id];
    let q = b.problems[id];
    assert(problem_kept(p, q));
    if q.owner_thread_id == p.owner_thread_id {
        lemma_owner_stays(a, b, id);
    }
    lemma_source_stays(a, b, id);
    if q.ticket_id == p.ticket_id {
        if let Some(ticket_id) = p.ticket_id {
            assert(a.tickets.contains_key(ticket_id));
            assert(ticket_kept(a.tickets[ticket_id], b.tickets[ticket_id]));
        }
    }
    lemma_lists_stay(a, b, id);
    if q.status == ProblemStatus::Done && b.done_fault(id) is Some {
        lemma_done_stays(a, b, id);
    }
}

/// A ticket that was free of faults is so still.
pub proof fn lemma_ticket_stays(a: ClosureStateView, b: ClosureStateView, id: Seq<char>)
    requires
        a.filed(),
        b.filed(),
        a.keeps_records(b),
        a.tickets.contains_key(id),
        a.ticket_fault(id) is None,
        b.tickets[id] == a.tickets[id],
        a.tickets[id].status == TicketStatus::Done ==> forall|p: Seq<char>| #[trigger]
            b.problems.contains_key(p) && b.problems[p].created_from_ticket_id == Some(id)
                ==> a.problems.contains_key(p),
    ensures
        b.ticket_fault(id) is None,
{
    assert(a.problems.contains_key(a.tickets[id].problem_id));
    lemma_none_open_from(a, id);
    lemma_none_open_from(b, id);
    if a.tickets[id].status == TicketStatus::Done {
        assert forall|p: Seq<char>| #[trigger]
            b.problems.contains_key(p) && b.problems[p].created_from_ticket_id == Some(
                id,
            ) implies b.problems[p].status == ProblemStatus::Done by {
            assert(a.problems.contains_key(p));
            assert(problem_kept(a.problems[p], b.problems[p]));
        }
    }
}

impl ClosureStateView {
    /// The thread that the inbox item of a user task is for, if it is for one.
    pub open spec fn task_target(self, id: Seq<char>) -> Option<Seq<char>> {
        self.inbox[self.item_index(self.problems[id].created_from_inbox_item_id->0)->0].target_thread_id
    }
}

/// What a user task came from stays handled, and the task stays with whom it is for.
pub proof fn lemma_task_stays(a: ClosureStateView, b: ClosureStateView, id: Seq<char>)
    requires
        a.keeps_records(b),
        a.problems.contains_key(id),
        a.user_task_fault(id) is None,
        b.problems[id].owner_thread_id == a.problems[id].owner_thread_id || a.task_target(id) is None
            || a.task_target(id) == Some(b.problems[id].owner_thread_id),
        forall|i: int| #[trigger] a.settles(i) ==> b.settles(i),
        forall|i: int|
            0 <= i < a.passive_events.len() && (#[trigger] a.passive_events[i]).status
                == PassiveEventStatus::Handled ==> b.passive_events[i].status
                == PassiveEventStatus::Handled,
    ensures
        b.user_task_fault(id) is None,
{
    let p = a.problems[id];
    assert(problem_kept(p, b.problems[id]));
    let event_id = p.created_from_passive_event_id->0;
    let item_id = p.created_from_inbox_item_id->0;
    lemma_find_from(a.passive_events, event_named(event_id), 0);
    lemma_find_from(b.passive_events, event_named(event_id), 0);
    lemma_find_from(a.inbox, item_named(item_id), 0);
    lemma_find_from(b.inbox, item_named(item_id), 0);
    let e = a.event_index(event_id)->0;
    let i = a.item_index(item_id)->0;
    assert(crate::history::event_kept(a.passive_events[e], b.passive_events[e]));
    assert(crate::history::item_kept(a.inbox[i], b.inbox[i]));
    assert(event_named(event_id)(b.passive_events[e]));
    assert(item_named(item_id)(b.inbox[i]));
    let f = b.event_index(event_id)->0;
    if f < e {
        assert(crate::history::event_kept(a.passive_events[f], b.passive_events[f]));
        assert(!event_named(event_id)(a.passive_events[f]));
    }
    assert(f == e);
    let j = b.item_index(item_id)->0;
    if j < i {
        assert(crate::history::item_kept(a.inbox[j], b.inbox[j]));
        assert(!item_named(item_id)(a.inbox[j]));
    }
    assert(j == i);
    assert(a.inbox[i].passive_event_id == event_id);
    assert(a.settles(i));
    assert(b.settles(i));
}

/// Where nothing is worked on, nothing becomes wrong with problems and tickets.
pub proof fn lemma_idle_planned(a: ClosureStateView, b: ClosureStateView)
    requires
        a.filed(),
        b.filed(),
        rooted(a.problems),
        a.keeps_records(b),
        a.idles(b),
        a.planned(),
    ensures
        b.planned(),
{
    assert forall|id: Seq<char>| #[trigger] b.problems.contains_key(id) implies b.problem_fault(
        id,
    ) is None by {
        assert(a.problem_fault(id) is None);
        if a.problems[id].is_user_task() {
            lemma_task_stays(a, b, id);
        }
        assert(a.lists_grow(b, id));
        lemma_problem_stays(a, b, id);
    }
    assert forall|id: Seq<char>| #[trigger] b.tickets.contains_key(id) implies b.ticket_fault(
        id,
    ) is None by {
        assert(a.ticket_fault(id) is None);
        lemma_ticket_stays(a, b, id);
    }
}

/// A problem stays free of faults while the mail stays as it is.
pub proof fn lemma_problem_moves(a: ClosureStateView, b: ClosureStateView, id: Seq<char>)
    requires
        rooted(a.problems),
        rooted(b.problems),
        a.keeps_records(b),
        a.tickets_advance(b),
        a.problems.contains_key(id),
        a.problem_fault(id) is None,
        b.passive_events == a.passive_events,
        b.inbox == a.inbox,
        b.problems[id].owner_thread_id == a.problems[id].owner_thread_id,
        b.problems[id].ticket_id == a.problems[id].ticket_id || b.own_ticket_fault(id) is None,
        a.lists_grow(b, id),
        b.problems[id].status == ProblemStatus::Done ==> b.done_fault(id) is None || (
        a.problems[id].status == ProblemStatus::Done && b.problems[id].child_problem_ids
            == a.problems[id].child_problem_ids && b.problems[id].followup_problem_ids
            == a.problems[id].followup_problem_ids),
    ensures
        b.problem_fault(id) is None,
{
    assert(problem_kept(a.problems[id], b.problems[id]));
    if a.problems[id].is_user_task() {
        assert forall|i: int| #[trigger] a.settles(i) implies b.settles(i) by {}
        lemma_task_stays(a, b, id);
    }
    lemma_problem_stays(a, b, id);
}

/// A new problem without anything of its own is free of faults where its owner and its source are.
pub proof fn lemma_leaf_planned(
    a: ClosureStateView,
    b: ClosureStateView,
    ctx: RuntimeContextView,
    parent_id: Seq<char>,
    id: Seq<char>,
)
    requires
        rooted(a.problems),
        rooted(b.problems),
        a.keeps_records(b),
        a.wired(),
        a.writable(ctx, parent_id) is Ok,
        !a.problems.contains_key(id),
        b.problems.contains_key(id),
        b.problems[id].owner_thread_id == ctx.thread_id,
        b.problems[id].parent_id == Some(parent_id),
        b.problems[id].ticket_id is None,
        b.problems[id].child_problem_ids.len() == 0,
        b.problems[id].followup_problem_ids.len() == 0,
        b.problems[id].result_ids.len() == 0,
        b.problems[id].check_ids.len() == 0,
        b.problems[id].status != ProblemStatus::Done,
        b.source_fault(id) is None,
    ensures
        b.problem_fault(id) is None,
{
    let root = a.threads[ctx.thread_id].root_problem_id;
    assert(a.thread_fits(ctx.thread_id));
    assert(a.problems.contains_key(parent_id));
    assert forall|x: Seq<char>| #[trigger] a.problems.contains_key(x) implies
        b.problems.contains_key(x) && b.problems[x].parent_id == a.problems[x].parent_id by {
        assert(problem_kept(a.problems[x], b.problems[x]));
    }
    lemma_descends_kept(a.problems, b.problems, parent_id, root);
    assert(descends(b.problems, id, root) == descends(b.problems, parent_id, root));
    assert(b.lists_fault(id) is None);
}

/// The tickets stay free of faults where they stay as they are and no problem is added to one that
/// is done.
pub proof fn lemma_tickets_stay(a: ClosureStateView, b: ClosureStateView)
    requires
        a.filed(),
        b.filed(),
        a.keeps_records(b),
        a.planned(),
        b.tickets == a.tickets,
        forall|p: Seq<char>| #[trigger]
            b.problems.contains_key(p) && b.problems[p].created_from_ticket_id is Some
                ==> a.problems.contains_key(p)
                || a.tickets[b.problems[p].created_from_ticket_id->0].status != TicketStatus::Done,
    ensures
        forall|id: Seq<char>| #[trigger]
            b.tickets.contains_key(id) ==> b.ticket_fault(id) is None,
{
    assert forall|id: Seq<char>| #[trigger] b.tickets.contains_key(id) implies b.ticket_fault(
        id,
    ) is None by {
        assert(a.ticket_fault(id) is None);
        lemma_ticket_stays(a, b, id);
    }
}

} // verus!
