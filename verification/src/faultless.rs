//! When a state is in order, told by what its records hold.
use vstd::prelude::*;
use crate::consistency::law_valid_is_consistent;
use crate::dealings::{is_event_at, is_item_at, lemma_event_at, lemma_item_at};
use crate::effects::{above, children_closed, law_subtree_is_what_lies_below, lemma_no_open_children, lemma_none_open, none_open};
use crate::entities::ClosureStateView;
use crate::forest::rooted;
use crate::kinds::{CheckStatus, PassiveEventStatus, ProblemStatus, TicketChildMode, TicketClassification, TicketStatus};
use crate::lookup::{event_named, item_named};
use crate::search::{find_from, lemma_find_from};
use crate::validation::lemma_first_fault;
use crate::wiring::law_consistent_is_wired_and_planned;

verus! {

impl ClosureStateView {
    /// A problem belongs to a thread that is there and whose own problem stands above it or is it, and
    /// its parent is there.
    pub open spec fn owner_is_right(self, id: Seq<char>) -> bool {
        let problem = self.problems[id];
        &&& self.threads.contains_key(problem.owner_thread_id)
        &&& exists|n: nat| #[trigger]
            above(self.problems, id, n) == Some(
                self.threads[problem.owner_thread_id].root_problem_id,
            )
        &&& problem.parent_id matches Some(parent) ==> self.problems.contains_key(parent)
    }

    /// A problem says that it came from something outside.
    pub open spec fn says_outside(self, id: Seq<char>) -> bool {
        let problem = self.problems[id];
        problem.created_from_passive_event_id is Some || problem.created_from_inbox_item_id is Some
            || problem.created_from_user_task_kind is Some
    }

    /// A problem that came out of a ticket came out of that of its parent, which was taken up in the
    /// way that makes such problems; nothing else made it.
    pub open spec fn ticket_source_is_right(self, id: Seq<char>) -> bool {
        let problem = self.problems[id];
        problem.created_from_ticket_id matches Some(t) ==> {
            let ticket = self.tickets[t];
            &&& self.tickets.contains_key(t)
            &&& problem.created_from_check_id is None
            &&& !self.says_outside(id)
            &&& problem.parent_id == Some(ticket.problem_id)
            &&& problem.created_from_ticket_mode == Some(TicketChildMode::Spawn)
                ==> ticket.classification == Some(TicketClassification::OneGo) && (ticket.status
                == TicketStatus::Executing || ticket.status == TicketStatus::Done)
            &&& problem.created_from_ticket_mode != Some(TicketChildMode::Spawn)
                ==> ticket.classification == Some(TicketClassification::Split) && (ticket.status
                == TicketStatus::Splitting || ticket.status == TicketStatus::Done)
        }
    }

    /// A follow-up came out of a failed check of its parent that names it.
    pub open spec fn check_source_is_right(self, id: Seq<char>) -> bool {
        let problem = self.problems[id];
        problem.created_from_check_id matches Some(c) ==> {
            &&& !self.says_outside(id)
            &&& self.checks.contains_key(c)
            &&& self.checks[c].status == CheckStatus::NotSuccess
            &&& self.checks[c].followup_problem_id == Some(id)
            &&& problem.parent_id == Some(self.checks[c].problem_id)
        }
    }

    /// A task of the user names an item and its event, both handled and of one source, and its kind;
    /// the item was for its owner or for anybody.
    pub open spec fn outside_source_is_right(self, id: Seq<char>) -> bool {
        let problem = self.problems[id];
        self.says_outside(id) ==> {
            &&& problem.created_from_passive_event_id is Some
            &&& problem.created_from_inbox_item_id is Some
            &&& exists|e: int, i: int|
                #![trigger self.passive_events[e], self.inbox[i]]
                is_event_at(self, problem.created_from_passive_event_id->0, e) && is_item_at(
                    self,
                    problem.created_from_inbox_item_id->0,
                    i,
                ) && self.inbox[i].passive_event_id == self.passive_events[e].id
                    && problem.created_from_user_task_kind == Some(self.passive_events[e].kind)
                    && self.inbox[i].event_key == self.passive_events[e].event_key
                    && self.inbox[i].target_thread_id == self.passive_events[e].target_thread_id
                    && self.inbox[i].condition == self.passive_events[e].condition
                    && self.inbox[i].source == self.passive_events[e].source
                    && self.inbox[i].dedupe_key == self.passive_events[e].dedupe_key
                    && self.inbox[i].status == PassiveEventStatus::Handled
                    && self.passive_events[e].status == PassiveEventStatus::Handled && (
                self.inbox[i].target_thread_id is None || self.inbox[i].target_thread_id == Some(
                    problem.owner_thread_id,
                ))
        }
    }

    /// A problem came from something if it has a parent, and what it came from is as it says.
    pub open spec fn source_is_right(self, id: Seq<char>) -> bool {
        let problem = self.problems[id];
        &&& problem.parent_id is Some ==> problem.created_from_ticket_id is Some
            || problem.created_from_check_id is Some || self.says_outside(id)
        &&& self.ticket_source_is_right(id)
        &&& self.check_source_is_right(id)
        &&& self.outside_source_is_right(id)
    }

    /// What a problem lists is there and points back to it.
    pub open spec fn lists_are_right(self, id: Seq<char>) -> bool {
        let problem = self.problems[id];
        &&& problem.ticket_id matches Some(t) ==> self.tickets.contains_key(t)
            && self.tickets[t].problem_id == id
        &&& forall|i: int|
            0 <= i < problem.child_problem_ids.len() ==> self.problems.contains_key(
                #[trigger] problem.child_problem_ids[i],
            ) && self.problems[problem.child_problem_ids[i]].parent_id == Some(id)
        &&& forall|i: int|
            0 <= i < problem.followup_problem_ids.len() ==> self.problems.contains_key(
                #[trigger] problem.followup_problem_ids[i],
            ) && self.problems[problem.followup_problem_ids[i]].parent_id == Some(id)
        &&& forall|i: int|
            0 <= i < problem.result_ids.len() ==> self.results.contains_key(
                #[trigger] problem.result_ids[i],
            ) && self.results[problem.result_ids[i]].problem_id == id
        &&& forall|i: int|
            0 <= i < problem.check_ids.len() ==> self.check_is_right(
                id,
                #[trigger] problem.check_ids[i],
            )
    }

    /// A check belongs to its problem; a success has no follow-up, anything else one that the problem
    /// lists and that points back to both.
    pub open spec fn check_is_right(self, id: Seq<char>, check_id: Seq<char>) -> bool {
        let check = self.checks[check_id];
        &&& self.checks.contains_key(check_id)
        &&& check.problem_id == id
        &&& check.status == CheckStatus::Success ==> check.followup_problem_id is None
        &&& check.status == CheckStatus::NotSuccess ==> {
            &&& check.followup_problem_id is Some
            &&& self.problems.contains_key(check.followup_problem_id->0)
            &&& self.problems[check.followup_problem_id->0].created_from_check_id == Some(check_id)
            &&& self.problems[check.followup_problem_id->0].parent_id == Some(id)
            &&& self.problems[id].followup_problem_ids.contains(check.followup_problem_id->0)
        }
    }

    /// A problem that is done has a done ticket, a check that found so, and nothing open below.
    pub open spec fn end_is_right(self, id: Seq<char>) -> bool {
        let problem = self.problems[id];
        problem.status == ProblemStatus::Done ==> {
            &&& problem.ticket_id matches Some(t) && self.tickets.contains_key(t)
                && self.tickets[t].status == TicketStatus::Done
            &&& none_open(self, problem.child_problem_ids)
            &&& none_open(self, problem.followup_problem_ids)
            &&& exists|i: int|
                0 <= i < problem.check_ids.len() && self.checks.contains_key(
                    #[trigger] problem.check_ids[i],
                ) && self.checks[problem.check_ids[i]].status == CheckStatus::Success
        }
    }

    /// A ticket belongs to a problem that is there, was classified before it was taken up, in the way
    /// that it was taken up, and has a result and nothing open once it is done.
    pub open spec fn ticket_is_right(self, id: Seq<char>) -> bool {
        let ticket = self.tickets[id];
        &&& self.problems.contains_key(ticket.problem_id)
        &&& match ticket.status {
            TicketStatus::Created | TicketStatus::Defined => true,
            TicketStatus::Classified => ticket.classification is Some,
            TicketStatus::Executing => ticket.classification == Some(TicketClassification::OneGo),
            TicketStatus::Splitting => ticket.classification == Some(TicketClassification::Split),
            TicketStatus::Done => ticket.classification is Some && ticket.result_id is Some
                && children_closed(self, id),
        }
    }
}

proof fn lemma_event_index(s: ClosureStateView, id: Seq<char>)
    ensures
        match s.event_index(id) {
            Some(e) => is_event_at(s, id, e),
            None => forall|e: int| !is_event_at(s, id, e),
        },
{
    lemma_find_from(s.passive_events, event_named(id), 0);
    if let Some(e) = find_from(s.passive_events, event_named(id), 0) {
        assert((event_named(id))(s.passive_events[e]));
        assert forall|k: int| 0 <= k < e implies (#[trigger] s.passive_events[k]).id != id by {
            assert(!(event_named(id))(s.passive_events[k]));
        }
    } else {
        assert forall|e: int| !is_event_at(s, id, e) by {
            if is_event_at(s, id, e) {
                lemma_event_at(s, id, e);
            }
        }
    }
}

proof fn lemma_item_index(s: ClosureStateView, id: Seq<char>)
    ensures
        match s.item_index(id) {
            Some(i) => is_item_at(s, id, i),
            None => forall|i: int| !is_item_at(s, id, i),
        },
{
    lemma_find_from(s.inbox, item_named(id), 0);
    if let Some(i) = find_from(s.inbox, item_named(id), 0) {
        assert((item_named(id))(s.inbox[i]));
        assert forall|k: int| 0 <= k < i implies (#[trigger] s.inbox[k]).id != id by {
            assert(!(item_named(id))(s.inbox[k]));
        }
    } else {
        assert forall|i: int| !is_item_at(s, id, i) by {
            if is_item_at(s, id, i) {
                lemma_item_at(s, id, i);
            }
        }
    }
}

proof fn lemma_owner(s: ClosureStateView, id: Seq<char>)
    requires
        rooted(s.problems),
        s.problems.contains_key(id),
    ensures
        s.owner_fault(id) is None <==> s.owner_is_right(id),
{
    let problem = s.problems[id];
    if s.threads.contains_key(problem.owner_thread_id) {
        law_subtree_is_what_lies_below(
            s.problems,
            id,
            s.threads[problem.owner_thread_id].root_problem_id,
        );
    }
}

proof fn lemma_outside(s: ClosureStateView, id: Seq<char>)
    requires
        s.says_outside(id),
    ensures
        s.user_task_fault(id) is None <==> s.outside_source_is_right(id),
{
    let problem = s.problems[id];
    if problem.created_from_passive_event_id is Some && problem.created_from_inbox_item_id is Some {
        let event_id = problem.created_from_passive_event_id->0;
        let item_id = problem.created_from_inbox_item_id->0;
        lemma_event_index(s, event_id);
        lemma_item_index(s, item_id);
        if s.event_index(event_id) is Some && s.item_index(item_id) is Some {
            let e = s.event_index(event_id)->0;
            let i = s.item_index(item_id)->0;
            let (x, y) = (s.passive_events[e], s.inbox[i]);
            assert forall|f: int, j: int|
                #![trigger s.passive_events[f], s.inbox[j]]
                is_event_at(s, event_id, f) && is_item_at(s, item_id, j) implies f == e && j == i by {
                lemma_event_at(s, event_id, f);
                lemma_item_at(s, item_id, j);
            }
        }
    }
}

proof fn lemma_source(s: ClosureStateView, id: Seq<char>)
    ensures
        s.source_fault(id) is None <==> s.source_is_right(id),
{
    if s.says_outside(id) {
        lemma_outside(s, id);
    }
}

proof fn lemma_lists(s: ClosureStateView, id: Seq<char>)
    ensures
        s.own_ticket_fault(id) is None && s.lists_fault(id) is None <==> s.lists_are_right(id),
{
    let p = s.problems[id];
    let children = s.backlink_faults("child "@, id);
    let followups = s.backlink_faults("follow-up "@, id);
    let results = s.listed_result_faults(id);
    let checks = s.listed_check_faults(id);
    lemma_first_fault(p.child_problem_ids, children, 0);
    lemma_first_fault(p.followup_problem_ids, followups, 0);
    lemma_first_fault(p.result_ids, results, 0);
    lemma_first_fault(p.check_ids, checks, 0);
    assert forall|c: Seq<char>| #[trigger] s.check_is_right(id, c) <==> checks(c) is None by {}
    if s.own_ticket_fault(id) is None && s.lists_fault(id) is None {
        assert forall|i: int| 0 <= i < p.child_problem_ids.len() implies s.problems.contains_key(
            #[trigger] p.child_problem_ids[i],
        ) && s.problems[p.child_problem_ids[i]].parent_id == Some(id) by {
            assert(children(p.child_problem_ids[i]) is None);
        }
        assert forall|i: int| 0 <= i < p.followup_problem_ids.len() implies s.problems.contains_key(
            #[trigger] p.followup_problem_ids[i],
        ) && s.problems[p.followup_problem_ids[i]].parent_id == Some(id) by {
            assert(followups(p.followup_problem_ids[i]) is None);
        }
        assert forall|i: int| 0 <= i < p.result_ids.len() implies s.results.contains_key(
            #[trigger] p.result_ids[i],
        ) && s.results[p.result_ids[i]].problem_id == id by {
            assert(results(p.result_ids[i]) is None);
        }
        assert forall|i: int| 0 <= i < p.check_ids.len() implies s.check_is_right(
            id,
            #[trigger] p.check_ids[i],
        ) by {
            assert(checks(p.check_ids[i]) is None);
        }
    }
}

proof fn lemma_end(s: ClosureStateView, id: Seq<char>)
    requires
        s.problems.contains_key(id),
    ensures
        s.done_fault(id) is None <==> s.end_is_right(id),
{
    lemma_none_open(s, s.problems[id].child_problem_ids);
    lemma_none_open(s, s.problems[id].followup_problem_ids);
}

/// A state is in order exactly if its own names agree, its threads, handles, waits and mail fit
/// together, every problem belongs to the right thread, came from where it says, lists what is its own
/// and ended as it should, and every ticket stands as it was classified.
pub proof fn law_valid_means_all_is_right(s: ClosureStateView)
    requires
        s.filed(),
        rooted(s.problems),
    ensures
        s.fault() is None <==> {
            &&& s.wired()
            &&& forall|id: Seq<char>| #[trigger]
                s.problems.contains_key(id) ==> s.owner_is_right(id) && s.source_is_right(id)
                    && s.lists_are_right(id) && s.end_is_right(id)
            &&& forall|id: Seq<char>| #[trigger]
                s.tickets.contains_key(id) ==> s.ticket_is_right(id)
        },
{
    law_valid_is_consistent(s);
    law_consistent_is_wired_and_planned(s);
    assert forall|id: Seq<char>| #[trigger] s.problems.contains_key(id) implies (s.problem_fault(id)
        is None <==> s.owner_is_right(id) && s.source_is_right(id) && s.lists_are_right(id)
        && s.end_is_right(id)) by {
        lemma_owner(s, id);
        lemma_source(s, id);
        lemma_lists(s, id);
        lemma_end(s, id);
    }
    assert forall|id: Seq<char>| #[trigger] s.tickets.contains_key(id) implies (s.ticket_fault(id)
        is None <==> s.ticket_is_right(id)) by {
        lemma_no_open_children(s, id);
    }
}

/// The names at the head of a state agree exactly if its version is the current one, the process names
/// itself and its main thread alike in both places, and the root problem and the main thread are there.
pub proof fn law_head_agrees(s: ClosureStateView)
    ensures
        s.header_fault() is None <==> s.schema_version == 8 && s.process.id == s.process_id
            && s.process.main_thread_id == s.main_thread_id && s.problems.contains_key(
            s.root_problem_id,
        ) && s.threads.contains_key(s.main_thread_id),
{
}

} // verus!
