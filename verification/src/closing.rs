//! When a problem may be closed.
use vstd::prelude::*;
use crate::entities::{ClosureState, ClosureStateView};
use crate::error::{QunuxError, QunuxErrorView, Result};
use crate::forest::unknown_problem;
use crate::kinds::TicketStatus;
use crate::state::{refuse, refused, unknown_ticket};
use crate::text::{cat2, cat3, cat5, group_views, join, joined};

verus! {

broadcast use group_views;

/// What is wrong, if anything.
pub type Fault = Option<QunuxErrorView>;

/// What a check found wrong.
pub open spec fn fault_of(r: std::result::Result<(), QunuxError>) -> Fault {
    match r {
        Ok(_) => None,
        Err(e) => Some(e@),
    }
}

impl ClosureStateView {
    /// Why a problem cannot be closed: its ticket is not done, or a child or a follow-up is open.
    pub open spec fn closing_fault(self, problem_id: Seq<char>) -> Fault {
        if !self.problems.contains_key(problem_id) {
            Some(unknown_problem(problem_id))
        } else {
            let problem = self.problems[problem_id];
            match problem.ticket_id {
                None => Some(refused("problem "@ + problem_id + " has no ticket"@)),
                Some(ticket_id) => if !self.tickets.contains_key(ticket_id) {
                    Some(unknown_ticket(ticket_id))
                } else if self.tickets[ticket_id].status != TicketStatus::Done {
                    Some(
                        refused(
                            "problem "@ + problem_id + " ticket "@ + ticket_id + " is not done"@,
                        ),
                    )
                } else if self.open_problems_among(problem.child_problem_ids).len() > 0 {
                    Some(
                        refused(
                            "child problems still open: "@ + joined(
                                self.open_problems_among(problem.child_problem_ids),
                                ", "@,
                            ),
                        ),
                    )
                } else if self.open_followup_ids(problem_id).len() > 0 {
                    Some(
                        refused(
                            "follow-up problems still open: "@ + joined(
                                self.open_followup_ids(problem_id),
                                ", "@,
                            ),
                        ),
                    )
                } else {
                    None
                },
            }
        }
    }
}

impl ClosureState {
    /// Checks that a problem may be closed.
    pub fn require_problem_closable(&self, problem_id: &str) -> (r: Result<()>)
        requires
            self.wf(),
        ensures
            fault_of(r) == self@.closing_fault(problem_id@),
    {
        let problem = self.require_problem(problem_id)?;
        let ticket_id = match &problem.ticket_id {
            Some(ticket_id) => ticket_id,
            None => {
                return Err(refuse(cat3("problem ", problem_id, " has no ticket")));
            },
        };
        let ticket = self.require_ticket(ticket_id.as_str())?;
        if ticket.status != TicketStatus::Done {
            return Err(
                refuse(
                    cat5("problem ", problem_id, " ticket ", ticket_id.as_str(), " is not done"),
                ),
            );
        }
        let open_children = self.open_problems_among(&problem.child_problem_ids);
        if !open_children.is_empty() {
            let list = join(&open_children, ", ");
            return Err(refuse(cat2("child problems still open: ", list.as_str())));
        }
        let open_followups = self.open_followup_ids(problem_id);
        if !open_followups.is_empty() {
            let list = join(&open_followups, ", ");
            return Err(refuse(cat2("follow-up problems still open: ", list.as_str())));
        }
        Ok(())
    }
}

} // verus!
