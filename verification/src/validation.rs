//! Whether the state of a process is consistent.
use vstd::prelude::*;
use crate::closing::{fault_of, Fault};
use crate::entities::{ClosureState, ClosureStateView, EventKey, EventKeyView, InboxItem, InboxItemView, IoHandle, PassiveEvent, PassiveEventView, Problem, ProblemView};
use crate::error::{QunuxErrorView, Result};
use crate::forest::{descends, is_descendant_or_self, rooted, unknown_problem};
use crate::ids::{decimal, decimal_text};
use crate::kinds::{CheckStatus, IoHandleKind, IoHandleStatus, PassiveEventStatus, ProblemStatus, ThreadStatus, TicketChildMode, TicketClassification, TicketStatus, WaitStatus};
use crate::lookup::{awaits_thread, wait_is_ready, wait_ready};
use crate::matching::opt_keys_same;
use crate::search::count;
use crate::state::{refuse, refused, unknown_check, unknown_handle, unknown_result, unknown_thread, unknown_ticket, SCHEMA_VERSION};
use crate::strmap::{keys, values, StrMap};
use crate::text::{cat2, cat3, cat4, cat5, cat6, cat8, debug_option_text, group_views, join, joined, opt_eq, opt_is, opt_view, option_text_debug, str_eq, texts_contain, views};

verus! {

broadcast use group_views;

/// The first fault, if the first part has one, else that of the second.
pub open spec fn either(a: Fault, b: Fault) -> Fault {
    if a is Some {
        a
    } else {
        b
    }
}

/// The fault of the first element from `i` on that has one.
pub open spec fn first_fault<T>(s: Seq<T>, f: spec_fn(T) -> Fault, i: int) -> Fault
    decreases s.len() - i,
{
    if i < 0 || i >= s.len() {
        None
    } else if f(s[i]) is Some {
        f(s[i])
    } else {
        first_fault(s, f, i + 1)
    }
}

pub proof fn lemma_first_fault<T>(s: Seq<T>, f: spec_fn(T) -> Fault, i: int)
    requires
        0 <= i,
    ensures
        first_fault(s, f, i) is None <==> forall|j: int| i <= j < s.len() ==> f(#[trigger] s[j]) is None,
    decreases s.len() - i,
{
    if i < s.len() {
        lemma_first_fault(s, f, i + 1);
    }
}

/// An inbox item and an event say the same of where the event came from.
pub open spec fn same_source(item: InboxItemView, event: PassiveEventView) -> bool {
    &&& item.event_key == event.event_key
    &&& item.target_thread_id == event.target_thread_id
    &&& item.condition == event.condition
    &&& item.source == event.source
    &&& item.dedupe_key == event.dedupe_key
}

/// Whether an inbox item and an event say the same of where the event came from.
pub fn has_same_source(item: &InboxItem, event: &PassiveEvent) -> (r: bool)
    ensures
        r == same_source(item@, event@),
{
    opt_keys_same(&item.event_key, &event.event_key) && opt_eq(
        &item.target_thread_id,
        &event.target_thread_id,
    ) && opt_eq(&item.condition, &event.condition) && opt_eq(&item.source, &event.source)
        && opt_eq(&item.dedupe_key, &event.dedupe_key)
}

impl ProblemView {
    /// The problem says that it was made from an inbox item.
    pub open spec fn is_user_task(self) -> bool {
        self.created_from_passive_event_id is Some || self.created_from_inbox_item_id is Some
            || self.created_from_user_task_kind is Some
    }
}

impl ClosureStateView {
    /// What is wrong with the state as a whole.
    pub open spec fn header_fault(self) -> Fault {
        if self.schema_version != SCHEMA_VERSION {
            Some(refused("unsupported schema version "@ + decimal(self.schema_version as nat)))
        } else if self.process.id != self.process_id {
            Some(
                refused(
                    "process metadata id "@ + self.process.id
                        + " does not match state process id "@ + self.process_id,
                ),
            )
        } else if self.process.main_thread_id != self.main_thread_id {
            Some(
                refused(
                    "process metadata main thread "@ + self.process.main_thread_id
                        + " does not match state main thread "@ + self.main_thread_id,
                ),
            )
        } else if !self.problems.contains_key(self.root_problem_id) {
            Some(unknown_problem(self.root_problem_id))
        } else if !self.threads.contains_key(self.main_thread_id) {
            Some(unknown_thread(self.main_thread_id))
        } else {
            None
        }
    }

    /// What is wrong with a thread: it has no problem, belongs elsewhere, or its parent does not
    /// know it.
    pub open spec fn thread_fault(self, id: Seq<char>) -> Fault {
        let thread = self.threads[id];
        if !self.problems.contains_key(thread.root_problem_id) {
            Some(unknown_problem(thread.root_problem_id))
        } else if thread.process_id != self.process_id {
            Some(
                refused(
                    "thread "@ + id + " belongs to process "@ + thread.process_id + ", not "@
                        + self.process_id,
                ),
            )
        } else {
            match thread.parent_thread_id {
                Some(parent) => if !self.threads.contains_key(parent) {
                    Some(unknown_thread(parent))
                } else if !self.threads[parent].child_thread_ids.contains(id) {
                    Some(
                        refused(
                            "thread "@ + id + " points to parent "@ + parent
                                + ", but parent does not list it"@,
                        ),
                    )
                } else {
                    None
                },
                None => None,
            }
        }
    }

    pub open spec fn thread_faults(self) -> spec_fn(Seq<char>) -> Fault {
        |id: Seq<char>| self.thread_fault(id)
    }

    /// What is wrong with a handle on a child thread, given that its owner is there.
    pub open spec fn child_handle_fault(self, id: Seq<char>) -> Fault {
        let handle = self.handles[id];
        match handle.target_thread_id {
            None => Some(refused("child-thread handle "@ + id + " has no target thread"@)),
            Some(target) => if !self.threads.contains_key(target) {
                Some(unknown_thread(target))
            } else if self.threads[target].parent_thread_id != Some(handle.owner_thread_id) {
                Some(
                    refused(
                        "child-thread handle "@ + id + " targets "@ + target
                            + ", but its parent is not "@ + handle.owner_thread_id,
                    ),
                )
            } else {
                let thread = self.threads[target];
                match handle.status {
                    IoHandleStatus::Failed => if thread.status != ThreadStatus::Failed {
                        Some(
                            refused(
                                "failed handle "@ + id + " targets thread "@ + target
                                    + " with status "@ + thread.status.name_view(),
                            ),
                        )
                    } else {
                        None
                    },
                    IoHandleStatus::Ready => if thread.status != ThreadStatus::Done {
                        Some(
                            refused(
                                "ready handle "@ + id + " targets thread "@ + target
                                    + " with status "@ + thread.status.name_view(),
                            ),
                        )
                    } else {
                        None
                    },
                    IoHandleStatus::Consumed => if thread.joined_at is None {
                        Some(
                            refused(
                                "consumed handle "@ + id + " targets unjoined thread "@ + target,
                            ),
                        )
                    } else {
                        None
                    },
                    IoHandleStatus::Pending | IoHandleStatus::Cancelled => None,
                }
            },
        }
    }

    /// What is wrong with a handle.
    pub open spec fn handle_fault(self, id: Seq<char>) -> Fault {
        let handle = self.handles[id];
        if !self.threads.contains_key(handle.owner_thread_id) {
            Some(unknown_thread(handle.owner_thread_id))
        } else if handle.kind == IoHandleKind::ChildThread {
            self.child_handle_fault(id)
        } else if handle.target_thread_id is Some {
            Some(refused("passive handle "@ + id + " must not target a child thread"@))
        } else {
            match handle.event_key {
                Some(key) => match key.target_thread_id {
                    Some(target) => if !self.threads.contains_key(target) {
                        Some(unknown_thread(target))
                    } else {
                        None
                    },
                    None => None,
                },
                None => None,
            }
        }
    }

    pub open spec fn handle_faults(self) -> spec_fn(Seq<char>) -> Fault {
        |id: Seq<char>| self.handle_fault(id)
    }

    /// What is wrong with the target of something that carries an event key.
    pub open spec fn target_fault(
        self,
        what: Seq<char>,
        id: Seq<char>,
        key: Option<EventKeyView>,
        named: Option<Seq<char>>,
    ) -> Fault {
        match key {
            Some(key) => match key.target_thread_id {
                Some(target) => if !self.threads.contains_key(target) {
                    Some(unknown_thread(target))
                } else if named != Some(target) {
                    Some(
                        refused(
                            what + id + " target "@ + option_text_debug(named)
                                + " does not match event key target "@ + target,
                        ),
                    )
                } else {
                    None
                },
                None => None,
            },
            None => None,
        }
    }

    pub open spec fn event_faults(self) -> spec_fn(PassiveEventView) -> Fault {
        |event: PassiveEventView|
            self.target_fault("passive event "@, event.id, event.event_key, event.target_thread_id)
    }

    pub open spec fn item_faults(self) -> spec_fn(InboxItemView) -> Fault {
        |item: InboxItemView|
            self.target_fault("inbox item "@, item.id, item.event_key, item.target_thread_id)
    }

    /// What is wrong with how a thread is waited for: a child thread has exactly one handle.
    pub open spec fn awaiting_fault(self, id: Seq<char>) -> Fault {
        let n = count(values(self.handles), awaits_thread(id));
        if self.threads[id].parent_thread_id is Some && n != 1 {
            Some(
                refused(
                    "child thread "@ + id + " must have exactly one child-thread handle, found "@
                        + decimal(n),
                ),
            )
        } else {
            None
        }
    }

    pub open spec fn awaiting_faults(self) -> spec_fn(Seq<char>) -> Fault {
        |id: Seq<char>| self.awaiting_fault(id)
    }

    pub open spec fn listed_handle_faults(self) -> spec_fn(Seq<char>) -> Fault {
        |id: Seq<char>|
            if self.handles.contains_key(id) {
                None::<QunuxErrorView>
            } else {
                Some(unknown_handle(id))
            }
    }

    /// What is wrong with a wait.
    pub open spec fn wait_fault(self, id: Seq<char>) -> Fault {
        let wait = self.waits[id];
        if !self.threads.contains_key(wait.thread_id) {
            Some(unknown_thread(wait.thread_id))
        } else if wait.handle_ids.len() == 0 {
            Some(refused("wait "@ + id + " has no handles"@))
        } else {
            either(
                first_fault(wait.handle_ids, self.listed_handle_faults(), 0),
                if wait.status == WaitStatus::Ready && !wait_ready(self.handles, wait) {
                    Some(refused("wait "@ + id + " is ready but its handles are not ready"@))
                } else {
                    None
                },
            )
        }
    }

    pub open spec fn wait_faults(self) -> spec_fn(Seq<char>) -> Fault {
        |id: Seq<char>| self.wait_fault(id)
    }

    /// What is wrong with who owns a problem.
    pub open spec fn owner_fault(self, id: Seq<char>) -> Fault {
        let problem = self.problems[id];
        if !self.threads.contains_key(problem.owner_thread_id) {
            Some(unknown_thread(problem.owner_thread_id))
        } else {
            let owner = self.threads[problem.owner_thread_id];
            match descends(self.problems, id, owner.root_problem_id) {
                Err(e) => Some(e),
                Ok(false) => Some(
                    refused(
                        "problem "@ + id + " is owned by thread "@ + owner.id
                            + ", but is not inside that thread subtree rooted at "@
                            + owner.root_problem_id,
                    ),
                ),
                Ok(true) => match problem.parent_id {
                    Some(parent) => if !self.problems.contains_key(parent) {
                        Some(unknown_problem(parent))
                    } else {
                        None
                    },
                    None => None,
                },
            }
        }
    }

    /// What is wrong with a problem that came out of a ticket, or that says of no source.
    pub open spec fn ticket_source_fault(self, id: Seq<char>) -> Fault {
        let problem = self.problems[id];
        match problem.created_from_ticket_id {
            Some(ticket_id) => if !self.tickets.contains_key(ticket_id) {
                Some(unknown_ticket(ticket_id))
            } else if problem.created_from_check_id is Some {
                Some(refused("problem "@ + id + " has both ticket and check provenance"@))
            } else if problem.is_user_task() {
                Some(refused("problem "@ + id + " has both ticket and user-task provenance"@))
            } else {
                let ticket = self.tickets[ticket_id];
                if problem.parent_id != Some(ticket.problem_id) {
                    Some(
                        refused(
                            "problem "@ + id + " source ticket "@ + ticket_id + " belongs to "@
                                + ticket.problem_id + ", not parent "@ + option_text_debug(
                                problem.parent_id,
                            ),
                        ),
                    )
                } else if problem.created_from_ticket_mode == Some(TicketChildMode::Spawn) {
                    if ticket.classification != Some(TicketClassification::OneGo) {
                        Some(
                            refused(
                                "problem "@ + id + " source ticket "@ + ticket_id
                                    + " is not one_go"@,
                            ),
                        )
                    } else if ticket.status != TicketStatus::Executing && ticket.status
                        != TicketStatus::Done {
                        Some(
                            refused(
                                "problem "@ + id + " source spawn ticket "@ + ticket_id
                                    + " is not executing or done"@,
                            ),
                        )
                    } else {
                        None
                    }
                } else if ticket.classification != Some(TicketClassification::Split) {
                    Some(
                        refused(
                            "problem "@ + id + " source ticket "@ + ticket_id + " is not split"@,
                        ),
                    )
                } else if ticket.status != TicketStatus::Splitting && ticket.status
                    != TicketStatus::Done {
                    Some(
                        refused(
                            "problem "@ + id + " source split ticket "@ + ticket_id
                                + " is not splitting or done"@,
                        ),
                    )
                } else {
                    None
                }
            },
            None => if problem.parent_id is Some && problem.created_from_check_id is None
                && !problem.is_user_task() {
                Some(
                    refused("problem "@ + id + " has no ticket, check, or user-task provenance"@),
                )
            } else {
                None
            },
        }
    }

    /// What is wrong with a problem that came out of a check.
    pub open spec fn check_source_fault(self, id: Seq<char>) -> Fault {
        let problem = self.problems[id];
        match problem.created_from_check_id {
            Some(check_id) => if problem.is_user_task() {
                Some(refused("problem "@ + id + " has both check and user-task provenance"@))
            } else if !self.checks.contains_key(check_id) {
                Some(unknown_check(check_id))
            } else {
                let check = self.checks[check_id];
                if check.status != CheckStatus::NotSuccess {
                    Some(
                        refused(
                            "problem "@ + id + " source check "@ + check_id
                                + " is not not_success"@,
                        ),
                    )
                } else if check.followup_problem_id != Some(id) {
                    Some(
                        refused(
                            "problem "@ + id + " source check "@ + check_id
                                + " does not point to it"@,
                        ),
                    )
                } else if problem.parent_id != Some(check.problem_id) {
                    Some(
                        refused(
                            "problem "@ + id + " source check "@ + check_id + " belongs to "@
                                + check.problem_id + ", not parent "@ + option_text_debug(
                                problem.parent_id,
                            ),
                        ),
                    )
                } else {
                    None
                }
            },
            None => None,
        }
    }

    /// What is wrong with a problem that was made from an inbox item.
    pub open spec fn user_task_fault(self, id: Seq<char>) -> Fault {
        let problem = self.problems[id];
        let incomplete = "problem "@ + id + " has incomplete user-task provenance: missing "@;
        if problem.created_from_passive_event_id is None {
            Some(refused(incomplete + "passive event"@))
        } else if problem.created_from_inbox_item_id is None {
            Some(refused(incomplete + "inbox item"@))
        } else if problem.created_from_user_task_kind is None {
            Some(refused(incomplete + "source kind"@))
        } else {
            let event_id = problem.created_from_passive_event_id->0;
            let item_id = problem.created_from_inbox_item_id->0;
            match (self.event_index(event_id), self.item_index(item_id)) {
                (None, _) => Some(
                    refused("problem "@ + id + " source passive event "@ + event_id + " is missing"@),
                ),
                (Some(_), None) => Some(
                    refused("problem "@ + id + " source inbox item "@ + item_id + " is missing"@),
                ),
                (Some(e), Some(i)) => self.user_task_source_fault(
                    id,
                    self.passive_events[e],
                    item_id,
                    self.inbox[i],
                ),
            }
        }
    }

    /// What is wrong with the event and the inbox item that a problem was made from.
    pub open spec fn user_task_source_fault(
        self,
        id: Seq<char>,
        event: PassiveEventView,
        item_id: Seq<char>,
        item: InboxItemView,
    ) -> Fault {
        let problem = self.problems[id];
        if item.passive_event_id != event.id {
            Some(
                refused(
                    "problem "@ + id + " source inbox item "@ + item_id + " points to "@
                        + item.passive_event_id + ", not passive event "@ + event.id,
                ),
            )
        } else if problem.created_from_user_task_kind != Some(event.kind) {
            Some(
                refused(
                    "problem "@ + id + " user-task kind "@ + (
                    problem.created_from_user_task_kind->0).name_view()
                        + " does not match passive event kind "@ + event.kind.name_view(),
                ),
            )
        } else if !same_source(item, event) {
            Some(
                refused(
                    "problem "@ + id + " source inbox item "@ + item_id
                        + " does not match passive event "@ + event.id,
                ),
            )
        } else if item.status != PassiveEventStatus::Handled || event.status
            != PassiveEventStatus::Handled {
            Some(
                refused(
                    "problem "@ + id + " user-task source must be handled, got inbox "@
                        + item.status.name_view() + " and event "@ + event.status.name_view(),
                ),
            )
        } else if item.target_thread_id is Some && item.target_thread_id->0
            != problem.owner_thread_id {
            Some(
                refused(
                    "problem "@ + id + " source inbox item "@ + item_id + " targets "@
                        + item.target_thread_id->0 + ", not owner "@ + problem.owner_thread_id,
                ),
            )
        } else {
            None
        }
    }

    /// What is wrong with the ticket of a problem.
    pub open spec fn own_ticket_fault(self, id: Seq<char>) -> Fault {
        match self.problems[id].ticket_id {
            Some(ticket_id) => if !self.tickets.contains_key(ticket_id) {
                Some(unknown_ticket(ticket_id))
            } else if self.tickets[ticket_id].problem_id != id {
                Some(
                    refused(
                        id + " points to ticket "@ + ticket_id + ", but the ticket belongs to "@
                            + self.tickets[ticket_id].problem_id,
                    ),
                )
            } else {
                None
            },
            None => None,
        }
    }

    /// Problems that a problem lists and that do not name it as their parent.
    pub open spec fn backlink_faults(self, what: Seq<char>, id: Seq<char>) -> spec_fn(
        Seq<char>,
    ) -> Fault {
        |c: Seq<char>|
            if !self.problems.contains_key(c) {
                Some(unknown_problem(c))
            } else if self.problems[c].parent_id != Some(id) {
                Some(refused(what + c + " does not point back to "@ + id))
            } else {
                None
            }
    }

    /// Results that a problem lists and that are of another one.
    pub open spec fn listed_result_faults(self, id: Seq<char>) -> spec_fn(Seq<char>) -> Fault {
        |r: Seq<char>|
            if !self.results.contains_key(r) {
                Some(unknown_result(r))
            } else if self.results[r].problem_id != id {
                Some(refused("result "@ + r + " does not belong to "@ + id))
            } else {
                None
            }
    }

    /// What is wrong with a check that a problem lists.
    pub open spec fn listed_check_fault(self, id: Seq<char>, check_id: Seq<char>) -> Fault {
        if !self.checks.contains_key(check_id) {
            Some(unknown_check(check_id))
        } else if self.checks[check_id].problem_id != id {
            Some(refused("check "@ + check_id + " does not belong to "@ + id))
        } else {
            let check = self.checks[check_id];
            match check.status {
                CheckStatus::Success => if check.followup_problem_id is Some {
                    Some(refused("success check "@ + check_id + " has a follow-up problem"@))
                } else {
                    None
                },
                CheckStatus::NotSuccess => match check.followup_problem_id {
                    None => Some(
                        refused("not_success check "@ + check_id + " has no follow-up problem"@),
                    ),
                    Some(followup_id) => if !self.problems.contains_key(followup_id) {
                        Some(unknown_problem(followup_id))
                    } else if self.problems[followup_id].created_from_check_id != Some(check_id) {
                        Some(
                            refused(
                                "check "@ + check_id + " points to follow-up "@ + followup_id
                                    + ", but the follow-up does not point back"@,
                            ),
                        )
                    } else if self.problems[followup_id].parent_id != Some(id) {
                        Some(
                            refused(
                                "check "@ + check_id + " follow-up "@ + followup_id
                                    + " does not belong to parent "@ + id,
                            ),
                        )
                    } else if !self.problems[id].followup_problem_ids.contains(followup_id) {
                        Some(
                            refused(
                                "check "@ + check_id + " follow-up "@ + followup_id
                                    + " is missing from parent "@ + id,
                            ),
                        )
                    } else {
                        None
                    },
                },
            }
        }
    }

    pub open spec fn listed_check_faults(self, id: Seq<char>) -> spec_fn(Seq<char>) -> Fault {
        |check_id: Seq<char>| self.listed_check_fault(id, check_id)
    }

    /// One of the checks of a problem found it solved.
    pub open spec fn has_success_check(self, id: Seq<char>) -> bool {
        let check_ids = self.problems[id].check_ids;
        exists|i: int|
            0 <= i < check_ids.len() && self.checks.contains_key(#[trigger] check_ids[i])
                && self.checks[check_ids[i]].status == CheckStatus::Success
    }

    /// What is wrong with a problem that is done.
    pub open spec fn done_fault(self, id: Seq<char>) -> Fault {
        if self.problems[id].status == ProblemStatus::Done {
            either(
                self.closing_fault(id),
                if !self.has_success_check(id) {
                    Some(refused("done problem "@ + id + " has no success check"@))
                } else {
                    None
                },
            )
        } else {
            None
        }
    }

    /// What is wrong with where a problem says it came from.
    pub open spec fn source_fault(self, id: Seq<char>) -> Fault {
        either(
            self.ticket_source_fault(id),
            either(
                self.check_source_fault(id),
                if self.problems[id].is_user_task() {
                    self.user_task_fault(id)
                } else {
                    None
                },
            ),
        )
    }

    /// What is wrong with what a problem lists.
    pub open spec fn lists_fault(self, id: Seq<char>) -> Fault {
        let problem = self.problems[id];
        either(
            first_fault(problem.child_problem_ids, self.backlink_faults("child "@, id), 0),
            either(
                first_fault(
                    problem.followup_problem_ids,
                    self.backlink_faults("follow-up "@, id),
                    0,
                ),
                either(
                    first_fault(problem.result_ids, self.listed_result_faults(id), 0),
                    first_fault(problem.check_ids, self.listed_check_faults(id), 0),
                ),
            ),
        )
    }

    /// What is wrong with a problem.
    pub open spec fn problem_fault(self, id: Seq<char>) -> Fault {
        either(
            self.owner_fault(id),
            either(
                self.source_fault(id),
                either(
                    self.own_ticket_fault(id),
                    either(self.lists_fault(id), self.done_fault(id)),
                ),
            ),
        )
    }

    pub open spec fn problem_faults(self) -> spec_fn(Seq<char>) -> Fault {
        |id: Seq<char>| self.problem_fault(id)
    }

    /// What is wrong with a ticket.
    pub open spec fn ticket_fault(self, id: Seq<char>) -> Fault {
        let ticket = self.tickets[id];
        if !self.problems.contains_key(ticket.problem_id) {
            Some(unknown_problem(ticket.problem_id))
        } else if ticket.status != TicketStatus::Created && ticket.status != TicketStatus::Defined
            && ticket.classification is None {
            Some(
                refused(
                    "ticket "@ + id + " has status "@ + ticket.status.name_view()
                        + " without classification"@,
                ),
            )
        } else if ticket.status == TicketStatus::Executing && ticket.classification != Some(
            TicketClassification::OneGo,
        ) {
            Some(refused("ticket "@ + id + " is executing without one_go classification"@))
        } else if ticket.status == TicketStatus::Splitting && ticket.classification != Some(
            TicketClassification::Split,
        ) {
            Some(refused("ticket "@ + id + " is splitting without split classification"@))
        } else if ticket.status == TicketStatus::Done && ticket.result_id is None {
            Some(refused("done ticket "@ + id + " has no result"@))
        } else if ticket.status == TicketStatus::Done && self.open_problems_among(
            self.child_problem_ids_from_ticket(id),
        ).len() > 0 {
            Some(
                refused(
                    "done ticket "@ + id + " has open child problems: "@ + joined(
                        self.open_problems_among(self.child_problem_ids_from_ticket(id)),
                        ", "@,
                    ),
                ),
            )
        } else {
            None
        }
    }

    pub open spec fn ticket_faults(self) -> spec_fn(Seq<char>) -> Fault {
        |id: Seq<char>| self.ticket_fault(id)
    }

    /// The first thing that is wrong with the state: it is looked at as a whole, then thread by
    /// thread, handle by handle and so on, each kind in ascending order.
    pub open spec fn fault(self) -> Fault {
        either(
            self.header_fault(),
            either(
                first_fault(keys(self.threads), self.thread_faults(), 0),
                either(
                    first_fault(keys(self.handles), self.handle_faults(), 0),
                    either(
                        first_fault(self.passive_events, self.event_faults(), 0),
                        either(
                            first_fault(self.inbox, self.item_faults(), 0),
                            either(
                                first_fault(keys(self.threads), self.awaiting_faults(), 0),
                                either(
                                    first_fault(keys(self.waits), self.wait_faults(), 0),
                                    either(
                                        first_fault(keys(self.problems), self.problem_faults(), 0),
                                        first_fault(keys(self.tickets), self.ticket_faults(), 0),
                                    ),
                                ),
                            ),
                        ),
                    ),
                ),
            ),
        )
    }
}

/// Checks every element of a vector with `f`, which finds the faults `p`.
fn check_all<T: View, F: Fn(&T) -> Result<()>>(
    v: &Vec<T>,
    f: F,
    Ghost(p): Ghost<spec_fn(T::V) -> Fault>,
) -> (r: Result<()>)
    requires
        forall|x: &T| #[trigger] call_requires(f, (x,)),
        forall|x: &T, r: Result<()>| #[trigger] call_ensures(f, (x,), r) ==> fault_of(r) == p(x@),
    ensures
        fault_of(r) == first_fault(views(v@), p, 0),
{
    let mut i: usize = 0;
    while i < v.len()
        invariant
            i <= v@.len(),
            forall|x: &T| #[trigger] call_requires(f, (x,)),
            forall|x: &T, r: Result<()>|
                #[trigger] call_ensures(f, (x,), r) ==> fault_of(r) == p(x@),
            first_fault(views(v@), p, 0) == first_fault(views(v@), p, i as int),
        decreases v@.len() - i,
    {
        f(&v[i])?;
        i = i + 1;
    }
    Ok(())
}

/// Checks every key of a map with `f`, which finds the faults `p`.
fn check_keys<V: View, F: Fn(&String) -> Result<()>>(
    m: &StrMap<V>,
    f: F,
    Ghost(p): Ghost<spec_fn(Seq<char>) -> Fault>,
) -> (r: Result<()>)
    requires
        m.wf(),
        forall|k: &String| m@.contains_key(k@) ==> #[trigger] call_requires(f, (k,)),
        forall|k: &String, r: Result<()>|
            #[trigger] call_ensures(f, (k,), r) ==> fault_of(r) == p(k@),
    ensures
        fault_of(r) == first_fault(keys(m@), p, 0),
{
    let mut i: usize = 0;
    let n: usize = m.len();
    while i < n
        invariant
            m.wf(),
            n == keys(m@).len(),
            i <= n,
            forall|k: &String| m@.contains_key(k@) ==> #[trigger] call_requires(f, (k,)),
            forall|k: &String, r: Result<()>|
                #[trigger] call_ensures(f, (k,), r) ==> fault_of(r) == p(k@),
            first_fault(keys(m@), p, 0) == first_fault(keys(m@), p, i as int),
        decreases n - i,
    {
        f(m.key_at(i))?;
        i = i + 1;
    }
    Ok(())
}

impl ClosureState {
    fn check_header(&self) -> (r: Result<()>)
        requires
            self.wf(),
        ensures
            fault_of(r) == self@.header_fault(),
    {
        if self.schema_version != SCHEMA_VERSION {
            let version = decimal_text(self.schema_version as u64);
            return Err(refuse(cat2("unsupported schema version ", version.as_str())));
        }
        if self.process.id != self.process_id {
            return Err(
                refuse(
                    cat4(
                        "process metadata id ",
                        self.process.id.as_str(),
                        " does not match state process id ",
                        self.process_id.as_str(),
                    ),
                ),
            );
        }
        if self.process.main_thread_id != self.main_thread_id {
            return Err(
                refuse(
                    cat4(
                        "process metadata main thread ",
                        self.process.main_thread_id.as_str(),
                        " does not match state main thread ",
                        self.main_thread_id.as_str(),
                    ),
                ),
            );
        }
        let _ = self.require_problem(self.root_problem_id.as_str())?;
        let _ = self.require_thread(self.main_thread_id.as_str())?;
        Ok(())
    }

    fn check_thread(&self, id: &str) -> (r: Result<()>)
        requires
            self.wf(),
            self@.threads.contains_key(id@),
        ensures
            fault_of(r) == self@.thread_fault(id@),
    {
        let thread = self.require_thread(id)?;
        let _ = self.require_problem(thread.root_problem_id.as_str())?;
        if thread.process_id != self.process_id {
            return Err(
                refuse(
                    cat6(
                        "thread ",
                        id,
                        " belongs to process ",
                        thread.process_id.as_str(),
                        ", not ",
                        self.process_id.as_str(),
                    ),
                ),
            );
        }
        if let Some(parent_thread_id) = &thread.parent_thread_id {
            let parent = self.require_thread(parent_thread_id.as_str())?;
            if !texts_contain(&parent.child_thread_ids, id) {
                return Err(
                    refuse(
                        cat5(
                            "thread ",
                            id,
                            " points to parent ",
                            parent_thread_id.as_str(),
                            ", but parent does not list it",
                        ),
                    ),
                );
            }
        }
        Ok(())
    }

    fn check_child_handle(&self, id: &str) -> (r: Result<()>)
        requires
            self.wf(),
            self@.handles.contains_key(id@),
        ensures
            fault_of(r) == self@.child_handle_fault(id@),
    {
        let handle = self.require_handle(id)?;
        let target_thread_id = match &handle.target_thread_id {
            Some(target) => target,
            None => {
                return Err(
                    refuse(cat3("child-thread handle ", id, " has no target thread")),
                );
            },
        };
        let target_thread = self.require_thread(target_thread_id.as_str())?;
        if !opt_is(&target_thread.parent_thread_id, handle.owner_thread_id.as_str()) {
            return Err(
                refuse(
                    cat6(
                        "child-thread handle ",
                        id,
                        " targets ",
                        target_thread_id.as_str(),
                        ", but its parent is not ",
                        handle.owner_thread_id.as_str(),
                    ),
                ),
            );
        }
        match handle.status {
            IoHandleStatus::Failed => {
                if target_thread.status != ThreadStatus::Failed {
                    return Err(
                        refuse(
                            cat6(
                                "failed handle ",
                                id,
                                " targets thread ",
                                target_thread_id.as_str(),
                                " with status ",
                                target_thread.status.name(),
                            ),
                        ),
                    );
                }
            },
            IoHandleStatus::Ready => {
                if target_thread.status != ThreadStatus::Done {
                    return Err(
                        refuse(
                            cat6(
                                "ready handle ",
                                id,
                                " targets thread ",
                                target_thread_id.as_str(),
                                " with status ",
                                target_thread.status.name(),
                            ),
                        ),
                    );
                }
            },
            IoHandleStatus::Consumed => {
                if target_thread.joined_at.is_none() {
                    return Err(
                        refuse(
                            cat4(
                                "consumed handle ",
                                id,
                                " targets unjoined thread ",
                                target_thread_id.as_str(),
                            ),
                        ),
                    );
                }
            },
            IoHandleStatus::Pending | IoHandleStatus::Cancelled => {},
        }
        Ok(())
    }

    fn check_handle(&self, id: &str) -> (r: Result<()>)
        requires
            self.wf(),
            self@.handles.contains_key(id@),
        ensures
            fault_of(r) == self@.handle_fault(id@),
    {
        let handle = self.require_handle(id)?;
        let _ = self.require_thread(handle.owner_thread_id.as_str())?;
        if handle.kind == IoHandleKind::ChildThread {
            return self.check_child_handle(id);
        }
        if handle.target_thread_id.is_some() {
            return Err(
                refuse(cat3("passive handle ", id, " must not target a child thread")),
            );
        }
        if let Some(event_key) = &handle.event_key {
            if let Some(target_thread_id) = &event_key.target_thread_id {
                let _ = self.require_thread(target_thread_id.as_str())?;
            }
        }
        Ok(())
    }

    fn check_target(
        &self,
        what: &str,
        id: &str,
        key: &Option<EventKey>,
        named: &Option<String>,
    ) -> (r: Result<()>)
        requires
            self.wf(),
        ensures
            fault_of(r) == self@.target_fault(what@, id@, opt_view(*key), opt_view(*named)),
    {
        if let Some(event_key) = key {
            if let Some(target_thread_id) = &event_key.target_thread_id {
                let _ = self.require_thread(target_thread_id.as_str())?;
                if !opt_is(named, target_thread_id.as_str()) {
                    let shown = debug_option_text(named);
                    return Err(
                        refuse(
                            cat6(
                                what,
                                id,
                                " target ",
                                shown.as_str(),
                                " does not match event key target ",
                                target_thread_id.as_str(),
                            ),
                        ),
                    );
                }
            }
        }
        Ok(())
    }

    fn check_awaiting(&self, id: &str) -> (r: Result<()>)
        requires
            self.wf(),
            self@.threads.contains_key(id@),
        ensures
            fault_of(r) == self@.awaiting_fault(id@),
    {
        let thread = self.require_thread(id)?;
        if thread.parent_thread_id.is_none() {
            return Ok(());
        }
        let awaits = |h: &IoHandle| -> (b: bool)
            ensures
                b == (awaits_thread(id@))(h@),
        {
            h.kind == IoHandleKind::ChildThread && opt_is(&h.target_thread_id, id)
        };
        let handle_count: usize = self.handles.count(awaits, Ghost(awaits_thread(id@)));
        if handle_count != 1 {
            let shown = decimal_text(handle_count as u64);
            return Err(
                refuse(
                    cat4(
                        "child thread ",
                        id,
                        " must have exactly one child-thread handle, found ",
                        shown.as_str(),
                    ),
                ),
            );
        }
        Ok(())
    }

    fn check_wait(&self, id: &str) -> (r: Result<()>)
        requires
            self.wf(),
            self@.waits.contains_key(id@),
        ensures
            fault_of(r) == self@.wait_fault(id@),
    {
        let wait = match self.waits.get(id) {
            Some(wait) => wait,
            None => {
                return Ok(());
            },
        };
        let _ = self.require_thread(wait.thread_id.as_str())?;
        if wait.handle_ids.is_empty() {
            return Err(refuse(cat3("wait ", id, " has no handles")));
        }
        let known = |handle_id: &String| -> (r: Result<()>)
            ensures
                fault_of(r) == (self@.listed_handle_faults())(handle_id@),
        {
            let _ = self.require_handle(handle_id.as_str())?;
            Ok(())
        };
        check_all(&wait.handle_ids, known, Ghost(self@.listed_handle_faults()))?;
        if wait.status == WaitStatus::Ready && !wait_is_ready(&self.handles, wait) {
            return Err(
                refuse(cat3("wait ", id, " is ready but its handles are not ready")),
            );
        }
        Ok(())
    }

    fn check_owner(&self, id: &str) -> (r: Result<()>)
        requires
            self.wf(),
            rooted(self@.problems),
            self@.problems.contains_key(id@),
        ensures
            fault_of(r) == self@.owner_fault(id@),
    {
        let problem = self.require_problem(id)?;
        let owner = self.require_thread(problem.owner_thread_id.as_str())?;
        let inside = is_descendant_or_self(&self.problems, id, owner.root_problem_id.as_str())?;
        if !inside {
            return Err(
                refuse(
                    cat6(
                        "problem ",
                        id,
                        " is owned by thread ",
                        owner.id.as_str(),
                        ", but is not inside that thread subtree rooted at ",
                        owner.root_problem_id.as_str(),
                    ),
                ),
            );
        }
        if let Some(parent_id) = &problem.parent_id {
            let _ = self.require_problem(parent_id.as_str())?;
        }
        Ok(())
    }

    fn check_ticket_source(&self, id: &str) -> (r: Result<()>)
        requires
            self.wf(),
            self@.problems.contains_key(id@),
        ensures
            fault_of(r) == self@.ticket_source_fault(id@),
    {
        let problem = self.require_problem(id)?;
        let is_user_task = is_user_task(problem);
        if let Some(ticket_id) = &problem.created_from_ticket_id {
            let ticket = self.require_ticket(ticket_id.as_str())?;
            if problem.created_from_check_id.is_some() {
                return Err(
                    refuse(cat3("problem ", id, " has both ticket and check provenance")),
                );
            }
            if is_user_task {
                return Err(
                    refuse(cat3("problem ", id, " has both ticket and user-task provenance")),
                );
            }
            if !opt_is(&problem.parent_id, ticket.problem_id.as_str()) {
                let shown = debug_option_text(&problem.parent_id);
                return Err(
                    refuse(
                        cat8(
                            "problem ",
                            id,
                            " source ticket ",
                            ticket_id.as_str(),
                            " belongs to ",
                            ticket.problem_id.as_str(),
                            ", not parent ",
                            shown.as_str(),
                        ),
                    ),
                );
            }
            match problem.created_from_ticket_mode {
                Some(TicketChildMode::Split) | None => {
                    if ticket.classification != Some(TicketClassification::Split) {
                        return Err(
                            refuse(
                                cat5(
                                    "problem ",
                                    id,
                                    " source ticket ",
                                    ticket_id.as_str(),
                                    " is not split",
                                ),
                            ),
                        );
                    }
                    if ticket.status != TicketStatus::Splitting && ticket.status
                        != TicketStatus::Done {
                        return Err(
                            refuse(
                                cat5(
                                    "problem ",
                                    id,
                                    " source split ticket ",
                                    ticket_id.as_str(),
                                    " is not splitting or done",
                                ),
                            ),
                        );
                    }
                },
                Some(TicketChildMode::Spawn) => {
                    if ticket.classification != Some(TicketClassification::OneGo) {
                        return Err(
                            refuse(
                                cat5(
                                    "problem ",
                                    id,
                                    " source ticket ",
                                    ticket_id.as_str(),
                                    " is not one_go",
                                ),
                            ),
                        );
                    }
                    if ticket.status != TicketStatus::Executing && ticket.status
                        != TicketStatus::Done {
                        return Err(
                            refuse(
                                cat5(
                                    "problem ",
                                    id,
                                    " source spawn ticket ",
                                    ticket_id.as_str(),
                                    " is not executing or done",
                                ),
                            ),
                        );
                    }
                },
            }
        } else if problem.parent_id.is_some() && problem.created_from_check_id.is_none()
            && !is_user_task {
            return Err(
                refuse(
                    cat3("problem ", id, " has no ticket, check, or user-task provenance"),
                ),
            );
        }
        Ok(())
    }

    fn check_check_source(&self, id: &str) -> (r: Result<()>)
        requires
            self.wf(),
            self@.problems.contains_key(id@),
        ensures
            fault_of(r) == self@.check_source_fault(id@),
    {
        let problem = self.require_problem(id)?;
        if let Some(check_id) = &problem.created_from_check_id {
            if is_user_task(problem) {
                return Err(
                    refuse(cat3("problem ", id, " has both check and user-task provenance")),
                );
            }
            let check = self.require_check(check_id.as_str())?;
            if check.status != CheckStatus::NotSuccess {
                return Err(
                    refuse(
                        cat5(
                            "problem ",
                            id,
                            " source check ",
                            check_id.as_str(),
                            " is not not_success",
                        ),
                    ),
                );
            }
            if !opt_is(&check.followup_problem_id, id) {
                return Err(
                    refuse(
                        cat5(
                            "problem ",
                            id,
                            " source check ",
                            check_id.as_str(),
                            " does not point to it",
                        ),
                    ),
                );
            }
            if !opt_is(&problem.parent_id, check.problem_id.as_str()) {
                let shown = debug_option_text(&problem.parent_id);
                return Err(
                    refuse(
                        cat8(
                            "problem ",
                            id,
                            " source check ",
                            check_id.as_str(),
                            " belongs to ",
                            check.problem_id.as_str(),
                            ", not parent ",
                            shown.as_str(),
                        ),
                    ),
                );
            }
        }
        Ok(())
    }

    /// Checks that a problem made from an inbox item agrees with the item and its event.
    pub fn validate_user_task_problem_provenance(&self, id: &str) -> (r: Result<()>)
        requires
            self.wf(),
            self@.problems.contains_key(id@),
        ensures
            fault_of(r) == self@.user_task_fault(id@),
    {
        let problem = self.require_problem(id)?;
        let passive_event_id = match &problem.created_from_passive_event_id {
            Some(event_id) => event_id,
            None => {
                return Err(
                    refuse(
                        cat4(
                            "problem ",
                            id,
                            " has incomplete user-task provenance: missing ",
                            "passive event",
                        ),
                    ),
                );
            },
        };
        let inbox_item_id = match &problem.created_from_inbox_item_id {
            Some(item_id) => item_id,
            None => {
                return Err(
                    refuse(
                        cat4(
                            "problem ",
                            id,
                            " has incomplete user-task provenance: missing ",
                            "inbox item",
                        ),
                    ),
                );
            },
        };
        let user_task_kind = match problem.created_from_user_task_kind {
            Some(kind) => kind,
            None => {
                return Err(
                    refuse(
                        cat4(
                            "problem ",
                            id,
                            " has incomplete user-task provenance: missing ",
                            "source kind",
                        ),
                    ),
                );
            },
        };
        let event = match self.event_index(passive_event_id.as_str()) {
            Some(i) => &self.passive_events[i],
            None => {
                return Err(
                    refuse(
                        cat5(
                            "problem ",
                            id,
                            " source passive event ",
                            passive_event_id.as_str(),
                            " is missing",
                        ),
                    ),
                );
            },
        };
        let item = match self.item_index(inbox_item_id.as_str()) {
            Some(i) => &self.inbox[i],
            None => {
                return Err(
                    refuse(
                        cat5(
                            "problem ",
                            id,
                            " source inbox item ",
                            inbox_item_id.as_str(),
                            " is missing",
                        ),
                    ),
                );
            },
        };
        if item.passive_event_id != event.id {
            return Err(
                refuse(
                    cat8(
                        "problem ",
                        id,
                        " source inbox item ",
                        inbox_item_id.as_str(),
                        " points to ",
                        item.passive_event_id.as_str(),
                        ", not passive event ",
                        event.id.as_str(),
                    ),
                ),
            );
        }
        if user_task_kind != event.kind {
            return Err(
                refuse(
                    cat6(
                        "problem ",
                        id,
                        " user-task kind ",
                        user_task_kind.name(),
                        " does not match passive event kind ",
                        event.kind.name(),
                    ),
                ),
            );
        }
        if !has_same_source(item, event) {
            return Err(
                refuse(
                    cat6(
                        "problem ",
                        id,
                        " source inbox item ",
                        inbox_item_id.as_str(),
                        " does not match passive event ",
                        event.id.as_str(),
                    ),
                ),
            );
        }
        if item.status != PassiveEventStatus::Handled || event.status
            != PassiveEventStatus::Handled {
            return Err(
                refuse(
                    cat6(
                        "problem ",
                        id,
                        " user-task source must be handled, got inbox ",
                        item.status.name(),
                        " and event ",
                        event.status.name(),
                    ),
                ),
            );
        }
        if let Some(target_thread_id) = &item.target_thread_id {
            if *target_thread_id != problem.owner_thread_id {
                return Err(
                    refuse(
                        cat8(
                            "problem ",
                            id,
                            " source inbox item ",
                            inbox_item_id.as_str(),
                            " targets ",
                            target_thread_id.as_str(),
                            ", not owner ",
                            problem.owner_thread_id.as_str(),
                        ),
                    ),
                );
            }
        }
        Ok(())
    }

    fn check_source(&self, id: &str) -> (r: Result<()>)
        requires
            self.wf(),
            self@.problems.contains_key(id@),
        ensures
            fault_of(r) == self@.source_fault(id@),
    {
        self.check_ticket_source(id)?;
        self.check_check_source(id)?;
        if is_user_task(self.require_problem(id)?) {
            self.validate_user_task_problem_provenance(id)?;
        }
        Ok(())
    }

    fn check_own_ticket(&self, id: &str) -> (r: Result<()>)
        requires
            self.wf(),
            self@.problems.contains_key(id@),
        ensures
            fault_of(r) == self@.own_ticket_fault(id@),
    {
        let problem = self.require_problem(id)?;
        if let Some(ticket_id) = &problem.ticket_id {
            let ticket = self.require_ticket(ticket_id.as_str())?;
            if !str_eq(ticket.problem_id.as_str(), id) {
                return Err(
                    refuse(
                        cat5(
                            id,
                            " points to ticket ",
                            ticket_id.as_str(),
                            ", but the ticket belongs to ",
                            ticket.problem_id.as_str(),
                        ),
                    ),
                );
            }
        }
        Ok(())
    }

    fn check_backlink(&self, what: &str, id: &str, child_id: &str) -> (r: Result<()>)
        requires
            self.wf(),
        ensures
            fault_of(r) == (self@.backlink_faults(what@, id@))(child_id@),
    {
        let child = self.require_problem(child_id)?;
        if !opt_is(&child.parent_id, id) {
            return Err(refuse(cat4(what, child_id, " does not point back to ", id)));
        }
        Ok(())
    }

    fn check_listed_result(&self, id: &str, result_id: &str) -> (r: Result<()>)
        requires
            self.wf(),
        ensures
            fault_of(r) == (self@.listed_result_faults(id@))(result_id@),
    {
        let result = self.require_result(result_id)?;
        if !str_eq(result.problem_id.as_str(), id) {
            return Err(refuse(cat4("result ", result_id, " does not belong to ", id)));
        }
        Ok(())
    }

    fn check_listed_check(&self, id: &str, check_id: &str) -> (r: Result<()>)
        requires
            self.wf(),
            self@.problems.contains_key(id@),
        ensures
            fault_of(r) == self@.listed_check_fault(id@, check_id@),
    {
        let problem = self.require_problem(id)?;
        let check = self.require_check(check_id)?;
        if !str_eq(check.problem_id.as_str(), id) {
            return Err(refuse(cat4("check ", check_id, " does not belong to ", id)));
        }
        match check.status {
            CheckStatus::Success => {
                if check.followup_problem_id.is_some() {
                    return Err(
                        refuse(cat3("success check ", check_id, " has a follow-up problem")),
                    );
                }
            },
            CheckStatus::NotSuccess => {
                let followup_id = match &check.followup_problem_id {
                    Some(followup_id) => followup_id,
                    None => {
                        return Err(
                            refuse(
                                cat3("not_success check ", check_id, " has no follow-up problem"),
                            ),
                        );
                    },
                };
                let followup = self.require_problem(followup_id.as_str())?;
                if !opt_is(&followup.created_from_check_id, check_id) {
                    return Err(
                        refuse(
                            cat5(
                                "check ",
                                check_id,
                                " points to follow-up ",
                                followup_id.as_str(),
                                ", but the follow-up does not point back",
                            ),
                        ),
                    );
                }
                if !opt_is(&followup.parent_id, id) {
                    return Err(
                        refuse(
                            cat6(
                                "check ",
                                check_id,
                                " follow-up ",
                                followup_id.as_str(),
                                " does not belong to parent ",
                                id,
                            ),
                        ),
                    );
                }
                if !texts_contain(&problem.followup_problem_ids, followup_id.as_str()) {
                    return Err(
                        refuse(
                            cat6(
                                "check ",
                                check_id,
                                " follow-up ",
                                followup_id.as_str(),
                                " is missing from parent ",
                                id,
                            ),
                        ),
                    );
                }
            },
        }
        Ok(())
    }

    fn check_lists(&self, id: &str) -> (r: Result<()>)
        requires
            self.wf(),
            self@.problems.contains_key(id@),
        ensures
            fault_of(r) == self@.lists_fault(id@),
    {
        let problem = self.require_problem(id)?;
        let child_ok = |child_id: &String| -> (r: Result<()>)
            ensures
                fault_of(r) == (self@.backlink_faults("child "@, id@))(child_id@),
        {
            self.check_backlink("child ", id, child_id.as_str())
        };
        let followup_ok = |child_id: &String| -> (r: Result<()>)
            ensures
                fault_of(r) == (self@.backlink_faults("follow-up "@, id@))(child_id@),
        {
            self.check_backlink("follow-up ", id, child_id.as_str())
        };
        let result_ok = |result_id: &String| -> (r: Result<()>)
            ensures
                fault_of(r) == (self@.listed_result_faults(id@))(result_id@),
        {
            self.check_listed_result(id, result_id.as_str())
        };
        let check_ok = |check_id: &String| -> (r: Result<()>)
            ensures
                fault_of(r) == (self@.listed_check_faults(id@))(check_id@),
        {
            self.check_listed_check(id, check_id.as_str())
        };
        check_all(
            &problem.child_problem_ids,
            child_ok,
            Ghost(self@.backlink_faults("child "@, id@)),
        )?;
        check_all(
            &problem.followup_problem_ids,
            followup_ok,
            Ghost(self@.backlink_faults("follow-up "@, id@)),
        )?;
        check_all(&problem.result_ids, result_ok, Ghost(self@.listed_result_faults(id@)))?;
        check_all(&problem.check_ids, check_ok, Ghost(self@.listed_check_faults(id@)))?;
        Ok(())
    }

    fn is_checked_solved(&self, problem: &Problem, Ghost(id): Ghost<Seq<char>>) -> (r: bool)
        requires
            self.wf(),
            self@.problems.contains_key(id),
            problem@ == self@.problems[id],
        ensures
            r == self@.has_success_check(id),
    {
        let mut i: usize = 0;
        while i < problem.check_ids.len()
            invariant
                self.wf(),
                problem@ == self@.problems[id],
                i <= problem.check_ids@.len(),
                forall|j: int|
                    0 <= j < i ==> !(self@.checks.contains_key(
                        #[trigger] self@.problems[id].check_ids[j],
                    ) && self@.checks[self@.problems[id].check_ids[j]].status
                        == CheckStatus::Success),
            decreases problem.check_ids@.len() - i,
        {
            assert(self@.problems[id].check_ids[i as int] == problem.check_ids@[i as int]@);
            if let Some(check) = self.checks.get(problem.check_ids[i].as_str()) {
                if check.status == CheckStatus::Success {
                    return true;
                }
            }
            i = i + 1;
        }
        false
    }

    fn check_done(&self, id: &str) -> (r: Result<()>)
        requires
            self.wf(),
            self@.problems.contains_key(id@),
        ensures
            fault_of(r) == self@.done_fault(id@),
    {
        let problem = self.require_problem(id)?;
        if problem.status == ProblemStatus::Done {
            self.require_problem_closable(id)?;
            if !self.is_checked_solved(problem, Ghost(id@)) {
                return Err(refuse(cat3("done problem ", id, " has no success check")));
            }
        }
        Ok(())
    }

    fn check_problem(&self, id: &str) -> (r: Result<()>)
        requires
            self.wf(),
            rooted(self@.problems),
            self@.problems.contains_key(id@),
        ensures
            fault_of(r) == self@.problem_fault(id@),
    {
        self.check_owner(id)?;
        self.check_source(id)?;
        self.check_own_ticket(id)?;
        self.check_lists(id)?;
        self.check_done(id)?;
        Ok(())
    }

    fn check_ticket(&self, id: &str) -> (r: Result<()>)
        requires
            self.wf(),
            self@.tickets.contains_key(id@),
        ensures
            fault_of(r) == self@.ticket_fault(id@),
    {
        let ticket = self.require_ticket(id)?;
        let _ = self.require_problem(ticket.problem_id.as_str())?;
        if ticket.status != TicketStatus::Created && ticket.status != TicketStatus::Defined
            && ticket.classification.is_none() {
            return Err(
                refuse(
                    cat5(
                        "ticket ",
                        id,
                        " has status ",
                        ticket.status.name(),
                        " without classification",
                    ),
                ),
            );
        }
        if ticket.status == TicketStatus::Executing && ticket.classification != Some(
            TicketClassification::OneGo,
        ) {
            return Err(
                refuse(cat3("ticket ", id, " is executing without one_go classification")),
            );
        }
        if ticket.status == TicketStatus::Splitting && ticket.classification != Some(
            TicketClassification::Split,
        ) {
            return Err(
                refuse(cat3("ticket ", id, " is splitting without split classification")),
            );
        }
        if ticket.status == TicketStatus::Done && ticket.result_id.is_none() {
            return Err(refuse(cat3("done ticket ", id, " has no result")));
        }
        if ticket.status == TicketStatus::Done {
            let children = self.child_problem_ids_from_ticket(id);
            let open_children = self.open_problems_among(&children);
            if !open_children.is_empty() {
                let list = join(&open_children, ", ");
                return Err(
                    refuse(
                        cat4("done ticket ", id, " has open child problems: ", list.as_str()),
                    ),
                );
            }
        }
        Ok(())
    }

    /// Checks that the state is consistent, and says the first thing that is wrong.
    pub fn validate(&self) -> (r: Result<()>)
        requires
            self.wf(),
            rooted(self@.problems),
        ensures
            fault_of(r) == self@.fault(),
    {
        let thread_ok = |id: &String| -> (r: Result<()>)
            requires
                self@.threads.contains_key(id@),
            ensures
                fault_of(r) == (self@.thread_faults())(id@),
        {
            self.check_thread(id.as_str())
        };
        let handle_ok = |id: &String| -> (r: Result<()>)
            requires
                self@.handles.contains_key(id@),
            ensures
                fault_of(r) == (self@.handle_faults())(id@),
        {
            self.check_handle(id.as_str())
        };
        let event_ok = |event: &PassiveEvent| -> (r: Result<()>)
            ensures
                fault_of(r) == (self@.event_faults())(event@),
        {
            self.check_target(
                "passive event ",
                event.id.as_str(),
                &event.event_key,
                &event.target_thread_id,
            )
        };
        let item_ok = |item: &InboxItem| -> (r: Result<()>)
            ensures
                fault_of(r) == (self@.item_faults())(item@),
        {
            self.check_target(
                "inbox item ",
                item.id.as_str(),
                &item.event_key,
                &item.target_thread_id,
            )
        };
        let awaiting_ok = |id: &String| -> (r: Result<()>)
            requires
                self@.threads.contains_key(id@),
            ensures
                fault_of(r) == (self@.awaiting_faults())(id@),
        {
            self.check_awaiting(id.as_str())
        };
        let wait_ok = |id: &String| -> (r: Result<()>)
            requires
                self@.waits.contains_key(id@),
            ensures
                fault_of(r) == (self@.wait_faults())(id@),
        {
            self.check_wait(id.as_str())
        };
        let problem_ok = |id: &String| -> (r: Result<()>)
            requires
                self@.problems.contains_key(id@),
            ensures
                fault_of(r) == (self@.problem_faults())(id@),
        {
            self.check_problem(id.as_str())
        };
        let ticket_ok = |id: &String| -> (r: Result<()>)
            requires
                self@.tickets.contains_key(id@),
            ensures
                fault_of(r) == (self@.ticket_faults())(id@),
        {
            self.check_ticket(id.as_str())
        };
        self.check_header()?;
        check_keys(&self.threads, thread_ok, Ghost(self@.thread_faults()))?;
        check_keys(&self.handles, handle_ok, Ghost(self@.handle_faults()))?;
        check_all(&self.passive_events, event_ok, Ghost(self@.event_faults()))?;
        check_all(&self.inbox, item_ok, Ghost(self@.item_faults()))?;
        check_keys(&self.threads, awaiting_ok, Ghost(self@.awaiting_faults()))?;
        check_keys(&self.waits, wait_ok, Ghost(self@.wait_faults()))?;
        check_keys(&self.problems, problem_ok, Ghost(self@.problem_faults()))?;
        check_keys(&self.tickets, ticket_ok, Ghost(self@.ticket_faults()))?;
        Ok(())
    }
}

/// Whether a problem says that it was made from an inbox item.
fn is_user_task(problem: &Problem) -> (r: bool)
    ensures
        r == problem@.is_user_task(),
{
    problem.created_from_passive_event_id.is_some() || problem.created_from_inbox_item_id.is_some()
        || problem.created_from_user_task_kind.is_some()
}

} // verus!
