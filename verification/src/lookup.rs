//! Looking things up in the state of a process.
use vstd::prelude::*;
use crate::entities::{ClosureState, ClosureStateView, InboxItem, InboxItemView, IoHandle, IoHandleView, PassiveEvent, PassiveEventView, Problem, ProblemView, Thread, ThreadView, ThreadWait, ThreadWaitView};
use crate::kinds::{IoHandleKind, ProblemStatus, ThreadStatus, WaitMode};
use crate::search::{find_first, find_index, position, select, select_texts};
use crate::strmap::{values, StrMap};
use crate::text::{group_views, opt_is, opt_view, str_eq, texts_contain, views};

verus! {

broadcast use group_views;

/// Threads that work on the tree below a problem and were not recovered.
pub open spec fn bound_to(root: Seq<char>) -> spec_fn(ThreadView) -> bool {
    |t: ThreadView| t.root_problem_id == root && t.status != ThreadStatus::Recovered
}

/// Handles by which the parent of a thread waits for it.
pub open spec fn awaits_thread(thread_id: Seq<char>) -> spec_fn(IoHandleView) -> bool {
    |h: IoHandleView|
        h.kind == IoHandleKind::ChildThread && h.target_thread_id == Some(thread_id)
}

/// Waits that list a handle.
pub open spec fn lists_handle(handle_id: Seq<char>) -> spec_fn(ThreadWaitView) -> bool {
    |w: ThreadWaitView| w.handle_ids.contains(handle_id)
}

/// Problems that came out of a ticket.
pub open spec fn made_from_ticket(ticket_id: Seq<char>) -> spec_fn(ProblemView) -> bool {
    |p: ProblemView| p.created_from_ticket_id == Some(ticket_id)
}

/// Identifiers of problems that are there and not done.
pub open spec fn still_open(problems: Map<Seq<char>, ProblemView>) -> spec_fn(Seq<char>) -> bool {
    |id: Seq<char>| problems.contains_key(id) && problems[id].status != ProblemStatus::Done
}

/// Identifiers of threads that are there and have not ended.
pub open spec fn still_running(threads: Map<Seq<char>, ThreadView>) -> spec_fn(Seq<char>) -> bool {
    |id: Seq<char>| threads.contains_key(id) && !threads[id].status.is_terminal()
}

/// A handle that is there and no longer holds up a wait.
pub open spec fn settled(handles: Map<Seq<char>, IoHandleView>, id: Seq<char>) -> bool {
    handles.contains_key(id) && handles[id].status.is_settled()
}

/// A wait has what it waits for: all of its handles or any one, by its mode.
pub open spec fn wait_ready(handles: Map<Seq<char>, IoHandleView>, wait: ThreadWaitView) -> bool {
    match wait.mode {
        WaitMode::All => forall|i: int|
            0 <= i < wait.handle_ids.len() ==> settled(handles, #[trigger] wait.handle_ids[i]),
        WaitMode::Any => exists|i: int|
            0 <= i < wait.handle_ids.len() && settled(handles, #[trigger] wait.handle_ids[i]),
    }
}

/// The identifiers of problems.
pub open spec fn problem_ids_of(problems: Seq<ProblemView>) -> Seq<Seq<char>> {
    Seq::new(problems.len(), |i: int| problems[i].id)
}

/// The passive event with the given identifier.
pub open spec fn event_named(id: Seq<char>) -> spec_fn(PassiveEventView) -> bool {
    |e: PassiveEventView| e.id == id
}

/// The inbox item with the given identifier.
pub open spec fn item_named(id: Seq<char>) -> spec_fn(InboxItemView) -> bool {
    |item: InboxItemView| item.id == id
}

/// Inbox items that hold a passive event.
pub open spec fn item_of_event(event_id: Seq<char>) -> spec_fn(InboxItemView) -> bool {
    |item: InboxItemView| item.passive_event_id == event_id
}

impl ClosureStateView {
    /// The place of a passive event.
    pub open spec fn event_index(self, id: Seq<char>) -> Option<int> {
        find_index(self.passive_events, event_named(id))
    }

    /// The place of an inbox item.
    pub open spec fn item_index(self, id: Seq<char>) -> Option<int> {
        find_index(self.inbox, item_named(id))
    }

    /// The thread that works on the tree below a problem.
    pub open spec fn thread_for_root_problem(self, problem_id: Seq<char>) -> Option<ThreadView> {
        find_first(values(self.threads), bound_to(problem_id))
    }

    /// The handle by which the parent of a thread waits for it.
    pub open spec fn child_thread_handle_id(self, thread_id: Seq<char>) -> Option<Seq<char>> {
        match find_first(values(self.handles), awaits_thread(thread_id)) {
            Some(handle) => Some(handle.id),
            None => None,
        }
    }

    /// The wait that lists a handle.
    pub open spec fn wait_id_for_handle(self, handle_id: Seq<char>) -> Option<Seq<char>> {
        match find_first(values(self.waits), lists_handle(handle_id)) {
            Some(wait) => Some(wait.id),
            None => None,
        }
    }

    /// The problems that came out of a ticket.
    pub open spec fn child_problem_ids_from_ticket(self, ticket_id: Seq<char>) -> Seq<Seq<char>> {
        problem_ids_of(select(values(self.problems), made_from_ticket(ticket_id)))
    }

    /// Those of the given problems that are there and not done.
    pub open spec fn open_problems_among(self, ids: Seq<Seq<char>>) -> Seq<Seq<char>> {
        select(ids, still_open(self.problems))
    }

    /// The follow-ups of a problem that are not done.
    pub open spec fn open_followup_ids(self, problem_id: Seq<char>) -> Seq<Seq<char>> {
        if self.problems.contains_key(problem_id) {
            self.open_problems_among(self.problems[problem_id].followup_problem_ids)
        } else {
            Seq::empty()
        }
    }

    /// The children of a thread that have not ended.
    pub open spec fn open_child_thread_ids(self, thread_id: Seq<char>) -> Seq<Seq<char>> {
        if self.threads.contains_key(thread_id) {
            select(self.threads[thread_id].child_thread_ids, still_running(self.threads))
        } else {
            Seq::empty()
        }
    }
}

/// The view of an index.
pub open spec fn opt_int(o: Option<usize>) -> Option<int> {
    match o {
        Some(i) => Some(i as int),
        None => None,
    }
}

/// Whether a handle is there and no longer holds up a wait.
fn is_settled(handles: &StrMap<IoHandle>, id: &str) -> (r: bool)
    requires
        handles.wf(),
    ensures
        r == settled(handles@, id@),
{
    match handles.get(id) {
        Some(handle) => handle.status.is_settled(),
        None => false,
    }
}

/// Whether a wait has what it waits for.
pub fn wait_is_ready(handles: &StrMap<IoHandle>, wait: &ThreadWait) -> (r: bool)
    requires
        handles.wf(),
    ensures
        r == wait_ready(handles@, wait@),
{
    let mut i: usize = 0;
    while i < wait.handle_ids.len()
        invariant
            handles.wf(),
            i <= wait.handle_ids@.len(),
            forall|j: int|
                0 <= j < i ==> settled(handles@, #[trigger] wait@.handle_ids[j]) == (wait.mode
                    == WaitMode::All),
        decreases wait.handle_ids@.len() - i,
    {
        let ok = is_settled(handles, wait.handle_ids[i].as_str());
        assert(ok == settled(handles@, wait@.handle_ids[i as int]));
        match wait.mode {
            WaitMode::All => {
                if !ok {
                    return false;
                }
            },
            WaitMode::Any => {
                if ok {
                    return true;
                }
            },
        }
        i = i + 1;
    }
    match wait.mode {
        WaitMode::All => true,
        WaitMode::Any => false,
    }
}

impl ClosureState {
    /// The place of a passive event.
    pub fn event_index(&self, id: &str) -> (r: Option<usize>)
        ensures
            opt_int(r) == self@.event_index(id@),
            r matches Some(i) ==> i < self.passive_events@.len() && self.passive_events@[i as int]@.id == id@,
    {
        let named = |e: &PassiveEvent| -> (b: bool)
            ensures
                b == (event_named(id@))(e@),
        {
            str_eq(e.id.as_str(), id)
        };
        let r = position(&self.passive_events, named, Ghost(event_named(id@)));
        proof {
            crate::search::lemma_find_from(self@.passive_events, event_named(id@), 0);
        }
        r
    }

    /// The place of an inbox item.
    pub fn item_index(&self, id: &str) -> (r: Option<usize>)
        ensures
            opt_int(r) == self@.item_index(id@),
            r matches Some(i) ==> i < self.inbox@.len() && self.inbox@[i as int]@.id == id@,
    {
        let named = |item: &InboxItem| -> (b: bool)
            ensures
                b == (item_named(id@))(item@),
        {
            str_eq(item.id.as_str(), id)
        };
        let r = position(&self.inbox, named, Ghost(item_named(id@)));
        proof {
            crate::search::lemma_find_from(self@.inbox, item_named(id@), 0);
        }
        r
    }

    /// The thread that works on the tree below a problem.
    pub fn thread_for_root_problem(&self, problem_id: &str) -> (r: Option<&Thread>)
        requires
            self.threads.wf(),
        ensures
            opt_view(r) == self@.thread_for_root_problem(problem_id@),
    {
        let bound = |t: &Thread| -> (b: bool)
            ensures
                b == (bound_to(problem_id@))(t@),
        {
            str_eq(t.root_problem_id.as_str(), problem_id) && t.status != ThreadStatus::Recovered
        };
        self.threads.find(bound, Ghost(bound_to(problem_id@)))
    }

    /// The handle by which the parent of a thread waits for it.
    pub fn child_thread_handle_id(&self, thread_id: &str) -> (r: Option<String>)
        requires
            self.handles.wf(),
        ensures
            opt_view(r) == self@.child_thread_handle_id(thread_id@),
    {
        let awaits = |h: &IoHandle| -> (b: bool)
            ensures
                b == (awaits_thread(thread_id@))(h@),
        {
            h.kind == IoHandleKind::ChildThread && opt_is(&h.target_thread_id, thread_id)
        };
        match self.handles.find(awaits, Ghost(awaits_thread(thread_id@))) {
            Some(handle) => Some(handle.id.clone()),
            None => None,
        }
    }

    /// The wait that lists a handle.
    pub fn wait_id_for_handle(&self, handle_id: &str) -> (r: Option<String>)
        requires
            self.waits.wf(),
        ensures
            opt_view(r) == self@.wait_id_for_handle(handle_id@),
    {
        let lists = |w: &ThreadWait| -> (b: bool)
            ensures
                b == (lists_handle(handle_id@))(w@),
        {
            texts_contain(&w.handle_ids, handle_id)
        };
        match self.waits.find(lists, Ghost(lists_handle(handle_id@))) {
            Some(wait) => Some(wait.id.clone()),
            None => None,
        }
    }

    /// The problems that came out of a ticket.
    pub fn child_problem_ids_from_ticket(&self, ticket_id: &str) -> (r: Vec<String>)
        requires
            self.problems.wf(),
        ensures
            views(r@) == self@.child_problem_ids_from_ticket(ticket_id@),
    {
        let made = |p: &Problem| -> (b: bool)
            ensures
                b == (made_from_ticket(ticket_id@))(p@),
        {
            opt_is(&p.created_from_ticket_id, ticket_id)
        };
        let found = self.problems.filter(made, Ghost(made_from_ticket(ticket_id@)));
        let mut ids: Vec<String> = Vec::new();
        let mut i: usize = 0;
        while i < found.len()
            invariant
                i <= found@.len(),
                views(ids@) == problem_ids_of(views(found@)).take(i as int),
            decreases found@.len() - i,
        {
            ids.push(found[i].id.clone());
            i = i + 1;
            assert(views(ids@) =~= problem_ids_of(views(found@)).take(i as int));
        }
        assert(problem_ids_of(views(found@)).take(i as int) =~= problem_ids_of(views(found@)));
        ids
    }

    /// Those of the given problems that are there and not done.
    pub fn open_problems_among(&self, ids: &Vec<String>) -> (r: Vec<String>)
        requires
            self.problems.wf(),
        ensures
            views(r@) == self@.open_problems_among(views(ids@)),
    {
        let problems = &self.problems;
        let open = |id: &String| -> (b: bool)
            ensures
                b == (still_open(self@.problems))(id@),
        {
            match problems.get(id.as_str()) {
                Some(problem) => problem.status != ProblemStatus::Done,
                None => false,
            }
        };
        select_texts(ids, open, Ghost(still_open(self@.problems)))
    }

    /// The follow-ups of a problem that are not done.
    pub fn open_followup_ids(&self, problem_id: &str) -> (r: Vec<String>)
        requires
            self.problems.wf(),
        ensures
            views(r@) == self@.open_followup_ids(problem_id@),
    {
        match self.problems.get(problem_id) {
            Some(problem) => self.open_problems_among(&problem.followup_problem_ids),
            None => Vec::new(),
        }
    }

    /// The children of a thread that have not ended.
    pub fn open_child_thread_ids(&self, thread_id: &str) -> (r: Vec<String>)
        requires
            self.threads.wf(),
        ensures
            views(r@) == self@.open_child_thread_ids(thread_id@),
    {
        let threads = &self.threads;
        let running = |id: &String| -> (b: bool)
            ensures
                b == (still_running(self@.threads))(id@),
        {
            match threads.get(id.as_str()) {
                Some(thread) => !thread.status.is_terminal(),
                None => false,
            }
        };
        match self.threads.get(thread_id) {
            Some(thread) => select_texts(
                &thread.child_thread_ids,
                running,
                Ghost(still_running(self@.threads)),
            ),
            None => Vec::new(),
        }
    }
}

} // verus!
