//! What the cockpit says comes next, read off the document that holds the state of a process.
use vstd::prelude::*;
use crate::context::RuntimeContextView;
use crate::dispatch::{active_wait, asks, children_step, followups_of, has_children, holds_up, named_child_of, names_passive_handle, next_is_clear, next_on_walk, next_summary, open_own, pending_for, pending_inbox, problem_step, root_of, taken_up, thread_on, walk_ends, walk_within, works_on};
use crate::entities::ClosureStateView;
use crate::guidance::{child_is_quiet, followup_is_quiet, has_child_problems, law_next_follows_the_ticket};
use crate::json::{entries, get_in, items, text_field, text_or, texts, Json};
use crate::kinds::{NextAction, TicketClassification, TicketStatus};
use crate::search::{find_from, lemma_find_from};

verus! {

/// An item of the inbox in a document waits to be handled by a thread.
pub open spec fn item_waits(item: Json, current: Seq<char>) -> bool {
    let target = text_field(item, "target_thread_id"@);
    text_field(item, "status"@) == Some("inboxed"@) && (target is None || target == Some(current))
        && text_field(item, "id"@) is Some
}

/// A wait in a document holds a thread up.
pub open spec fn wait_holds(wait: Json, current: Seq<char>) -> bool {
    text_field(wait, "thread_id"@) == Some(current) && text_field(wait, "status"@) is Some
        && text_field(wait, "status"@) != Some("consumed"@)
}

/// The first item in the inbox of a document that waits for the thread comes before everything else.
pub proof fn law_cockpit_shows_the_inbox_first(doc: Json, current: Seq<char>, at: int)
    requires
        0 <= at < items(doc, "inbox"@).len(),
        item_waits(items(doc, "inbox"@)[at], current),
        forall|i: int| 0 <= i < at ==> !item_waits(#[trigger] items(doc, "inbox"@)[i], current),
    ensures
        next_summary(doc, current).disposition == "runnable"@,
        next_summary(doc, current).action == "handle-inbox"@,
        next_summary(doc, current).target == text_field(items(doc, "inbox"@)[at], "id"@),
{
    let list = items(doc, "inbox"@);
    lemma_find_from(list, pending_for(current), 0);
    assert forall|i: int| 0 <= i < list.len() implies (pending_for(current))(#[trigger] list[i])
        == item_waits(list[i], current) by {}
}

/// Nothing in the inbox of a document waits for the thread.
pub open spec fn inbox_is_clear(doc: Json, current: Seq<char>) -> bool {
    forall|i: int|
        0 <= i < items(doc, "inbox"@).len() ==> !item_waits(#[trigger] items(doc, "inbox"@)[i], current)
}

proof fn lemma_clear_inbox(doc: Json, current: Seq<char>)
    requires
        inbox_is_clear(doc, current),
    ensures
        pending_inbox(doc, current) is None,
{
    let list = items(doc, "inbox"@);
    lemma_find_from(list, pending_for(current), 0);
    if let Some(i) = find_from(list, pending_for(current), 0) {
        assert(item_waits(list[i], current));
    }
}

/// A handle in a document stands for something from outside the process.
pub open spec fn is_outside_handle(doc: Json, id: Seq<char>) -> bool {
    get_in(doc, "handles"@, id) matches Some(handle) && {
        let kind = text_field(handle, "kind"@);
        kind == Some("user_input"@) || kind == Some("timer"@) || kind == Some("external_signal"@)
    }
}

/// With a clear inbox, the first wait that holds the thread up comes next: for something from outside
/// if one of its handles stands for that, else for another thread.
pub proof fn law_cockpit_shows_the_wait(doc: Json, current: Seq<char>, at: int)
    requires
        inbox_is_clear(doc, current),
        0 <= at < entries(doc, "waits"@).len(),
        wait_holds(entries(doc, "waits"@)[at], current),
        forall|i: int| 0 <= i < at ==> !wait_holds(#[trigger] entries(doc, "waits"@)[i], current),
    ensures
        ({
            let wait = entries(doc, "waits"@)[at];
            let handles = texts(wait, "handle_ids"@);
            &&& next_summary(doc, current).disposition == "io_wait"@
            &&& next_summary(doc, current).target == text_field(wait, "id"@)
            &&& next_summary(doc, current).action == if exists|i: int|
                0 <= i < handles.len() && is_outside_handle(doc, #[trigger] handles[i]) {
                "wait_io"@
            } else {
                "wait_thread"@
            }
        }),
{
    lemma_clear_inbox(doc, current);
    let list = entries(doc, "waits"@);
    let handles = texts(list[at], "handle_ids"@);
    lemma_find_from(list, holds_up(current), 0);
    assert forall|i: int| 0 <= i < list.len() implies (holds_up(current))(#[trigger] list[i])
        == wait_holds(list[i], current) by {}
    assert(find_from(list, holds_up(current), 0) == Some(at));
    lemma_find_from(handles, names_passive_handle(doc), 0);
    assert forall|i: int| 0 <= i < handles.len() implies (names_passive_handle(doc))(
        #[trigger] handles[i],
    ) == is_outside_handle(doc, handles[i]) by {}
    if let Some(i) = find_from(handles, names_passive_handle(doc), 0) {
        assert(is_outside_handle(doc, handles[i]));
    }
}

/// No wait of a document holds the thread up.
pub open spec fn nothing_is_awaited(doc: Json, current: Seq<char>) -> bool {
    forall|i: int|
        0 <= i < entries(doc, "waits"@).len() ==> !wait_holds(
            #[trigger] entries(doc, "waits"@)[i],
            current,
        )
}

proof fn lemma_nothing_awaited(doc: Json, current: Seq<char>)
    requires
        nothing_is_awaited(doc, current),
    ensures
        active_wait(doc, current) is None,
{
    let list = entries(doc, "waits"@);
    lemma_find_from(list, holds_up(current), 0);
    if let Some(i) = find_from(list, holds_up(current), 0) {
        assert(wait_holds(list[i], current));
    }
}

/// The problem that a thread of a document works on: the one the thread is bound to, else the root of
/// the process under one of its two names, else the one every process begins with.
pub open spec fn is_shown_root(doc: Json, current: Seq<char>, root: Seq<char>) -> bool {
    let bound = match get_in(doc, "threads"@, current) {
        Some(thread) => text_field(thread, "root_problem_id"@),
        None => None,
    };
    ||| bound == Some(root)
    ||| bound is None && text_field(doc, "root_problem_id"@) == Some(root)
    ||| bound is None && text_field(doc, "root_problem_id"@) is None && text_field(doc, "root_id"@)
        == Some(root)
    ||| bound is None && text_field(doc, "root_problem_id"@) is None && text_field(
        doc,
        "root_id"@,
    ) is None && root == "P000"@
}

/// A problem of a document is open and belongs to the thread.
pub open spec fn is_own_and_open(doc: Json, current: Seq<char>, id: Seq<char>) -> bool {
    get_in(doc, "problems"@, id) matches Some(problem) && text_field(problem, "owner_thread_id"@)
        == Some(current) && text_field(problem, "status"@) != Some("done"@)
}

/// The thread at this place of a document is the first one that works on a problem.
pub open spec fn is_first_on(doc: Json, id: Seq<char>, k: int) -> bool {
    let threads = entries(doc, "threads"@);
    &&& 0 <= k < threads.len()
    &&& text_field(threads[k], "root_problem_id"@) == Some(id)
    &&& forall|j: int|
        0 <= j < k ==> text_field(#[trigger] threads[j], "root_problem_id"@) != Some(id)
}

/// No thread of a document works on a problem.
pub open spec fn none_is_on(doc: Json, id: Seq<char>) -> bool {
    let threads = entries(doc, "threads"@);
    forall|j: int|
        0 <= j < threads.len() ==> text_field(#[trigger] threads[j], "root_problem_id"@) != Some(id)
}

proof fn lemma_thread_on(doc: Json, id: Seq<char>)
    ensures
        match thread_on(doc, id) {
            Some(thread) => exists|k: int| #[trigger]
                is_first_on(doc, id, k) && thread == entries(doc, "threads"@)[k],
            None => none_is_on(doc, id),
        },
{
    let threads = entries(doc, "threads"@);
    lemma_find_from(threads, works_on(id), 0);
    match find_from(threads, works_on(id), 0) {
        Some(k) => {
            assert forall|j: int| 0 <= j < k implies text_field(
                #[trigger] threads[j],
                "root_problem_id"@,
            ) != Some(id) by {
                assert(!(works_on(id))(threads[j]));
            }
            assert(is_first_on(doc, id, k));
        },
        None => {
            assert forall|j: int| 0 <= j < threads.len() implies text_field(
                #[trigger] threads[j],
                "root_problem_id"@,
            ) != Some(id) by {
                assert(!(works_on(id))(threads[j]));
            }
        },
    }
}

/// A thread of a document is done and was joined.
pub open spec fn is_joined(thread: Json) -> bool {
    text_field(thread, "status"@) == Some("done"@) && text_field(thread, "joined_at"@) is Some
}

/// What is to be done about a thread that works on a problem below.
pub open spec fn is_step_for_thread(
    disposition: Seq<char>,
    action: Seq<char>,
    thread: Json,
) -> bool {
    let status = text_field(thread, "status"@);
    if status == Some("done"@) {
        disposition == "runnable"@ && action == "join-thread"@
    } else if status == Some("failed"@) || status == Some("cancelled"@) {
        disposition == "runnable"@ && action == "recover-thread"@
    } else {
        disposition == "io_wait"@ && action == "wait-thread"@
    }
}

/// Nothing is to be done about a child: it is not there, its thread was joined, or no other thread
/// works on it and it is done or another's.
pub open spec fn shown_child_is_quiet(doc: Json, current: Seq<char>, id: Seq<char>) -> bool {
    get_in(doc, "problems"@, id) matches Some(child) ==> {
        let closed = text_field(child, "status"@) == Some("done"@) || text_field(
            child,
            "owner_thread_id"@,
        ) != Some(current);
        &&& none_is_on(doc, id) ==> closed
        &&& forall|k: int| #[trigger]
            is_first_on(doc, id, k) ==> if text_field(entries(doc, "threads"@)[k], "id"@) != Some(
                current,
            ) {
                is_joined(entries(doc, "threads"@)[k])
            } else {
                closed
            }
    }
}

/// Nothing is to be done about a follow-up: it is not there, it is the thread's own and done, or it is
/// another's and no thread works on it or that thread was joined.
pub open spec fn shown_followup_is_quiet(doc: Json, current: Seq<char>, id: Seq<char>) -> bool {
    get_in(doc, "problems"@, id) matches Some(problem) ==> if text_field(problem, "owner_thread_id"@)
        == Some(current) {
        text_field(problem, "status"@) == Some("done"@)
    } else {
        forall|k: int| #[trigger]
            is_first_on(doc, id, k) ==> is_joined(entries(doc, "threads"@)[k])
    }
}

proof fn lemma_one_is_first(doc: Json, id: Seq<char>, j: int, k: int)
    requires
        is_first_on(doc, id, j),
        is_first_on(doc, id, k),
    ensures
        j == k,
{
    let threads = entries(doc, "threads"@);
    if j < k {
        assert(text_field(threads[j], "root_problem_id"@) != Some(id));
    } else if k < j {
        assert(text_field(threads[k], "root_problem_id"@) != Some(id));
    }
}

proof fn lemma_child_is_quiet(doc: Json, current: Seq<char>, id: Seq<char>)
    ensures
        crate::dispatch::child_step(doc, current, id) is None <==> shown_child_is_quiet(
            doc,
            current,
            id,
        ),
{
    lemma_thread_on(doc, id);
    if let Some(thread) = thread_on(doc, id) {
        let k = choose|k: int| #[trigger]
            is_first_on(doc, id, k) && thread == entries(doc, "threads"@)[k];
        assert(!none_is_on(doc, id));
        assert forall|j: int| #[trigger] is_first_on(doc, id, j) implies j == k by {
            lemma_one_is_first(doc, id, j, k);
        }
    } else {
        assert forall|j: int| !(#[trigger] is_first_on(doc, id, j)) by {}
    }
}

proof fn lemma_followup_is_quiet(doc: Json, current: Seq<char>, id: Seq<char>)
    ensures
        (asks(doc, current))(id) <==> !shown_followup_is_quiet(doc, current, id),
{
    lemma_thread_on(doc, id);
    if let Some(thread) = thread_on(doc, id) {
        let k = choose|k: int| #[trigger]
            is_first_on(doc, id, k) && thread == entries(doc, "threads"@)[k];
        assert forall|j: int| #[trigger] is_first_on(doc, id, j) implies j == k by {
            lemma_one_is_first(doc, id, j, k);
        }
    } else {
        assert forall|j: int| !(#[trigger] is_first_on(doc, id, j)) by {}
    }
}

proof fn lemma_quiet_children_shown(
    doc: Json,
    current: Seq<char>,
    ids: Seq<Seq<char>>,
    from: int,
    n: int,
)
    requires
        0 <= from <= n <= ids.len(),
        forall|i: int| from <= i < n ==> shown_child_is_quiet(doc, current, #[trigger] ids[i]),
    ensures
        children_step(doc, current, ids, from) == children_step(doc, current, ids, n),
    decreases n - from,
{
    if from < n {
        assert(shown_child_is_quiet(doc, current, ids[from]));
        lemma_child_is_quiet(doc, current, ids[from]);
        lemma_quiet_children_shown(doc, current, ids, from + 1, n);
    }
}

/// The thread of a document has a clear inbox, waits for nothing and works on an open problem of its
/// own.
pub open spec fn is_at_work(doc: Json, current: Seq<char>, root: Seq<char>) -> bool {
    &&& inbox_is_clear(doc, current)
    &&& nothing_is_awaited(doc, current)
    &&& is_shown_root(doc, current, root)
    &&& is_own_and_open(doc, current, root)
}

/// A thread whose problem is done, missing or another's has nothing to do.
pub proof fn law_cockpit_shows_the_end(doc: Json, current: Seq<char>, root: Seq<char>)
    requires
        inbox_is_clear(doc, current),
        nothing_is_awaited(doc, current),
        is_shown_root(doc, current, root),
        !is_own_and_open(doc, current, root),
    ensures
        next_summary(doc, current).disposition == "terminal"@,
        next_summary(doc, current).action == "none"@,
        next_summary(doc, current).target is None,
{
    lemma_clear_inbox(doc, current);
    lemma_nothing_awaited(doc, current);
    assert(root_of(doc, current) == root);
    assert(taken_up(doc, current, root) is None);
    assert(next_on_walk(doc, current, root) is None);
    assert(walk_within(doc, current, root, 0));
}

/// The first child that something is to be done about comes before the problem itself: its thread is
/// joined, recovered or waited for, and where none works on it, one is spawned.
pub proof fn law_cockpit_shows_the_first_child(
    doc: Json,
    current: Seq<char>,
    root: Seq<char>,
    at: int,
)
    requires
        is_at_work(doc, current, root),
        ({
            let ids = texts(get_in(doc, "problems"@, root)->0, "child_problem_ids"@);
            &&& 0 <= at < ids.len()
            &&& !shown_child_is_quiet(doc, current, ids[at])
            &&& forall|i: int| 0 <= i < at ==> shown_child_is_quiet(doc, current, #[trigger] ids[i])
        }),
    ensures
        ({
            let child = texts(get_in(doc, "problems"@, root)->0, "child_problem_ids"@)[at];
            let step = next_summary(doc, current);
            &&& step.target == Some(child)
            &&& forall|k: int| #[trigger]
                is_first_on(doc, child, k) && text_field(entries(doc, "threads"@)[k], "id"@) != Some(
                    current,
                ) ==> is_step_for_thread(step.disposition, step.action, entries(doc, "threads"@)[k])
            &&& (forall|k: int| #[trigger]
                is_first_on(doc, child, k) ==> text_field(entries(doc, "threads"@)[k], "id"@) == Some(
                    current,
                )) ==> step.disposition == "runnable"@ && step.action == "spawn-thread"@
        }),
{
    let ids = texts(get_in(doc, "problems"@, root)->0, "child_problem_ids"@);
    let child = ids[at];
    lemma_clear_inbox(doc, current);
    lemma_nothing_awaited(doc, current);
    assert(root_of(doc, current) == root);
    lemma_quiet_children_shown(doc, current, ids, 0, at);
    lemma_child_is_quiet(doc, current, child);
    assert(children_step(doc, current, ids, at) == crate::dispatch::child_step(doc, current, child));
    assert(taken_up(doc, current, root) is None);
    assert(next_on_walk(doc, current, root) is None);
    assert(walk_within(doc, current, root, 0));
    lemma_thread_on(doc, child);
    if let Some(thread) = thread_on(doc, child) {
        let k = choose|k: int| #[trigger]
            is_first_on(doc, child, k) && thread == entries(doc, "threads"@)[k];
        assert forall|j: int| #[trigger] is_first_on(doc, child, j) implies j == k by {
            lemma_one_is_first(doc, child, j, k);
        }
        assert(is_first_on(doc, child, k));
    } else {
        assert forall|j: int| !(#[trigger] is_first_on(doc, child, j)) by {}
    }
}

proof fn lemma_first_followup(doc: Json, current: Seq<char>, root: Seq<char>, at: int)
    requires
        is_at_work(doc, current, root),
        ({
            let problem = get_in(doc, "problems"@, root)->0;
            let ids = texts(problem, "child_problem_ids"@);
            let later = texts(problem, "followup_problem_ids"@);
            &&& forall|i: int|
                0 <= i < ids.len() ==> shown_child_is_quiet(doc, current, #[trigger] ids[i])
            &&& 0 <= at <= later.len()
            &&& at < later.len() ==> !shown_followup_is_quiet(doc, current, later[at])
            &&& forall|i: int|
                0 <= i < at ==> shown_followup_is_quiet(doc, current, #[trigger] later[i])
        }),
    ensures
        ({
            let problem = get_in(doc, "problems"@, root)->0;
            let later = texts(problem, "followup_problem_ids"@);
            &&& pending_inbox(doc, current) is None
            &&& active_wait(doc, current) is None
            &&& root_of(doc, current) == root
            &&& open_own(doc, current, root)
            &&& children_step(doc, current, texts(problem, "child_problem_ids"@), 0) is None
            &&& taken_up(doc, current, root) == if at < later.len() {
                Some(later[at])
            } else {
                None
            }
        }),
{
    let problem = get_in(doc, "problems"@, root)->0;
    let ids = texts(problem, "child_problem_ids"@);
    let later = texts(problem, "followup_problem_ids"@);
    lemma_clear_inbox(doc, current);
    lemma_nothing_awaited(doc, current);
    assert(root_of(doc, current) == root);
    lemma_quiet_children_shown(doc, current, ids, 0, ids.len() as int);
    lemma_find_from(later, asks(doc, current), 0);
    assert forall|i: int| 0 <= i < later.len() implies (asks(doc, current))(#[trigger] later[i])
        == !shown_followup_is_quiet(doc, current, later[i]) by {
        lemma_followup_is_quiet(doc, current, later[i]);
    }
    assert(followups_of(doc, root) == later);
}

/// With quiet children, the first follow-up that something is to be done about comes next: the thread
/// of another's is joined, recovered or waited for; an own one is worked on as the problem of the
/// thread would be.
pub proof fn law_cockpit_shows_the_first_followup(
    doc: Json,
    current: Seq<char>,
    root: Seq<char>,
    at: int,
)
    requires
        is_at_work(doc, current, root),
        next_is_clear(doc, current),
        ({
            let problem = get_in(doc, "problems"@, root)->0;
            let ids = texts(problem, "child_problem_ids"@);
            let later = texts(problem, "followup_problem_ids"@);
            &&& forall|i: int|
                0 <= i < ids.len() ==> shown_child_is_quiet(doc, current, #[trigger] ids[i])
            &&& 0 <= at < later.len()
            &&& !shown_followup_is_quiet(doc, current, later[at])
            &&& forall|i: int|
                0 <= i < at ==> shown_followup_is_quiet(doc, current, #[trigger] later[i])
        }),
    ensures
        ({
            let later = texts(get_in(doc, "problems"@, root)->0, "followup_problem_ids"@)[at];
            let step = next_summary(doc, current);
            if is_own_and_open(doc, current, later) {
                Some(step) == problem_step(doc, current, later)
            } else {
                step.target == Some(later) && forall|k: int| #[trigger]
                    is_first_on(doc, later, k) ==> is_step_for_thread(
                        step.disposition,
                        step.action,
                        entries(doc, "threads"@)[k],
                    )
            }
        }),
{
    lemma_first_followup(doc, current, root, at);
    let later = texts(get_in(doc, "problems"@, root)->0, "followup_problem_ids"@)[at];
    assert(walk_ends(doc, current, root));
    assert(taken_up(doc, current, root) == Some(later));
    if is_own_and_open(doc, current, later) {
        assert(next_on_walk(doc, current, root) == Some(later));
        crate::dispatch::lemma_walk_step(doc, current, root);
        crate::dispatch::law_open_problem_asks(doc, current, later);
        assert(problem_step(doc, current, root) == problem_step(doc, current, later));
    } else {
        lemma_thread_on(doc, later);
        lemma_followup_is_quiet(doc, current, later);
        let thread = thread_on(doc, later)->0;
        let k = choose|k: int| #[trigger]
            is_first_on(doc, later, k) && thread == entries(doc, "threads"@)[k];
        assert forall|j: int| #[trigger] is_first_on(doc, later, j) implies j == k by {
            lemma_one_is_first(doc, later, j, k);
        }
    }
}

/// Some problem of a document that has a name came out of a ticket.
pub open spec fn shown_ticket_has_children(doc: Json, ticket_id: Seq<char>) -> bool {
    let problems = entries(doc, "problems"@);
    exists|i: int|
        0 <= i < problems.len() && text_field(#[trigger] problems[i], "created_from_ticket_id"@)
            == Some(ticket_id) && text_field(problems[i], "id"@) is Some
}

/// The word for what a ticket of a document asks for.
pub open spec fn ticket_asks_for(doc: Json, ticket: Json) -> Seq<char> {
    match text_field(ticket, "status"@) {
        Some(status) => if status == "defined"@ {
            "classify-ticket"@
        } else if status == "classified"@ && text_field(ticket, "classification"@) == Some("one_go"@) {
            "execute-ticket"@
        } else if status == "classified"@ && text_field(ticket, "classification"@) == Some("split"@) {
            "split-ticket"@
        } else if status == "classified"@ {
            "classify-ticket"@
        } else if status == "executing"@ {
            "record-result"@
        } else if status == "splitting"@ {
            if shown_ticket_has_children(doc, text_or(ticket, "id"@, ""@)) {
                "record-result"@
            } else {
                "split-ticket"@
            }
        } else if status == "done"@ {
            "check-success"@
        } else {
            "define-ticket"@
        },
        None => "define-ticket"@,
    }
}

/// Where no child and no follow-up of the problem of a thread asks for anything, its ticket says what
/// comes next: one classified for one go is executed, one classified for a split is split, the result
/// of one under way is recorded, and a done one is checked. Without a ticket, one is made.
pub proof fn law_cockpit_follows_the_ticket(doc: Json, current: Seq<char>, root: Seq<char>)
    requires
        is_at_work(doc, current, root),
        ({
            let problem = get_in(doc, "problems"@, root)->0;
            let ids = texts(problem, "child_problem_ids"@);
            let later = texts(problem, "followup_problem_ids"@);
            &&& forall|i: int|
                0 <= i < ids.len() ==> shown_child_is_quiet(doc, current, #[trigger] ids[i])
            &&& forall|i: int|
                0 <= i < later.len() ==> shown_followup_is_quiet(doc, current, #[trigger] later[i])
        }),
    ensures
        ({
            let problem = get_in(doc, "problems"@, root)->0;
            let name = text_or(problem, "id"@, "?"@);
            let old_list = texts(problem, "ticket_ids"@);
            let step = next_summary(doc, current);
            let ticket_id = match text_field(problem, "ticket_id"@) {
                Some(id) => Some(id),
                None => if old_list.len() > 0 {
                    Some(old_list[0])
                } else {
                    None
                },
            };
            &&& step.disposition == "runnable"@
            &&& match ticket_id {
                None => step.action == "create-solution-ticket"@ && step.target == Some(name),
                Some(id) => step.target == Some(name + "/"@ + id) && step.action == match get_in(
                    doc,
                    "tickets"@,
                    id,
                ) {
                    Some(ticket) => ticket_asks_for(doc, ticket),
                    None => "create-solution-ticket"@,
                },
            }
        }),
{
    let later = texts(get_in(doc, "problems"@, root)->0, "followup_problem_ids"@);
    lemma_first_followup(doc, current, root, later.len() as int);
    assert(next_on_walk(doc, current, root) is None);
    assert(walk_within(doc, current, root, 0));
    assert forall|ticket: Json| has_children(doc, text_or(ticket, "id"@, ""@))
        == #[trigger] shown_ticket_has_children(doc, text_or(ticket, "id"@, ""@)) by {
        lemma_has_children(doc, text_or(ticket, "id"@, ""@));
    }
    lemma_ticket_words();
}

proof fn lemma_has_children(doc: Json, ticket_id: Seq<char>)
    ensures
        has_children(doc, ticket_id) == shown_ticket_has_children(doc, ticket_id),
{
    let problems = entries(doc, "problems"@);
    let f = named_child_of(ticket_id);
    lemma_find_from(problems, f, 0);
    if let Some(i) = find_from(problems, f, 0) {
        assert(f(problems[i]));
    } else {
        assert forall|i: int| 0 <= i < problems.len() implies !(text_field(
            #[trigger] problems[i],
            "created_from_ticket_id"@,
        ) == Some(ticket_id) && text_field(problems[i], "id"@) is Some) by {
            assert(!f(problems[i]));
        }
    }
}

/// The words for a ticket in a document are told apart.
proof fn lemma_ticket_words()
    ensures
        "split"@ != "one_go"@,
        "defined"@ != "classified"@,
        "executing"@ != "splitting"@,
        "defined"@ != "executing"@,
        "defined"@ != "splitting"@,
        "defined"@ != "done"@,
        "defined"@ != "created"@,
        "classified"@ != "executing"@,
        "classified"@ != "splitting"@,
        "classified"@ != "done"@,
        "classified"@ != "created"@,
        "executing"@ != "done"@,
        "executing"@ != "created"@,
        "splitting"@ != "done"@,
        "splitting"@ != "created"@,
        "done"@ != "created"@,
{
    reveal_strlit("split");
    reveal_strlit("one_go");
    reveal_strlit("created");
    reveal_strlit("defined");
    reveal_strlit("classified");
    reveal_strlit("executing");
    reveal_strlit("splitting");
    reveal_strlit("done");
    assert("executing"@[0] == 'e' && "splitting"@[0] == 's');
    assert("created"@[0] == 'c' && "defined"@[0] == 'd');
    assert("split"@.len() == 5 && "one_go"@.len() == 6);
    assert("done"@.len() == 4 && "defined"@.len() == 7 && "created"@.len() == 7);
    assert("classified"@.len() == 10 && "executing"@.len() == 9 && "splitting"@.len() == 9);
}

/// A document records a ticket of a state: its name, its status and its classification, and whether
/// problems came out of it.
pub open spec fn records_ticket(doc: Json, ticket: Json, s: ClosureStateView, id: Seq<char>) -> bool {
    &&& text_field(ticket, "id"@) == Some(id)
    &&& text_field(ticket, "status"@) == Some(
        match s.tickets[id].status {
            TicketStatus::Created => "created"@,
            TicketStatus::Defined => "defined"@,
            TicketStatus::Classified => "classified"@,
            TicketStatus::Executing => "executing"@,
            TicketStatus::Splitting => "splitting"@,
            TicketStatus::Done => "done"@,
        },
    )
    &&& text_field(ticket, "classification"@) == match s.tickets[id].classification {
        Some(TicketClassification::OneGo) => Some("one_go"@),
        Some(TicketClassification::Split) => Some("split"@),
        None => None,
    }
    &&& shown_ticket_has_children(doc, id) <==> has_child_problems(s, id)
}

/// The word by which the cockpit calls an action on a ticket.
pub open spec fn action_word(action: NextAction) -> Option<Seq<char>> {
    match action {
        NextAction::CreateSolutionTicket => Some("create-solution-ticket"@),
        NextAction::DefineTicket => Some("define-ticket"@),
        NextAction::ClassifyTicket => Some("classify-ticket"@),
        NextAction::ExecuteTicket => Some("execute-ticket"@),
        NextAction::SplitTicket => Some("split-ticket"@),
        NextAction::RecordResult => Some("record-result"@),
        NextAction::CheckSuccess => Some("check-success"@),
        _ => None,
    }
}

/// Where the ticket of a problem decides what its thread does next, the cockpit names for a document
/// that records the state the very action that the runtime names for the state.
pub proof fn law_cockpit_agrees_with_next(
    doc: Json,
    s: ClosureStateView,
    ctx: RuntimeContextView,
    root: Seq<char>,
    ticket_id: Seq<char>,
)
    requires
        s.works_on(ctx, root),
        s.problems[root].ticket_id == Some(ticket_id),
        s.tickets.contains_key(ticket_id),
        forall|i: int|
            0 <= i < s.problems[root].child_problem_ids.len() ==> child_is_quiet(
                s,
                ctx,
                #[trigger] s.problems[root].child_problem_ids[i],
            ),
        forall|i: int|
            0 <= i < s.problems[root].followup_problem_ids.len() ==> followup_is_quiet(
                s,
                ctx,
                #[trigger] s.problems[root].followup_problem_ids[i],
            ),
        is_at_work(doc, ctx.thread_id, root),
        ({
            let problem = get_in(doc, "problems"@, root)->0;
            let ids = texts(problem, "child_problem_ids"@);
            let later = texts(problem, "followup_problem_ids"@);
            &&& text_field(problem, "ticket_id"@) == Some(ticket_id)
            &&& get_in(doc, "tickets"@, ticket_id) is Some
            &&& records_ticket(doc, get_in(doc, "tickets"@, ticket_id)->0, s, ticket_id)
            &&& forall|i: int|
                0 <= i < ids.len() ==> shown_child_is_quiet(doc, ctx.thread_id, #[trigger] ids[i])
            &&& forall|i: int|
                0 <= i < later.len() ==> shown_followup_is_quiet(
                    doc,
                    ctx.thread_id,
                    #[trigger] later[i],
                )
        }),
    ensures
        action_word(s.next(ctx).action) == Some(next_summary(doc, ctx.thread_id).action),
{
    law_next_follows_the_ticket(s, ctx, root);
    law_cockpit_follows_the_ticket(doc, ctx.thread_id, root);
    lemma_ticket_words();
}

} // verus!
