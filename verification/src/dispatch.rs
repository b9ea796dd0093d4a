//! What a process does next, read off its recorded state.
use vstd::prelude::*;
use crate::json::{entries, find_value, get_in, items, opt_ref, opt_text, text_field, text_or, texts, Json};
use crate::search::{find_first, find_from, find_index, lemma_find_from};
use crate::text::{cat3, group_views, opt_view, views};

verus! {

broadcast use group_views;

/// What is to be done next, in words.
#[derive(Debug, PartialEq, Eq)]
pub struct NextSummary {
    pub disposition: &'static str,
    pub action: &'static str,
    pub target: Option<String>,
}

/// What a [`NextSummary`] says.
#[verifier::ext_equal]
pub struct NextSummaryView {
    pub disposition: Seq<char>,
    pub action: Seq<char>,
    pub target: Option<Seq<char>>,
}

impl View for NextSummary {
    type V = NextSummaryView;

    open spec fn view(&self) -> NextSummaryView {
        NextSummaryView {
            disposition: self.disposition@,
            action: self.action@,
            target: opt_view(self.target),
        }
    }
}

/// A step on something.
pub open spec fn on(disposition: Seq<char>, action: Seq<char>, target: Seq<char>) -> NextSummaryView {
    NextSummaryView { disposition, action, target: Some(target) }
}

fn step_on(disposition: &'static str, action: &'static str, target: &str) -> (r: NextSummary)
    ensures
        r@ == on(disposition@, action@, target@),
{
    NextSummary { disposition, action, target: Some(target.to_owned()) }
}

/// A problem of the state.
pub open spec fn problem_of(state: Json, id: Seq<char>) -> Option<Json> {
    get_in(state, "problems"@, id)
}

/// Threads that work on the tree below a problem.
pub open spec fn works_on(problem_id: Seq<char>) -> spec_fn(Json) -> bool {
    |thread: Json| text_field(thread, "root_problem_id"@) == Some(problem_id)
}

/// The thread that works on the tree below a problem.
pub open spec fn thread_on(state: Json, problem_id: Seq<char>) -> Option<Json> {
    find_first(entries(state, "threads"@), works_on(problem_id))
}

fn thread_for_root_problem<'a>(state: &'a Json, problem_id: &str) -> (r: Option<&'a Json>)
    ensures
        opt_ref(r) == thread_on(*state, problem_id@),
{
    let threads = state.entries("threads");
    let works = |thread: &Json| -> (b: bool)
        ensures
            b == (works_on(problem_id@))(*thread),
    {
        thread.field_is("root_problem_id", problem_id)
    };
    find_value(&threads, works, Ghost(works_on(problem_id@)))
}

/// Problems that came out of a ticket and have an identifier.
pub open spec fn named_child_of(ticket_id: Seq<char>) -> spec_fn(Json) -> bool {
    |problem: Json|
        text_field(problem, "created_from_ticket_id"@) == Some(ticket_id) && text_field(
            problem,
            "id"@,
        ) is Some
}

/// A problem came out of a ticket.
pub open spec fn has_children(state: Json, ticket_id: Seq<char>) -> bool {
    find_first(entries(state, "problems"@), named_child_of(ticket_id)) is Some
}

fn ticket_has_children(state: &Json, ticket_id: &str) -> (r: bool)
    ensures
        r == has_children(*state, ticket_id@),
{
    let problems = state.entries("problems");
    let is_child = |problem: &Json| -> (b: bool)
        ensures
            b == (named_child_of(ticket_id@))(*problem),
    {
        problem.field_is("created_from_ticket_id", ticket_id) && problem.text_field("id").is_some()
    };
    find_value(&problems, is_child, Ghost(named_child_of(ticket_id@))).is_some()
}

/// What a ticket asks for.
pub open spec fn ticket_action_word(state: Json, ticket: Json) -> Seq<char> {
    let status = text_field(ticket, "status"@);
    let classification = text_field(ticket, "classification"@);
    if status == Some("defined"@) {
        "classify-ticket"@
    } else if status == Some("classified"@) {
        if classification == Some("split"@) {
            "split-ticket"@
        } else if classification == Some("one_go"@) {
            "execute-ticket"@
        } else {
            "classify-ticket"@
        }
    } else if status == Some("executing"@) {
        "record-result"@
    } else if status == Some("splitting"@) {
        if has_children(state, text_or(ticket, "id"@, ""@)) {
            "record-result"@
        } else {
            "split-ticket"@
        }
    } else if status == Some("done"@) {
        "check-success"@
    } else {
        "define-ticket"@
    }
}

/// What a ticket asks for.
pub fn ticket_action(state: &Json, ticket: &Json) -> (r: &'static str)
    ensures
        r@ == ticket_action_word(*state, *ticket),
{
    if ticket.field_is("status", "defined") {
        "classify-ticket"
    } else if ticket.field_is("status", "classified") {
        if ticket.field_is("classification", "split") {
            "split-ticket"
        } else if ticket.field_is("classification", "one_go") {
            "execute-ticket"
        } else {
            "classify-ticket"
        }
    } else if ticket.field_is("status", "executing") {
        "record-result"
    } else if ticket.field_is("status", "splitting") {
        if ticket_has_children(state, ticket.text_or("id", "")) {
            "record-result"
        } else {
            "split-ticket"
        }
    } else if ticket.field_is("status", "done") {
        "check-success"
    } else {
        "define-ticket"
    }
}

/// What to do about a thread that works on a problem: nothing once it was joined, else join,
/// recover or wait for it.
pub open spec fn thread_step(thread: Json, problem_id: Seq<char>) -> Option<NextSummaryView> {
    let status = text_field(thread, "status"@);
    if status == Some("done"@) {
        if text_field(thread, "joined_at"@) is Some {
            None
        } else {
            Some(on("runnable"@, "join-thread"@, problem_id))
        }
    } else if status == Some("failed"@) || status == Some("cancelled"@) {
        Some(on("runnable"@, "recover-thread"@, problem_id))
    } else {
        Some(on("io_wait"@, "wait-thread"@, problem_id))
    }
}

fn step_for_thread(thread: &Json, problem_id: &str) -> (r: Option<NextSummary>)
    ensures
        opt_view(r) == thread_step(*thread, problem_id@),
{
    if thread.field_is("status", "done") {
        if thread.text_field("joined_at").is_some() {
            None
        } else {
            Some(step_on("runnable", "join-thread", problem_id))
        }
    } else if thread.field_is("status", "failed") || thread.field_is("status", "cancelled") {
        Some(step_on("runnable", "recover-thread", problem_id))
    } else {
        Some(step_on("io_wait", "wait-thread", problem_id))
    }
}

/// What a child problem asks of a thread.
pub open spec fn child_step(state: Json, current: Seq<char>, child_id: Seq<char>) -> Option<
    NextSummaryView,
> {
    match problem_of(state, child_id) {
        None => None,
        Some(child) => match thread_on(state, child_id) {
            Some(thread) if text_field(thread, "id"@) != Some(current) => thread_step(
                thread,
                child_id,
            ),
            _ => if text_field(child, "status"@) == Some("done"@) {
                None
            } else if text_field(child, "owner_thread_id"@) == Some(current) {
                Some(on("runnable"@, "spawn-thread"@, child_id))
            } else {
                None
            },
        },
    }
}

fn step_for_child(state: &Json, current: &str, child_id: &str) -> (r: Option<NextSummary>)
    ensures
        opt_view(r) == child_step(*state, current@, child_id@),
{
    let child = match state.get_in("problems", child_id) {
        Some(child) => child,
        None => {
            return None;
        },
    };
    if let Some(thread) = thread_for_root_problem(state, child_id) {
        if !thread.field_is("id", current) {
            return step_for_thread(thread, child_id);
        }
    }
    if child.field_is("status", "done") {
        None
    } else if child.field_is("owner_thread_id", current) {
        Some(step_on("runnable", "spawn-thread", child_id))
    } else {
        None
    }
}

/// What the children of a problem ask for, from place `i` on.
pub open spec fn children_step(
    state: Json,
    current: Seq<char>,
    ids: Seq<Seq<char>>,
    i: int,
) -> Option<NextSummaryView>
    decreases ids.len() - i,
{
    if i < 0 || i >= ids.len() {
        None
    } else {
        match child_step(state, current, ids[i]) {
            Some(step) => Some(step),
            None => children_step(state, current, ids, i + 1),
        }
    }
}

fn step_for_children(state: &Json, current: &str, problem: &Json) -> (r: Option<NextSummary>)
    ensures
        opt_view(r) == children_step(*state, current@, texts(*problem, "child_problem_ids"@), 0),
{
    let ids = problem.texts("child_problem_ids");
    let mut i: usize = 0;
    while i < ids.len()
        invariant
            i <= ids@.len(),
            children_step(*state, current@, views(ids@), 0) == children_step(
                *state,
                current@,
                views(ids@),
                i as int,
            ),
            views(ids@) == texts(*problem, "child_problem_ids"@),
        decreases ids@.len() - i,
    {
        assert(views(ids@)[i as int] == ids@[i as int]@);
        let step = step_for_child(state, current, ids[i]);
        if step.is_some() {
            return step;
        }
        i = i + 1;
    }
    None
}

/// A problem that a thread owns and that is not done.
pub open spec fn open_own(state: Json, current: Seq<char>, id: Seq<char>) -> bool {
    match problem_of(state, id) {
        Some(problem) => text_field(problem, "owner_thread_id"@) == Some(current) && text_field(
            problem,
            "status"@,
        ) != Some("done"@),
        None => false,
    }
}

/// The follow-ups of a problem.
pub open spec fn followups_of(state: Json, id: Seq<char>) -> Seq<Seq<char>> {
    match problem_of(state, id) {
        Some(problem) => texts(problem, "followup_problem_ids"@),
        None => Seq::empty(),
    }
}

/// Follow-ups that ask for something: the own ones while they are open, the others by the thread
/// that works on them.
pub open spec fn asks(state: Json, current: Seq<char>) -> spec_fn(Seq<char>) -> bool {
    |id: Seq<char>|
        match problem_of(state, id) {
            None => false,
            Some(followup) => if text_field(followup, "owner_thread_id"@) == Some(current) {
                open_own(state, current, id)
            } else {
                thread_on(state, id) matches Some(thread) && thread_step(thread, id) is Some
            },
        }
}

/// The follow-up that is seen to in place of an open problem of the thread: the first that asks for
/// something, unless a child asks before.
pub open spec fn taken_up(state: Json, current: Seq<char>, id: Seq<char>) -> Option<Seq<char>> {
    if !open_own(state, current, id) || children_step(
        state,
        current,
        texts(problem_of(state, id)->0, "child_problem_ids"@),
        0,
    ) is Some {
        None
    } else {
        find_first(followups_of(state, id), asks(state, current))
    }
}

/// The open problem of the thread that the walk from one goes on to.
pub open spec fn next_on_walk(state: Json, current: Seq<char>, id: Seq<char>) -> Option<Seq<char>> {
    match taken_up(state, current, id) {
        Some(followup) if open_own(state, current, followup) => Some(followup),
        _ => None,
    }
}

/// The walk from a problem over follow-ups takes at most `n` steps.
pub open spec fn walk_within(state: Json, current: Seq<char>, id: Seq<char>, n: nat) -> bool
    decreases n,
{
    match next_on_walk(state, current, id) {
        None => true,
        Some(next) => n > 0 && walk_within(state, current, next, (n - 1) as nat),
    }
}

/// The walk from a problem over follow-ups comes to an end.
pub open spec fn walk_ends(state: Json, current: Seq<char>, id: Seq<char>) -> bool {
    exists|n: nat| walk_within(state, current, id, n)
}

/// How many steps the walk from a problem takes.
pub open spec fn walk_length(state: Json, current: Seq<char>, id: Seq<char>) -> nat {
    choose|n: nat|
        #![trigger walk_within(state, current, id, n)]
        walk_within(state, current, id, n) && (n == 0 || !walk_within(
            state,
            current,
            id,
            (n - 1) as nat,
        ))
}

/// A walk that ends has a length, and none of its steps can be left out.
pub proof fn lemma_walk_length(state: Json, current: Seq<char>, id: Seq<char>, n: nat)
    requires
        walk_within(state, current, id, n),
    ensures
        walk_within(state, current, id, walk_length(state, current, id)),
        walk_length(state, current, id) == 0 || !walk_within(
            state,
            current,
            id,
            (walk_length(state, current, id) - 1) as nat,
        ),
    decreases n,
{
    if n > 0 && walk_within(state, current, id, (n - 1) as nat) {
        lemma_walk_length(state, current, id, (n - 1) as nat);
    }
}

proof fn lemma_walk_grows(state: Json, current: Seq<char>, id: Seq<char>, n: nat, m: nat)
    requires
        walk_within(state, current, id, n),
        n <= m,
    ensures
        walk_within(state, current, id, m),
    decreases n,
{
    if let Some(next) = next_on_walk(state, current, id) {
        lemma_walk_grows(state, current, next, (n - 1) as nat, (m - 1) as nat);
    }
}

/// A step on a walk that ends leaves a shorter one.
pub proof fn lemma_walk_step(state: Json, current: Seq<char>, id: Seq<char>)
    requires
        walk_ends(state, current, id),
        next_on_walk(state, current, id) is Some,
    ensures
        walk_ends(state, current, next_on_walk(state, current, id)->0),
        walk_length(state, current, next_on_walk(state, current, id)->0) + 1 == walk_length(
            state,
            current,
            id,
        ),
{
    let next = next_on_walk(state, current, id)->0;
    let n = choose|n: nat| walk_within(state, current, id, n);
    lemma_walk_length(state, current, id, n);
    let l = walk_length(state, current, id);
    assert(l > 0);
    assert(walk_within(state, current, next, (l - 1) as nat));
    lemma_walk_length(state, current, next, (l - 1) as nat);
    let m = walk_length(state, current, next);
    if m > l - 1 {
        lemma_walk_grows(state, current, next, (l - 1) as nat, (m - 1) as nat);
    }
    if m < l - 1 {
        assert(walk_within(state, current, id, m + 1));
        lemma_walk_grows(state, current, id, m + 1, (l - 1) as nat);
    }
}

/// What the ticket of a problem asks for.
pub open spec fn own_step(state: Json, problem: Json) -> NextSummaryView {
    let problem_id = text_or(problem, "id"@, "?"@);
    match ticket_of(problem) {
        Some(ticket_id) => on(
            "runnable"@,
            match get_in(state, "tickets"@, ticket_id) {
                Some(ticket) => ticket_action_word(state, ticket),
                None => "create-solution-ticket"@,
            },
            problem_id + "/"@ + ticket_id,
        ),
        None => on("runnable"@, "create-solution-ticket"@, problem_id),
    }
}

/// The ticket of a problem: the one it names, or the first of those it lists.
pub open spec fn ticket_of(problem: Json) -> Option<Seq<char>> {
    match text_field(problem, "ticket_id"@) {
        Some(id) => Some(id),
        None => if texts(problem, "ticket_ids"@).len() > 0 {
            Some(texts(problem, "ticket_ids"@)[0])
        } else {
            None
        },
    }
}

/// The ticket of a problem: the one it names, or the first of those it lists.
pub(crate) fn ticket_id_of(problem: &Json) -> (r: Option<&str>)
    ensures
        opt_text(r) == ticket_of(*problem),
{
    if let Some(id) = problem.text_field("ticket_id") {
        return Some(id);
    }
    let ids = problem.texts("ticket_ids");
    if ids.len() > 0 {
        assert(views(ids@)[0] == ids@[0]@);
        Some(ids[0])
    } else {
        None
    }
}

fn own_next(state: &Json, problem: &Json) -> (r: NextSummary)
    ensures
        r@ == own_step(*state, *problem),
{
    let problem_id = problem.text_or("id", "?");
    match ticket_id_of(problem) {
        Some(ticket_id) => {
            let action = match state.get_in("tickets", ticket_id) {
                Some(ticket) => ticket_action(state, ticket),
                None => "create-solution-ticket",
            };
            step_on("runnable", action, cat3(problem_id, "/", ticket_id).as_str())
        },
        None => step_on("runnable", "create-solution-ticket", problem_id),
    }
}

/// What an open problem of the thread asks for: first its children are seen to, then its
/// follow-ups, then its own ticket.
pub open spec fn problem_step(state: Json, current: Seq<char>, id: Seq<char>) -> Option<
    NextSummaryView,
>
    decreases walk_length(state, current, id),
    when walk_ends(state, current, id)
    via problem_step_decreases
{
    if !open_own(state, current, id) {
        None
    } else {
        let problem = problem_of(state, id)->0;
        match children_step(state, current, texts(problem, "child_problem_ids"@), 0) {
            Some(step) => Some(step),
            None => match taken_up(state, current, id) {
                Some(followup) => if open_own(state, current, followup) {
                    problem_step(state, current, followup)
                } else {
                    thread_step(thread_on(state, followup)->0, followup)
                },
                None => Some(own_step(state, problem)),
            },
        }
    }
}

#[via_fn]
proof fn problem_step_decreases(state: Json, current: Seq<char>, id: Seq<char>) {
    if next_on_walk(state, current, id) is Some {
        lemma_walk_step(state, current, id);
    }
}

/// An open problem of the thread always asks for something, if only for its own ticket.
pub proof fn law_open_problem_asks(state: Json, current: Seq<char>, id: Seq<char>)
    requires
        walk_ends(state, current, id),
        open_own(state, current, id),
    ensures
        problem_step(state, current, id) is Some,
    decreases walk_length(state, current, id),
{
    if let Some(next) = next_on_walk(state, current, id) {
        lemma_walk_step(state, current, id);
        law_open_problem_asks(state, current, next);
    }
    lemma_find_from(followups_of(state, id), asks(state, current), 0);
}

/// Whether an open problem of the thread has this identifier.
pub(crate) fn is_open_own(state: &Json, current: &str, id: &str) -> (r: bool)
    ensures
        r == open_own(*state, current@, id@),
{
    match state.get_in("problems", id) {
        Some(problem) => problem.field_is("owner_thread_id", current) && !problem.field_is(
            "status",
            "done",
        ),
        None => false,
    }
}

fn is_asking(state: &Json, current: &str, id: &str) -> (r: bool)
    ensures
        r == (asks(*state, current@))(id@),
{
    match state.get_in("problems", id) {
        Some(followup) => if followup.field_is("owner_thread_id", current) {
            !followup.field_is("status", "done")
        } else {
            match thread_for_root_problem(state, id) {
                Some(thread) => step_for_thread(thread, id).is_some(),
                None => false,
            }
        },
        None => false,
    }
}

/// The follow-up that is seen to in place of a problem.
pub(crate) fn followup_taken_up<'a>(state: &'a Json, current: &str, id: &str) -> (r: Option<&'a str>)
    ensures
        opt_text(r) == taken_up(*state, current@, id@),
{
    if !is_open_own(state, current, id) {
        return None;
    }
    let problem = match state.get_in("problems", id) {
        Some(problem) => problem,
        None => {
            return None;
        },
    };
    if step_for_children(state, current, problem).is_some() {
        return None;
    }
    let ids = problem.texts("followup_problem_ids");
    let ghost f = asks(*state, current@);
    let mut i: usize = 0;
    while i < ids.len()
        invariant
            i <= ids@.len(),
            f == asks(*state, current@),
            views(ids@) == followups_of(*state, id@),
            find_from(views(ids@), f, 0) == find_from(views(ids@), f, i as int),
            taken_up(*state, current@, id@) == find_first(views(ids@), f),
        decreases ids@.len() - i,
    {
        assert(views(ids@)[i as int] == ids@[i as int]@);
        if is_asking(state, current, ids[i]) {
            return Some(ids[i]);
        }
        i = i + 1;
    }
    None
}

/// What an open problem of the thread asks for.
pub fn derive_next_for_problem(state: &Json, current_thread_id: &str, problem_id: &str) -> (r:
    Option<NextSummary>)
    requires
        walk_ends(*state, current_thread_id@, problem_id@),
    ensures
        opt_view(r) == problem_step(*state, current_thread_id@, problem_id@),
    decreases walk_length(*state, current_thread_id@, problem_id@),
{
    let problem = match state.get_in("problems", problem_id) {
        Some(problem) => problem,
        None => {
            return None;
        },
    };
    if !problem.field_is("owner_thread_id", current_thread_id) || problem.field_is(
        "status",
        "done",
    ) {
        return None;
    }
    let of_children = step_for_children(state, current_thread_id, problem);
    if of_children.is_some() {
        return of_children;
    }
    match followup_taken_up(state, current_thread_id, problem_id) {
        Some(followup) => {
            proof {
                lemma_find_from(
                    followups_of(*state, problem_id@),
                    asks(*state, current_thread_id@),
                    0,
                );
            }
            if is_open_own(state, current_thread_id, followup) {
                proof {
                    lemma_walk_step(*state, current_thread_id@, problem_id@);
                }
                derive_next_for_problem(state, current_thread_id, followup)
            } else {
                match thread_for_root_problem(state, followup) {
                    Some(thread) => step_for_thread(thread, followup),
                    None => None,
                }
            }
        },
        None => Some(own_next(state, problem)),
    }
}

/// Inbox items with an identifier that a thread has to see to.
pub open spec fn pending_for(current: Seq<char>) -> spec_fn(Json) -> bool {
    |item: Json|
        {
            &&& text_field(item, "status"@) == Some("inboxed"@)
            &&& text_field(item, "target_thread_id"@) is None || text_field(
                item,
                "target_thread_id"@,
            ) == Some(current)
            &&& text_field(item, "id"@) is Some
        }
}

/// The first inbox item that a thread has to see to.
pub open spec fn pending_inbox(state: Json, current: Seq<char>) -> Option<Seq<char>> {
    match find_first(items(state, "inbox"@), pending_for(current)) {
        Some(item) => text_field(item, "id"@),
        None => None,
    }
}

/// The first inbox item that a thread has to see to.
pub fn pending_inbox_for_thread<'a>(state: &'a Json, current_thread_id: &str) -> (r: Option<
    &'a str,
>)
    ensures
        opt_text(r) == pending_inbox(*state, current_thread_id@),
{
    let inbox = state.items("inbox");
    let is_pending = |item: &Json| -> (b: bool)
        ensures
            b == (pending_for(current_thread_id@))(*item),
    {
        item.field_is("status", "inboxed") && (item.text_field("target_thread_id").is_none()
            || item.field_is("target_thread_id", current_thread_id)) && item.text_field(
            "id",
        ).is_some()
    };
    match find_value(&inbox, is_pending, Ghost(pending_for(current_thread_id@))) {
        Some(item) => item.text_field("id"),
        None => None,
    }
}

/// Waits of a thread that are not over.
pub open spec fn holds_up(current: Seq<char>) -> spec_fn(Json) -> bool {
    |wait: Json|
        text_field(wait, "thread_id"@) == Some(current) && text_field(wait, "status"@) is Some
            && text_field(wait, "status"@) != Some("consumed"@)
}

/// The wait that holds a thread up.
pub open spec fn active_wait(state: Json, current: Seq<char>) -> Option<Json> {
    find_first(entries(state, "waits"@), holds_up(current))
}

/// The wait that holds a thread up.
pub(crate) fn active_wait_of<'a>(state: &'a Json, thread_id: &str) -> (r: Option<&'a Json>)
    ensures
        opt_ref(r) == active_wait(*state, thread_id@),
{
    let waits = state.entries("waits");
    let holds = |wait: &Json| -> (b: bool)
        ensures
            b == (holds_up(thread_id@))(*wait),
    {
        wait.field_is("thread_id", thread_id) && wait.text_field("status").is_some()
            && !wait.field_is("status", "consumed")
    };
    find_value(&waits, holds, Ghost(holds_up(thread_id@)))
}

/// Identifiers of handles on passive events.
pub open spec fn names_passive_handle(state: Json) -> spec_fn(Seq<char>) -> bool {
    |id: Seq<char>|
        match get_in(state, "handles"@, id) {
            Some(handle) => {
                let kind = text_field(handle, "kind"@);
                kind == Some("user_input"@) || kind == Some("timer"@) || kind == Some(
                    "external_signal"@,
                )
            },
            None => false,
        }
}

/// A wait lists a handle on a passive event.
pub open spec fn waits_passively(state: Json, wait: Json) -> bool {
    find_index(texts(wait, "handle_ids"@), names_passive_handle(state)) is Some
}

/// Whether a wait lists a handle on a passive event.
pub fn wait_has_passive_handle(state: &Json, wait: &Json) -> (r: bool)
    ensures
        r == waits_passively(*state, *wait),
{
    let ids = wait.texts("handle_ids");
    let ghost p = names_passive_handle(*state);
    let mut i: usize = 0;
    while i < ids.len()
        invariant
            i <= ids@.len(),
            p == names_passive_handle(*state),
            views(ids@) == texts(*wait, "handle_ids"@),
            find_from(views(ids@), p, 0) == find_from(views(ids@), p, i as int),
        decreases ids@.len() - i,
    {
        assert(views(ids@)[i as int] == ids@[i as int]@);
        if let Some(handle) = state.get_in("handles", ids[i]) {
            if handle.field_is("kind", "user_input") || handle.field_is("kind", "timer")
                || handle.field_is("kind", "external_signal") {
                return true;
            }
        }
        i = i + 1;
    }
    false
}

/// The problem on which a thread works.
pub open spec fn root_of(state: Json, current: Seq<char>) -> Seq<char> {
    let bound = match get_in(state, "threads"@, current) {
        Some(thread) => text_field(thread, "root_problem_id"@),
        None => None,
    };
    match bound {
        Some(id) => id,
        None => match text_field(state, "root_problem_id"@) {
            Some(id) => id,
            None => text_or(state, "root_id"@, "P000"@),
        },
    }
}

/// The problem on which a thread works.
pub(crate) fn root_problem_of<'a>(state: &'a Json, current: &str) -> (r: &'a str)
    ensures
        r@ == root_of(*state, current@),
{
    if let Some(thread) = state.get_in("threads", current) {
        if let Some(id) = thread.text_field("root_problem_id") {
            return id;
        }
    }
    match state.text_field("root_problem_id") {
        Some(id) => id,
        None => state.text_or("root_id", "P000"),
    }
}

/// What a thread does next: an inbox item goes first, then the wait that holds it up, then what
/// its problem asks for.
pub open spec fn next_summary(state: Json, current: Seq<char>) -> NextSummaryView {
    match pending_inbox(state, current) {
        Some(id) => on("runnable"@, "handle-inbox"@, id),
        None => match active_wait(state, current) {
            Some(wait) => NextSummaryView {
                disposition: "io_wait"@,
                action: if waits_passively(state, wait) {
                    "wait_io"@
                } else {
                    "wait_thread"@
                },
                target: text_field(wait, "id"@),
            },
            None => match problem_step(state, current, root_of(state, current)) {
                Some(step) => step,
                None => NextSummaryView {
                    disposition: "terminal"@,
                    action: "none"@,
                    target: None,
                },
            },
        },
    }
}

/// What a thread does next can be said: an inbox item or a wait says it, or the walk over the
/// follow-ups of its problem ends.
pub open spec fn next_is_clear(state: Json, current: Seq<char>) -> bool {
    ||| pending_inbox(state, current) is Some
    ||| active_wait(state, current) is Some
    ||| walk_ends(state, current, root_of(state, current))
}

/// What a thread does next.
pub fn derive_next(state: &Json, current_thread_id: &str) -> (r: NextSummary)
    requires
        next_is_clear(*state, current_thread_id@),
    ensures
        r@ == next_summary(*state, current_thread_id@),
{
    if let Some(inbox_id) = pending_inbox_for_thread(state, current_thread_id) {
        return step_on("runnable", "handle-inbox", inbox_id);
    }
    if let Some(wait) = active_wait_of(state, current_thread_id) {
        let action = if wait_has_passive_handle(state, wait) {
            "wait_io"
        } else {
            "wait_thread"
        };
        let target = match wait.text_field("id") {
            Some(id) => Some(id.to_owned()),
            None => None,
        };
        return NextSummary { disposition: "io_wait", action, target };
    }
    let root = root_problem_of(state, current_thread_id);
    match derive_next_for_problem(state, current_thread_id, root) {
        Some(step) => step,
        None => NextSummary { disposition: "terminal", action: "none", target: None },
    }
}

} // verus!
