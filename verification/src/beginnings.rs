//! How a process begins, how its threads are bound, and how a child that stops is noted.
use vstd::prelude::*;
use crate::clock::Timestamp;
use crate::context::RuntimeContextView;
use crate::effects::changed_at;
use crate::entities::{ClosureStateView, ProblemView, ThreadView};
use crate::ids::numbered;
use crate::kinds::{ContextForkPolicy, IoEventKind, ProblemStatus, ThreadStatus};

verus! {

/// Every entry of the log says who acted and when, what was done and to what, and is added last.
pub proof fn law_log_entry_says_who_acted(
    s: ClosureStateView,
    ctx: RuntimeContextView,
    now: Timestamp,
    kind: Seq<char>,
    entity_id: Seq<char>,
    message: Seq<char>,
)
    ensures
        ({
            let t = s.logged(ctx, now, kind, entity_id, message);
            let e = t.events.last();
            &&& t.events.len() == s.events.len() + 1
            &&& t.events.drop_last() == s.events
            &&& e.kind == kind && e.entity_id == entity_id && e.message == message
            &&& e.actor_thread_id == ctx.thread_id && e.actor_session_id == ctx.actor_session_id
            &&& e.created_at == now
            &&& t == (ClosureStateView { events: t.events, ..s })
        }),
{
    let t = s.logged(ctx, now, kind, entity_id, message);
    assert(t.events.drop_last() =~= s.events);
}

/// Every entry of the log of waits has the next name, says who acted and when, and is added last.
pub proof fn law_io_log_entry_says_who_acted(
    s: ClosureStateView,
    ctx: RuntimeContextView,
    now: Timestamp,
    kind: IoEventKind,
    handle_id: Option<Seq<char>>,
    thread_id: Option<Seq<char>>,
    message: Seq<char>,
)
    requires
        s.next_io_event_seq < u32::MAX,
    ensures
        ({
            let t = s.io_logged(ctx, now, kind, handle_id, thread_id, message);
            let e = t.io_events.last();
            &&& t.io_events.len() == s.io_events.len() + 1
            &&& t.io_events.drop_last() == s.io_events
            &&& e.id == numbered("IO"@, s.next_io_event_seq as nat)
            &&& e.kind == kind && e.handle_id == handle_id && e.thread_id == thread_id && e.message
                == message
            &&& e.actor_thread_id == ctx.thread_id && e.actor_session_id == ctx.actor_session_id
            &&& e.created_at == now
            &&& t.next_io_event_seq == s.next_io_event_seq + 1
            &&& t == (ClosureStateView {
                io_events: t.io_events,
                next_io_event_seq: t.next_io_event_seq,
                ..s
            })
        }),
{
    let t = s.io_logged(ctx, now, kind, handle_id, thread_id, message);
    assert(t.io_events.drop_last() =~= s.io_events);
}

/// A new process has one thread, its main one, which runs and owns the one problem there is; that one
/// says what was asked, and there is nothing else yet.
pub proof fn law_new_process_has_one_thread_and_one_problem(
    process_id: Seq<char>,
    main_thread_id: Seq<char>,
    actor_session_id: Option<Seq<char>>,
    title: Seq<char>,
    body: Seq<char>,
    now: Timestamp,
)
    ensures
        ({
            let s = ClosureStateView::new_root(
                process_id,
                main_thread_id,
                actor_session_id,
                title,
                body,
                now,
            );
            let root = s.problems["P000"@];
            let main = s.threads[main_thread_id];
            &&& s.process_id == process_id && s.main_thread_id == main_thread_id
            &&& s.process.id == process_id && s.process.main_thread_id == main_thread_id
                && s.process.root_actor_session_id == actor_session_id && s.process.created_at == now
            &&& s.root_problem_id == "P000"@
            &&& s.problems.dom() == set!["P000"@]
            &&& root.id == "P000"@ && root.title == title && root.body == body
            &&& root.status == ProblemStatus::Todo && root.owner_thread_id == main_thread_id
            &&& root.parent_id is None && root.ticket_id is None
            &&& root.child_problem_ids.len() == 0 && root.followup_problem_ids.len() == 0
                && root.result_ids.len() == 0 && root.check_ids.len() == 0
            &&& s.threads.dom() == set![main_thread_id]
            &&& main.id == main_thread_id && main.process_id == process_id
            &&& main.parent_thread_id is None && main.root_problem_id == "P000"@
                && main.created_from_problem_id == "P000"@
            &&& main.status == ThreadStatus::Running && main.joined_at is None
            &&& main.actor_session_id == actor_session_id && main.codex_thread_id
                == actor_session_id
            &&& main.child_thread_ids.len() == 0
            &&& main.context_fork.policy == ContextForkPolicy::FullContext
            &&& s.handles.dom() == Set::<Seq<char>>::empty() && s.waits.dom()
                == Set::<Seq<char>>::empty() && s.tickets.dom() == Set::<Seq<char>>::empty()
                && s.results.dom() == Set::<Seq<char>>::empty() && s.checks.dom()
                == Set::<Seq<char>>::empty()
            &&& s.passive_events.len() == 0 && s.inbox.len() == 0 && s.io_events.len() == 0
            &&& s.events.len() == 1 && s.events[0].entity_id == "P000"@
                && s.events[0].actor_thread_id == main_thread_id
            &&& s.next_problem_seq == 1 && s.next_thread_seq == 1
            &&& s.next_handle_seq == 0 && s.next_wait_seq == 0 && s.next_ticket_seq == 0
                && s.next_result_seq == 0 && s.next_check_seq == 0 && s.next_io_event_seq == 0
                && s.next_passive_event_seq == 0 && s.next_inbox_item_seq == 0
        }),
{
    let s = ClosureStateView::new_root(
        process_id,
        main_thread_id,
        actor_session_id,
        title,
        body,
        now,
    );
    assert(s.problems.dom() =~= set!["P000"@]);
    assert(s.threads.dom() =~= set![main_thread_id]);
}

/// Nothing has been done about a problem yet.
pub open spec fn is_untouched(p: ProblemView) -> bool {
    p.status == ProblemStatus::Todo && p.ticket_id is None && p.child_problem_ids.len() == 0
        && p.followup_problem_ids.len() == 0 && p.result_ids.len() == 0 && p.check_ids.len() == 0
}

/// The root problem takes the title and the body that are given, each only where it is given, while
/// nothing has been done about it; after that it stays as it is.
pub proof fn law_root_is_initialized_while_untouched(
    s: ClosureStateView,
    ctx: RuntimeContextView,
    now: Timestamp,
    title: Option<Seq<char>>,
    body: Option<Seq<char>>,
)
    requires
        s.problems.contains_key(s.root_problem_id),
    ensures
        ({
            let (t, r) = s.root_initialized(ctx, now, title, body);
            let id = s.root_problem_id;
            let root = s.problems[id];
            &&& r is Ok
            &&& if is_untouched(root) && (title is Some || body is Some) {
                &&& changed_at(s.problems, t.problems, id)
                &&& t.problems[id] == (ProblemView {
                    title: t.problems[id].title,
                    body: t.problems[id].body,
                    updated_at: now,
                    ..root
                })
                &&& title matches Some(text) ==> t.problems[id].title == text
                &&& title is None ==> t.problems[id].title == root.title
                &&& body matches Some(text) ==> t.problems[id].body == text
                &&& body is None ==> t.problems[id].body == root.body
                &&& t == (ClosureStateView { problems: t.problems, events: t.events, ..s })
                &&& t.events.drop_last() == s.events && t.events.last().entity_id == id
            } else {
                t == s
            }
        }),
{
    let (t, r) = s.root_initialized(ctx, now, title, body);
    let id = s.root_problem_id;
    if t != s {
        assert(t.problems.dom() =~= s.problems.dom().insert(id));
        assert(t.events.drop_last() =~= s.events);
    }
    if is_untouched(s.problems[id]) && (title is Some || body is Some) {
        assert(t.problems.dom() =~= s.problems.dom().insert(id));
        assert(t.events.drop_last() =~= s.events);
    }
}

/// A root problem that still has the title of an early one, and that nothing has been done about, takes
/// both texts; any other stays as it is.
pub proof fn law_root_is_upgraded_while_untouched(
    s: ClosureStateView,
    ctx: RuntimeContextView,
    now: Timestamp,
    title: Seq<char>,
    body: Seq<char>,
)
    requires
        s.problems.contains_key(s.root_problem_id),
    ensures
        ({
            let (t, r) = s.root_upgraded(ctx, now, title, body);
            let id = s.root_problem_id;
            let root = s.problems[id];
            &&& r is Ok
            &&& if is_untouched(root) && root.title == "Qunux root task"@ {
                &&& t.problems == s.problems.insert(
                    id,
                    ProblemView { title, body, updated_at: now, ..root },
                )
                &&& t == (ClosureStateView { problems: t.problems, events: t.events, ..s })
                &&& t.events.drop_last() == s.events && t.events.last().entity_id == id
            } else {
                t == s
            }
        }),
{
    let (t, r) = s.root_upgraded(ctx, now, title, body);
    let id = s.root_problem_id;
    if is_untouched(s.problems[id]) && s.problems[id].title == "Qunux root task"@ {
        assert(t.events.drop_last() =~= s.events);
    }
}

/// A letter that names may hold.
pub open spec fn is_plain_letter(c: char) -> bool {
    ('a' <= c && c <= 'z') || ('A' <= c && c <= 'Z') || ('0' <= c && c <= '9') || c == '-' || c
        == '_' || c == '.'
}

/// An actor is bound to any thread that is there, if its name is made of plain letters, is not empty
/// and is neither of the names of directories. The thread then names it twice, and nothing else
/// changes.
pub proof fn law_actor_is_bound_by_name(
    s: ClosureStateView,
    ctx: RuntimeContextView,
    now: Timestamp,
    thread_id: Seq<char>,
    actor: Seq<char>,
)
    ensures
        ({
            let (t, r) = s.actor_bound(ctx, now, thread_id, actor);
            &&& r is Ok <==> s.threads.contains_key(thread_id) && actor.len() > 0 && actor != "."@
                && actor != ".."@ && forall|i: int|
                0 <= i < actor.len() ==> is_plain_letter(#[trigger] actor[i])
            &&& r is Err ==> t == s
            &&& r is Ok ==> {
                &&& t.threads == s.threads.insert(
                    thread_id,
                    ThreadView {
                        actor_session_id: Some(actor),
                        codex_thread_id: Some(actor),
                        updated_at: now,
                        ..s.threads[thread_id]
                    },
                )
                &&& t == (ClosureStateView { threads: t.threads, events: t.events, ..s })
                &&& t.events.drop_last() == s.events && t.events.last().entity_id == thread_id
            }
        }),
{
    let (t, r) = s.actor_bound(ctx, now, thread_id, actor);
    if r is Ok {
        assert(t.events.drop_last() =~= s.events);
    }
    if forall|i: int| 0 <= i < actor.len() ==> is_plain_letter(#[trigger] actor[i]) {
        assert forall|i: int| 0 <= i < actor.len() implies crate::context::id_char(
            #[trigger] actor[i],
        ) by {
            assert(is_plain_letter(actor[i]));
        }
    }
}

} // verus!
