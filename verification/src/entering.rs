//! How a runtime finds its thread when it begins or resumes, and what its commands come down to.
use vstd::prelude::*;
use crate::clock::Timestamp;
use crate::context::RuntimeContextView;
use crate::dealings::{is_asked_key, law_parked_waits_are_as_asked, lemma_key_words};
use crate::endings::law_single_wait_is_receipted;
use crate::entities::{ClosureStateView, ProcessMetadataView, ThreadView};
use crate::kinds::{PassiveEventKind, WaitMode, WaitSpecKind};
use crate::order::lex_lt;
use crate::reports::{WaitCommandView, WaitResultView, WaitSpecView};
use crate::runtime::{begun, current_form, passive_spec, resolved, run_by, session_context, spec_kind};
use crate::search::{find_from, lemma_find_from};
use crate::strmap::{keys, lemma_listed, values};

verus! {

/// A thread is run by an actor.
pub open spec fn is_run_by(thread: ThreadView, actor: Seq<char>) -> bool {
    thread.actor_session_id == Some(actor) || thread.codex_thread_id == Some(actor)
}

/// The first thread that an actor runs.
pub open spec fn is_first_run_by(s: ClosureStateView, actor: Seq<char>, id: Seq<char>) -> bool {
    &&& s.threads.contains_key(id)
    &&& is_run_by(s.threads[id], actor)
    &&& forall|k: Seq<char>| #[trigger]
        s.threads.contains_key(k) && is_run_by(s.threads[k], actor) ==> k == id || lex_lt(id, k)
}

/// An actor that runs a thread acts as that thread, and the state stays as it is.
pub proof fn law_actor_acts_as_its_thread(
    context: RuntimeContextView,
    s: ClosureStateView,
    now: Timestamp,
    actor: Seq<char>,
)
    requires
        s.threads.dom().finite(),
        context.actor_session_id == Some(actor),
        exists|k: Seq<char>| #[trigger]
            s.threads.contains_key(k) && is_run_by(s.threads[k], actor),
    ensures
        ({
            let r = resolved(context, s, now);
            &&& is_first_run_by(s, actor, r.context.thread_id)
            &&& r.context == (RuntimeContextView { thread_id: r.context.thread_id, ..context })
            &&& r.state == s
        }),
{
    let ks = keys(s.threads);
    let vs = values(s.threads);
    let f = run_by(actor);
    lemma_listed(s.threads);
    lemma_find_from(vs, f, 0);
    let k = choose|k: Seq<char>| #[trigger]
        s.threads.contains_key(k) && is_run_by(s.threads[k], actor);
    let at = ks.index_of(k);
    assert(ks.contains(k));
    assert(ks[at] == k && vs[at] == s.threads[k]);
    assert(f(vs[at]));
    let i = find_from(vs, f, 0)->0;
    assert(f(vs[i]));
    assert forall|j: Seq<char>| #[trigger]
        s.threads.contains_key(j) && is_run_by(s.threads[j], actor) implies j == ks[i] || lex_lt(
        ks[i],
        j,
    ) by {
        let n = ks.index_of(j);
        assert(ks.contains(j));
        assert(ks[n] == j && vs[n] == s.threads[j]);
        assert(f(vs[n]));
        if n < i {
            assert(!f(vs[n]));
        } else if i < n {
            assert(lex_lt(ks[i], ks[n]));
        }
    }
}

/// Anyone else acts as the thread that was asked for, or as the main one where that is not there. A
/// thread without an actor is bound to the one that acts, and a process without one notes it; nothing
/// else changes.
pub proof fn law_new_actor_is_bound(context: RuntimeContextView, s: ClosureStateView, now: Timestamp)
    requires
        s.threads.dom().finite(),
        context.actor_session_id matches Some(actor) ==> forall|k: Seq<char>| #[trigger]
            s.threads.contains_key(k) ==> !is_run_by(s.threads[k], actor),
    ensures
        ({
            let r = resolved(context, s, now);
            let id = if s.threads.contains_key(context.thread_id) {
                context.thread_id
            } else {
                s.main_thread_id
            };
            let actor = context.actor_session_id;
            &&& r.context == (RuntimeContextView { thread_id: id, ..context })
            &&& r.state == (ClosureStateView {
                threads: r.state.threads,
                process: r.state.process,
                ..s
            })
            &&& if actor is Some && s.threads.contains_key(id) && s.threads[id].actor_session_id
                is None {
                r.state.threads == s.threads.insert(
                    id,
                    ThreadView {
                        actor_session_id: actor,
                        codex_thread_id: if s.threads[id].codex_thread_id is Some {
                            s.threads[id].codex_thread_id
                        } else {
                            actor
                        },
                        updated_at: now,
                        ..s.threads[id]
                    },
                )
            } else {
                r.state.threads == s.threads
            }
            &&& s.process.root_actor_session_id is Some ==> r.state.process == s.process
            &&& s.process.root_actor_session_id is None ==> r.state.process == (
            ProcessMetadataView { root_actor_session_id: actor, updated_at: now, ..s.process })
        }),
{
    lemma_listed(s.threads);
    if let Some(actor) = context.actor_session_id {
        let f = run_by(actor);
        lemma_find_from(values(s.threads), f, 0);
        if let Some(i) = find_from(values(s.threads), f, 0) {
            assert(f(values(s.threads)[i]));
            assert(s.threads.contains_key(keys(s.threads)[i]));
        }
    }
}

/// A state of an earlier version is read as one of the current version; everything else in it stays.
pub proof fn law_earlier_states_are_read(s: ClosureStateView)
    ensures
        current_form(s) == (ClosureStateView {
            schema_version: current_form(s).schema_version,
            ..s
        }),
        s.schema_version < 8 ==> current_form(s).schema_version == 8,
        s.schema_version >= 8 ==> current_form(s) == s,
{
}

/// A new process begins with its root problem and main thread under the names that were asked for, and
/// the acting thread is the main one.
pub proof fn law_process_begins_with_its_thread(
    context: RuntimeContextView,
    title: Seq<char>,
    body: Seq<char>,
    at: Timestamp,
    now: Timestamp,
)
    ensures
        ({
            let r = begun(context, title, body, at, now);
            &&& r.context == context
            &&& r.state.process_id == context.process_id
            &&& r.state.main_thread_id == context.thread_id
            &&& r.state.threads.contains_key(context.thread_id)
            &&& r.state.threads[context.thread_id].actor_session_id == context.actor_session_id
            &&& r.state.problems["P000"@].title == title && r.state.problems["P000"@].body == body
            &&& r.state.root_problem_id == "P000"@
        }),
{
    let s = ClosureStateView::new_root(
        context.process_id,
        context.thread_id,
        context.actor_session_id,
        title,
        body,
        at,
    );
    assert(s.threads.dom() =~= set![context.thread_id]);
    if let Some(actor) = context.actor_session_id {
        assert(s.threads.contains_key(context.thread_id) && is_run_by(
            s.threads[context.thread_id],
            actor,
        ));
        law_actor_acts_as_its_thread(context, s, now, actor);
    } else {
        law_new_actor_is_bound(context, s, now);
    }
}

/// A session acts as the main thread of a process of its own.
pub proof fn law_session_has_its_own_process(workspace_root: Seq<char>, actor: Seq<char>)
    ensures
        ({
            let c = session_context(workspace_root, actor);
            &&& c.workspace_root == workspace_root
            &&& c.process_id == "QP-"@ + actor
            &&& c.thread_id == "QT000"@
            &&& c.actor_session_id == Some(actor)
            &&& c.parent_actor_session_id is None
        }),
{
}

/// A wait for one kind of event asks for that kind.
pub proof fn law_wait_asks_for_its_kind(
    kind: PassiveEventKind,
    condition: Option<Seq<char>>,
    source: Option<Seq<char>>,
    dedupe_key: Option<Seq<char>>,
)
    ensures
        ({
            let spec = passive_spec(spec_kind(kind), None, condition, source, dedupe_key);
            &&& spec.kind == match kind {
                PassiveEventKind::UserInput => WaitSpecKind::UserInput,
                PassiveEventKind::Timer => WaitSpecKind::Timer,
                PassiveEventKind::ExternalSignal => WaitSpecKind::ExternalSignal,
            }
            &&& spec.event_key is None && spec.target_thread_id is None
            &&& spec.condition == condition && spec.source == source && spec.dedupe_key
                == dedupe_key
        }),
{
}

/// Each command comes down to the one operation that it names, whose refusals it passes on; asking for
/// a status changes nothing.
pub proof fn law_commands_do_what_they_name(
    s: ClosureStateView,
    ctx: RuntimeContextView,
    now: Timestamp,
    command: WaitCommandView,
)
    ensures
        ({
            let (t, r) = s.commanded(ctx, now, command);
            match command {
                WaitCommandView::Park { mode, reason, specs } => {
                    let done = s.parked(ctx, now, mode, reason, specs);
                    &&& t == done.0
                    &&& r is Ok <==> done.1 is Ok
                    &&& r matches Ok(w) ==> w == (WaitResultView::Parked { wait: done.1->Ok_0 })
                    &&& r matches Err(e) ==> e == done.1->Err_0
                },
                WaitCommandView::Status { handle_id } => {
                    let done = s.wait_snapshot(ctx, handle_id);
                    &&& t == s
                    &&& r is Ok <==> done is Ok
                    &&& r matches Ok(w) ==> w == (WaitResultView::Status { snapshot: done->Ok_0 })
                    &&& r matches Err(e) ==> e == done->Err_0
                },
                WaitCommandView::Consume { handle_id } => {
                    let done = s.consumed(ctx, now, handle_id);
                    &&& t == done.0
                    &&& r is Ok <==> done.1 is Ok
                    &&& r matches Ok(w) ==> w == (WaitResultView::Consumed {
                        consumed: done.1->Ok_0,
                    })
                    &&& r matches Err(e) ==> e == done.1->Err_0
                },
                WaitCommandView::Cancel { handle_id, reason } => {
                    let done = s.cancelled(ctx, now, handle_id, reason);
                    &&& t == done.0
                    &&& r is Ok <==> done.1 is Ok
                    &&& r matches Ok(w) ==> w == (WaitResultView::Cancelled {
                        cancelled: done.1->Ok_0,
                    })
                    &&& r matches Err(e) ==> e == done.1->Err_0
                },
                WaitCommandView::Wake { event } => {
                    let done = s.received(ctx, now, event);
                    &&& t == done.0
                    &&& r is Ok <==> done.1 is Ok
                    &&& r matches Ok(w) ==> w == (WaitResultView::Woke { receipt: done.1->Ok_0 })
                    &&& r matches Err(e) ==> e == done.1->Err_0
                },
            }
        }),
{
}

/// A thread that parks on one event gets a receipt for the key that was asked for and for its kind.
pub proof fn law_single_wait_is_for_what_was_asked(
    s: ClosureStateView,
    ctx: RuntimeContextView,
    now: Timestamp,
    reason: Seq<char>,
    spec: WaitSpecView,
)
    requires
        s.orderly(),
        s.next_handle_seq < u32::MAX,
    ensures
        s.parked_on(ctx, now, reason, spec).1 matches Ok(wait) ==> {
            &&& wait.thread_id == ctx.thread_id
            &&& is_asked_key(wait.event_key, spec, ctx.thread_id)
            &&& spec.kind == WaitSpecKind::UserInput ==> wait.kind == PassiveEventKind::UserInput
            &&& spec.kind == WaitSpecKind::Timer ==> wait.kind == PassiveEventKind::Timer
            &&& spec.kind == WaitSpecKind::ExternalSignal ==> wait.kind
                == PassiveEventKind::ExternalSignal
        },
{
    let specs = seq![spec];
    let (t, r) = s.parked_on(ctx, now, reason, spec);
    law_single_wait_is_receipted(s, ctx, now, reason, spec);
    if let Ok(wait) = r {
        assert(s.parking_refusal(ctx, specs) is Ok);
        law_parked_waits_are_as_asked(s, ctx, now, WaitMode::All, reason, specs);
        let whole = s.parked(ctx, now, WaitMode::All, reason, specs).1->Ok_0;
        assert(whole.handle_ids[0] == wait.handle_id);
        assert(specs[0] == spec);
        lemma_key_words();
    }
}

} // verus!
