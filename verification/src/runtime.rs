//! A runtime: a state, and the context in which it is acted on.
use vstd::prelude::*;
use crate::clock::{now, Timestamp};
use crate::context::{session_process_id, valid_id, DEFAULT_THREAD_ID, RuntimeContext, RuntimeContextView};
use crate::entering::law_single_wait_is_for_what_was_asked;
use crate::entities::{ClosureState, ClosureStateView, EventKey, EventKeyView, InboxItem, IoHandle, ProcessMetadataView, ScaffoldedTask, Thread, ThreadActorRoute, ThreadView, UserTaskProblem};
use crate::error::{outcome, Outcome, QunuxErrorView, Result};
use crate::closing::fault_of;
use crate::forest::{branching, rooted};
use crate::kinds::{CheckStatus, ContextForkPolicy, EntityKind, IoEventKind, PassiveEventKind, TicketChildMode, TicketClassification, WaitSpecKind};
use crate::reports::{CurrentState, CurrentStateView, JoinedThread, NextStep, PassiveEventInput, PassiveEventReceipt, PassiveWait, RecoveredThread, RuntimeStatus, SpawnedThread, WaitCommand, WaitCommandView, WaitResult, WaitResultView, WaitSpec, WaitSpecView};
use crate::search::{find_from, find_index};
use crate::soundness::{law_acknowledged_leaves_problems, law_cancelled_leaves_problems, law_checked_sound, law_child_created_sound, law_consumed_leaves_problems, law_new_root_sound, law_parked_leaves_problems, law_parked_on_leaves_problems, law_received_leaves_problems, law_recovered_sound, law_result_recorded_sound, law_root_initialized_sound, law_root_upgraded_sound, law_spawned_sound, law_status_set_sound, law_threads_leave_problems, law_ticket_classified_leaves_problems, law_ticket_created_sound, law_user_task_created_sound, law_user_task_scaffolded_sound};
use crate::state::{unknown_thread, SCHEMA_VERSION};
use crate::strmap::{keys, values};
use crate::text::{cat2, group_views, opt_is, opt_view, views};

verus! {

broadcast use group_views;

/// A state, and the context in which it is acted on.
pub struct QunuxRuntime {
    context: RuntimeContext,
    state: ClosureState,
}

/// What a [`QunuxRuntime`] says.
#[verifier::ext_equal]
pub struct QunuxRuntimeView {
    pub context: RuntimeContextView,
    pub state: ClosureStateView,
}

impl View for QunuxRuntime {
    type V = QunuxRuntimeView;

    closed spec fn view(&self) -> QunuxRuntimeView {
        QunuxRuntimeView { context: self.context@, state: self.state@ }
    }
}

/// Whether a thread is run by `actor`.
pub open spec fn run_by(actor: Seq<char>) -> spec_fn(ThreadView) -> bool {
    |thread: ThreadView| thread.actor_session_id == Some(actor) || thread.codex_thread_id == Some(actor)
}

/// The state in the current form.
pub open spec fn current_form(s: ClosureStateView) -> ClosureStateView {
    if s.schema_version < SCHEMA_VERSION {
        ClosureStateView { schema_version: SCHEMA_VERSION, ..s }
    } else {
        s
    }
}

/// The context acts for the thread that its actor runs. Where it runs none, the context acts for
/// the thread it names, or for the main thread if there is no such thread; the actor then takes
/// over that thread and the process, where they have no actor yet.
pub open spec fn resolved(
    context: RuntimeContextView,
    s: ClosureStateView,
    now: Timestamp,
) -> QunuxRuntimeView {
    let bound = match context.actor_session_id {
        Some(actor) => find_index(values(s.threads), run_by(actor)),
        None => None,
    };
    match bound {
        Some(i) => QunuxRuntimeView {
            context: RuntimeContextView { thread_id: keys(s.threads)[i], ..context },
            state: s,
        },
        None => {
            let thread_id = if s.threads.contains_key(context.thread_id) {
                context.thread_id
            } else {
                s.main_thread_id
            };
            QunuxRuntimeView {
                context: RuntimeContextView { thread_id, ..context },
                state: ClosureStateView {
                    threads: match context.actor_session_id {
                        Some(actor) => if s.threads.contains_key(thread_id)
                            && s.threads[thread_id].actor_session_id is None {
                            s.threads.insert(
                                thread_id,
                                ThreadView {
                                    actor_session_id: Some(actor),
                                    codex_thread_id: match s.threads[thread_id].codex_thread_id {
                                        Some(id) => Some(id),
                                        None => Some(actor),
                                    },
                                    updated_at: now,
                                    ..s.threads[thread_id]
                                },
                            )
                        } else {
                            s.threads
                        },
                        None => s.threads,
                    },
                    process: if s.process.root_actor_session_id is None {
                        ProcessMetadataView {
                            root_actor_session_id: context.actor_session_id,
                            updated_at: now,
                            ..s.process
                        }
                    } else {
                        s.process
                    },
                    ..s
                },
            }
        },
    }
}

/// The runtime of a process that begins now.
pub open spec fn begun(
    context: RuntimeContextView,
    title: Seq<char>,
    body: Seq<char>,
    at: Timestamp,
    now: Timestamp,
) -> QunuxRuntimeView {
    resolved(
        context,
        ClosureStateView::new_root(
            context.process_id,
            context.thread_id,
            context.actor_session_id,
            title,
            body,
            at,
        ),
        now,
    )
}

/// The runtime of a state that was found, with its root problem brought up to date.
pub open spec fn resumed(
    context: RuntimeContextView,
    s: ClosureStateView,
    title: Seq<char>,
    body: Seq<char>,
    at: Timestamp,
    now: Timestamp,
) -> Outcome<QunuxRuntimeView> {
    let r = resolved(context, current_form(s), at);
    let done = r.state.root_upgraded(r.context, now, title, body);
    match done.1 {
        Ok(_) => Ok(QunuxRuntimeView { context: r.context, state: done.0 }),
        Err(e) => Err(e),
    }
}

/// The context of the process that serves a session.
pub open spec fn session_context(
    workspace_root: Seq<char>,
    actor_session_id: Seq<char>,
) -> RuntimeContextView {
    RuntimeContextView {
        workspace_root,
        process_id: session_process_id(actor_session_id),
        thread_id: DEFAULT_THREAD_ID@,
        actor_session_id: Some(actor_session_id),
        parent_actor_session_id: None,
    }
}

/// A wait for one event of a kind, whoever it is from.
pub open spec fn passive_spec(
    kind: WaitSpecKind,
    event_key: Option<EventKeyView>,
    condition: Option<Seq<char>>,
    source: Option<Seq<char>>,
    dedupe_key: Option<Seq<char>>,
) -> WaitSpecView {
    WaitSpecView { kind, event_key, target_thread_id: None, condition, source, dedupe_key }
}

fn make_spec(
    kind: WaitSpecKind,
    event_key: Option<EventKey>,
    condition: Option<String>,
    source: Option<String>,
    dedupe_key: Option<String>,
) -> (r: WaitSpec)
    ensures
        r@ == passive_spec(
            kind,
            opt_view(event_key),
            opt_view(condition),
            opt_view(source),
            opt_view(dedupe_key),
        ),
{
    WaitSpec { kind, event_key, target_thread_id: None, condition, source, dedupe_key }
}

/// The wait that is asked for by an event of a kind.
pub open spec fn spec_kind(kind: PassiveEventKind) -> WaitSpecKind {
    match kind {
        PassiveEventKind::UserInput => WaitSpecKind::UserInput,
        PassiveEventKind::Timer => WaitSpecKind::Timer,
        PassiveEventKind::ExternalSignal => WaitSpecKind::ExternalSignal,
    }
}

impl ClosureStateView {
    /// What a wait command does.
    pub open spec fn commanded(
        self,
        ctx: RuntimeContextView,
        now: Timestamp,
        command: WaitCommandView,
    ) -> (ClosureStateView, Outcome<WaitResultView>) {
        match command {
            WaitCommandView::Park { mode, reason, specs } => {
                let done = self.parked(ctx, now, mode, reason, specs);
                (
                    done.0,
                    match done.1 {
                        Ok(wait) => Ok(WaitResultView::Parked { wait }),
                        Err(e) => Err(e),
                    },
                )
            },
            WaitCommandView::Status { handle_id } => (
                self,
                match self.wait_snapshot(ctx, handle_id) {
                    Ok(snapshot) => Ok(WaitResultView::Status { snapshot }),
                    Err(e) => Err(e),
                },
            ),
            WaitCommandView::Consume { handle_id } => {
                let done = self.consumed(ctx, now, handle_id);
                (
                    done.0,
                    match done.1 {
                        Ok(consumed) => Ok(WaitResultView::Consumed { consumed }),
                        Err(e) => Err(e),
                    },
                )
            },
            WaitCommandView::Cancel { handle_id, reason } => {
                let done = self.cancelled(ctx, now, handle_id, reason);
                (
                    done.0,
                    match done.1 {
                        Ok(cancelled) => Ok(WaitResultView::Cancelled { cancelled }),
                        Err(e) => Err(e),
                    },
                )
            },
            WaitCommandView::Wake { event } => {
                let done = self.received(ctx, now, event);
                (
                    done.0,
                    match done.1 {
                        Ok(receipt) => Ok(WaitResultView::Woke { receipt }),
                        Err(e) => Err(e),
                    },
                )
            },
        }
    }

    /// There are numbers left for what a wait command makes.
    pub open spec fn has_room_for(self, command: WaitCommandView) -> bool {
        match command {
            WaitCommandView::Park { specs, .. } => {
                &&& self.next_wait_seq < u32::MAX
                &&& self.next_handle_seq + specs.len() <= u32::MAX
                &&& self.next_io_event_seq + 3 * specs.len() <= u32::MAX
            },
            WaitCommandView::Status { .. } => true,
            WaitCommandView::Consume { .. } => self.next_io_event_seq + 3 <= u32::MAX,
            WaitCommandView::Cancel { .. } => self.next_io_event_seq < u32::MAX,
            WaitCommandView::Wake { .. } => self.has_room_for_event(),
        }
    }

    /// There are numbers left for taking in an event.
    pub open spec fn has_room_for_event(self) -> bool {
        &&& self.next_passive_event_seq < u32::MAX
        &&& self.next_inbox_item_seq < u32::MAX
        &&& self.next_io_event_seq + 2 + 2 * self.handles.len() <= u32::MAX
    }

    /// A child thread is joined by the thread that acts.
    pub open spec fn joined_here(
        self,
        ctx: RuntimeContextView,
        now: Timestamp,
        thread_id: Seq<char>,
    ) -> (ClosureStateView, Outcome<crate::reports::JoinedThreadView>) {
        self.joined(ctx, now, thread_id, ctx.thread_id, "joined into parent "@ + ctx.thread_id)
    }

    /// A child thread has failed; the answer is the record of it.
    pub open spec fn child_failure(
        self,
        ctx: RuntimeContextView,
        now: Timestamp,
        thread_id: Seq<char>,
        kind: IoEventKind,
        message: Seq<char>,
    ) -> (ClosureStateView, Outcome<Seq<char>>) {
        let done = self.child_failed(ctx, now, thread_id, kind, message);
        (
            done.0,
            match done.1 {
                Ok(ids) => Ok(ids.1),
                Err(e) => Err(e),
            },
        )
    }
}

/// What a wait command does keeps a state sound.
pub proof fn law_commanded_sound(
    s: ClosureStateView,
    ctx: RuntimeContextView,
    now: Timestamp,
    command: WaitCommandView,
)
    requires
        s.sound(),
    ensures
        s.commanded(ctx, now, command).0.sound(),
{
    match command {
        WaitCommandView::Park { mode, reason, specs } => {
            law_parked_leaves_problems(s, ctx, now, mode, reason, specs);
        },
        WaitCommandView::Status { .. } => {},
        WaitCommandView::Consume { handle_id } => {
            law_consumed_leaves_problems(s, ctx, now, handle_id);
        },
        WaitCommandView::Cancel { handle_id, reason } => {
            law_cancelled_leaves_problems(s, ctx, now, handle_id, reason);
        },
        WaitCommandView::Wake { event } => {
            law_received_leaves_problems(s, ctx, now, event);
        },
    }
}

impl ClosureState {
    /// Runs a wait command.
    fn run_wait_command(
        &mut self,
        context: &RuntimeContext,
        at: Timestamp,
        command: WaitCommand,
    ) -> (r: Result<WaitResult>)
        requires
            old(self).wf(),
            command is Park ==> branching(old(self)@.problems),
            old(self)@.has_room_for(command@),
        ensures
            final(self).wf(),
            (final(self)@, outcome(r)) == old(self)@.commanded(context@, at, command@),
    {
        match command {
            WaitCommand::Park { mode, reason, specs } => {
                let wait = self.park_wait(context, at, mode, reason.as_str(), &specs)?;
                Ok(WaitResult::Parked { wait })
            },
            WaitCommand::Status { handle_id } => {
                let snapshot = self.wait_status(context, handle_id.as_str())?;
                Ok(WaitResult::Status { snapshot })
            },
            WaitCommand::Consume { handle_id } => {
                let consumed = self.consume_wait_handle(
                    context,
                    at,
                    handle_id.as_str(),
                )?;
                Ok(WaitResult::Consumed { consumed })
            },
            WaitCommand::Cancel { handle_id, reason } => {
                let cancelled = self.cancel_wait_handle(
                    context,
                    at,
                    handle_id.as_str(),
                    reason.as_str(),
                )?;
                Ok(WaitResult::Cancelled { cancelled })
            },
            WaitCommand::Wake { event } => {
                let receipt = self.receive_passive_event(context, at, event)?;
                Ok(WaitResult::Woke { receipt })
            },
        }
    }
}

impl QunuxRuntime {
    /// The maps of the state are in order.
    pub closed spec fn wf(&self) -> bool {
        self.state.wf()
    }

    /// Everything an operation relies on: the maps are in order and the problems form a forest.
    pub open spec fn valid(&self) -> bool {
        self.wf() && self@.state.sound()
    }

    fn with_resolved_thread(context: RuntimeContext, state: ClosureState, now: Timestamp) -> (r:
        Self)
        requires
            state.wf(),
        ensures
            r.wf(),
            r@ == resolved(context@, state@, now),
    {
        let ghost context0 = context@;
        let ghost state0 = state@;
        let mut context = context;
        let mut state = state;
        let mut bound: Option<String> = None;
        if let Some(actor) = &context.actor_session_id {
            let mut i: usize = 0;
            let n: usize = state.threads.len();
            while i < n && bound.is_none()
                invariant
                    state.threads.wf(),
                    n == keys(state.threads@).len(),
                    n == values(state.threads@).len(),
                    i <= n,
                    bound is None ==> find_from(values(state.threads@), run_by(actor@), 0)
                        == find_from(values(state.threads@), run_by(actor@), i as int),
                    bound matches Some(id) ==> {
                        &&& find_from(values(state.threads@), run_by(actor@), 0) matches Some(at)
                        &&& keys(state.threads@)[at] == id@
                    },
                decreases n - i,
            {
                let thread = state.threads.value_at(i);
                if opt_is(&thread.actor_session_id, actor.as_str()) || opt_is(
                    &thread.codex_thread_id,
                    actor.as_str(),
                ) {
                    bound = Some(state.threads.key_at(i).clone());
                }
                i = i + 1;
            }
        }
        if let Some(thread_id) = bound {
            context.thread_id = thread_id;
            return QunuxRuntime { context, state };
        }
        if !state.threads.contains_key(context.thread_id.as_str()) {
            context.thread_id = state.main_thread_id.clone();
        }
        let actor = context.actor_session_id.clone();
        if let Some(actor) = actor {
            if let Some(thread) = state.threads.get_mut(context.thread_id.as_str()) {
                if thread.actor_session_id.is_none() {
                    if thread.codex_thread_id.is_none() {
                        thread.codex_thread_id = Some(actor.clone());
                    }
                    thread.actor_session_id = Some(actor);
                    thread.updated_at = now;
                }
            }
        }
        if state.process.root_actor_session_id.is_none() {
            state.process.root_actor_session_id = context.actor_session_id.clone();
            state.process.updated_at = now;
        }
        let r = QunuxRuntime { context, state };
        assert(r@ =~= resolved(context0, state0, now));
        r
    }

    /// The runtime of a process whose state was found.
    pub fn load(context: RuntimeContext, state: ClosureState) -> (r: Self)
        requires
            state.wf(),
        ensures
            r.wf(),
            state@.sound() ==> r.valid(),
            exists|at: Timestamp| r@ == #[trigger] resolved(context@, current_form(state@), at),
    {
        let mut state = state;
        if state.schema_version < SCHEMA_VERSION {
            state.schema_version = SCHEMA_VERSION;
        }
        let at = now();
        QunuxRuntime::with_resolved_thread(context, state, at)
    }

    /// The runtime of a process: of the state that was found, with its root problem brought up to
    /// date, or else of a new one.
    pub fn load_or_init(
        context: RuntimeContext,
        found: Option<ClosureState>,
        title: &str,
        body: &str,
    ) -> (r: Result<Self>)
        requires
            found matches Some(state) ==> state.wf(),
        ensures
            match found {
                Some(state) => exists|at: Timestamp, now: Timestamp|
                    outcome(r) == #[trigger] resumed(
                        context@,
                        state@,
                        title@,
                        body@,
                        at,
                        now,
                    ),
                None => exists|at: Timestamp, now: Timestamp|
                    outcome(r) == Ok::<_, QunuxErrorView>(
                        #[trigger] begun(context@, title@, body@, at, now),
                    ),
            },
            r matches Ok(runtime) ==> runtime.wf() && ((found matches Some(state)
                ==> state@.sound()) ==> runtime.valid()),
    {
        match found {
            Some(state) => {
                let mut runtime = QunuxRuntime::load(context, state);
                let ghost at = choose|at: Timestamp|
                    runtime@ == #[trigger] resolved(context@, current_form(state@), at);
                let later = now();
                proof {
                    if state@.sound() {
                        law_root_upgraded_sound(
                            runtime@.state,
                            runtime@.context,
                            later,
                            title@,
                            body@,
                        );
                    }
                }
                let ghost expected = resumed(context@, state@, title@, body@, at, later);
                runtime.state.upgrade_legacy_pristine_root_problem(
                    &runtime.context,
                    later,
                    title,
                    body,
                )?;
                Ok(runtime)
            },
            None => {
                let at = now();
                let state = ClosureState::new_root_at(
                    context.process_id.clone(),
                    context.thread_id.clone(),
                    context.actor_session_id.clone(),
                    title.to_owned(),
                    body.to_owned(),
                    at,
                );
                proof {
                    law_new_root_sound(
                        context@.process_id,
                        context@.thread_id,
                        context@.actor_session_id,
                        title@,
                        body@,
                        at,
                    );
                }
                let later = now();
                let runtime = QunuxRuntime::with_resolved_thread(context, state, later);
                assert(runtime@ == begun(context@, title@, body@, at, later));
                Ok(runtime)
            },
        }
    }

    /// The runtime of the process that serves a session; refused where the session has no
    /// identifier.
    pub fn load_or_init_for_session(
        workspace_root: &str,
        actor_session_id: &str,
        found: Option<ClosureState>,
        title: &str,
        body: &str,
    ) -> (r: Result<Self>)
        requires
            found matches Some(state) ==> state.wf(),
        ensures
            !valid_id(actor_session_id@) ==> outcome(r) == Err::<QunuxRuntimeView, _>(
                QunuxErrorView::InvalidId(actor_session_id@),
            ),
            valid_id(actor_session_id@) ==> match found {
                Some(state) => exists|at: Timestamp, now: Timestamp|
                    outcome(r) == #[trigger] resumed(
                        session_context(workspace_root@, actor_session_id@),
                        state@,
                        title@,
                        body@,
                        at,
                        now,
                    ),
                None => exists|at: Timestamp, now: Timestamp|
                    outcome(r) == Ok::<_, QunuxErrorView>(
                        #[trigger] begun(
                            session_context(workspace_root@, actor_session_id@),
                            title@,
                            body@,
                            at,
                            now,
                        ),
                    ),
            },
            r matches Ok(runtime) ==> runtime.wf() && ((found matches Some(state)
                ==> state@.sound()) ==> runtime.valid()),
    {
        let context = RuntimeContext::for_session(workspace_root, actor_session_id)?;
        QunuxRuntime::load_or_init(context, found, title, body)
    }

    /// The context in which the state is acted on.
    pub fn context(&self) -> (r: &RuntimeContext)
        ensures
            r@ == self@.context,
    {
        &self.context
    }

    /// The state.
    pub fn state(&self) -> (r: &ClosureState)
        ensures
            r@ == self@.state,
            r.wf() == self.wf(),
    {
        &self.state
    }

    /// The state, to be changed as the caller sees fit.
    pub fn state_mut(&mut self) -> (r: &mut ClosureState)
        ensures
            r@ == old(self)@.state,
            r.wf() == old(self).wf(),
            final(self)@ == (QunuxRuntimeView { context: old(self)@.context, state: final(r)@ }),
            final(self).wf() == final(r).wf(),
    {
        &mut self.state
    }

    /// What is the case and what is to be done next.
    pub fn current(&self) -> (r: CurrentState)
        requires
            self.wf(),
            rooted(self@.state.problems),
            branching(self@.state.problems),
        ensures
            r@ == (CurrentStateView {
                context: self@.context,
                status: self@.state.status(self@.context),
                next: self@.state.next(self@.context),
            }),
    {
        self.state.current(&self.context)
    }

    /// What is to be done next.
    pub fn next(&self) -> (r: NextStep)
        requires
            self.wf(),
            branching(self@.state.problems),
        ensures
            r@ == self@.state.next(self@.context),
    {
        self.state.next(&self.context)
    }

    /// Counts over the state.
    pub fn status(&self) -> (r: RuntimeStatus)
        requires
            self.wf(),
            rooted(self@.state.problems),
        ensures
            r@ == self@.state.status(self@.context),
    {
        self.state.status(&self.context)
    }

    /// Checks that every record fits every other.
    pub fn validate(&self) -> (r: Result<()>)
        requires
            self.wf(),
            rooted(self@.state.problems),
        ensures
            fault_of(r) == self@.state.fault(),
    {
        self.state.validate()
    }

    /// The problem tree as text.
    pub fn render(&self) -> (r: String)
        requires
            self.wf(),
            branching(self@.state.problems),
        ensures
            r@ == self@.state.rendered(self@.state.root_problem_id, ""@),
    {
        self.state.render()
    }

    /// Every thread, in ascending order.
    pub fn list_threads(&self) -> (r: Vec<Thread>)
        requires
            self.wf(),
        ensures
            views(r@) == values(self@.state.threads),
    {
        self.state.list_threads()
    }

    /// Every handle, in ascending order.
    pub fn list_handles(&self) -> (r: Vec<IoHandle>)
        requires
            self.wf(),
        ensures
            views(r@) == values(self@.state.handles),
    {
        self.state.list_handles()
    }

    /// The thread that an event of a kind is for: the first that waits for it, from the acting one
    /// down.
    pub fn target_thread_id_for_passive_event_kind(&self, kind: PassiveEventKind) -> (r: String)
        requires
            self.wf(),
        ensures
            r@ == self@.state.target_for_kind(self@.context, kind),
    {
        self.state.target_thread_id_for_passive_event_kind(&self.context, kind)
    }

    /// Who runs a thread.
    pub fn thread_actor_route(&self, thread_id: &str) -> (r: Result<ThreadActorRoute>)
        requires
            self.wf(),
        ensures
            outcome(r) == self@.state.actor_route(self@.context, thread_id@),
    {
        self.state.thread_actor_route(&self.context, thread_id)
    }

    /// A thread.
    pub fn thread_status(&self, thread_id: &str) -> (r: Result<Thread>)
        requires
            self.wf(),
        ensures
            outcome(r) == (if self@.state.threads.contains_key(thread_id@) {
                Ok(self@.state.threads[thread_id@])
            } else {
                Err(unknown_thread(thread_id@))
            }),
    {
        let thread = self.state.require_thread(thread_id)?;
        Ok(thread.clone())
    }

    /// Parks the acting thread until the user says something.
    pub fn wait_for_user_input(
        &mut self,
        condition: Option<String>,
        source: Option<String>,
        dedupe_key: Option<String>,
        reason: &str,
    ) -> (r: Result<PassiveWait>)
        requires
            old(self).wf(),
            branching(old(self)@.state.problems),
            old(self)@.state.next_wait_seq < u32::MAX,
            old(self)@.state.next_handle_seq < u32::MAX,
            old(self)@.state.next_io_event_seq + 3 <= u32::MAX,
        ensures
            final(self).wf(),
            old(self).valid() ==> final(self).valid(),
            final(self)@.context == old(self)@.context,
            exists|now: Timestamp|
                (final(self)@.state, outcome(r)) == #[trigger] old(self)@.state.parked_on(
                    old(self)@.context,
                    now,
                    reason@,
                    passive_spec(WaitSpecKind::UserInput, None, opt_view(condition), opt_view(source), opt_view(dedupe_key)),
                ),
            old(self)@.state.orderly() ==> (outcome(r) matches Ok(wait) ==> {
                &&& wait.thread_id == old(self)@.context.thread_id
                &&& wait.kind == PassiveEventKind::UserInput
                &&& wait.event_key.resource == opt_view(condition)
                &&& wait.event_key.source == opt_view(source)
                &&& wait.event_key.target_thread_id == Some(wait.thread_id)
            }),
    {
        let spec = make_spec(WaitSpecKind::UserInput, None, condition, source, dedupe_key);
        let at = now();
        proof {
            law_parked_on_leaves_problems(self.state@, self.context@, at, reason@, spec@);
            if self.state@.orderly() {
                law_single_wait_is_for_what_was_asked(
                    self.state@,
                    self.context@,
                    at,
                    reason@,
                    spec@,
                );
            }
        }
        self.state.park_single_passive_wait(&self.context, at, reason, spec)
    }

    /// Parks the acting thread until a timer goes off.
    pub fn wait_for_timer(
        &mut self,
        condition: Option<String>,
        source: Option<String>,
        dedupe_key: Option<String>,
        reason: &str,
    ) -> (r: Result<PassiveWait>)
        requires
            old(self).wf(),
            branching(old(self)@.state.problems),
            old(self)@.state.next_wait_seq < u32::MAX,
            old(self)@.state.next_handle_seq < u32::MAX,
            old(self)@.state.next_io_event_seq + 3 <= u32::MAX,
        ensures
            final(self).wf(),
            old(self).valid() ==> final(self).valid(),
            final(self)@.context == old(self)@.context,
            exists|now: Timestamp|
                (final(self)@.state, outcome(r)) == #[trigger] old(self)@.state.parked_on(
                    old(self)@.context,
                    now,
                    reason@,
                    passive_spec(WaitSpecKind::Timer, None, opt_view(condition), opt_view(source), opt_view(dedupe_key)),
                ),
            old(self)@.state.orderly() ==> (outcome(r) matches Ok(wait) ==> {
                &&& wait.thread_id == old(self)@.context.thread_id
                &&& wait.kind == PassiveEventKind::Timer
                &&& wait.event_key.resource == opt_view(condition)
                &&& wait.event_key.source == opt_view(source)
                &&& wait.event_key.target_thread_id == Some(wait.thread_id)
            }),
    {
        let spec = make_spec(WaitSpecKind::Timer, None, condition, source, dedupe_key);
        let at = now();
        proof {
            law_parked_on_leaves_problems(self.state@, self.context@, at, reason@, spec@);
            if self.state@.orderly() {
                law_single_wait_is_for_what_was_asked(
                    self.state@,
                    self.context@,
                    at,
                    reason@,
                    spec@,
                );
            }
        }
        self.state.park_single_passive_wait(&self.context, at, reason, spec)
    }

    /// Parks the acting thread until a signal comes from outside.
    pub fn wait_for_external_signal(
        &mut self,
        condition: Option<String>,
        source: Option<String>,
        dedupe_key: Option<String>,
        reason: &str,
    ) -> (r: Result<PassiveWait>)
        requires
            old(self).wf(),
            branching(old(self)@.state.problems),
            old(self)@.state.next_wait_seq < u32::MAX,
            old(self)@.state.next_handle_seq < u32::MAX,
            old(self)@.state.next_io_event_seq + 3 <= u32::MAX,
        ensures
            final(self).wf(),
            old(self).valid() ==> final(self).valid(),
            final(self)@.context == old(self)@.context,
            exists|now: Timestamp|
                (final(self)@.state, outcome(r)) == #[trigger] old(self)@.state.parked_on(
                    old(self)@.context,
                    now,
                    reason@,
                    passive_spec(WaitSpecKind::ExternalSignal, None, opt_view(condition), opt_view(source), opt_view(dedupe_key)),
                ),
            old(self)@.state.orderly() ==> (outcome(r) matches Ok(wait) ==> {
                &&& wait.thread_id == old(self)@.context.thread_id
                &&& wait.kind == PassiveEventKind::ExternalSignal
                &&& wait.event_key.resource == opt_view(condition)
                &&& wait.event_key.source == opt_view(source)
                &&& wait.event_key.target_thread_id == Some(wait.thread_id)
            }),
    {
        let spec = make_spec(WaitSpecKind::ExternalSignal, None, condition, source, dedupe_key);
        let at = now();
        proof {
            law_parked_on_leaves_problems(self.state@, self.context@, at, reason@, spec@);
            if self.state@.orderly() {
                law_single_wait_is_for_what_was_asked(
                    self.state@,
                    self.context@,
                    at,
                    reason@,
                    spec@,
                );
            }
        }
        self.state.park_single_passive_wait(&self.context, at, reason, spec)
    }

    /// Parks the acting thread until an event of a kind comes.
    pub fn create_passive_wait(
        &mut self,
        kind: PassiveEventKind,
        condition: Option<String>,
        source: Option<String>,
        dedupe_key: Option<String>,
        reason: &str,
    ) -> (r: Result<PassiveWait>)
        requires
            old(self).wf(),
            branching(old(self)@.state.problems),
            old(self)@.state.next_wait_seq < u32::MAX,
            old(self)@.state.next_handle_seq < u32::MAX,
            old(self)@.state.next_io_event_seq + 3 <= u32::MAX,
        ensures
            final(self).wf(),
            old(self).valid() ==> final(self).valid(),
            final(self)@.context == old(self)@.context,
            exists|now: Timestamp|
                (final(self)@.state, outcome(r)) == #[trigger] old(self)@.state.parked_on(
                    old(self)@.context,
                    now,
                    reason@,
                    passive_spec(spec_kind(kind), None, opt_view(condition), opt_view(source), opt_view(dedupe_key)),
                ),
            old(self)@.state.orderly() ==> (outcome(r) matches Ok(wait) ==> {
                &&& wait.thread_id == old(self)@.context.thread_id
                &&& wait.kind == kind
                &&& wait.event_key.resource == opt_view(condition)
                &&& wait.event_key.source == opt_view(source)
                &&& wait.event_key.target_thread_id == Some(wait.thread_id)
            }),
    {
        let asked = match kind {
            PassiveEventKind::UserInput => WaitSpecKind::UserInput,
            PassiveEventKind::Timer => WaitSpecKind::Timer,
            PassiveEventKind::ExternalSignal => WaitSpecKind::ExternalSignal,
        };
        let spec = make_spec(asked, None, condition, source, dedupe_key);
        let at = now();
        proof {
            law_parked_on_leaves_problems(self.state@, self.context@, at, reason@, spec@);
            if self.state@.orderly() {
                law_single_wait_is_for_what_was_asked(
                    self.state@,
                    self.context@,
                    at,
                    reason@,
                    spec@,
                );
            }
        }
        self.state.park_single_passive_wait(&self.context, at, reason, spec)
    }

    /// Parks the acting thread until an event with a key comes.
    pub fn wait_for_event_key(
        &mut self,
        event_key: EventKey,
        dedupe_key: Option<String>,
        reason: &str,
    ) -> (r: Result<PassiveWait>)
        requires
            old(self).wf(),
            branching(old(self)@.state.problems),
            old(self)@.state.next_wait_seq < u32::MAX,
            old(self)@.state.next_handle_seq < u32::MAX,
            old(self)@.state.next_io_event_seq + 3 <= u32::MAX,
        ensures
            final(self).wf(),
            old(self).valid() ==> final(self).valid(),
            final(self)@.context == old(self)@.context,
            exists|now: Timestamp|
                (final(self)@.state, outcome(r)) == #[trigger] old(self)@.state.parked_on(
                    old(self)@.context,
                    now,
                    reason@,
                    passive_spec(WaitSpecKind::EventKey, Some(event_key@), None, None, opt_view(dedupe_key)),
                ),
            old(self)@.state.orderly() ==> (outcome(r) matches Ok(wait) ==> wait.event_key
                == event_key@),
    {
        let spec = make_spec(WaitSpecKind::EventKey, Some(event_key), None, None, dedupe_key);
        let at = now();
        proof {
            law_parked_on_leaves_problems(self.state@, self.context@, at, reason@, spec@);
            if self.state@.orderly() {
                law_single_wait_is_for_what_was_asked(
                    self.state@,
                    self.context@,
                    at,
                    reason@,
                    spec@,
                );
            }
        }
        self.state.park_single_passive_wait(&self.context, at, reason, spec)
    }

    /// Takes in an event: it wakes the handles that wait for it, or else goes to the inbox.
    pub fn receive_passive_event(
        &mut self,
        input: PassiveEventInput,
    ) -> (r: Result<PassiveEventReceipt>)
        requires
            old(self).wf(),
            old(self)@.state.has_room_for_event(),
        ensures
            final(self).wf(),
            old(self).valid() ==> final(self).valid(),
            final(self)@.context == old(self)@.context,
            exists|now: Timestamp|
                (final(self)@.state, outcome(r)) == #[trigger] old(self)@.state.received(
                    old(self)@.context,
                    now,
                    input@,
                ),
    {
        let at = now();
        proof {
            law_received_leaves_problems(self.state@, self.context@, at, input@);
        }
        self.state.receive_passive_event(&self.context, at, input)
    }

    /// Marks an inbox item as handled.
    pub fn acknowledge_inbox_item(
        &mut self,
        inbox_item_id: &str,
        note: &str,
    ) -> (r: Result<InboxItem>)
        requires
            old(self).wf(),
            old(self)@.state.next_io_event_seq < u32::MAX,
        ensures
            final(self).wf(),
            old(self).valid() ==> final(self).valid(),
            final(self)@.context == old(self)@.context,
            exists|now: Timestamp|
                (final(self)@.state, outcome(r)) == #[trigger] old(self)@.state.acknowledged(
                    old(self)@.context,
                    now,
                    inbox_item_id@,
                    note@,
                ),
    {
        let at = now();
        proof {
            law_acknowledged_leaves_problems(self.state@, self.context@, at, inbox_item_id@, note@);
        }
        self.state.acknowledge_inbox_item(&self.context, at, inbox_item_id, note)
    }

    /// Makes a problem out of an inbox item.
    pub fn create_user_task_from_inbox(
        &mut self,
        inbox_item_id: &str,
        title: &str,
        body: &str,
        note: &str,
    ) -> (r: Result<UserTaskProblem>)
        requires
            old(self).wf(),
            rooted(old(self)@.state.problems),
            old(self)@.state.next_problem_seq < u32::MAX,
            old(self)@.state.next_io_event_seq < u32::MAX,
        ensures
            final(self).wf(),
            old(self).valid() ==> final(self).valid(),
            final(self)@.context == old(self)@.context,
            exists|now: Timestamp|
                (final(self)@.state, outcome(r)) == #[trigger] old(self)@.state.user_task_created(
                    old(self)@.context,
                    now,
                    inbox_item_id@,
                    title@,
                    body@,
                    note@,
                ),
    {
        let at = now();
        proof {
            if self.state@.sound() {
                law_user_task_created_sound(self.state@, self.context@, at, inbox_item_id@, title@, body@, note@);
            }
        }
        self.state.create_user_task_from_inbox(&self.context, at, inbox_item_id, title, body, note)
    }

    /// Makes a problem with its ticket out of an inbox item.
    pub fn scaffold_user_task_from_inbox(
        &mut self,
        inbox_item_id: &str,
        problem_title: &str,
        problem_body: &str,
        ticket_title: &str,
        ticket_body: &str,
        note: &str,
    ) -> (r: Result<ScaffoldedTask>)
        requires
            old(self).valid(),
            old(self)@.state.next_problem_seq < u32::MAX,
            old(self)@.state.next_ticket_seq < u32::MAX,
            old(self)@.state.next_io_event_seq < u32::MAX,
        ensures
            final(self).valid(),
            final(self)@.context == old(self)@.context,
            exists|now: Timestamp|
                (final(self)@.state, outcome(r)) == #[trigger] old(self)@.state.user_task_scaffolded(
                    old(self)@.context,
                    now,
                    inbox_item_id@,
                    problem_title@,
                    problem_body@,
                    ticket_title@,
                    ticket_body@,
                    note@,
                ),
    {
        let at = now();
        proof {
            law_user_task_scaffolded_sound(self.state@, self.context@, at, inbox_item_id@, problem_title@, problem_body@, ticket_title@, ticket_body@, note@);
        }
        self.state.scaffold_user_task_from_inbox(&self.context, at, inbox_item_id, problem_title, problem_body, ticket_title, ticket_body, note)
    }

    /// Gives the root problem its title and its body while nothing has been done on it.
    pub fn initialize_root_problem(
        &mut self,
        title: Option<String>,
        body: Option<String>,
    ) -> (r: Result<()>)
        requires
            old(self).wf(),
        ensures
            final(self).wf(),
            old(self).valid() ==> final(self).valid(),
            final(self)@.context == old(self)@.context,
            exists|now: Timestamp|
                (final(self)@.state, outcome(r)) == #[trigger] old(self)@.state.root_initialized(
                    old(self)@.context,
                    now,
                    opt_view(title),
                    opt_view(body),
                ),
    {
        let at = now();
        proof {
            if self.state@.sound() {
                law_root_initialized_sound(self.state@, self.context@, at, opt_view(title), opt_view(body));
            }
        }
        self.state.initialize_root_problem(&self.context, at, title, body)
    }

    /// Makes a child problem out of a ticket that is being split.
    pub fn create_problem_from_ticket(
        &mut self,
        parent_id: &str,
        ticket_id: &str,
        title: &str,
        body: &str,
    ) -> (r: Result<String>)
        requires
            old(self).wf(),
            rooted(old(self)@.state.problems),
            old(self)@.state.next_problem_seq < u32::MAX,
        ensures
            final(self).wf(),
            old(self).valid() ==> final(self).valid(),
            final(self)@.context == old(self)@.context,
            exists|now: Timestamp|
                (final(self)@.state, outcome(r)) == #[trigger] old(self)@.state.child_created(
                    old(self)@.context,
                    now,
                    parent_id@,
                    ticket_id@,
                    TicketChildMode::Split,
                    title@,
                    body@,
                ),
    {
        let at = now();
        proof {
            if self.state@.sound() {
                law_child_created_sound(self.state@, self.context@, at, parent_id@, ticket_id@, TicketChildMode::Split, title@, body@);
            }
        }
        self.state.create_problem_from_ticket_with_mode(&self.context, at, parent_id, ticket_id, TicketChildMode::Split, title, body)
    }

    /// Makes a child problem out of a ticket.
    pub fn create_problem_from_ticket_with_mode(
        &mut self,
        parent_id: &str,
        ticket_id: &str,
        mode: TicketChildMode,
        title: &str,
        body: &str,
    ) -> (r: Result<String>)
        requires
            old(self).wf(),
            rooted(old(self)@.state.problems),
            old(self)@.state.next_problem_seq < u32::MAX,
        ensures
            final(self).wf(),
            old(self).valid() ==> final(self).valid(),
            final(self)@.context == old(self)@.context,
            exists|now: Timestamp|
                (final(self)@.state, outcome(r)) == #[trigger] old(self)@.state.child_created(
                    old(self)@.context,
                    now,
                    parent_id@,
                    ticket_id@,
                    mode,
                    title@,
                    body@,
                ),
    {
        let at = now();
        proof {
            if self.state@.sound() {
                law_child_created_sound(self.state@, self.context@, at, parent_id@, ticket_id@, mode, title@, body@);
            }
        }
        self.state.create_problem_from_ticket_with_mode(&self.context, at, parent_id, ticket_id, mode, title, body)
    }

    /// Gives a problem its one ticket.
    pub fn create_ticket(
        &mut self,
        problem_id: &str,
        title: &str,
        body: &str,
    ) -> (r: Result<String>)
        requires
            old(self).wf(),
            rooted(old(self)@.state.problems),
            old(self)@.state.next_ticket_seq < u32::MAX,
        ensures
            final(self).wf(),
            old(self).valid() ==> final(self).valid(),
            final(self)@.context == old(self)@.context,
            exists|now: Timestamp|
                (final(self)@.state, outcome(r)) == #[trigger] old(self)@.state.ticket_created(
                    old(self)@.context,
                    now,
                    problem_id@,
                    title@,
                    body@,
                ),
    {
        let at = now();
        proof {
            if self.state@.sound() {
                law_ticket_created_sound(self.state@, self.context@, at, problem_id@, title@, body@);
            }
        }
        self.state.create_ticket(&self.context, at, problem_id, title, body)
    }

    /// Classifies a defined ticket.
    pub fn classify_ticket(
        &mut self,
        ticket_id: &str,
        classification: TicketClassification,
        reason: &str,
    ) -> (r: Result<()>)
        requires
            old(self).wf(),
            rooted(old(self)@.state.problems),
        ensures
            final(self).wf(),
            old(self).valid() ==> final(self).valid(),
            final(self)@.context == old(self)@.context,
            exists|now: Timestamp|
                (final(self)@.state, outcome(r)) == #[trigger] old(self)@.state.ticket_classified(
                    old(self)@.context,
                    now,
                    ticket_id@,
                    classification,
                    reason@,
                ),
    {
        let at = now();
        proof {
            law_ticket_classified_leaves_problems(self.state@, self.context@, at, ticket_id@, classification, reason@);
        }
        self.state.classify_ticket(&self.context, at, ticket_id, classification, reason)
    }

    /// Takes up a problem or a ticket.
    pub fn set_status(
        &mut self,
        kind: EntityKind,
        id: &str,
        status: &str,
    ) -> (r: Result<()>)
        requires
            old(self).wf(),
            rooted(old(self)@.state.problems),
        ensures
            final(self).wf(),
            old(self).valid() ==> final(self).valid(),
            final(self)@.context == old(self)@.context,
            exists|now: Timestamp|
                (final(self)@.state, outcome(r)) == #[trigger] old(self)@.state.status_set(
                    old(self)@.context,
                    now,
                    kind,
                    id@,
                    status@,
                ),
    {
        let at = now();
        proof {
            if self.state@.sound() {
                law_status_set_sound(self.state@, self.context@, at, kind, id@, status@);
            }
        }
        self.state.set_status(&self.context, at, kind, id, status)
    }

    /// Records the result of a ticket.
    pub fn record_result(
        &mut self,
        ticket_id: &str,
        title: &str,
        body: &str,
    ) -> (r: Result<String>)
        requires
            old(self).wf(),
            rooted(old(self)@.state.problems),
            old(self)@.state.next_result_seq < u32::MAX,
        ensures
            final(self).wf(),
            old(self).valid() ==> final(self).valid(),
            final(self)@.context == old(self)@.context,
            exists|now: Timestamp|
                (final(self)@.state, outcome(r)) == #[trigger] old(self)@.state.result_recorded(
                    old(self)@.context,
                    now,
                    ticket_id@,
                    title@,
                    body@,
                ),
    {
        let at = now();
        proof {
            if self.state@.sound() {
                law_result_recorded_sound(self.state@, self.context@, at, ticket_id@, title@, body@);
            }
        }
        self.state.record_result(&self.context, at, ticket_id, title, body)
    }

    /// Checks the results of a problem: a success closes it, anything else asks for a follow-up.
    pub fn check(
        &mut self,
        problem_id: &str,
        status: CheckStatus,
        result_ids: Vec<String>,
        title: &str,
        body: &str,
        followup: Option<(String, String)>,
    ) -> (r: Result<String>)
        requires
            old(self).wf(),
            rooted(old(self)@.state.problems),
            old(self)@.state.next_check_seq < u32::MAX,
            old(self)@.state.next_problem_seq < u32::MAX,
            old(self)@.state.next_io_event_seq + 2 <= u32::MAX,
        ensures
            final(self).wf(),
            old(self).valid() ==> final(self).valid(),
            final(self)@.context == old(self)@.context,
            exists|now: Timestamp|
                (final(self)@.state, outcome(r)) == #[trigger] old(self)@.state.checked(
                    old(self)@.context,
                    now,
                    problem_id@,
                    status,
                    views(result_ids@),
                    title@,
                    body@,
                    opt_view(followup),
                ),
    {
        let at = now();
        proof {
            if self.state@.sound() {
                law_checked_sound(self.state@, self.context@, at, problem_id@, status, views(result_ids@), title@, body@, opt_view(followup));
            }
        }
        self.state.check(&self.context, at, problem_id, status, result_ids, title, body, followup)
    }

    /// Hands a problem to a new thread.
    pub fn spawn_thread(
        &mut self,
        problem_id: &str,
        policy: ContextForkPolicy,
        bootstrap_instruction: &str,
        inherited_cwd: Option<String>,
        inherited_model: Option<String>,
        inherited_tools: Vec<String>,
    ) -> (r: Result<SpawnedThread>)
        requires
            old(self).wf(),
            rooted(old(self)@.state.problems),
            branching(old(self)@.state.problems),
            old(self)@.state.next_thread_seq < u32::MAX,
            old(self)@.state.next_handle_seq < u32::MAX,
            old(self)@.state.next_wait_seq < u32::MAX,
            old(self)@.state.next_io_event_seq < u32::MAX,
        ensures
            final(self).wf(),
            old(self).valid() ==> final(self).valid(),
            final(self)@.context == old(self)@.context,
            exists|now: Timestamp|
                (final(self)@.state, outcome(r)) == #[trigger] old(self)@.state.spawned(
                    old(self)@.context,
                    now,
                    problem_id@,
                    policy,
                    bootstrap_instruction@,
                    opt_view(inherited_cwd),
                    opt_view(inherited_model),
                    views(inherited_tools@),
                ),
    {
        let at = now();
        proof {
            if self.state@.sound() {
                law_spawned_sound(self.state@, self.context@, at, problem_id@, policy, bootstrap_instruction@, opt_view(inherited_cwd), opt_view(inherited_model), views(inherited_tools@));
            }
        }
        self.state.spawn_thread(&self.context, at, problem_id, policy, bootstrap_instruction, inherited_cwd, inherited_model, inherited_tools)
    }

    /// Says who runs a thread.
    pub fn bind_thread_actor(
        &mut self,
        thread_id: &str,
        actor_session_id: &str,
    ) -> (r: Result<()>)
        requires
            old(self).wf(),
        ensures
            final(self).wf(),
            old(self).valid() ==> final(self).valid(),
            final(self)@.context == old(self)@.context,
            exists|now: Timestamp|
                (final(self)@.state, outcome(r)) == #[trigger] old(self)@.state.actor_bound(
                    old(self)@.context,
                    now,
                    thread_id@,
                    actor_session_id@,
                ),
    {
        let at = now();
        proof {
            law_threads_leave_problems(self.state@, self.context@, at, thread_id@, thread_id@, IoEventKind::ChildThreadFailed, actor_session_id@);
        }
        self.state.bind_thread_actor(&self.context, at, thread_id, actor_session_id)
    }

    /// Takes the results of a child thread over.
    pub fn join_thread(
        &mut self,
        thread_id: &str,
    ) -> (r: Result<JoinedThread>)
        requires
            old(self).wf(),
            old(self)@.state.next_io_event_seq + 3 <= u32::MAX,
        ensures
            final(self).wf(),
            old(self).valid() ==> final(self).valid(),
            final(self)@.context == old(self)@.context,
            exists|now: Timestamp|
                (final(self)@.state, outcome(r)) == #[trigger] old(self)@.state.joined_here(
                    old(self)@.context,
                    now,
                    thread_id@,
                ),
    {
        let at = now();
        proof {
            law_threads_leave_problems(self.state@, self.context@, at, thread_id@, self.context@.thread_id, IoEventKind::ChildThreadFailed, "joined into parent "@ + self.context@.thread_id);
        }
        let ghost expected = self.state@.joined_here(self.context@, at, thread_id@);
        let message = cat2("joined into parent ", self.context.thread_id.as_str());
        self.state.join_child_thread_in_state(&self.context, at, thread_id, self.context.thread_id.as_str(), message.as_str())
    }

    /// Takes the problem of a failed child thread back.
    pub fn recover_thread(
        &mut self,
        thread_id: &str,
    ) -> (r: Result<RecoveredThread>)
        requires
            old(self).wf(),
            branching(old(self)@.state.problems),
            old(self)@.state.next_io_event_seq < u32::MAX,
        ensures
            final(self).wf(),
            old(self).valid() ==> final(self).valid(),
            final(self)@.context == old(self)@.context,
            exists|now: Timestamp|
                (final(self)@.state, outcome(r)) == #[trigger] old(self)@.state.recovered(
                    old(self)@.context,
                    now,
                    thread_id@,
                ),
    {
        let at = now();
        proof {
            if self.state@.sound() {
                law_recovered_sound(self.state@, self.context@, at, thread_id@);
            }
        }
        self.state.recover_thread(&self.context, at, thread_id)
    }

    /// Joins a child thread for its parent.
    pub fn auto_join_child_thread(
        &mut self,
        thread_id: &str,
        message: &str,
    ) -> (r: Result<JoinedThread>)
        requires
            old(self).wf(),
            old(self)@.state.next_io_event_seq + 3 <= u32::MAX,
        ensures
            final(self).wf(),
            old(self).valid() ==> final(self).valid(),
            final(self)@.context == old(self)@.context,
            exists|now: Timestamp|
                (final(self)@.state, outcome(r)) == #[trigger] old(self)@.state.auto_joined(
                    old(self)@.context,
                    now,
                    thread_id@,
                    message@,
                ),
    {
        let at = now();
        proof {
            law_threads_leave_problems(self.state@, self.context@, at, thread_id@, thread_id@, IoEventKind::ChildThreadFailed, message@);
        }
        self.state.auto_join_child_thread(&self.context, at, thread_id, message)
    }

    /// Reports that a child thread is done.
    pub fn mark_child_thread_ready(
        &mut self,
        thread_id: &str,
    ) -> (r: Result<String>)
        requires
            old(self).wf(),
            old(self)@.state.next_io_event_seq + 2 <= u32::MAX,
        ensures
            final(self).wf(),
            old(self).valid() ==> final(self).valid(),
            final(self)@.context == old(self)@.context,
            exists|now: Timestamp|
                (final(self)@.state, outcome(r)) == #[trigger] old(self)@.state.child_ready(
                    old(self)@.context,
                    now,
                    thread_id@,
                    "child Qunux thread root problem is done"@,
                ),
    {
        let at = now();
        proof {
            law_threads_leave_problems(self.state@, self.context@, at, thread_id@, thread_id@, IoEventKind::ChildThreadFailed, "child Qunux thread root problem is done"@);
        }
        self.state.mark_child_thread_ready_in_state(&self.context, at, thread_id, "child Qunux thread root problem is done")
    }

    /// Reports that a child thread has failed.
    pub fn mark_child_thread_failed(
        &mut self,
        thread_id: &str,
        message: &str,
    ) -> (r: Result<String>)
        requires
            old(self).wf(),
            old(self)@.state.next_io_event_seq < u32::MAX,
        ensures
            final(self).wf(),
            old(self).valid() ==> final(self).valid(),
            final(self)@.context == old(self)@.context,
            exists|now: Timestamp|
                (final(self)@.state, outcome(r)) == #[trigger] old(self)@.state.child_failure(
                    old(self)@.context,
                    now,
                    thread_id@,
                    IoEventKind::ChildThreadFailed,
                    message@,
                ),
    {
        let at = now();
        proof {
            law_threads_leave_problems(self.state@, self.context@, at, thread_id@, thread_id@, IoEventKind::ChildThreadFailed, message@);
        }
        let ghost expected = self.state@.child_failure(
            self.context@,
            at,
            thread_id@,
            IoEventKind::ChildThreadFailed,
            message@,
        );
        let ids = self.state.mark_child_thread_failed_in_state(
            &self.context,
            at,
            thread_id,
            IoEventKind::ChildThreadFailed,
            message,
        )?;
        Ok(ids.1)
    }

    /// Reports that a child thread could not be started.
    pub fn record_child_thread_spawn_failed(
        &mut self,
        thread_id: &str,
        message: &str,
    ) -> (r: Result<String>)
        requires
            old(self).wf(),
            old(self)@.state.next_io_event_seq < u32::MAX,
        ensures
            final(self).wf(),
            old(self).valid() ==> final(self).valid(),
            final(self)@.context == old(self)@.context,
            exists|now: Timestamp|
                (final(self)@.state, outcome(r)) == #[trigger] old(self)@.state.child_failure(
                    old(self)@.context,
                    now,
                    thread_id@,
                    IoEventKind::ChildThreadSpawnFailed,
                    message@,
                ),
    {
        let at = now();
        proof {
            law_threads_leave_problems(self.state@, self.context@, at, thread_id@, thread_id@, IoEventKind::ChildThreadSpawnFailed, message@);
        }
        let ghost expected = self.state@.child_failure(
            self.context@,
            at,
            thread_id@,
            IoEventKind::ChildThreadSpawnFailed,
            message@,
        );
        let ids = self.state.mark_child_thread_failed_in_state(
            &self.context,
            at,
            thread_id,
            IoEventKind::ChildThreadSpawnFailed,
            message,
        )?;
        Ok(ids.1)
    }

    /// Reports that whoever ran a child thread has stopped before it was done.
    pub fn record_actor_completed_without_thread_done(
        &mut self,
        thread_id: &str,
        status: &str,
    ) -> (r: Result<String>)
        requires
            old(self).wf(),
            old(self)@.state.next_io_event_seq + 2 <= u32::MAX,
        ensures
            final(self).wf(),
            old(self).valid() ==> final(self).valid(),
            final(self)@.context == old(self)@.context,
            exists|now: Timestamp|
                (final(self)@.state, outcome(r)) == #[trigger] old(self)@.state.actor_stopped(
                    old(self)@.context,
                    now,
                    thread_id@,
                    status@,
                ),
    {
        let at = now();
        proof {
            law_threads_leave_problems(self.state@, self.context@, at, thread_id@, thread_id@, IoEventKind::ChildThreadFailed, status@);
        }
        self.state.record_actor_completed_without_thread_done(&self.context, at, thread_id, status)
    }

    /// Runs a wait command.
    pub fn wait(&mut self, command: WaitCommand) -> (r: Result<WaitResult>)
        requires
            old(self).wf(),
            command is Park ==> branching(old(self)@.state.problems),
            old(self)@.state.has_room_for(command@),
        ensures
            final(self).wf(),
            old(self).valid() ==> final(self).valid(),
            final(self)@.context == old(self)@.context,
            exists|now: Timestamp|
                (final(self)@.state, outcome(r)) == #[trigger] old(self)@.state.commanded(
                    old(self)@.context,
                    now,
                    command@,
                ),
    {
        let at = now();
        let ghost asked = command@;
        proof {
            if self.state@.sound() {
                law_commanded_sound(self.state@, self.context@, at, asked);
            }
        }
        self.state.run_wait_command(&self.context, at, command)
    }
}

} // verus!
