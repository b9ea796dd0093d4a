//! Giving a subtree to a child thread, and taking it back after a failure.
use vstd::prelude::*;
use crate::clock::Timestamp;
use crate::closing::{fault_of, Fault};
use crate::context::{valid_id, validate_id, RuntimeContext, RuntimeContextView};
use crate::entities::{ClosureState, ClosureStateView, ContextFork, ContextForkView, IoHandle, IoHandleView, Thread, ThreadView, ThreadWait, ThreadWaitView};
use crate::error::{outcome, Outcome, QunuxErrorView, Result};
use crate::forest::{branching, rooted};
use crate::ids::numbered;
use crate::kinds::{ContextForkPolicy, IoEventKind, IoHandleKind, IoHandleStatus, ThreadStatus, WaitMode, WaitStatus};
use crate::reports::{JoinedThread, JoinedThreadView, RecoveredThread, RecoveredThreadView, SpawnedThread, SpawnedThreadView};
use crate::state::{refuse, refused, unknown_handle, unknown_thread, unknown_wait};
use crate::text::{cat2, cat3, cat4, cat6, group_views, opt_is, opt_view, views};

verus! {

broadcast use group_views;

/// A handle belongs to the current thread.
pub open spec fn access_fault(ctx: RuntimeContextView, handle: IoHandleView) -> Fault {
    if handle.owner_thread_id != ctx.thread_id {
        Some(
            refused(
                "thread "@ + ctx.thread_id + " cannot access handle "@ + handle.id + " owned by "@
                    + handle.owner_thread_id,
            ),
        )
    } else {
        None
    }
}

/// Checks that a handle belongs to the current thread.
pub fn require_handle_owned_by_current_thread(ctx: &RuntimeContext, handle: &IoHandle) -> (r:
    Result<()>)
    ensures
        fault_of(r) == access_fault(ctx@, handle@),
{
    if handle.owner_thread_id != ctx.thread_id {
        return Err(
            refuse(
                cat6(
                    "thread ",
                    ctx.thread_id.as_str(),
                    " cannot access handle ",
                    handle.id.as_str(),
                    " owned by ",
                    handle.owner_thread_id.as_str(),
                ),
            ),
        );
    }
    Ok(())
}

impl ClosureStateView {
    /// The identifier of the next thread.
    pub open spec fn fresh_thread_id(self) -> Seq<char> {
        numbered("QT"@, self.next_thread_seq as nat)
    }

    /// The identifier of the next handle.
    pub open spec fn fresh_handle_id(self) -> Seq<char> {
        numbered("H"@, self.next_handle_seq as nat)
    }

    /// The identifier of the next wait.
    pub open spec fn fresh_wait_id(self) -> Seq<char> {
        numbered("W"@, self.next_wait_seq as nat)
    }

    /// A child thread on a problem, with the handle and the wait of its parent, before the subtree
    /// changes hands.
    pub open spec fn with_child_thread(
        self,
        ctx: RuntimeContextView,
        now: Timestamp,
        problem_id: Seq<char>,
        fork: ContextForkView,
    ) -> ClosureStateView {
        let problem = self.problems[problem_id];
        let thread_id = self.fresh_thread_id();
        let handle_id = self.fresh_handle_id();
        let wait_id = self.fresh_wait_id();
        let threads = self.threads.insert(
            thread_id,
            ThreadView {
                id: thread_id,
                process_id: self.process_id,
                parent_thread_id: Some(ctx.thread_id),
                root_problem_id: problem_id,
                status: ThreadStatus::Running,
                context_fork: fork,
                child_thread_ids: Seq::empty(),
                created_from_problem_id: problem_id,
                created_from_ticket_id: problem.created_from_ticket_id,
                created_from_check_id: problem.created_from_check_id,
                actor_session_id: None,
                codex_thread_id: None,
                joined_at: None,
                created_at: now,
                updated_at: now,
            },
        );
        ClosureStateView {
            next_thread_seq: (self.next_thread_seq + 1) as u32,
            next_handle_seq: (self.next_handle_seq + 1) as u32,
            next_wait_seq: (self.next_wait_seq + 1) as u32,
            threads: threads.insert(
                ctx.thread_id,
                ThreadView {
                    child_thread_ids: threads[ctx.thread_id].child_thread_ids.push(thread_id),
                    status: ThreadStatus::WaitingChildren,
                    ..threads[ctx.thread_id]
                },
            ),
            handles: self.handles.insert(
                handle_id,
                IoHandleView {
                    id: handle_id,
                    kind: IoHandleKind::ChildThread,
                    owner_thread_id: ctx.thread_id,
                    target_thread_id: Some(thread_id),
                    event_key: None,
                    condition: None,
                    source: None,
                    payload_ref: None,
                    dedupe_key: None,
                    resolved_event_id: None,
                    status: IoHandleStatus::Pending,
                    created_at: now,
                    updated_at: now,
                },
            ),
            waits: self.waits.insert(
                wait_id,
                ThreadWaitView {
                    id: wait_id,
                    thread_id: ctx.thread_id,
                    handle_ids: seq![handle_id],
                    mode: WaitMode::All,
                    status: WaitStatus::Waiting,
                    created_at: now,
                    updated_at: now,
                },
            ),
            ..self
        }
    }

    /// A child thread takes over a problem and everything below it.
    pub open spec fn spawned(
        self,
        ctx: RuntimeContextView,
        now: Timestamp,
        problem_id: Seq<char>,
        policy: ContextForkPolicy,
        bootstrap_instruction: Seq<char>,
        inherited_cwd: Option<Seq<char>>,
        inherited_model: Option<Seq<char>>,
        inherited_tools: Seq<Seq<char>>,
    ) -> (ClosureStateView, Outcome<SpawnedThreadView>) {
        match self.writable(ctx, problem_id) {
            Err(e) => (self, Err(e)),
            Ok(problem) => if problem.id == self.threads[ctx.thread_id].root_problem_id {
                (
                    self,
                    Err(
                        refused(
                            "thread "@ + ctx.thread_id + " cannot spawn itself for root problem "@
                                + problem_id,
                        ),
                    ),
                )
            } else if self.thread_for_root_problem(problem_id) is Some {
                (
                    self,
                    Err(refused("problem "@ + problem_id + " already has a bound thread"@)),
                )
            } else {
                let thread_id = self.fresh_thread_id();
                let handle_id = self.fresh_handle_id();
                let made = self.with_child_thread(
                    ctx,
                    now,
                    problem_id,
                    ContextForkView {
                        policy,
                        parent_thread_id: Some(ctx.thread_id),
                        parent_actor_session_id: ctx.actor_session_id,
                        fork_turn_id: None,
                        bootstrap_instruction,
                        inherited_cwd,
                        inherited_model,
                        inherited_tools,
                    },
                ).transferred(problem_id, thread_id, now);
                match made.1 {
                    Err(e) => (made.0, Err(e)),
                    Ok(_) => (
                        made.0.logged(
                            ctx,
                            now,
                            "thread_spawned"@,
                            thread_id,
                            "bound to problem "@ + problem_id,
                        ).io_logged(
                            ctx,
                            now,
                            IoEventKind::ChildThreadSpawned,
                            Some(handle_id),
                            Some(thread_id),
                            "child thread "@ + thread_id + " spawned for problem "@ + problem_id,
                        ),
                        Ok(
                            SpawnedThreadView {
                                thread_id,
                                root_problem_id: problem_id,
                                handle_id,
                                wait_id: self.fresh_wait_id(),
                                bootstrap_instruction,
                            },
                        ),
                    ),
                }
            },
        }
    }

    /// A thread is run by the actor of a session.
    pub open spec fn actor_bound(
        self,
        ctx: RuntimeContextView,
        now: Timestamp,
        thread_id: Seq<char>,
        actor_session_id: Seq<char>,
    ) -> (ClosureStateView, Outcome<()>) {
        if !valid_id(actor_session_id) {
            (self, Err(QunuxErrorView::InvalidId(actor_session_id)))
        } else if !self.threads.contains_key(thread_id) {
            (self, Err(unknown_thread(thread_id)))
        } else {
            (
                ClosureStateView {
                    threads: self.threads.insert(
                        thread_id,
                        ThreadView {
                            actor_session_id: Some(actor_session_id),
                            codex_thread_id: Some(actor_session_id),
                            updated_at: now,
                            ..self.threads[thread_id]
                        },
                    ),
                    ..self
                }.logged(
                    ctx,
                    now,
                    "thread_actor_bound"@,
                    thread_id,
                    "Codex child agent session bound"@,
                ),
                Ok(()),
            )
        }
    }

    /// The parent of a finished child thread takes it back.
    pub open spec fn auto_joined(
        self,
        ctx: RuntimeContextView,
        now: Timestamp,
        thread_id: Seq<char>,
        message: Seq<char>,
    ) -> (ClosureStateView, Outcome<JoinedThreadView>) {
        if !self.threads.contains_key(thread_id) {
            (self, Err(unknown_thread(thread_id)))
        } else {
            match self.threads[thread_id].parent_thread_id {
                None => (
                    self,
                    Err(refused("main thread "@ + thread_id + " cannot be auto-joined"@)),
                ),
                Some(parent_thread_id) => self.joined(
                    ctx,
                    now,
                    thread_id,
                    parent_thread_id,
                    message,
                ),
            }
        }
    }

    /// A failed child thread of the current one, with its handle and the wait of its parent.
    pub open spec fn recoverable(self, ctx: RuntimeContextView, thread_id: Seq<char>) -> Outcome<
        (Seq<char>, Seq<char>),
    > {
        if !self.threads.contains_key(thread_id) {
            Err(unknown_thread(thread_id))
        } else {
            let child = self.threads[thread_id];
            if child.parent_thread_id != Some(ctx.thread_id) {
                Err(
                    refused(
                        "thread "@ + ctx.thread_id + " cannot recover non-child thread "@
                            + thread_id,
                    ),
                )
            } else if child.status != ThreadStatus::Failed && child.status
                != ThreadStatus::Cancelled {
                Err(
                    refused(
                        "cannot recover thread "@ + thread_id + " while status is "@
                            + child.status.name_view(),
                    ),
                )
            } else if child.joined_at is Some {
                Err(refused("thread "@ + thread_id + " is already joined"@))
            } else {
                match self.child_thread_handle_id(thread_id) {
                    None => Err(
                        refused("thread "@ + thread_id + " has no child-thread handle"@),
                    ),
                    Some(handle_id) => match self.wait_id_for_handle(handle_id) {
                        None => Err(
                            refused("handle "@ + handle_id + " has no parent wait"@),
                        ),
                        Some(wait_id) => if !self.handles.contains_key(handle_id) {
                            Err(unknown_handle(handle_id))
                        } else {
                            match access_fault(ctx, self.handles[handle_id]) {
                                Some(e) => Err(e),
                                None => Ok((handle_id, wait_id)),
                            }
                        },
                    },
                }
            }
        }
    }

    /// The subtree of a failed child thread goes back to the current thread.
    pub open spec fn recovered(
        self,
        ctx: RuntimeContextView,
        now: Timestamp,
        thread_id: Seq<char>,
    ) -> (ClosureStateView, Outcome<RecoveredThreadView>) {
        match self.recoverable(ctx, thread_id) {
            Err(e) => (self, Err(e)),
            Ok((handle_id, wait_id)) => {
                let root_problem_id = self.threads[thread_id].root_problem_id;
                let handed = self.transferred(root_problem_id, ctx.thread_id, now);
                match handed.1 {
                    Err(e) => (handed.0, Err(e)),
                    Ok(_) => {
                        let marked = handed.0.with_thread_status(
                            thread_id,
                            ThreadStatus::Recovered,
                            now,
                        );
                        let status = self.handles[handle_id].status;
                        if status != IoHandleStatus::Failed && status
                            != IoHandleStatus::Cancelled {
                            (
                                marked,
                                Err(
                                    refused(
                                        "cannot recover thread "@ + thread_id + "; handle "@
                                            + handle_id + " is "@ + status.name_view(),
                                    ),
                                ),
                            )
                        } else {
                            marked.recovery_finished(
                                ctx,
                                now,
                                thread_id,
                                root_problem_id,
                                handle_id,
                                wait_id,
                            )
                        }
                    },
                }
            },
        }
    }

    /// The handle and the wait of a recovered thread are settled and the parent runs again.
    pub open spec fn recovery_finished(
        self,
        ctx: RuntimeContextView,
        now: Timestamp,
        thread_id: Seq<char>,
        root_problem_id: Seq<char>,
        handle_id: Seq<char>,
        wait_id: Seq<char>,
    ) -> (ClosureStateView, Outcome<RecoveredThreadView>) {
        let settled = self.with_handle_status(handle_id, IoHandleStatus::Cancelled, now);
        if !self.waits.contains_key(wait_id) {
            (settled, Err(unknown_wait(wait_id)))
        } else {
            let message = "recovered failed child thread "@ + thread_id + "; subtree "@
                + root_problem_id + " returned to parent "@ + ctx.thread_id;
            (
                settled.with_wait_status(wait_id, WaitStatus::Consumed, now).with_thread_status(
                    ctx.thread_id,
                    ThreadStatus::Running,
                    now,
                ).logged(ctx, now, "thread_recovered"@, thread_id, message).io_logged(
                    ctx,
                    now,
                    IoEventKind::ChildThreadRecovered,
                    Some(handle_id),
                    Some(thread_id),
                    message,
                ),
                Ok(
                    RecoveredThreadView {
                        thread_id,
                        root_problem_id,
                        parent_thread_id: ctx.thread_id,
                        handle_id,
                        wait_id,
                    },
                ),
            )
        }
    }
}

impl ClosureState {
    fn add_child_thread(
        &mut self,
        ctx: &RuntimeContext,
        now: Timestamp,
        problem_id: &str,
        context_fork: ContextFork,
    ) -> (r: (String, String, String))
        requires
            old(self).wf(),
            old(self)@.problems.contains_key(problem_id@),
            old(self)@.threads.contains_key(ctx@.thread_id),
            old(self)@.next_thread_seq < u32::MAX,
            old(self)@.next_handle_seq < u32::MAX,
            old(self)@.next_wait_seq < u32::MAX,
        ensures
            final(self).wf(),
            r.0@ == old(self)@.fresh_thread_id(),
            r.1@ == old(self)@.fresh_handle_id(),
            r.2@ == old(self)@.fresh_wait_id(),
            final(self)@ == old(self)@.with_child_thread(
                ctx@,
                now,
                problem_id@,
                context_fork@,
            ),
    {
        let (created_from_ticket_id, created_from_check_id) = match self.problems.get(problem_id) {
            Some(problem) => (
                problem.created_from_ticket_id.clone(),
                problem.created_from_check_id.clone(),
            ),
            None => (None, None),
        };
        let parent_thread_id = ctx.thread_id.clone();
        let thread_id = self.next_thread_id();
        let handle_id = self.next_handle_id();
        let wait_id = self.next_wait_id();
        let thread = Thread {
            id: thread_id.clone(),
            process_id: self.process_id.clone(),
            parent_thread_id: Some(parent_thread_id.clone()),
            root_problem_id: problem_id.to_owned(),
            status: ThreadStatus::Running,
            context_fork,
            child_thread_ids: Vec::new(),
            created_from_problem_id: problem_id.to_owned(),
            created_from_ticket_id,
            created_from_check_id,
            actor_session_id: None,
            codex_thread_id: None,
            joined_at: None,
            created_at: now,
            updated_at: now,
        };
        let handle = IoHandle {
            id: handle_id.clone(),
            kind: IoHandleKind::ChildThread,
            owner_thread_id: parent_thread_id.clone(),
            target_thread_id: Some(thread_id.clone()),
            event_key: None,
            condition: None,
            source: None,
            payload_ref: None,
            dedupe_key: None,
            resolved_event_id: None,
            status: IoHandleStatus::Pending,
            created_at: now,
            updated_at: now,
        };
        let mut handle_ids: Vec<String> = Vec::new();
        handle_ids.push(handle_id.clone());
        let wait = ThreadWait {
            id: wait_id.clone(),
            thread_id: parent_thread_id.clone(),
            handle_ids,
            mode: WaitMode::All,
            status: WaitStatus::Waiting,
            created_at: now,
            updated_at: now,
        };
        self.threads.insert(thread_id.clone(), thread);
        self.handles.insert(handle_id.clone(), handle);
        self.waits.insert(wait_id.clone(), wait);
        if let Some(parent) = self.threads.get_mut(parent_thread_id.as_str()) {
            parent.child_thread_ids.push(thread_id.clone());
            parent.status = ThreadStatus::WaitingChildren;
        }
        (thread_id, handle_id, wait_id)
    }

    /// Gives a problem and everything below it to a new child thread.
    pub fn spawn_thread(
        &mut self,
        ctx: &RuntimeContext,
        now: Timestamp,
        problem_id: &str,
        policy: ContextForkPolicy,
        bootstrap_instruction: &str,
        inherited_cwd: Option<String>,
        inherited_model: Option<String>,
        inherited_tools: Vec<String>,
    ) -> (r: Result<SpawnedThread>)
        requires
            old(self).wf(),
            rooted(old(self)@.problems),
            branching(old(self)@.problems),
            old(self)@.next_thread_seq < u32::MAX,
            old(self)@.next_handle_seq < u32::MAX,
            old(self)@.next_wait_seq < u32::MAX,
            old(self)@.next_io_event_seq < u32::MAX,
        ensures
            final(self).wf(),
            (final(self)@, outcome(r)) == old(self)@.spawned(
                ctx@,
                now,
                problem_id@,
                policy,
                bootstrap_instruction@,
                opt_view(inherited_cwd),
                opt_view(inherited_model),
                views(inherited_tools@),
            ),
    {
        let problem = self.require_problem_writable(ctx, problem_id)?;
        if problem.id == self.current_thread(ctx)?.root_problem_id {
            return Err(
                refuse(
                    cat4(
                        "thread ",
                        ctx.thread_id.as_str(),
                        " cannot spawn itself for root problem ",
                        problem_id,
                    ),
                ),
            );
        }
        if self.thread_for_root_problem(problem_id).is_some() {
            return Err(refuse(cat3("problem ", problem_id, " already has a bound thread")));
        }
        let context_fork = ContextFork {
            policy,
            parent_thread_id: Some(ctx.thread_id.clone()),
            parent_actor_session_id: ctx.actor_session_id.clone(),
            fork_turn_id: None,
            bootstrap_instruction: bootstrap_instruction.to_owned(),
            inherited_cwd,
            inherited_model,
            inherited_tools,
        };
        let (thread_id, handle_id, wait_id) = self.add_child_thread(
            ctx,
            now,
            problem_id,
            context_fork,
        );
        self.transfer_subtree_owner(problem_id, thread_id.as_str(), now)?;
        let bound = cat2("bound to problem ", problem_id);
        self.event(ctx, now, "thread_spawned", thread_id.as_str(), bound.as_str());
        let message = cat4(
            "child thread ",
            thread_id.as_str(),
            " spawned for problem ",
            problem_id,
        );
        let _ = self.io_event(
            ctx,
            now,
            IoEventKind::ChildThreadSpawned,
            Some(handle_id.as_str()),
            Some(thread_id.as_str()),
            message.as_str(),
        );
        Ok(
            SpawnedThread {
                thread_id,
                root_problem_id: problem_id.to_owned(),
                handle_id,
                wait_id,
                bootstrap_instruction: bootstrap_instruction.to_owned(),
            },
        )
    }

    /// Lets the actor of a session run a thread.
    pub fn bind_thread_actor(
        &mut self,
        ctx: &RuntimeContext,
        now: Timestamp,
        thread_id: &str,
        actor_session_id: &str,
    ) -> (r: Result<()>)
        requires
            old(self).wf(),
        ensures
            final(self).wf(),
            (final(self)@, outcome(r)) == old(self)@.actor_bound(
                ctx@,
                now,
                thread_id@,
                actor_session_id@,
            ),
    {
        validate_id(actor_session_id)?;
        match self.threads.get_mut(thread_id) {
            Some(thread) => {
                thread.actor_session_id = Some(actor_session_id.to_owned());
                thread.codex_thread_id = Some(actor_session_id.to_owned());
                thread.updated_at = now;
            },
            None => {
                return Err(refuse(cat2("unknown thread ", thread_id)));
            },
        }
        self.event(
            ctx,
            now,
            "thread_actor_bound",
            thread_id,
            "Codex child agent session bound",
        );
        Ok(())
    }

    /// The parent of a finished child thread takes it back.
    pub fn auto_join_child_thread(
        &mut self,
        ctx: &RuntimeContext,
        now: Timestamp,
        thread_id: &str,
        message: &str,
    ) -> (r: Result<JoinedThread>)
        requires
            old(self).wf(),
            old(self)@.next_io_event_seq + 3 <= u32::MAX,
        ensures
            final(self).wf(),
            (final(self)@, outcome(r)) == old(self)@.auto_joined(
                ctx@,
                now,
                thread_id@,
                message@,
            ),
    {
        let parent_thread_id = match &self.require_thread(thread_id)?.parent_thread_id {
            Some(parent_thread_id) => parent_thread_id.clone(),
            None => {
                return Err(refuse(cat3("main thread ", thread_id, " cannot be auto-joined")));
            },
        };
        self.join_child_thread_in_state(ctx, now, thread_id, parent_thread_id.as_str(), message)
    }

    fn require_recoverable(&self, ctx: &RuntimeContext, thread_id: &str) -> (r: Result<
        (String, String),
    >)
        requires
            self.wf(),
        ensures
            outcome(r) == self@.recoverable(ctx@, thread_id@),
    {
        let child = self.require_thread(thread_id)?;
        if !opt_is(&child.parent_thread_id, ctx.thread_id.as_str()) {
            return Err(
                refuse(
                    cat4(
                        "thread ",
                        ctx.thread_id.as_str(),
                        " cannot recover non-child thread ",
                        thread_id,
                    ),
                ),
            );
        }
        if child.status != ThreadStatus::Failed && child.status != ThreadStatus::Cancelled {
            return Err(
                refuse(
                    cat4(
                        "cannot recover thread ",
                        thread_id,
                        " while status is ",
                        child.status.name(),
                    ),
                ),
            );
        }
        if child.joined_at.is_some() {
            return Err(refuse(cat3("thread ", thread_id, " is already joined")));
        }
        let handle_id = match self.child_thread_handle_id(thread_id) {
            Some(handle_id) => handle_id,
            None => {
                return Err(refuse(cat3("thread ", thread_id, " has no child-thread handle")));
            },
        };
        let wait_id = match self.wait_id_for_handle(handle_id.as_str()) {
            Some(wait_id) => wait_id,
            None => {
                return Err(refuse(cat3("handle ", handle_id.as_str(), " has no parent wait")));
            },
        };
        let handle = self.require_handle(handle_id.as_str())?;
        require_handle_owned_by_current_thread(ctx, handle)?;
        Ok((handle_id, wait_id))
    }

    fn finish_recovery(
        &mut self,
        ctx: &RuntimeContext,
        now: Timestamp,
        thread_id: &str,
        root_problem_id: String,
        handle_id: String,
        wait_id: String,
    ) -> (r: Result<RecoveredThread>)
        requires
            old(self).wf(),
            old(self)@.handles.contains_key(handle_id@),
            old(self)@.threads.contains_key(ctx@.thread_id),
            old(self)@.next_io_event_seq < u32::MAX,
        ensures
            final(self).wf(),
            (final(self)@, outcome(r)) == old(self)@.recovery_finished(
                ctx@,
                now,
                thread_id@,
                root_problem_id@,
                handle_id@,
                wait_id@,
            ),
    {
        self.set_handle_status(handle_id.as_str(), IoHandleStatus::Cancelled, now);
        if !self.waits.contains_key(wait_id.as_str()) {
            return Err(refuse(cat2("unknown wait ", wait_id.as_str())));
        }
        self.set_wait_status(wait_id.as_str(), WaitStatus::Consumed, now);
        self.set_thread_status(ctx.thread_id.as_str(), ThreadStatus::Running, now);
        let message = cat6(
            "recovered failed child thread ",
            thread_id,
            "; subtree ",
            root_problem_id.as_str(),
            " returned to parent ",
            ctx.thread_id.as_str(),
        );
        self.event(ctx, now, "thread_recovered", thread_id, message.as_str());
        let _ = self.io_event(
            ctx,
            now,
            IoEventKind::ChildThreadRecovered,
            Some(handle_id.as_str()),
            Some(thread_id),
            message.as_str(),
        );
        Ok(
            RecoveredThread {
                thread_id: thread_id.to_owned(),
                root_problem_id,
                parent_thread_id: ctx.thread_id.clone(),
                handle_id,
                wait_id,
            },
        )
    }

    /// Takes back the subtree of a failed child thread.
    pub fn recover_thread(
        &mut self,
        ctx: &RuntimeContext,
        now: Timestamp,
        thread_id: &str,
    ) -> (r: Result<RecoveredThread>)
        requires
            old(self).wf(),
            branching(old(self)@.problems),
            old(self)@.next_io_event_seq < u32::MAX,
        ensures
            final(self).wf(),
            (final(self)@, outcome(r)) == old(self)@.recovered(ctx@, now, thread_id@),
    {
        let (handle_id, wait_id) = self.require_recoverable(ctx, thread_id)?;
        let root_problem_id = self.require_thread(thread_id)?.root_problem_id.clone();
        self.transfer_subtree_owner(root_problem_id.as_str(), ctx.thread_id.as_str(), now)?;
        self.set_thread_status(thread_id, ThreadStatus::Recovered, now);
        let status = self.require_handle(handle_id.as_str())?.status;
        if status != IoHandleStatus::Failed && status != IoHandleStatus::Cancelled {
            return Err(
                refuse(
                    cat6(
                        "cannot recover thread ",
                        thread_id,
                        "; handle ",
                        handle_id.as_str(),
                        " is ",
                        status.name(),
                    ),
                ),
            );
        }
        self.finish_recovery(ctx, now, thread_id, root_problem_id, handle_id, wait_id)
    }
}

} // verus!
