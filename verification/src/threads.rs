//! Child threads: spawning, joining, failing and recovering them.
use vstd::prelude::*;
use crate::clock::Timestamp;
use crate::context::{RuntimeContext, RuntimeContextView};
use crate::entities::{ClosureState, ClosureStateView, IoHandleView, Problem, ThreadView, ThreadWaitView};
use crate::error::{outcome, Outcome, Result};
use crate::forest::{branching, handed_over, handed_over_below, height, lemma_height, lemma_listed_below, listed, unknown_problem, Problems};
use crate::kinds::{IoEventKind, IoHandleStatus, ThreadStatus, WaitStatus};
use crate::reports::{JoinedThread, JoinedThreadView};
use crate::state::{refuse, refused, unknown_handle, unknown_thread, unknown_wait};
use crate::strmap::StrMap;
use crate::text::{cat2, cat3, cat4, cat5, cat6, clone_texts, group_views, opt_is, opt_view, views};

verus! {

broadcast use group_views;

/// Two sets of problems with the same tree.
pub open spec fn same_tree(a: Problems, b: Problems) -> bool {
    &&& a.dom() == b.dom()
    &&& forall|id: Seq<char>| #[trigger]
        a.contains_key(id) ==> a[id].child_problem_ids == b[id].child_problem_ids
            && a[id].followup_problem_ids == b[id].followup_problem_ids
}

/// Gives a problem and everything below it to a thread. Stops at the first problem that is listed
/// and not there, and returns it.
fn hand_over(
    problems: &mut StrMap<Problem>,
    problem_id: &str,
    thread_id: &str,
    now: Timestamp,
    Ghost(base): Ghost<Problems>,
) -> (r: Option<String>)
    requires
        old(problems).wf(),
        branching(base),
        same_tree(base, old(problems)@),
    ensures
        final(problems).wf(),
        same_tree(base, final(problems)@),
        (final(problems)@, opt_view(r)) == handed_over(
            base,
            old(problems)@,
            problem_id@,
            thread_id@,
            now,
        ),
    decreases height(base, problem_id@),
{
    let ghost before = problems@;
    let (children, followups) = match problems.get_mut(problem_id) {
        Some(problem) => {
            problem.owner_thread_id = thread_id.to_owned();
            problem.updated_at = now;
            (clone_texts(&problem.child_problem_ids), clone_texts(&problem.followup_problem_ids))
        },
        None => {
            return Some(problem_id.to_owned());
        },
    };
    let ghost handed = problems@;
    assert(problems@.dom() =~= before.dom());
    assert(same_tree(base, problems@));
    let n: usize = children.len();
    let mut i: usize = 0;
    while i < n
        invariant
            problems.wf(),
            branching(base),
            base.contains_key(problem_id@),
            same_tree(base, problems@),
            n == children@.len(),
            i <= n,
            views(children@) == base[problem_id@].child_problem_ids,
            handed_over_below(base, handed, problem_id@, thread_id@, now, 0) == handed_over_below(
                base,
                problems@,
                problem_id@,
                thread_id@,
                now,
                i as int,
            ),
            handed_over(base, before, problem_id@, thread_id@, now) == handed_over_below(
                base,
                handed,
                problem_id@,
                thread_id@,
                now,
                0,
            ),
            old(problems)@ == before,
        decreases n - i,
    {
        proof {
            lemma_listed_below(base[problem_id@], i as int);
            lemma_height(base, problem_id@, listed(base[problem_id@])[i as int]);
            assert(children@[i as int]@ == listed(base[problem_id@])[i as int]);
        }
        let missing = hand_over(problems, children[i].as_str(), thread_id, now, Ghost(base));
        if missing.is_some() {
            return missing;
        }
        i = i + 1;
    }
    let m: usize = followups.len();
    let mut k: usize = 0;
    while k < m
        invariant
            problems.wf(),
            branching(base),
            base.contains_key(problem_id@),
            same_tree(base, problems@),
            m == followups@.len(),
            k <= m,
            n == base[problem_id@].child_problem_ids.len(),
            views(followups@) == base[problem_id@].followup_problem_ids,
            handed_over_below(base, handed, problem_id@, thread_id@, now, 0) == handed_over_below(
                base,
                problems@,
                problem_id@,
                thread_id@,
                now,
                n + k,
            ),
            handed_over(base, before, problem_id@, thread_id@, now) == handed_over_below(
                base,
                handed,
                problem_id@,
                thread_id@,
                now,
                0,
            ),
            old(problems)@ == before,
        decreases m - k,
    {
        proof {
            lemma_listed_below(base[problem_id@], n + k);
            lemma_height(base, problem_id@, listed(base[problem_id@])[n + k]);
            assert(followups@[k as int]@ == listed(base[problem_id@])[n + k]);
        }
        let missing = hand_over(problems, followups[k].as_str(), thread_id, now, Ghost(base));
        if missing.is_some() {
            return missing;
        }
        k = k + 1;
    }
    None
}

impl ClosureStateView {
    /// A problem and everything below it goes to a thread.
    pub open spec fn transferred(
        self,
        problem_id: Seq<char>,
        thread_id: Seq<char>,
        now: Timestamp,
    ) -> (ClosureStateView, Outcome<()>) {
        if !self.threads.contains_key(thread_id) {
            (self, Err(unknown_thread(thread_id)))
        } else {
            let done = handed_over(self.problems, self.problems, problem_id, thread_id, now);
            (
                ClosureStateView { problems: done.0, ..self },
                match done.1 {
                    None => Ok(()),
                    Some(missing) => Err(unknown_problem(missing)),
                },
            )
        }
    }

    /// A handle gets a status.
    pub open spec fn with_handle_status(
        self,
        handle_id: Seq<char>,
        status: IoHandleStatus,
        now: Timestamp,
    ) -> ClosureStateView {
        ClosureStateView {
            handles: self.handles.insert(
                handle_id,
                IoHandleView { status, updated_at: now, ..self.handles[handle_id] },
            ),
            ..self
        }
    }

    /// A thread gets a status.
    pub open spec fn with_thread_status(
        self,
        thread_id: Seq<char>,
        status: ThreadStatus,
        now: Timestamp,
    ) -> ClosureStateView {
        ClosureStateView {
            threads: self.threads.insert(
                thread_id,
                ThreadView { status, updated_at: now, ..self.threads[thread_id] },
            ),
            ..self
        }
    }

    /// A wait gets a status.
    pub open spec fn with_wait_status(
        self,
        wait_id: Seq<char>,
        status: WaitStatus,
        now: Timestamp,
    ) -> ClosureStateView {
        ClosureStateView {
            waits: self.waits.insert(
                wait_id,
                ThreadWaitView { status, updated_at: now, ..self.waits[wait_id] },
            ),
            ..self
        }
    }

    /// The parent of a thread learns that it is done: the handle becomes ready.
    pub open spec fn child_ready(
        self,
        ctx: RuntimeContextView,
        now: Timestamp,
        thread_id: Seq<char>,
        message: Seq<char>,
    ) -> (ClosureStateView, Outcome<Seq<char>>) {
        if !self.threads.contains_key(thread_id) {
            (self, Err(unknown_thread(thread_id)))
        } else if self.threads[thread_id].status != ThreadStatus::Done {
            (
                self,
                Err(
                    refused(
                        "cannot mark child thread "@ + thread_id + " ready while status is "@
                            + self.threads[thread_id].status.name_view(),
                    ),
                ),
            )
        } else {
            match self.child_thread_handle_id(thread_id) {
                None => (
                    self,
                    Err(refused("thread "@ + thread_id + " has no child-thread handle"@)),
                ),
                Some(handle_id) => if !self.handles.contains_key(handle_id) {
                    (self, Err(unknown_handle(handle_id)))
                } else {
                    match self.handles[handle_id].status {
                        IoHandleStatus::Pending | IoHandleStatus::Ready => (
                            self.with_handle_status(handle_id, IoHandleStatus::Ready, now).refreshed(
                                handle_id,
                                now,
                            ).io_logged(
                                ctx,
                                now,
                                IoEventKind::ChildThreadDone,
                                Some(handle_id),
                                Some(thread_id),
                                message,
                            ).io_logged(
                                ctx,
                                now,
                                IoEventKind::HandleReady,
                                Some(handle_id),
                                Some(thread_id),
                                "child-thread handle is ready"@,
                            ),
                            Ok(handle_id),
                        ),
                        IoHandleStatus::Consumed => (self, Ok(handle_id)),
                        IoHandleStatus::Failed | IoHandleStatus::Cancelled => (
                            self,
                            Err(
                                refused(
                                    "cannot mark handle "@ + handle_id + " ready from status "@
                                        + self.handles[handle_id].status.name_view(),
                                ),
                            ),
                        ),
                    }
                },
            }
        }
    }

    /// The parent thread runs again once none of its children is at work.
    pub open spec fn parent_released(self, parent_id: Seq<char>, now: Timestamp) -> ClosureStateView {
        if self.open_child_thread_ids(parent_id).len() == 0 && self.threads.contains_key(
            parent_id,
        ) {
            self.with_thread_status(parent_id, ThreadStatus::Running, now)
        } else {
            self
        }
    }

    /// A thread that is done and not yet joined, with its handle and the wait of its parent.
    pub open spec fn joinable(
        self,
        thread_id: Seq<char>,
        parent_thread_id: Seq<char>,
    ) -> Outcome<(Seq<char>, Seq<char>)> {
        if !self.threads.contains_key(thread_id) {
            Err(unknown_thread(thread_id))
        } else {
            let child = self.threads[thread_id];
            if child.parent_thread_id != Some(parent_thread_id) {
                Err(
                    refused(
                        "thread "@ + parent_thread_id + " cannot join non-child thread "@
                            + thread_id,
                    ),
                )
            } else if child.status != ThreadStatus::Done {
                Err(
                    refused(
                        "cannot join thread "@ + thread_id + " while status is "@
                            + child.status.name_view(),
                    ),
                )
            } else if child.joined_at is Some {
                Err(refused("thread "@ + thread_id + " is already joined"@))
            } else {
                match self.child_thread_handle_id(thread_id) {
                    None => Err(
                        refused("thread "@ + thread_id + " has no child-thread handle"@),
                    ),
                    Some(handle_id) => match self.wait_id_for_handle(handle_id) {
                        None => Err(
                            refused("handle "@ + handle_id + " has no parent wait"@),
                        ),
                        Some(wait_id) => if !self.handles.contains_key(handle_id) {
                            Err(unknown_handle(handle_id))
                        } else {
                            Ok((handle_id, wait_id))
                        },
                    },
                }
            }
        }
    }

    /// The parent takes back a thread whose handle is ready.
    pub open spec fn taken_back(
        self,
        ctx: RuntimeContextView,
        now: Timestamp,
        thread_id: Seq<char>,
        parent_thread_id: Seq<char>,
        message: Seq<char>,
        handle_id: Seq<char>,
        wait_id: Seq<char>,
    ) -> (ClosureStateView, Outcome<JoinedThreadView>) {
        if self.handles[handle_id].status != IoHandleStatus::Ready {
            (
                self,
                Err(
                    refused(
                        "cannot join thread "@ + thread_id + "; handle "@ + handle_id + " is "@
                            + self.handles[handle_id].status.name_view(),
                    ),
                ),
            )
        } else {
            let joined = ClosureStateView {
                threads: self.threads.insert(
                    thread_id,
                    ThreadView {
                        joined_at: Some(now),
                        updated_at: now,
                        ..self.threads[thread_id]
                    },
                ),
                ..self
            }.with_handle_status(handle_id, IoHandleStatus::Consumed, now);
            if !joined.waits.contains_key(wait_id) {
                (joined, Err(unknown_wait(wait_id)))
            } else {
                (
                    joined.with_wait_status(wait_id, WaitStatus::Consumed, now).parent_released(
                        parent_thread_id,
                        now,
                    ).logged(ctx, now, "thread_joined"@, thread_id, message).io_logged(
                        ctx,
                        now,
                        IoEventKind::ChildThreadJoined,
                        Some(handle_id),
                        Some(thread_id),
                        message,
                    ),
                    Ok(
                        JoinedThreadView {
                            thread_id,
                            root_problem_id: self.threads[thread_id].root_problem_id,
                            parent_thread_id,
                            handle_id,
                            wait_id,
                        },
                    ),
                )
            }
        }
    }

    /// The parent takes back a finished child thread.
    pub open spec fn joined(
        self,
        ctx: RuntimeContextView,
        now: Timestamp,
        thread_id: Seq<char>,
        parent_thread_id: Seq<char>,
        message: Seq<char>,
    ) -> (ClosureStateView, Outcome<JoinedThreadView>) {
        match self.joinable(thread_id, parent_thread_id) {
            Err(e) => (self, Err(e)),
            Ok((handle_id, wait_id)) => if self.handles[handle_id].status
                == IoHandleStatus::Pending {
                let ready = self.child_ready(
                    ctx,
                    now,
                    thread_id,
                    "joining done child thread"@,
                );
                match ready.1 {
                    Err(e) => (ready.0, Err(e)),
                    Ok(_) => ready.0.taken_back(
                        ctx,
                        now,
                        thread_id,
                        parent_thread_id,
                        message,
                        handle_id,
                        wait_id,
                    ),
                }
            } else {
                self.taken_back(
                    ctx,
                    now,
                    thread_id,
                    parent_thread_id,
                    message,
                    handle_id,
                    wait_id,
                )
            },
        }
    }

    /// A child thread fails, and its handle with it. Gives the handle and the log entry.
    pub open spec fn child_failed(
        self,
        ctx: RuntimeContextView,
        now: Timestamp,
        thread_id: Seq<char>,
        kind: IoEventKind,
        message: Seq<char>,
    ) -> (ClosureStateView, Outcome<(Seq<char>, Seq<char>)>) {
        if !self.threads.contains_key(thread_id) {
            (self, Err(unknown_thread(thread_id)))
        } else {
            let thread = self.threads[thread_id];
            if thread.parent_thread_id is None {
                (
                    self,
                    Err(
                        refused(
                            "main thread "@ + thread_id
                                + " cannot be marked as failed child thread"@,
                        ),
                    ),
                )
            } else if thread.status == ThreadStatus::Done {
                (
                    self,
                    Err(
                        refused(
                            "thread "@ + thread_id
                                + " is already done; it must be joined rather than failed"@,
                        ),
                    ),
                )
            } else if thread.joined_at is Some {
                (self, Err(refused("thread "@ + thread_id + " is already joined"@)))
            } else {
                match self.child_thread_handle_id(thread_id) {
                    None => (
                        self,
                        Err(refused("thread "@ + thread_id + " has no child-thread handle"@)),
                    ),
                    Some(handle_id) => {
                        let failed = self.with_thread_status(thread_id, ThreadStatus::Failed, now);
                        if !self.handles.contains_key(handle_id) {
                            (failed, Err(unknown_handle(handle_id)))
                        } else {
                            match self.handles[handle_id].status {
                                IoHandleStatus::Consumed => (
                                    failed,
                                    Err(
                                        refused(
                                            "cannot fail child thread "@ + thread_id
                                                + "; handle "@ + handle_id + " is consumed"@,
                                        ),
                                    ),
                                ),
                                IoHandleStatus::Cancelled => (
                                    failed,
                                    Err(
                                        refused(
                                            "cannot fail child thread "@ + thread_id
                                                + "; handle "@ + handle_id + " is cancelled"@,
                                        ),
                                    ),
                                ),
                                _ => {
                                    let told = failed.with_handle_status(
                                        handle_id,
                                        IoHandleStatus::Failed,
                                        now,
                                    ).refreshed(handle_id, now).parent_released(
                                        thread.parent_thread_id->0,
                                        now,
                                    ).logged(ctx, now, "thread_failed"@, thread_id, message);
                                    (
                                        told.io_logged(
                                            ctx,
                                            now,
                                            kind,
                                            Some(handle_id),
                                            Some(thread_id),
                                            message,
                                        ),
                                        Ok((handle_id, told.fresh_io_event_id())),
                                    )
                                },
                            }
                        }
                    },
                }
            }
        }
    }

    /// The actor of a child thread stopped before the thread was done: the thread fails.
    pub open spec fn actor_stopped(
        self,
        ctx: RuntimeContextView,
        now: Timestamp,
        thread_id: Seq<char>,
        status: Seq<char>,
    ) -> (ClosureStateView, Outcome<Seq<char>>) {
        if !self.threads.contains_key(thread_id) {
            (self, Err(unknown_thread(thread_id)))
        } else if self.threads[thread_id].status == ThreadStatus::Done {
            (
                self,
                Err(
                    refused(
                        "thread "@ + thread_id
                            + " is already done; mark the child-thread handle ready instead"@,
                    ),
                ),
            )
        } else {
            let failed = self.child_failed(
                ctx,
                now,
                thread_id,
                IoEventKind::ChildThreadFailed,
                "child actor completed before Qunux thread was done: "@ + status,
            );
            match failed.1 {
                Err(e) => (failed.0, Err(e)),
                Ok((handle_id, _)) => (
                    failed.0.io_logged(
                        ctx,
                        now,
                        IoEventKind::ActorCompletedWithoutThreadDone,
                        Some(handle_id),
                        Some(thread_id),
                        "Codex child actor completed before Qunux thread was done: "@ + status,
                    ),
                    Ok(failed.0.fresh_io_event_id()),
                ),
            }
        }
    }
}

impl ClosureState {
    /// Gives a problem and everything below it to a thread.
    pub(crate) fn transfer_subtree_owner(
        &mut self,
        problem_id: &str,
        thread_id: &str,
        now: Timestamp,
    ) -> (r: Result<()>)
        requires
            old(self).wf(),
            branching(old(self)@.problems),
        ensures
            final(self).wf(),
            (final(self)@, outcome(r)) == old(self)@.transferred(problem_id@, thread_id@, now),
    {
        let _ = self.require_thread(thread_id)?;
        let ghost base = self.problems@;
        match hand_over(&mut self.problems, problem_id, thread_id, now, Ghost(base)) {
            None => Ok(()),
            Some(missing) => Err(refuse(cat2("unknown problem ", missing.as_str()))),
        }
    }

    /// The parent of a thread learns that it is done.
    pub(crate) fn mark_child_thread_ready_in_state(
        &mut self,
        ctx: &RuntimeContext,
        now: Timestamp,
        thread_id: &str,
        message: &str,
    ) -> (r: Result<String>)
        requires
            old(self).wf(),
            old(self)@.next_io_event_seq + 2 <= u32::MAX,
        ensures
            final(self).wf(),
            (final(self)@, outcome(r)) == old(self)@.child_ready(ctx@, now, thread_id@, message@),
    {
        let thread = self.require_thread(thread_id)?;
        if thread.status != ThreadStatus::Done {
            return Err(
                refuse(
                    cat4(
                        "cannot mark child thread ",
                        thread_id,
                        " ready while status is ",
                        thread.status.name(),
                    ),
                ),
            );
        }
        let handle_id = match self.child_thread_handle_id(thread_id) {
            Some(handle_id) => handle_id,
            None => {
                return Err(refuse(cat3("thread ", thread_id, " has no child-thread handle")));
            },
        };
        let status = self.require_handle(handle_id.as_str())?.status;
        match status {
            IoHandleStatus::Pending | IoHandleStatus::Ready => {
                self.set_handle_status(handle_id.as_str(), IoHandleStatus::Ready, now);
            },
            IoHandleStatus::Consumed => {
                return Ok(handle_id);
            },
            IoHandleStatus::Failed | IoHandleStatus::Cancelled => {
                return Err(
                    refuse(
                        cat4(
                            "cannot mark handle ",
                            handle_id.as_str(),
                            " ready from status ",
                            status.name(),
                        ),
                    ),
                );
            },
        }
        self.refresh_wait_statuses_for_handle(handle_id.as_str(), now);
        let _ = self.io_event(
            ctx,
            now,
            IoEventKind::ChildThreadDone,
            Some(handle_id.as_str()),
            Some(thread_id),
            message,
        );
        let _ = self.io_event(
            ctx,
            now,
            IoEventKind::HandleReady,
            Some(handle_id.as_str()),
            Some(thread_id),
            "child-thread handle is ready",
        );
        Ok(handle_id)
    }

    pub(crate) fn set_handle_status(
        &mut self,
        handle_id: &str,
        status: IoHandleStatus,
        now: Timestamp,
    )
        requires
            old(self).wf(),
            old(self)@.handles.contains_key(handle_id@),
        ensures
            final(self).wf(),
            final(self)@ == old(self)@.with_handle_status(handle_id@, status, now),
    {
        if let Some(handle) = self.handles.get_mut(handle_id) {
            handle.status = status;
            handle.updated_at = now;
        }
    }

    pub(crate) fn set_thread_status(
        &mut self,
        thread_id: &str,
        status: ThreadStatus,
        now: Timestamp,
    )
        requires
            old(self).wf(),
            old(self)@.threads.contains_key(thread_id@),
        ensures
            final(self).wf(),
            final(self)@ == old(self)@.with_thread_status(thread_id@, status, now),
    {
        if let Some(thread) = self.threads.get_mut(thread_id) {
            thread.status = status;
            thread.updated_at = now;
        }
    }

    pub(crate) fn set_wait_status(&mut self, wait_id: &str, status: WaitStatus, now: Timestamp)
        requires
            old(self).wf(),
            old(self)@.waits.contains_key(wait_id@),
        ensures
            final(self).wf(),
            final(self)@ == old(self)@.with_wait_status(wait_id@, status, now),
    {
        if let Some(wait) = self.waits.get_mut(wait_id) {
            wait.status = status;
            wait.updated_at = now;
        }
    }

    fn release_parent(&mut self, parent_thread_id: &str, now: Timestamp)
        requires
            old(self).wf(),
        ensures
            final(self).wf(),
            final(self)@ == old(self)@.parent_released(parent_thread_id@, now),
    {
        if self.open_child_thread_ids(parent_thread_id).is_empty() && self.threads.contains_key(
            parent_thread_id,
        ) {
            self.set_thread_status(parent_thread_id, ThreadStatus::Running, now);
        }
    }

    fn require_joinable(&self, thread_id: &str, parent_thread_id: &str) -> (r: Result<
        (String, String),
    >)
        requires
            self.wf(),
        ensures
            outcome(r) == self@.joinable(thread_id@, parent_thread_id@),
    {
        let child = self.require_thread(thread_id)?;
        if !opt_is(&child.parent_thread_id, parent_thread_id) {
            return Err(
                refuse(
                    cat4("thread ", parent_thread_id, " cannot join non-child thread ", thread_id),
                ),
            );
        }
        if child.status != ThreadStatus::Done {
            return Err(
                refuse(
                    cat4(
                        "cannot join thread ",
                        thread_id,
                        " while status is ",
                        child.status.name(),
                    ),
                ),
            );
        }
        if child.joined_at.is_some() {
            return Err(refuse(cat3("thread ", thread_id, " is already joined")));
        }
        let handle_id = match self.child_thread_handle_id(thread_id) {
            Some(handle_id) => handle_id,
            None => {
                return Err(refuse(cat3("thread ", thread_id, " has no child-thread handle")));
            },
        };
        let wait_id = match self.wait_id_for_handle(handle_id.as_str()) {
            Some(wait_id) => wait_id,
            None => {
                return Err(refuse(cat3("handle ", handle_id.as_str(), " has no parent wait")));
            },
        };
        let _ = self.require_handle(handle_id.as_str())?;
        Ok((handle_id, wait_id))
    }

    fn take_back(
        &mut self,
        ctx: &RuntimeContext,
        now: Timestamp,
        thread_id: &str,
        parent_thread_id: &str,
        message: &str,
        handle_id: String,
        wait_id: String,
    ) -> (r: Result<JoinedThread>)
        requires
            old(self).wf(),
            old(self)@.threads.contains_key(thread_id@),
            old(self)@.handles.contains_key(handle_id@),
            old(self)@.next_io_event_seq < u32::MAX,
        ensures
            final(self).wf(),
            (final(self)@, outcome(r)) == old(self)@.taken_back(
                ctx@,
                now,
                thread_id@,
                parent_thread_id@,
                message@,
                handle_id@,
                wait_id@,
            ),
    {
        let status = self.require_handle(handle_id.as_str())?.status;
        if status != IoHandleStatus::Ready {
            return Err(
                refuse(
                    cat6(
                        "cannot join thread ",
                        thread_id,
                        "; handle ",
                        handle_id.as_str(),
                        " is ",
                        status.name(),
                    ),
                ),
            );
        }
        let root_problem_id = self.require_thread(thread_id)?.root_problem_id.clone();
        if let Some(child) = self.threads.get_mut(thread_id) {
            child.joined_at = Some(now);
            child.updated_at = now;
        }
        self.set_handle_status(handle_id.as_str(), IoHandleStatus::Consumed, now);
        if !self.waits.contains_key(wait_id.as_str()) {
            return Err(refuse(cat2("unknown wait ", wait_id.as_str())));
        }
        self.set_wait_status(wait_id.as_str(), WaitStatus::Consumed, now);
        self.release_parent(parent_thread_id, now);
        self.event(ctx, now, "thread_joined", thread_id, message);
        let _ = self.io_event(
            ctx,
            now,
            IoEventKind::ChildThreadJoined,
            Some(handle_id.as_str()),
            Some(thread_id),
            message,
        );
        Ok(
            JoinedThread {
                thread_id: thread_id.to_owned(),
                root_problem_id,
                parent_thread_id: parent_thread_id.to_owned(),
                handle_id,
                wait_id,
            },
        )
    }

    /// The parent takes back a finished child thread.
    pub(crate) fn join_child_thread_in_state(
        &mut self,
        ctx: &RuntimeContext,
        now: Timestamp,
        thread_id: &str,
        parent_thread_id: &str,
        message: &str,
    ) -> (r: Result<JoinedThread>)
        requires
            old(self).wf(),
            old(self)@.next_io_event_seq + 3 <= u32::MAX,
        ensures
            final(self).wf(),
            (final(self)@, outcome(r)) == old(self)@.joined(
                ctx@,
                now,
                thread_id@,
                parent_thread_id@,
                message@,
            ),
    {
        let (handle_id, wait_id) = self.require_joinable(thread_id, parent_thread_id)?;
        let status = self.require_handle(handle_id.as_str())?.status;
        if status == IoHandleStatus::Pending {
            let _ = self.mark_child_thread_ready_in_state(
                ctx,
                now,
                thread_id,
                "joining done child thread",
            )?;
        }
        self.take_back(ctx, now, thread_id, parent_thread_id, message, handle_id, wait_id)
    }

    /// A child thread fails, and its handle with it.
    pub(crate) fn mark_child_thread_failed_in_state(
        &mut self,
        ctx: &RuntimeContext,
        now: Timestamp,
        thread_id: &str,
        kind: IoEventKind,
        message: &str,
    ) -> (r: Result<(String, String)>)
        requires
            old(self).wf(),
            old(self)@.next_io_event_seq < u32::MAX,
        ensures
            final(self).wf(),
            (final(self)@, outcome(r)) == old(self)@.child_failed(
                ctx@,
                now,
                thread_id@,
                kind,
                message@,
            ),
    {
        let thread = self.require_thread(thread_id)?.clone();
        let parent_thread_id = match thread.parent_thread_id {
            Some(parent_thread_id) => parent_thread_id,
            None => {
                return Err(
                    refuse(
                        cat3(
                            "main thread ",
                            thread_id,
                            " cannot be marked as failed child thread",
                        ),
                    ),
                );
            },
        };
        if thread.status == ThreadStatus::Done {
            return Err(
                refuse(
                    cat3(
                        "thread ",
                        thread_id,
                        " is already done; it must be joined rather than failed",
                    ),
                ),
            );
        }
        if thread.joined_at.is_some() {
            return Err(refuse(cat3("thread ", thread_id, " is already joined")));
        }
        let handle_id = match self.child_thread_handle_id(thread_id) {
            Some(handle_id) => handle_id,
            None => {
                return Err(refuse(cat3("thread ", thread_id, " has no child-thread handle")));
            },
        };
        self.set_thread_status(thread_id, ThreadStatus::Failed, now);
        let status = self.require_handle(handle_id.as_str())?.status;
        match status {
            IoHandleStatus::Pending | IoHandleStatus::Ready | IoHandleStatus::Failed => {
                self.set_handle_status(handle_id.as_str(), IoHandleStatus::Failed, now);
            },
            IoHandleStatus::Consumed => {
                return Err(
                    refuse(
                        cat5(
                            "cannot fail child thread ",
                            thread_id,
                            "; handle ",
                            handle_id.as_str(),
                            " is consumed",
                        ),
                    ),
                );
            },
            IoHandleStatus::Cancelled => {
                return Err(
                    refuse(
                        cat5(
                            "cannot fail child thread ",
                            thread_id,
                            "; handle ",
                            handle_id.as_str(),
                            " is cancelled",
                        ),
                    ),
                );
            },
        }
        self.refresh_wait_statuses_for_handle(handle_id.as_str(), now);
        self.release_parent(parent_thread_id.as_str(), now);
        self.event(ctx, now, "thread_failed", thread_id, message);
        let event_id = self.io_event(
            ctx,
            now,
            kind,
            Some(handle_id.as_str()),
            Some(thread_id),
            message,
        );
        Ok((handle_id, event_id))
    }

    /// The actor of a child thread stopped before the thread was done.
    pub fn record_actor_completed_without_thread_done(
        &mut self,
        ctx: &RuntimeContext,
        now: Timestamp,
        thread_id: &str,
        status: &str,
    ) -> (r: Result<String>)
        requires
            old(self).wf(),
            old(self)@.next_io_event_seq + 2 <= u32::MAX,
        ensures
            final(self).wf(),
            (final(self)@, outcome(r)) == old(self)@.actor_stopped(
                ctx@,
                now,
                thread_id@,
                status@,
            ),
    {
        let thread = self.require_thread(thread_id)?;
        if thread.status == ThreadStatus::Done {
            return Err(
                refuse(
                    cat3(
                        "thread ",
                        thread_id,
                        " is already done; mark the child-thread handle ready instead",
                    ),
                ),
            );
        }
        let message = cat2("child actor completed before Qunux thread was done: ", status);
        let (handle_id, _) = self.mark_child_thread_failed_in_state(
            ctx,
            now,
            thread_id,
            IoEventKind::ChildThreadFailed,
            message.as_str(),
        )?;
        let note = cat2("Codex child actor completed before Qunux thread was done: ", status);
        let event_id = self.io_event(
            ctx,
            now,
            IoEventKind::ActorCompletedWithoutThreadDone,
            Some(handle_id.as_str()),
            Some(thread_id),
            note.as_str(),
        );
        Ok(event_id)
    }
}

} // verus!
