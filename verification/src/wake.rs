//! What happens to waits and threads when a handle changes.
use vstd::prelude::*;
use crate::clock::Timestamp;
use crate::entities::{ClosureState, ClosureStateView, IoHandleView, ThreadView, ThreadWait, ThreadWaitView};
use crate::kinds::{ThreadStatus, WaitStatus};
use crate::lookup::{lists_handle, wait_is_ready, wait_ready};
use crate::reports::{RunnableThread, RunnableThreadView};
use crate::search::select;
use crate::strmap::{keys, values, StrMap};
use crate::text::{cat3, group_views, texts_contain, views};

verus! {

broadcast use group_views;

/// The identifiers of waits.
pub open spec fn wait_ids_of(waits: Seq<ThreadWaitView>) -> Seq<Seq<char>> {
    Seq::new(waits.len(), |i: int| waits[i].id)
}

/// The threads that are parked on waits.
pub open spec fn thread_ids_of(waits: Seq<ThreadWaitView>) -> Seq<Seq<char>> {
    Seq::new(waits.len(), |i: int| waits[i].thread_id)
}

/// Waits that are ready and list a handle.
pub open spec fn ready_with(handle_id: Seq<char>) -> spec_fn(ThreadWaitView) -> bool {
    |w: ThreadWaitView| w.status == WaitStatus::Ready && w.handle_ids.contains(handle_id)
}

/// The first `n` of the named waits are brought up to date with their handles, but for those that
/// were consumed.
pub open spec fn waits_refreshed(
    waits: Map<Seq<char>, ThreadWaitView>,
    handles: Map<Seq<char>, IoHandleView>,
    ids: Seq<Seq<char>>,
    n: int,
    now: Timestamp,
) -> Map<Seq<char>, ThreadWaitView>
    decreases n,
{
    if n <= 0 {
        waits
    } else {
        let before = waits_refreshed(waits, handles, ids, n - 1, now);
        let id = ids[n - 1];
        if before.contains_key(id) && before[id].status != WaitStatus::Consumed {
            before.insert(
                id,
                ThreadWaitView {
                    status: if wait_ready(handles, before[id]) {
                        WaitStatus::Ready
                    } else {
                        WaitStatus::Waiting
                    },
                    updated_at: now,
                    ..before[id]
                },
            )
        } else {
            before
        }
    }
}

/// The first `n` of the named threads run again if they were waiting for I/O.
pub open spec fn threads_woken(
    threads: Map<Seq<char>, ThreadView>,
    ids: Seq<Seq<char>>,
    n: int,
    now: Timestamp,
) -> Map<Seq<char>, ThreadView>
    decreases n,
{
    if n <= 0 {
        threads
    } else {
        let before = threads_woken(threads, ids, n - 1, now);
        let id = ids[n - 1];
        if before.contains_key(id) && before[id].status == ThreadStatus::WaitingIo {
            before.insert(
                id,
                ThreadView { status: ThreadStatus::Running, updated_at: now, ..before[id] },
            )
        } else {
            before
        }
    }
}

/// Those of the first `n` named threads that run again, in order.
pub open spec fn woken_threads(
    threads: Map<Seq<char>, ThreadView>,
    ids: Seq<Seq<char>>,
    n: int,
    now: Timestamp,
    handle_id: Seq<char>,
) -> Seq<RunnableThreadView>
    decreases n,
{
    if n <= 0 {
        Seq::empty()
    } else {
        let before = threads_woken(threads, ids, n - 1, now);
        let id = ids[n - 1];
        let list = woken_threads(threads, ids, n - 1, now, handle_id);
        if before.contains_key(id) && before[id].status == ThreadStatus::WaitingIo {
            list.push(
                RunnableThreadView {
                    thread_id: before[id].id,
                    root_problem_id: before[id].root_problem_id,
                    wake_reason: "handle "@ + handle_id + " ready"@,
                },
            )
        } else {
            list
        }
    }
}

impl ClosureStateView {
    /// The waits that list a handle.
    pub open spec fn wait_ids_listing(self, handle_id: Seq<char>) -> Seq<Seq<char>> {
        wait_ids_of(select(values(self.waits), lists_handle(handle_id)))
    }

    /// The waits that list a handle are brought up to date.
    pub open spec fn refreshed(self, handle_id: Seq<char>, now: Timestamp) -> ClosureStateView {
        let ids = self.wait_ids_listing(handle_id);
        ClosureStateView {
            waits: waits_refreshed(self.waits, self.handles, ids, ids.len() as int, now),
            ..self
        }
    }

    /// The threads that are parked on a ready wait with the handle.
    pub open spec fn thread_ids_ready(self, handle_id: Seq<char>) -> Seq<Seq<char>> {
        thread_ids_of(select(values(self.waits), ready_with(handle_id)))
    }

    /// The threads that are parked on a ready wait with the handle run again.
    pub open spec fn woken(self, handle_id: Seq<char>, now: Timestamp) -> ClosureStateView {
        let ids = self.thread_ids_ready(handle_id);
        ClosureStateView {
            threads: threads_woken(self.threads, ids, ids.len() as int, now),
            ..self
        }
    }

    /// The threads that run again because of a handle.
    pub open spec fn woken_by(self, handle_id: Seq<char>, now: Timestamp) -> Seq<
        RunnableThreadView,
    > {
        let ids = self.thread_ids_ready(handle_id);
        woken_threads(self.threads, ids, ids.len() as int, now, handle_id)
    }
}

impl ClosureState {
    /// Brings the waits that list a handle up to date.
    pub(crate) fn refresh_wait_statuses_for_handle(&mut self, handle_id: &str, now: Timestamp)
        requires
            old(self).wf(),
        ensures
            final(self).wf(),
            final(self)@ == old(self)@.refreshed(handle_id@, now),
    {
        let ghost before = self@;
        let ghost ids = before.wait_ids_listing(handle_id@);
        let mut wait_ids: Vec<String> = Vec::new();
        {
            let lists = |w: &ThreadWait| -> (b: bool)
                ensures
                    b == (lists_handle(handle_id@))(w@),
            {
                texts_contain(&w.handle_ids, handle_id)
            };
            let found = self.waits.filter(lists, Ghost(lists_handle(handle_id@)));
            let mut i: usize = 0;
            while i < found.len()
                invariant
                    i <= found@.len(),
                    views(wait_ids@) == wait_ids_of(views(found@)).take(i as int),
                decreases found@.len() - i,
            {
                wait_ids.push(found[i].id.clone());
                i = i + 1;
                assert(views(wait_ids@) =~= wait_ids_of(views(found@)).take(i as int));
            }
            assert(views(wait_ids@) =~= ids);
        }
        let mut i: usize = 0;
        while i < wait_ids.len()
            invariant
                self.wf(),
                i <= wait_ids@.len(),
                views(wait_ids@) == ids,
                self@ == (ClosureStateView {
                    waits: waits_refreshed(before.waits, before.handles, ids, i as int, now),
                    ..before
                }),
            decreases wait_ids@.len() - i,
        {
            assert(ids[i as int] == wait_ids@[i as int]@);
            let next_status = match self.waits.get(wait_ids[i].as_str()) {
                None => None,
                Some(wait) => if wait.status == WaitStatus::Consumed {
                    None
                } else if wait_is_ready(&self.handles, wait) {
                    Some(WaitStatus::Ready)
                } else {
                    Some(WaitStatus::Waiting)
                },
            };
            if let Some(status) = next_status {
                if let Some(wait) = self.waits.get_mut(wait_ids[i].as_str()) {
                    wait.status = status;
                    wait.updated_at = now;
                }
            }
            i = i + 1;
        }
    }

    /// Lets the threads run again that are parked on a ready wait with the handle.
    pub(crate) fn mark_ready_wait_threads_running(
        &mut self,
        handle_id: &str,
        now: Timestamp,
    ) -> (r: Vec<RunnableThread>)
        requires
            old(self).wf(),
        ensures
            final(self).wf(),
            final(self)@ == old(self)@.woken(handle_id@, now),
            views(r@) == old(self)@.woken_by(handle_id@, now),
    {
        let ghost before = self@;
        let ghost ids = before.thread_ids_ready(handle_id@);
        let mut thread_ids: Vec<String> = Vec::new();
        {
            let ready = |w: &ThreadWait| -> (b: bool)
                ensures
                    b == (ready_with(handle_id@))(w@),
            {
                w.status == WaitStatus::Ready && texts_contain(&w.handle_ids, handle_id)
            };
            let found = self.waits.filter(ready, Ghost(ready_with(handle_id@)));
            let mut i: usize = 0;
            while i < found.len()
                invariant
                    i <= found@.len(),
                    views(thread_ids@) == thread_ids_of(views(found@)).take(i as int),
                decreases found@.len() - i,
            {
                thread_ids.push(found[i].thread_id.clone());
                i = i + 1;
                assert(views(thread_ids@) =~= thread_ids_of(views(found@)).take(i as int));
            }
            assert(views(thread_ids@) =~= ids);
        }
        let mut runnable: Vec<RunnableThread> = Vec::new();
        let mut i: usize = 0;
        while i < thread_ids.len()
            invariant
                self.wf(),
                i <= thread_ids@.len(),
                views(thread_ids@) == ids,
                self@ == (ClosureStateView {
                    threads: threads_woken(before.threads, ids, i as int, now),
                    ..before
                }),
                views(runnable@) == woken_threads(
                    before.threads,
                    ids,
                    i as int,
                    now,
                    handle_id@,
                ),
            decreases thread_ids@.len() - i,
        {
            assert(ids[i as int] == thread_ids@[i as int]@);
            let waiting = match self.threads.get(thread_ids[i].as_str()) {
                Some(thread) => thread.status == ThreadStatus::WaitingIo,
                None => false,
            };
            if waiting {
                if let Some(thread) = self.threads.get_mut(thread_ids[i].as_str()) {
                    thread.status = ThreadStatus::Running;
                    thread.updated_at = now;
                    runnable.push(
                        RunnableThread {
                            thread_id: thread.id.clone(),
                            root_problem_id: thread.root_problem_id.clone(),
                            wake_reason: cat3("handle ", handle_id, " ready"),
                        },
                    );
                }
            }
            i = i + 1;
        }
        runnable
    }
}

/// For each thread the first of the first `n` entries on it.
pub open spec fn first_per_thread(s: Seq<RunnableThreadView>, n: int) -> Map<
    Seq<char>,
    RunnableThreadView,
>
    decreases n,
{
    if n <= 0 {
        Map::empty()
    } else {
        let before = first_per_thread(s, n - 1);
        if before.contains_key(s[n - 1].thread_id) {
            before
        } else {
            before.insert(s[n - 1].thread_id, s[n - 1])
        }
    }
}

/// One entry for each thread, the first one, in ascending order of the threads.
pub open spec fn one_per_thread(s: Seq<RunnableThreadView>) -> Seq<RunnableThreadView> {
    values(first_per_thread(s, s.len() as int))
}

/// Keeps one entry for each thread, the first one, in ascending order of the threads.
pub fn dedupe_runnable_threads(runnable_threads: &mut Vec<RunnableThread>)
    ensures
        views(final(runnable_threads)@) == one_per_thread(views(old(runnable_threads)@)),
{
    let ghost s = views(runnable_threads@);
    let mut firsts: StrMap<RunnableThread> = StrMap::new();
    let mut i: usize = 0;
    while i < runnable_threads.len()
        invariant
            firsts.wf(),
            i <= runnable_threads@.len(),
            s == views(runnable_threads@),
            firsts@ == first_per_thread(s, i as int),
        decreases runnable_threads@.len() - i,
    {
        let entry = &runnable_threads[i];
        assert(s[i as int] == entry@);
        if !firsts.contains_key(entry.thread_id.as_str()) {
            firsts.insert(entry.thread_id.clone(), entry.clone());
        }
        i = i + 1;
    }
    let mut out: Vec<RunnableThread> = Vec::new();
    let mut k: usize = 0;
    let n: usize = firsts.len();
    while k < n
        invariant
            firsts.wf(),
            n == keys(firsts@).len(),
            n == values(firsts@).len(),
            k <= n,
            views(out@) == values(firsts@).take(k as int),
        decreases n - k,
    {
        out.push(firsts.value_at(k).clone());
        k = k + 1;
        assert(views(out@) =~= values(firsts@).take(k as int));
    }
    assert(values(firsts@).take(n as int) =~= values(firsts@));
    *runnable_threads = out;
}

} // verus!
