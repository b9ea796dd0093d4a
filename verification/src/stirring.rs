//! Which threads a handle wakes, and what is told of them.
use vstd::prelude::*;
use crate::clock::Timestamp;
use crate::dealings::lemma_never_consumed;
use crate::entities::{ClosureStateView, IoHandleView, ThreadView, ThreadWaitView};
use crate::kinds::{IoHandleStatus, ThreadStatus, WaitMode, WaitStatus};
use crate::lookup::wait_ready;
use crate::order::lex_lt;
use crate::reports::RunnableThreadView;
use crate::search::{lemma_kept, select};
use crate::strmap::{keys, lemma_listed, values};
use crate::waking::law_refreshed_waits_show_readiness;
use crate::wake::{first_per_thread, one_per_thread, ready_with, threads_woken, woken_threads};

verus! {

/// A wait of the thread is ready and lists the handle.
pub open spec fn is_ready_for(s: ClosureStateView, thread_id: Seq<char>, handle_id: Seq<char>) -> bool {
    exists|w: Seq<char>| #[trigger]
        s.waits.contains_key(w) && s.waits[w].thread_id == thread_id && s.waits[w].status
            == WaitStatus::Ready && s.waits[w].handle_ids.contains(handle_id)
}

proof fn lemma_ready_ids(s: ClosureStateView, handle_id: Seq<char>, k: Seq<char>)
    requires
        s.waits.dom().finite(),
    ensures
        s.thread_ids_ready(handle_id).contains(k) <==> is_ready_for(s, k, handle_id),
{
    let all = values(s.waits);
    let f = ready_with(handle_id);
    let ready = select(all, f);
    let ids = s.thread_ids_ready(handle_id);
    lemma_listed(s.waits);
    lemma_kept(all, f, all.len() as int);
    if ids.contains(k) {
        let i = ids.index_of(k);
        assert(ids[i] == k && ids[i] == ready[i].thread_id);
        assert(ready.contains(ready[i]));
        assert(f(ready[i]) && all.contains(ready[i]));
        let j = all.index_of(ready[i]);
        assert(all[j] == ready[i]);
        let w = keys(s.waits)[j];
        assert(s.waits.contains_key(w) && s.waits[w] == all[j]);
    }
    if is_ready_for(s, k, handle_id) {
        let w = choose|w: Seq<char>| #[trigger]
            s.waits.contains_key(w) && s.waits[w].thread_id == k && s.waits[w].status
                == WaitStatus::Ready && s.waits[w].handle_ids.contains(handle_id);
        let j = keys(s.waits).index_of(w);
        assert(keys(s.waits).contains(w));
        assert(keys(s.waits)[j] == w && all[j] == s.waits[w]);
        assert(f(all[j]));
        assert(ready.contains(all[j]));
        let i = ready.index_of(all[j]);
        assert(ready[i] == all[j]);
        assert(ids[i] == k);
    }
}

proof fn lemma_woken(
    threads: Map<Seq<char>, ThreadView>,
    ids: Seq<Seq<char>>,
    n: int,
    now: Timestamp,
)
    requires
        0 <= n <= ids.len(),
    ensures
        ({
            let t = threads_woken(threads, ids, n, now);
            &&& t.dom() == threads.dom()
            &&& forall|k: Seq<char>|
                #![trigger t[k]]
                threads.contains_key(k) ==> t[k] == if ids.take(n).contains(k) && threads[k].status
                    == ThreadStatus::WaitingIo {
                    ThreadView { status: ThreadStatus::Running, updated_at: now, ..threads[k] }
                } else {
                    threads[k]
                }
        }),
    decreases n,
{
    let t = threads_woken(threads, ids, n, now);
    if n > 0 {
        lemma_woken(threads, ids, n - 1, now);
        let before = threads_woken(threads, ids, n - 1, now);
        assert(t.dom() =~= threads.dom());
        let shorter = ids.take(n - 1);
        let longer = ids.take(n);
        assert(longer =~= shorter.push(ids[n - 1]));
        assert forall|k: Seq<char>|
            #![trigger t[k]]
            threads.contains_key(k) implies t[k] == if longer.contains(k) && threads[k].status
            == ThreadStatus::WaitingIo {
            ThreadView { status: ThreadStatus::Running, updated_at: now, ..threads[k] }
        } else {
            threads[k]
        } by {
            let b = before[k];
            assert(longer[n - 1] == ids[n - 1]);
            if shorter.contains(k) {
                let i = shorter.index_of(k);
                assert(shorter[i] == k);
                assert(longer[i] == k);
            }
            if longer.contains(k) && k != ids[n - 1] {
                let i = longer.index_of(k);
                assert(longer[i] == k);
                assert(shorter[i] == k);
            }
        }
    } else {
        assert(ids.take(0) =~= Seq::<Seq<char>>::empty());
        assert forall|k: Seq<char>| !ids.take(0).contains(k) by {}
    }
}

/// A handle wakes just the threads that wait for something from outside and have a ready wait that
/// lists it; they run from there on, and every other thread stays as it is.
pub proof fn law_handle_wakes_who_waits_for_it(
    s: ClosureStateView,
    handle_id: Seq<char>,
    now: Timestamp,
    k: Seq<char>,
)
    requires
        s.waits.dom().finite(),
        s.threads.contains_key(k),
    ensures
        ({
            let t = s.woken(handle_id, now);
            &&& t.threads.dom() == s.threads.dom()
            &&& t.threads[k] == if s.threads[k].status == ThreadStatus::WaitingIo && is_ready_for(
                s,
                k,
                handle_id,
            ) {
                ThreadView { status: ThreadStatus::Running, updated_at: now, ..s.threads[k] }
            } else {
                s.threads[k]
            }
            &&& t == (ClosureStateView { threads: t.threads, ..s })
        }),
{
    let ids = s.thread_ids_ready(handle_id);
    lemma_woken(s.threads, ids, ids.len() as int, now);
    lemma_ready_ids(s, handle_id, k);
    assert(ids.take(ids.len() as int) =~= ids);
    let t = s.woken(handle_id, now).threads[k];
}

proof fn lemma_told(
    threads: Map<Seq<char>, ThreadView>,
    ids: Seq<Seq<char>>,
    n: int,
    now: Timestamp,
    handle_id: Seq<char>,
)
    requires
        0 <= n <= ids.len(),
        forall|k: Seq<char>| #[trigger] threads.contains_key(k) ==> threads[k].id == k,
    ensures
        ({
            let list = woken_threads(threads, ids, n, now, handle_id);
            &&& forall|i: int|
                0 <= i < list.len() ==> {
                    let r = #[trigger] list[i];
                    &&& threads.contains_key(r.thread_id)
                    &&& threads[r.thread_id].status == ThreadStatus::WaitingIo
                    &&& ids.take(n).contains(r.thread_id)
                    &&& r.root_problem_id == threads[r.thread_id].root_problem_id
                    &&& r.wake_reason == "handle "@ + handle_id + " ready"@
                }
            &&& forall|k: Seq<char>| #[trigger]
                threads.contains_key(k) && threads[k].status == ThreadStatus::WaitingIo && ids.take(
                    n,
                ).contains(k) ==> exists|i: int|
                    0 <= i < list.len() && (#[trigger] list[i]).thread_id == k
        }),
    decreases n,
{
    let list = woken_threads(threads, ids, n, now, handle_id);
    if n > 0 {
        lemma_told(threads, ids, n - 1, now, handle_id);
        lemma_woken(threads, ids, n - 1, now);
        let before = threads_woken(threads, ids, n - 1, now);
        let shorter_list = woken_threads(threads, ids, n - 1, now, handle_id);
        let id = ids[n - 1];
        let shorter = ids.take(n - 1);
        let longer = ids.take(n);
        assert(longer =~= shorter.push(id));
        assert(longer[n - 1] == id);
        let b = before[id];
        assert forall|i: int| 0 <= i < list.len() implies {
            let r = #[trigger] list[i];
            &&& threads.contains_key(r.thread_id)
            &&& threads[r.thread_id].status == ThreadStatus::WaitingIo
            &&& longer.contains(r.thread_id)
            &&& r.root_problem_id == threads[r.thread_id].root_problem_id
            &&& r.wake_reason == "handle "@ + handle_id + " ready"@
        } by {
            if i < shorter_list.len() {
                let r = shorter_list[i];
                assert(list[i] == r);
                assert(shorter.contains(r.thread_id));
                let j = shorter.index_of(r.thread_id);
                assert(shorter[j] == r.thread_id);
                assert(longer[j] == r.thread_id);
            }
        }
        assert forall|k: Seq<char>| #[trigger]
            threads.contains_key(k) && threads[k].status == ThreadStatus::WaitingIo
                && longer.contains(k) implies exists|i: int|
            0 <= i < list.len() && (#[trigger] list[i]).thread_id == k by {
            if shorter.contains(k) {
                let i = choose|i: int|
                    0 <= i < shorter_list.len() && (#[trigger] shorter_list[i]).thread_id == k;
                assert(list[i] == shorter_list[i]);
                assert(list[i].thread_id == k);
            } else {
                let j = longer.index_of(k);
                assert(longer[j] == k);
                if j < n - 1 {
                    assert(shorter[j] == k);
                }
                assert(k == id);
                assert(before[id] == threads[id]);
                assert(list[list.len() - 1].thread_id == k);
            }
        }
    } else {
        assert forall|k: Seq<char>| !ids.take(0).contains(k) by {}
    }
}

/// Of the threads that a handle wakes, each is told with the problem it works on and the handle that
/// woke it; no other is told of.
pub proof fn law_woken_threads_are_told(s: ClosureStateView, handle_id: Seq<char>, now: Timestamp)
    requires
        s.filed(),
    ensures
        ({
            let list = s.woken_by(handle_id, now);
            &&& forall|i: int|
                0 <= i < list.len() ==> {
                    let r = #[trigger] list[i];
                    &&& s.threads.contains_key(r.thread_id)
                    &&& s.threads[r.thread_id].status == ThreadStatus::WaitingIo
                    &&& is_ready_for(s, r.thread_id, handle_id)
                    &&& r.root_problem_id == s.threads[r.thread_id].root_problem_id
                    &&& r.wake_reason == "handle "@ + handle_id + " ready"@
                }
            &&& forall|k: Seq<char>| #[trigger]
                s.threads.contains_key(k) && s.threads[k].status == ThreadStatus::WaitingIo
                    && is_ready_for(s, k, handle_id) ==> exists|i: int|
                    0 <= i < list.len() && (#[trigger] list[i]).thread_id == k
        }),
{
    let ids = s.thread_ids_ready(handle_id);
    let list = s.woken_by(handle_id, now);
    lemma_told(s.threads, ids, ids.len() as int, now, handle_id);
    assert(ids.take(ids.len() as int) =~= ids);
    assert forall|i: int| 0 <= i < list.len() implies is_ready_for(
        s,
        (#[trigger] list[i]).thread_id,
        handle_id,
    ) by {
        lemma_ready_ids(s, handle_id, list[i].thread_id);
    }
    assert forall|k: Seq<char>| #[trigger]
        s.threads.contains_key(k) && s.threads[k].status == ThreadStatus::WaitingIo && is_ready_for(
            s,
            k,
            handle_id,
        ) implies exists|i: int| 0 <= i < list.len() && (#[trigger] list[i]).thread_id == k by {
        lemma_ready_ids(s, handle_id, k);
    }
}

proof fn lemma_first_per_thread(s: Seq<RunnableThreadView>, n: int)
    requires
        0 <= n <= s.len(),
    ensures
        ({
            let m = first_per_thread(s, n);
            &&& m.dom().finite()
            &&& forall|k: Seq<char>| #[trigger]
                m.contains_key(k) ==> exists|i: int|
                    0 <= i < n && #[trigger] s[i] == m[k] && s[i].thread_id == k && forall|j: int|
                        0 <= j < i ==> (#[trigger] s[j]).thread_id != k
            &&& forall|i: int| 0 <= i < n ==> m.contains_key((#[trigger] s[i]).thread_id)
        }),
    decreases n,
{
    if n > 0 {
        lemma_first_per_thread(s, n - 1);
        let before = first_per_thread(s, n - 1);
        let m = first_per_thread(s, n);
        assert forall|k: Seq<char>| #[trigger] m.contains_key(k) implies exists|i: int|
            0 <= i < n && #[trigger] s[i] == m[k] && s[i].thread_id == k && forall|j: int|
                0 <= j < i ==> (#[trigger] s[j]).thread_id != k by {
            if before.contains_key(k) {
                let i = choose|i: int|
                    0 <= i < n - 1 && #[trigger] s[i] == before[k] && s[i].thread_id == k && forall|
                        j: int,
                    |
                        0 <= j < i ==> (#[trigger] s[j]).thread_id != k;
                assert(s[i] == m[k]);
            } else {
                assert(k == s[n - 1].thread_id);
                assert forall|j: int| 0 <= j < n - 1 implies (#[trigger] s[j]).thread_id != k by {
                    assert(before.contains_key(s[j].thread_id));
                }
                assert(s[n - 1] == m[k]);
            }
        }
    }
}

/// Of several entries for one thread the first one stays; every thread keeps one, and they come in the
/// order of their names.
pub proof fn law_each_thread_is_told_once(s: Seq<RunnableThreadView>)
    ensures
        ({
            let list = one_per_thread(s);
            &&& forall|a: int, b: int|
                0 <= a < b < list.len() ==> lex_lt(
                    (#[trigger] list[a]).thread_id,
                    (#[trigger] list[b]).thread_id,
                )
            &&& forall|a: int|
                0 <= a < list.len() ==> exists|i: int|
                    0 <= i < s.len() && #[trigger] s[i] == #[trigger] list[a] && forall|j: int|
                        0 <= j < i ==> (#[trigger] s[j]).thread_id != s[i].thread_id
            &&& forall|i: int|
                0 <= i < s.len() ==> exists|a: int|
                    0 <= a < list.len() && (#[trigger] list[a]).thread_id == (
                    #[trigger] s[i]).thread_id
        }),
{
    let m = first_per_thread(s, s.len() as int);
    let list = one_per_thread(s);
    let ks = keys(m);
    lemma_first_per_thread(s, s.len() as int);
    lemma_listed(m);
    assert forall|a: int| 0 <= a < list.len() implies (#[trigger] list[a]).thread_id == ks[a] && exists|
        i: int,
    |
        0 <= i < s.len() && #[trigger] s[i] == list[a] && forall|j: int|
            0 <= j < i ==> (#[trigger] s[j]).thread_id != s[i].thread_id by {
        assert(m.contains_key(ks[a]));
        assert(list[a] == m[ks[a]]);
    }
    assert forall|a: int, b: int| 0 <= a < b < list.len() implies lex_lt(
        (#[trigger] list[a]).thread_id,
        (#[trigger] list[b]).thread_id,
    ) by {
        assert(lex_lt(ks[a], ks[b]));
    }
    assert forall|i: int| 0 <= i < s.len() implies exists|a: int|
        0 <= a < list.len() && (#[trigger] list[a]).thread_id == (#[trigger] s[i]).thread_id by {
        let k = s[i].thread_id;
        assert(m.contains_key(k));
        assert(ks.contains(k));
        let a = ks.index_of(k);
        assert(ks[a] == k);
        assert(list[a].thread_id == k);
    }
}

/// A wait for all of its handles is ready once none of them is pending; a wait for any, once one is
/// not. A handle that is not there counts as pending.
pub proof fn law_wait_is_ready_by_its_handles(
    handles: Map<Seq<char>, IoHandleView>,
    wait: ThreadWaitView,
)
    ensures
        wait.mode == WaitMode::All ==> (wait_ready(handles, wait) <==> forall|i: int|
            0 <= i < wait.handle_ids.len() ==> handles.contains_key(#[trigger] wait.handle_ids[i])
                && (handles[wait.handle_ids[i]].status == IoHandleStatus::Ready
                || handles[wait.handle_ids[i]].status == IoHandleStatus::Consumed
                || handles[wait.handle_ids[i]].status == IoHandleStatus::Failed
                || handles[wait.handle_ids[i]].status == IoHandleStatus::Cancelled)),
        wait.mode == WaitMode::Any ==> (wait_ready(handles, wait) <==> exists|i: int|
            0 <= i < wait.handle_ids.len() && handles.contains_key(#[trigger] wait.handle_ids[i])
                && (handles[wait.handle_ids[i]].status == IoHandleStatus::Ready
                || handles[wait.handle_ids[i]].status == IoHandleStatus::Consumed
                || handles[wait.handle_ids[i]].status == IoHandleStatus::Failed
                || handles[wait.handle_ids[i]].status == IoHandleStatus::Cancelled)),
{
}

/// When a handle changes, every wait that lists it and was not taken is ready or waiting as its handles
/// say; all other waits, and everything else, stay as they are.
pub proof fn law_waits_follow_their_handles(
    s: ClosureStateView,
    handle_id: Seq<char>,
    now: Timestamp,
    w: Seq<char>,
)
    requires
        s.filed(),
        s.waits.contains_key(w),
    ensures
        ({
            let t = s.refreshed(handle_id, now);
            &&& t == (ClosureStateView { waits: t.waits, ..s })
            &&& !s.waits[w].handle_ids.contains(handle_id) ==> t.waits[w] == s.waits[w]
            &&& s.waits[w].handle_ids.contains(handle_id) ==> {
                &&& s.waits[w].status == WaitStatus::Consumed ==> t.waits[w].status
                    == WaitStatus::Consumed
                &&& s.waits[w].status != WaitStatus::Consumed ==> t.waits[w].status == if
                    wait_ready(s.handles, s.waits[w]) {
                    WaitStatus::Ready
                } else {
                    WaitStatus::Waiting
                }
                &&& t.waits[w].handle_ids == s.waits[w].handle_ids && t.waits[w].mode
                    == s.waits[w].mode && t.waits[w].thread_id == s.waits[w].thread_id
            }
        }),
{
    law_refreshed_waits_show_readiness(s, handle_id, now, w);
    let ids = s.wait_ids_listing(handle_id);
    lemma_never_consumed(s.waits, s.handles, ids, ids.len() as int, now);
    let t = s.refreshed(handle_id, now).waits[w];
    lemma_same_readiness(s.handles, s.waits[w], t);
}

proof fn lemma_same_readiness(
    handles: Map<Seq<char>, IoHandleView>,
    a: ThreadWaitView,
    b: ThreadWaitView,
)
    requires
        a.handle_ids == b.handle_ids,
        a.mode == b.mode,
    ensures
        wait_ready(handles, a) == wait_ready(handles, b),
{
    if wait_ready(handles, a) && a.mode == WaitMode::Any {
        let i = choose|i: int|
            0 <= i < a.handle_ids.len() && crate::lookup::settled(
                handles,
                #[trigger] a.handle_ids[i],
            );
        assert(crate::lookup::settled(handles, b.handle_ids[i]));
    }
    if wait_ready(handles, b) && a.mode == WaitMode::Any {
        let i = choose|i: int|
            0 <= i < b.handle_ids.len() && crate::lookup::settled(
                handles,
                #[trigger] b.handle_ids[i],
            );
        assert(crate::lookup::settled(handles, a.handle_ids[i]));
    }
}

} // verus!
