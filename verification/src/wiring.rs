//! Threads, handles, waits and mail that fit together, and the steps that keep them so.
use vstd::prelude::*;
use crate::clock::Timestamp;
use crate::entities::{ClosureStateView, EventKeyView, InboxItemView, IoHandleView, PassiveEventView, ThreadView, ThreadWaitView};
use crate::kinds::{IoHandleKind, IoHandleStatus, ThreadStatus, WaitMode, WaitStatus};
use crate::lookup::{awaits_thread, settled, wait_ready};
use crate::search::{count, counted};
use crate::strmap::{keys, lemma_listed, values};
use crate::validation::lemma_first_fault;
use crate::wake::{threads_woken, waits_refreshed};

verus! {

/// The status of a handle on a child thread suits the thread.
pub open spec fn suits(handle: IoHandleView, thread: ThreadView) -> bool {
    match handle.status {
        IoHandleStatus::Failed => thread.status == ThreadStatus::Failed,
        IoHandleStatus::Ready => thread.status == ThreadStatus::Done,
        IoHandleStatus::Consumed => thread.joined_at is Some,
        _ => true,
    }
}

/// A key that names a thread names one that is there, and the same one as what bears the key.
pub open spec fn key_fits(
    threads: Map<Seq<char>, ThreadView>,
    key: Option<EventKeyView>,
    named: Option<Seq<char>>,
) -> bool {
    key is Some && key->0.target_thread_id is Some ==> threads.contains_key(
        key->0.target_thread_id->0,
    ) && named == key->0.target_thread_id
}

impl ClosureStateView {
    /// What a thread names is there, and its parent lists it.
    pub open spec fn thread_fits(self, id: Seq<char>) -> bool {
        let thread = self.threads[id];
        &&& self.problems.contains_key(thread.root_problem_id)
        &&& thread.process_id == self.process_id
        &&& thread.parent_thread_id is Some ==> self.threads.contains_key(
            thread.parent_thread_id->0,
        ) && self.threads[thread.parent_thread_id->0].child_thread_ids.contains(id)
    }

    /// What a handle names is there, and its status suits the thread that it is for.
    pub open spec fn handle_fits(self, id: Seq<char>) -> bool {
        let handle = self.handles[id];
        &&& self.threads.contains_key(handle.owner_thread_id)
        &&& handle.kind == IoHandleKind::ChildThread ==> {
            &&& handle.target_thread_id is Some
            &&& self.threads.contains_key(handle.target_thread_id->0)
            &&& self.threads[handle.target_thread_id->0].parent_thread_id == Some(
                handle.owner_thread_id,
            )
            &&& suits(handle, self.threads[handle.target_thread_id->0])
        }
        &&& handle.kind != IoHandleKind::ChildThread ==> {
            &&& handle.target_thread_id is None
            &&& handle.event_key is Some && handle.event_key->0.target_thread_id is Some
                ==> self.threads.contains_key(handle.event_key->0.target_thread_id->0)
        }
    }

    /// The handle is for this child thread.
    pub open spec fn is_for(self, handle_id: Seq<char>, thread_id: Seq<char>) -> bool {
        self.handles.contains_key(handle_id) && (awaits_thread(thread_id))(self.handles[handle_id])
    }

    /// Exactly one handle is for this child thread.
    pub open spec fn awaited_once(self, thread_id: Seq<char>) -> bool {
        &&& exists|h: Seq<char>| #[trigger] self.is_for(h, thread_id)
        &&& forall|h: Seq<char>, k: Seq<char>| #[trigger]
            self.is_for(h, thread_id) && #[trigger] self.is_for(k, thread_id) ==> h == k
    }

    /// What a wait names is there, and it is not ready before its handles are.
    pub open spec fn wait_fits(self, id: Seq<char>) -> bool {
        let wait = self.waits[id];
        &&& self.threads.contains_key(wait.thread_id)
        &&& wait.handle_ids.len() > 0
        &&& forall|i: int|
            0 <= i < wait.handle_ids.len() ==> self.handles.contains_key(
                #[trigger] wait.handle_ids[i],
            )
        &&& wait.status == WaitStatus::Ready ==> wait_ready(self.handles, wait)
    }

    /// All threads, handles, waits and mail fit together.
    pub open spec fn wired(self) -> bool {
        &&& self.header_fault() is None
        &&& forall|id: Seq<char>| #[trigger] self.threads.contains_key(id) ==> self.thread_fits(id)
        &&& forall|id: Seq<char>| #[trigger] self.handles.contains_key(id) ==> self.handle_fits(id)
        &&& forall|id: Seq<char>| #[trigger]
            self.threads.contains_key(id) && self.threads[id].parent_thread_id is Some
                ==> self.awaited_once(id)
        &&& forall|id: Seq<char>| #[trigger] self.waits.contains_key(id) ==> self.wait_fits(id)
        &&& forall|i: int|
            0 <= i < self.passive_events.len() ==> key_fits(
                self.threads,
                (#[trigger] self.passive_events[i]).event_key,
                self.passive_events[i].target_thread_id,
            )
        &&& forall|i: int|
            0 <= i < self.inbox.len() ==> key_fits(
                self.threads,
                (#[trigger] self.inbox[i]).event_key,
                self.inbox[i].target_thread_id,
            )
    }

    /// Nothing is wrong with any problem or ticket.
    pub open spec fn planned(self) -> bool {
        &&& forall|id: Seq<char>| #[trigger]
            self.problems.contains_key(id) ==> self.problem_fault(id) is None
        &&& forall|id: Seq<char>| #[trigger]
            self.tickets.contains_key(id) ==> self.ticket_fault(id) is None
    }
}

/// The places up to `n` whose element satisfies `f`.
spec fn places<T>(s: Seq<T>, f: spec_fn(T) -> bool, n: int) -> Set<int> {
    Set::new(|i: int| 0 <= i < n && f(s[i]))
}

proof fn lemma_counted_places<T>(s: Seq<T>, f: spec_fn(T) -> bool, n: int)
    requires
        0 <= n <= s.len(),
    ensures
        places(s, f, n).finite(),
        places(s, f, n).len() == counted(s, f, n),
    decreases n,
{
    if n == 0 {
        assert(places(s, f, 0) =~= Set::empty());
    } else {
        lemma_counted_places(s, f, n - 1);
        if f(s[n - 1]) {
            assert(places(s, f, n) =~= places(s, f, n - 1).insert(n - 1));
        } else {
            assert(places(s, f, n) =~= places(s, f, n - 1));
        }
    }
}

/// One handle is counted for a thread exactly if exactly one is for it.
proof fn lemma_awaited_once(s: ClosureStateView, id: Seq<char>)
    requires
        s.handles.dom().finite(),
    ensures
        count(values(s.handles), awaits_thread(id)) == 1 <==> s.awaited_once(id),
{
    let f = awaits_thread(id);
    let ks = keys(s.handles);
    let vs = values(s.handles);
    lemma_listed(s.handles);
    lemma_counted_places(vs, f, vs.len() as int);
    let set = places(vs, f, vs.len() as int);
    assert forall|i: int| #[trigger] set.contains(i) <==> 0 <= i < ks.len() && s.is_for(ks[i], id) by {
    }
    if set.len() == 1 {
        let i = set.choose();
        assert(set.contains(i));
        assert(s.is_for(ks[i], id));
        assert forall|h: Seq<char>, k: Seq<char>| #[trigger] s.is_for(h, id) && #[trigger] s.is_for(
            k,
            id,
        ) implies h == k by {
            assert(s.handles.contains_key(h) && s.handles.contains_key(k));
            let a = ks.index_of(h);
            let b = ks.index_of(k);
            assert(ks[a] == h && ks[b] == k);
            assert(set.contains(a) && set.contains(b));
            if a != b {
                assert(set.remove(a).contains(b));
                assert(set.remove(a).remove(b).len() == set.len() - 2);
            }
        }
    }
    if s.awaited_once(id) {
        let h = choose|h: Seq<char>| #[trigger] s.is_for(h, id);
        assert(s.handles.contains_key(h));
        let a = ks.index_of(h);
        assert(ks[a] == h);
        assert(set.contains(a));
        assert(set =~= Set::empty().insert(a)) by {
            assert forall|b: int| #[trigger] set.contains(b) implies b == a by {
                assert(s.is_for(ks[b], id));
                assert(ks[b] == ks[a]);
                if b < a {
                    crate::order::lemma_lex_irreflexive(ks[a]);
                    assert(crate::order::lex_lt(ks[b], ks[a]));
                } else if a < b {
                    crate::order::lemma_lex_irreflexive(ks[a]);
                    assert(crate::order::lex_lt(ks[a], ks[b]));
                }
            }
        }
    }
}

/// A state is free of faults exactly if it is wired and planned.
pub proof fn law_consistent_is_wired_and_planned(s: ClosureStateView)
    requires
        s.filed(),
    ensures
        s.consistent() <==> s.wired() && s.planned(),
{
    assert forall|id: Seq<char>| #[trigger] s.threads.contains_key(id) implies (s.awaiting_fault(
        id,
    ) is None <==> (s.threads[id].parent_thread_id is Some ==> s.awaited_once(id))) by {
        lemma_awaited_once(s, id);
    }
    assert forall|id: Seq<char>| #[trigger] s.threads.contains_key(id) implies (s.thread_fault(
        id,
    ) is None <==> s.thread_fits(id)) by {}
    assert forall|id: Seq<char>| #[trigger] s.handles.contains_key(id) implies (s.handle_fault(
        id,
    ) is None <==> s.handle_fits(id)) by {}
    assert forall|id: Seq<char>| #[trigger] s.waits.contains_key(id) implies (s.wait_fault(
        id,
    ) is None <==> s.wait_fits(id)) by {
        let ids = s.waits[id].handle_ids;
        lemma_first_fault(ids, s.listed_handle_faults(), 0);
        if s.wait_fits(id) {
            assert forall|i: int| 0 <= i < ids.len() implies (s.listed_handle_faults())(
                #[trigger] ids[i],
            ) is None by {}
        }
        if s.wait_fault(id) is None {
            assert forall|i: int| 0 <= i < ids.len() implies s.handles.contains_key(
                #[trigger] ids[i],
            ) by {
                assert((s.listed_handle_faults())(ids[i]) is None);
            }
        }
    }
    assert forall|i: int| 0 <= i < s.passive_events.len() implies ((s.event_faults())(
        #[trigger] s.passive_events[i],
    ) is None <==> key_fits(
        s.threads,
        s.passive_events[i].event_key,
        s.passive_events[i].target_thread_id,
    )) by {}
    assert forall|i: int| 0 <= i < s.inbox.len() implies ((s.item_faults())(
        #[trigger] s.inbox[i],
    ) is None <==> key_fits(s.threads, s.inbox[i].event_key, s.inbox[i].target_thread_id)) by {}
}

/// The state but for what plays no part in how threads, handles, waits and mail fit together.
pub open spec fn same_wiring(a: ClosureStateView, b: ClosureStateView) -> bool {
    &&& b.schema_version == a.schema_version
    &&& b.process_id == a.process_id
    &&& b.main_thread_id == a.main_thread_id
    &&& b.process == a.process
    &&& b.root_problem_id == a.root_problem_id
    &&& b.threads == a.threads
    &&& b.handles == a.handles
    &&& b.waits == a.waits
    &&& b.passive_events == a.passive_events
    &&& b.inbox == a.inbox
    &&& forall|id: Seq<char>| #[trigger] a.problems.contains_key(id) ==> b.problems.contains_key(id)
}

/// Whatever else changes, what is wired stays wired.
pub proof fn lemma_same_wiring(a: ClosureStateView, b: ClosureStateView)
    requires
        a.wired(),
        same_wiring(a, b),
    ensures
        b.wired(),
{
    assert forall|id: Seq<char>| #[trigger] b.threads.contains_key(id) implies b.thread_fits(id) by {
        assert(a.thread_fits(id));
    }
    assert forall|id: Seq<char>| #[trigger] b.handles.contains_key(id) implies b.handle_fits(id) by {
        assert(a.handle_fits(id));
    }
    assert forall|id: Seq<char>| #[trigger]
        b.threads.contains_key(id) && b.threads[id].parent_thread_id is Some implies b.awaited_once(
        id,
    ) by {
        assert(a.awaited_once(id));
        let h = choose|h: Seq<char>| #[trigger] a.is_for(h, id);
        assert(b.is_for(h, id));
        assert forall|h: Seq<char>, k: Seq<char>| #[trigger] b.is_for(h, id) && #[trigger] b.is_for(
            k,
            id,
        ) implies h == k by {
            assert(a.is_for(h, id) && a.is_for(k, id));
        }
    }
    assert forall|id: Seq<char>| #[trigger] b.waits.contains_key(id) implies b.wait_fits(id) by {
        assert(a.wait_fits(id));
    }
}

/// What was settled stays settled, so what was ready stays ready.
pub proof fn lemma_ready_stays(
    a: Map<Seq<char>, IoHandleView>,
    b: Map<Seq<char>, IoHandleView>,
    wait: ThreadWaitView,
)
    requires
        wait_ready(a, wait),
        forall|id: Seq<char>| #[trigger] settled(a, id) ==> settled(b, id),
    ensures
        wait_ready(b, wait),
{
    match wait.mode {
        WaitMode::All => {
            assert forall|i: int| 0 <= i < wait.handle_ids.len() implies settled(
                b,
                #[trigger] wait.handle_ids[i],
            ) by {
                assert(settled(a, wait.handle_ids[i]));
            }
        },
        WaitMode::Any => {
            let i = choose|i: int|
                0 <= i < wait.handle_ids.len() && settled(a, #[trigger] wait.handle_ids[i]);
            assert(settled(b, wait.handle_ids[i]));
        },
    }
}

/// A handle that keeps what it is for and does not become pending again.
pub open spec fn handle_moves(a: IoHandleView, b: IoHandleView) -> bool {
    &&& b.kind == a.kind
    &&& b.owner_thread_id == a.owner_thread_id
    &&& b.target_thread_id == a.target_thread_id
    &&& b.event_key == a.event_key
    &&& a.status.is_settled() ==> b.status.is_settled()
}

/// A handle moves on, to a status that suits its thread.
pub proof fn lemma_handle_moved(s: ClosureStateView, id: Seq<char>, handle: IoHandleView)
    requires
        s.wired(),
        s.handles.contains_key(id),
        handle_moves(s.handles[id], handle),
        handle.kind == IoHandleKind::ChildThread ==> suits(
            handle,
            s.threads[handle.target_thread_id->0],
        ),
    ensures
        (ClosureStateView { handles: s.handles.insert(id, handle), ..s }).wired(),
{
    let t = ClosureStateView { handles: s.handles.insert(id, handle), ..s };
    assert(s.handle_fits(id));
    assert forall|k: Seq<char>| #[trigger] t.handles.contains_key(k) implies t.handle_fits(k) by {
        assert(s.handles.contains_key(k));
        assert(s.handle_fits(k));
    }
    assert forall|k: Seq<char>| #[trigger] settled(s.handles, k) implies settled(t.handles, k) by {}
    assert forall|k: Seq<char>| #[trigger] t.threads.contains_key(k) implies t.thread_fits(k) by {
        assert(s.thread_fits(k));
    }
    assert forall|k: Seq<char>, tid: Seq<char>| #[trigger] t.is_for(k, tid) == s.is_for(k, tid) by {}
    assert forall|tid: Seq<char>| #[trigger]
        t.threads.contains_key(tid) && t.threads[tid].parent_thread_id is Some
        implies t.awaited_once(tid) by {
        assert(s.awaited_once(tid));
        let h = choose|h: Seq<char>| #[trigger] s.is_for(h, tid);
        assert(t.is_for(h, tid));
    }
    assert forall|k: Seq<char>| #[trigger] t.waits.contains_key(k) implies t.wait_fits(k) by {
        assert(s.wait_fits(k));
        if t.waits[k].status == WaitStatus::Ready {
            lemma_ready_stays(s.handles, t.handles, t.waits[k]);
        }
    }
}

/// A thread that keeps where it belongs.
pub open spec fn thread_moves(a: ThreadView, b: ThreadView) -> bool {
    &&& b.process_id == a.process_id
    &&& b.parent_thread_id == a.parent_thread_id
    &&& b.root_problem_id == a.root_problem_id
    &&& b.child_thread_ids == a.child_thread_ids
}

/// A thread moves on, to a status that suits the handles that are for it.
pub proof fn lemma_thread_moved(s: ClosureStateView, id: Seq<char>, thread: ThreadView)
    requires
        s.wired(),
        s.threads.contains_key(id),
        thread_moves(s.threads[id], thread),
        forall|h: Seq<char>| #[trigger] s.is_for(h, id) ==> suits(s.handles[h], thread),
    ensures
        (ClosureStateView { threads: s.threads.insert(id, thread), ..s }).wired(),
{
    let t = ClosureStateView { threads: s.threads.insert(id, thread), ..s };
    assert(s.thread_fits(id));
    assert forall|k: Seq<char>| #[trigger] t.threads.contains_key(k) implies t.thread_fits(k) by {
        assert(s.threads.contains_key(k));
        assert(s.thread_fits(k));
    }
    assert forall|k: Seq<char>| #[trigger] t.handles.contains_key(k) implies t.handle_fits(k) by {
        assert(s.handle_fits(k));
        if t.handles[k].kind == IoHandleKind::ChildThread && t.handles[k].target_thread_id == Some(
            id,
        ) {
            assert(s.is_for(k, id));
        }
    }
    assert forall|tid: Seq<char>| #[trigger]
        t.threads.contains_key(tid) && t.threads[tid].parent_thread_id is Some
        implies t.awaited_once(tid) by {
        assert(s.threads.contains_key(tid));
        assert(s.awaited_once(tid));
        let h = choose|h: Seq<char>| #[trigger] s.is_for(h, tid);
        assert(t.is_for(h, tid));
        assert forall|h: Seq<char>, k: Seq<char>| #[trigger] t.is_for(h, tid) && #[trigger] t.is_for(
            k,
            tid,
        ) implies h == k by {
            assert(s.is_for(h, tid) && s.is_for(k, tid));
        }
    }
    assert forall|k: Seq<char>| #[trigger] t.waits.contains_key(k) implies t.wait_fits(k) by {
        assert(s.wait_fits(k));
    }
}

/// The waits of a state give way to others that list the same handles, and none of which is ready
/// before its handles are.
pub proof fn lemma_waits_moved(s: ClosureStateView, waits: Map<Seq<char>, ThreadWaitView>)
    requires
        s.wired(),
        forall|id: Seq<char>| #[trigger]
            waits.contains_key(id) ==> s.waits.contains_key(id) && waits[id].thread_id
                == s.waits[id].thread_id && waits[id].handle_ids == s.waits[id].handle_ids && (
            waits[id].status == WaitStatus::Ready ==> wait_ready(s.handles, waits[id])),
    ensures
        (ClosureStateView { waits, ..s }).wired(),
{
    let t = ClosureStateView { waits, ..s };
    assert forall|k: Seq<char>| #[trigger] t.waits.contains_key(k) implies t.wait_fits(k) by {
        assert(s.wait_fits(k));
    }
    assert forall|k: Seq<char>| #[trigger] t.threads.contains_key(k) implies t.thread_fits(k) by {
        assert(s.thread_fits(k));
    }
    assert forall|k: Seq<char>| #[trigger] t.handles.contains_key(k) implies t.handle_fits(k) by {
        assert(s.handle_fits(k));
    }
    assert forall|k: Seq<char>, tid: Seq<char>| #[trigger] t.is_for(k, tid) == s.is_for(k, tid) by {}
    assert forall|tid: Seq<char>| #[trigger]
        t.threads.contains_key(tid) && t.threads[tid].parent_thread_id is Some
        implies t.awaited_once(tid) by {
        assert(s.awaited_once(tid));
        let h = choose|h: Seq<char>| #[trigger] s.is_for(h, tid);
        assert(t.is_for(h, tid));
    }
}

/// Events and items give way to others that name the same keys and threads.
pub proof fn lemma_mail_moved(
    s: ClosureStateView,
    passive_events: Seq<PassiveEventView>,
    inbox: Seq<InboxItemView>,
)
    requires
        s.wired(),
        forall|i: int|
            0 <= i < passive_events.len() ==> key_fits(
                s.threads,
                (#[trigger] passive_events[i]).event_key,
                passive_events[i].target_thread_id,
            ),
        forall|i: int|
            0 <= i < inbox.len() ==> key_fits(
                s.threads,
                (#[trigger] inbox[i]).event_key,
                inbox[i].target_thread_id,
            ),
    ensures
        (ClosureStateView { passive_events, inbox, ..s }).wired(),
{
    let t = ClosureStateView { passive_events, inbox, ..s };
    assert forall|k: Seq<char>| #[trigger] t.waits.contains_key(k) implies t.wait_fits(k) by {
        assert(s.wait_fits(k));
    }
    assert forall|k: Seq<char>| #[trigger] t.threads.contains_key(k) implies t.thread_fits(k) by {
        assert(s.thread_fits(k));
    }
    assert forall|k: Seq<char>| #[trigger] t.handles.contains_key(k) implies t.handle_fits(k) by {
        assert(s.handle_fits(k));
    }
    assert forall|k: Seq<char>, tid: Seq<char>| #[trigger] t.is_for(k, tid) == s.is_for(k, tid) by {}
    assert forall|tid: Seq<char>| #[trigger]
        t.threads.contains_key(tid) && t.threads[tid].parent_thread_id is Some
        implies t.awaited_once(tid) by {
        assert(s.awaited_once(tid));
        let h = choose|h: Seq<char>| #[trigger] s.is_for(h, tid);
        assert(t.is_for(h, tid));
    }
}

/// A handle on mail is added.
pub proof fn lemma_handle_added(s: ClosureStateView, id: Seq<char>, handle: IoHandleView)
    requires
        s.wired(),
        !s.handles.contains_key(id),
        handle.kind != IoHandleKind::ChildThread,
        s.threads.contains_key(handle.owner_thread_id),
        handle.target_thread_id is None,
        handle.event_key is Some && handle.event_key->0.target_thread_id is Some
            ==> s.threads.contains_key(handle.event_key->0.target_thread_id->0),
    ensures
        (ClosureStateView { handles: s.handles.insert(id, handle), ..s }).wired(),
{
    let t = ClosureStateView { handles: s.handles.insert(id, handle), ..s };
    assert forall|k: Seq<char>| #[trigger] t.handles.contains_key(k) implies t.handle_fits(k) by {
        if k != id {
            assert(s.handle_fits(k));
        }
    }
    assert forall|k: Seq<char>| #[trigger] settled(s.handles, k) implies settled(t.handles, k) by {}
    assert forall|k: Seq<char>| #[trigger] t.threads.contains_key(k) implies t.thread_fits(k) by {
        assert(s.thread_fits(k));
    }
    assert forall|k: Seq<char>, tid: Seq<char>| #[trigger] t.is_for(k, tid) == s.is_for(k, tid) by {}
    assert forall|tid: Seq<char>| #[trigger]
        t.threads.contains_key(tid) && t.threads[tid].parent_thread_id is Some
        implies t.awaited_once(tid) by {
        assert(s.awaited_once(tid));
        let h = choose|h: Seq<char>| #[trigger] s.is_for(h, tid);
        assert(t.is_for(h, tid));
    }
    assert forall|k: Seq<char>| #[trigger] t.waits.contains_key(k) implies t.wait_fits(k) by {
        assert(s.wait_fits(k));
        if t.waits[k].status == WaitStatus::Ready {
            lemma_ready_stays(s.handles, t.handles, t.waits[k]);
        }
    }
}

/// A wait is added that is not ready yet.
pub proof fn lemma_wait_added(s: ClosureStateView, id: Seq<char>, wait: ThreadWaitView)
    requires
        s.wired(),
        s.threads.contains_key(wait.thread_id),
        wait.handle_ids.len() > 0,
        forall|i: int|
            0 <= i < wait.handle_ids.len() ==> s.handles.contains_key(
                #[trigger] wait.handle_ids[i],
            ),
        wait.status != WaitStatus::Ready,
    ensures
        (ClosureStateView { waits: s.waits.insert(id, wait), ..s }).wired(),
{
    let t = ClosureStateView { waits: s.waits.insert(id, wait), ..s };
    assert forall|k: Seq<char>| #[trigger] t.waits.contains_key(k) implies t.wait_fits(k) by {
        if k != id {
            assert(s.wait_fits(k));
        }
    }
    assert forall|k: Seq<char>| #[trigger] t.threads.contains_key(k) implies t.thread_fits(k) by {
        assert(s.thread_fits(k));
    }
    assert forall|k: Seq<char>| #[trigger] t.handles.contains_key(k) implies t.handle_fits(k) by {
        assert(s.handle_fits(k));
    }
    assert forall|k: Seq<char>, tid: Seq<char>| #[trigger] t.is_for(k, tid) == s.is_for(k, tid) by {}
    assert forall|tid: Seq<char>| #[trigger]
        t.threads.contains_key(tid) && t.threads[tid].parent_thread_id is Some
        implies t.awaited_once(tid) by {
        assert(s.awaited_once(tid));
        let h = choose|h: Seq<char>| #[trigger] s.is_for(h, tid);
        assert(t.is_for(h, tid));
    }
}

proof fn lemma_waits_refreshed(s: ClosureStateView, ids: Seq<Seq<char>>, n: int, now: Timestamp)
    requires
        s.wired(),
        n <= ids.len(),
    ensures
        ({
            let waits = waits_refreshed(s.waits, s.handles, ids, n, now);
            forall|id: Seq<char>| #[trigger]
                waits.contains_key(id) ==> s.waits.contains_key(id) && waits[id].thread_id
                    == s.waits[id].thread_id && waits[id].handle_ids == s.waits[id].handle_ids && (
                waits[id].status == WaitStatus::Ready ==> wait_ready(s.handles, waits[id]))
        }),
    decreases n,
{
    let waits = waits_refreshed(s.waits, s.handles, ids, n, now);
    if n <= 0 {
        assert forall|id: Seq<char>| #[trigger]
            waits.contains_key(id) && waits[id].status == WaitStatus::Ready implies wait_ready(
            s.handles,
            waits[id],
        ) by {
            assert(s.wait_fits(id));
        }
    } else {
        lemma_waits_refreshed(s, ids, n - 1, now);
        let before = waits_refreshed(s.waits, s.handles, ids, n - 1, now);
        assert forall|id: Seq<char>| #[trigger] waits.contains_key(id) implies s.waits.contains_key(
            id,
        ) && waits[id].thread_id == s.waits[id].thread_id && waits[id].handle_ids
            == s.waits[id].handle_ids && (waits[id].status == WaitStatus::Ready ==> wait_ready(
            s.handles,
            waits[id],
        )) by {
            assert(before.contains_key(id));
            if waits[id].status == WaitStatus::Ready && id == ids[n - 1] && before[id].status
                != WaitStatus::Consumed {
                assert(wait_ready(s.handles, before[id]));
                assert(wait_ready(s.handles, waits[id])) by {
                    match waits[id].mode {
                        WaitMode::All => {},
                        WaitMode::Any => {
                            let i = choose|i: int|
                                0 <= i < before[id].handle_ids.len() && settled(
                                    s.handles,
                                    #[trigger] before[id].handle_ids[i],
                                );
                            assert(settled(s.handles, waits[id].handle_ids[i]));
                        },
                    }
                }
            }
        }
    }
}

/// The waits on a handle are looked at anew.
pub proof fn lemma_refreshed_wired(s: ClosureStateView, handle_id: Seq<char>, now: Timestamp)
    requires
        s.wired(),
    ensures
        s.refreshed(handle_id, now).wired(),
{
    let ids = s.wait_ids_listing(handle_id);
    lemma_waits_refreshed(s, ids, ids.len() as int, now);
    lemma_waits_moved(s, waits_refreshed(s.waits, s.handles, ids, ids.len() as int, now));
}

proof fn lemma_threads_woken(s: ClosureStateView, ids: Seq<Seq<char>>, n: int, now: Timestamp)
    requires
        s.wired(),
        n <= ids.len(),
    ensures
        (ClosureStateView { threads: threads_woken(s.threads, ids, n, now), ..s }).wired(),
    decreases n,
{
    if n > 0 {
        lemma_threads_woken(s, ids, n - 1, now);
        let before = ClosureStateView { threads: threads_woken(s.threads, ids, n - 1, now), ..s };
        let id = ids[n - 1];
        if before.threads.contains_key(id) && before.threads[id].status
            == ThreadStatus::WaitingIo {
            let thread = ThreadView {
                status: ThreadStatus::Running,
                updated_at: now,
                ..before.threads[id]
            };
            assert forall|h: Seq<char>| #[trigger] before.is_for(h, id) implies suits(
                before.handles[h],
                thread,
            ) by {
                assert(before.handle_fits(h));
            }
            lemma_thread_moved(before, id, thread);
        }
    } else {
        assert(ClosureStateView { threads: threads_woken(s.threads, ids, n, now), ..s } == s);
    }
}

/// Threads whose waits are ready are woken.
pub proof fn lemma_woken_wired(s: ClosureStateView, handle_id: Seq<char>, now: Timestamp)
    requires
        s.wired(),
    ensures
        s.woken(handle_id, now).wired(),
{
    let ids = s.thread_ids_ready(handle_id);
    lemma_threads_woken(s, ids, ids.len() as int, now);
}

} // verus!
