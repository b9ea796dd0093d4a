//! What no operation undoes: records stay, done stays done, and identifiers are given once.
use vstd::prelude::*;
use crate::clock::Timestamp;
use crate::context::RuntimeContextView;
use crate::entities::{ClosureStateView, InboxItemView, IoHandleView, PassiveEventView, ProblemView, ThreadView, ThreadWaitView, TicketView};
use crate::ids::{lemma_numbered_injective, numbered};
use crate::kinds::{IoEventKind, IoHandleStatus, PassiveEventStatus, ProblemStatus, ThreadStatus, TicketStatus, WaitStatus};
use crate::wake::{threads_woken, waits_refreshed};

verus! {

/// The identifiers of a kind from number `seq` on are free.
pub open spec fn free_from<T>(m: Map<Seq<char>, T>, prefix: Seq<char>, seq: u32) -> bool {
    forall|n: nat| n >= seq ==> !m.contains_key(#[trigger] numbered(prefix, n))
}

impl ClosureStateView {
    /// Every record stands under its own identifier, and there are finitely many.
    pub open spec fn filed(self) -> bool {
        &&& self.problems.dom().finite()
        &&& self.threads.dom().finite()
        &&& self.handles.dom().finite()
        &&& self.waits.dom().finite()
        &&& self.tickets.dom().finite()
        &&& self.results.dom().finite()
        &&& self.checks.dom().finite()
        &&& forall|id: Seq<char>| #[trigger]
            self.problems.contains_key(id) ==> self.problems[id].id == id
        &&& forall|id: Seq<char>| #[trigger]
            self.threads.contains_key(id) ==> self.threads[id].id == id
        &&& forall|id: Seq<char>| #[trigger]
            self.handles.contains_key(id) ==> self.handles[id].id == id
        &&& forall|id: Seq<char>| #[trigger] self.waits.contains_key(id) ==> self.waits[id].id == id
        &&& forall|id: Seq<char>| #[trigger]
            self.tickets.contains_key(id) ==> self.tickets[id].id == id
        &&& forall|id: Seq<char>| #[trigger]
            self.results.contains_key(id) ==> self.results[id].id == id
        &&& forall|id: Seq<char>| #[trigger]
            self.checks.contains_key(id) ==> self.checks[id].id == id
    }

    /// Every record stands under its own identifier, and no identifier that is still to come is
    /// taken.
    pub open spec fn orderly(self) -> bool {
        &&& self.filed()
        &&& free_from(self.problems, "P"@, self.next_problem_seq)
        &&& free_from(self.threads, "QT"@, self.next_thread_seq)
        &&& free_from(self.handles, "H"@, self.next_handle_seq)
        &&& free_from(self.waits, "W"@, self.next_wait_seq)
        &&& free_from(self.tickets, "T"@, self.next_ticket_seq)
        &&& free_from(self.results, "R"@, self.next_result_seq)
        &&& free_from(self.checks, "C"@, self.next_check_seq)
    }

    /// There are at least `n` numbers left of every kind.
    pub open spec fn has_room(self, n: nat) -> bool {
        &&& self.next_problem_seq + n <= u32::MAX
        &&& self.next_thread_seq + n <= u32::MAX
        &&& self.next_handle_seq + n <= u32::MAX
        &&& self.next_wait_seq + n <= u32::MAX
        &&& self.next_io_event_seq + n <= u32::MAX
        &&& self.next_passive_event_seq + n <= u32::MAX
        &&& self.next_inbox_item_seq + n <= u32::MAX
        &&& self.next_ticket_seq + n <= u32::MAX
        &&& self.next_result_seq + n <= u32::MAX
        &&& self.next_check_seq + n <= u32::MAX
    }
}

/// A problem keeps where it came from, what it lists, its ticket, and being done.
pub open spec fn problem_kept(p: ProblemView, q: ProblemView) -> bool {
    &&& q.id == p.id
    &&& q.parent_id == p.parent_id
    &&& q.created_from_ticket_id == p.created_from_ticket_id
    &&& q.created_from_ticket_mode == p.created_from_ticket_mode
    &&& q.created_from_check_id == p.created_from_check_id
    &&& q.created_from_passive_event_id == p.created_from_passive_event_id
    &&& q.created_from_inbox_item_id == p.created_from_inbox_item_id
    &&& q.created_from_user_task_kind == p.created_from_user_task_kind
    &&& p.ticket_id is Some ==> q.ticket_id == p.ticket_id
    &&& p.child_problem_ids.is_prefix_of(q.child_problem_ids)
    &&& p.followup_problem_ids.is_prefix_of(q.followup_problem_ids)
    &&& p.result_ids.is_prefix_of(q.result_ids)
    &&& p.check_ids.is_prefix_of(q.check_ids)
    &&& p.status == ProblemStatus::Done ==> q.status == ProblemStatus::Done
}

/// A ticket stays with its problem, and once done it stays as it is.
pub open spec fn ticket_kept(t: TicketView, u: TicketView) -> bool {
    &&& u.id == t.id
    &&& u.problem_id == t.problem_id
    &&& t.status == TicketStatus::Done ==> u == t
}

/// A thread keeps its place in the tree of threads and its problem, and stays joined.
pub open spec fn thread_kept(t: ThreadView, u: ThreadView) -> bool {
    &&& u.id == t.id
    &&& u.parent_thread_id == t.parent_thread_id
    &&& u.root_problem_id == t.root_problem_id
    &&& t.child_thread_ids.is_prefix_of(u.child_thread_ids)
    &&& t.joined_at is Some ==> u.joined_at is Some
}

/// A handle keeps whose it is and what it waits for, and is pending only until something came of
/// it.
pub open spec fn handle_kept(h: IoHandleView, k: IoHandleView) -> bool {
    &&& k.id == h.id
    &&& k.kind == h.kind
    &&& k.owner_thread_id == h.owner_thread_id
    &&& k.target_thread_id == h.target_thread_id
    &&& k.event_key == h.event_key
    &&& k.condition == h.condition
    &&& k.source == h.source
    &&& k.dedupe_key == h.dedupe_key
    &&& k.status == IoHandleStatus::Pending ==> h.status == IoHandleStatus::Pending
}

/// A wait keeps its thread, its handles and its mode, and once over it stays over.
pub open spec fn wait_kept(w: ThreadWaitView, v: ThreadWaitView) -> bool {
    &&& v.id == w.id
    &&& v.thread_id == w.thread_id
    &&& v.handle_ids == w.handle_ids
    &&& v.mode == w.mode
    &&& w.status == WaitStatus::Consumed ==> v.status == WaitStatus::Consumed
}

/// An event keeps what it says, and never goes back to the inbox.
pub open spec fn event_kept(e: PassiveEventView, f: PassiveEventView) -> bool {
    &&& f.id == e.id
    &&& f.kind == e.kind
    &&& f.event_key == e.event_key
    &&& f.target_thread_id == e.target_thread_id
    &&& f.condition == e.condition
    &&& f.source == e.source
    &&& f.summary == e.summary
    &&& f.payload_ref == e.payload_ref
    &&& f.dedupe_key == e.dedupe_key
    &&& e.matched_handle_ids.is_prefix_of(f.matched_handle_ids)
    &&& f.status == PassiveEventStatus::Inboxed ==> e.status == PassiveEventStatus::Inboxed
}

/// An inbox item keeps what it says, and never goes back to be pending.
pub open spec fn item_kept(e: InboxItemView, f: InboxItemView) -> bool {
    &&& f.id == e.id
    &&& f.passive_event_id == e.passive_event_id
    &&& f.event_key == e.event_key
    &&& f.target_thread_id == e.target_thread_id
    &&& f.condition == e.condition
    &&& f.source == e.source
    &&& f.summary == e.summary
    &&& f.payload_ref == e.payload_ref
    &&& f.dedupe_key == e.dedupe_key
    &&& f.status == PassiveEventStatus::Inboxed ==> e.status == PassiveEventStatus::Inboxed
}

impl ClosureStateView {
    /// What one state recorded, a later one still holds.
    pub open spec fn keeps(self, later: ClosureStateView) -> bool {
        &&& later.process_id == self.process_id
        &&& later.main_thread_id == self.main_thread_id
        &&& later.root_problem_id == self.root_problem_id
        &&& later.schema_version == self.schema_version
        &&& later.process == self.process
        &&& self.events.is_prefix_of(later.events)
        &&& self.io_events.is_prefix_of(later.io_events)
        &&& self.keeps_records(later)
    }

    /// The later state still holds the records of this one.
    pub open spec fn keeps_records(self, later: ClosureStateView) -> bool {
        &&& self.keeps_tree(later)
        &&& self.keeps_waits(later)
        &&& self.keeps_mail(later)
    }

    /// Problems, tickets, results and checks are still there.
    pub open spec fn keeps_tree(self, later: ClosureStateView) -> bool {
        &&& forall|id: Seq<char>| #[trigger]
            self.problems.contains_key(id) ==> later.problems.contains_key(id) && problem_kept(
                self.problems[id],
                later.problems[id],
            )
        &&& forall|id: Seq<char>| #[trigger]
            self.tickets.contains_key(id) ==> later.tickets.contains_key(id) && ticket_kept(
                self.tickets[id],
                later.tickets[id],
            )
        &&& forall|id: Seq<char>| #[trigger]
            self.results.contains_key(id) ==> later.results.contains_key(id) && later.results[id]
                == self.results[id]
        &&& forall|id: Seq<char>| #[trigger]
            self.checks.contains_key(id) ==> later.checks.contains_key(id) && later.checks[id]
                == self.checks[id]
    }

    /// Threads, handles and waits are still there.
    pub open spec fn keeps_waits(self, later: ClosureStateView) -> bool {
        &&& forall|id: Seq<char>| #[trigger]
            self.threads.contains_key(id) ==> later.threads.contains_key(id) && thread_kept(
                self.threads[id],
                later.threads[id],
            )
        &&& forall|id: Seq<char>| #[trigger]
            self.handles.contains_key(id) ==> later.handles.contains_key(id) && handle_kept(
                self.handles[id],
                later.handles[id],
            )
        &&& forall|id: Seq<char>| #[trigger]
            self.waits.contains_key(id) ==> later.waits.contains_key(id) && wait_kept(
                self.waits[id],
                later.waits[id],
            )
    }

    /// Events and inbox items are still there.
    pub open spec fn keeps_mail(self, later: ClosureStateView) -> bool {
        &&& self.passive_events.len() <= later.passive_events.len()
        &&& forall|i: int|
            0 <= i < self.passive_events.len() ==> event_kept(
                #[trigger] self.passive_events[i],
                later.passive_events[i],
            )
        &&& self.inbox.len() <= later.inbox.len()
        &&& forall|i: int|
            0 <= i < self.inbox.len() ==> item_kept(#[trigger] self.inbox[i], later.inbox[i])
    }

    /// The later state comes out of this one: what was recorded is still there and the identifiers
    /// to come are free.
    pub open spec fn leads_to(self, later: ClosureStateView) -> bool {
        self.keeps(later) && later.orderly()
    }
}

/// What is kept twice over is kept.
pub proof fn law_history_accumulates(a: ClosureStateView, b: ClosureStateView, c: ClosureStateView)
    requires
        a.leads_to(b),
        b.leads_to(c),
    ensures
        a.leads_to(c),
{
    assert forall|id: Seq<char>| #[trigger] a.problems.contains_key(id) implies
        c.problems.contains_key(id) && problem_kept(a.problems[id], c.problems[id]) by {
        assert(b.problems.contains_key(id));
    }
    assert forall|id: Seq<char>| #[trigger] a.tickets.contains_key(id) implies
        c.tickets.contains_key(id) && ticket_kept(a.tickets[id], c.tickets[id]) by {
        assert(b.tickets.contains_key(id));
    }
    assert forall|id: Seq<char>| #[trigger] a.results.contains_key(id) implies
        c.results.contains_key(id) && c.results[id] == a.results[id] by {
        assert(b.results.contains_key(id));
    }
    assert forall|id: Seq<char>| #[trigger] a.checks.contains_key(id) implies
        c.checks.contains_key(id) && c.checks[id] == a.checks[id] by {
        assert(b.checks.contains_key(id));
    }
    assert forall|id: Seq<char>| #[trigger] a.threads.contains_key(id) implies
        c.threads.contains_key(id) && thread_kept(a.threads[id], c.threads[id]) by {
        assert(b.threads.contains_key(id));
    }
    assert forall|id: Seq<char>| #[trigger] a.handles.contains_key(id) implies
        c.handles.contains_key(id) && handle_kept(a.handles[id], c.handles[id]) by {
        assert(b.handles.contains_key(id));
    }
    assert forall|id: Seq<char>| #[trigger] a.waits.contains_key(id) implies
        c.waits.contains_key(id) && wait_kept(a.waits[id], c.waits[id]) by {
        assert(b.waits.contains_key(id));
    }
    assert forall|i: int| 0 <= i < a.passive_events.len() implies event_kept(
        #[trigger] a.passive_events[i],
        c.passive_events[i],
    ) by {
        assert(event_kept(b.passive_events[i], c.passive_events[i]));
    }
    assert forall|i: int| 0 <= i < a.inbox.len() implies item_kept(
        #[trigger] a.inbox[i],
        c.inbox[i],
    ) by {
        assert(item_kept(b.inbox[i], c.inbox[i]));
    }
}

/// A state holds what it recorded.
pub proof fn lemma_history_reflexive(s: ClosureStateView)
    requires
        s.orderly(),
    ensures
        s.leads_to(s),
{
}

/// A record under the next free identifier leaves the ones after it free.
pub proof fn lemma_free_insert<T>(m: Map<Seq<char>, T>, prefix: Seq<char>, seq: u32, x: T)
    requires
        free_from(m, prefix, seq),
        seq < u32::MAX,
    ensures
        !m.contains_key(numbered(prefix, seq as nat)),
        free_from(m.insert(numbered(prefix, seq as nat), x), prefix, (seq + 1) as u32),
{
    let k = numbered(prefix, seq as nat);
    assert forall|n: nat| n >= (seq + 1) as u32 implies !m.insert(k, x).contains_key(
        #[trigger] numbered(prefix, n),
    ) by {
        if numbered(prefix, n) == k {
            lemma_numbered_injective(prefix, n, seq as nat);
        }
    }
}

/// Another record under a known identifier leaves the free ones free.
pub proof fn lemma_free_update<T>(m: Map<Seq<char>, T>, prefix: Seq<char>, seq: u32, id: Seq<char>, x: T)
    requires
        free_from(m, prefix, seq),
        m.contains_key(id),
    ensures
        free_from(m.insert(id, x), prefix, seq),
{
    assert forall|n: nat| n >= seq implies !m.insert(id, x).contains_key(
        #[trigger] numbered(prefix, n),
    ) by {
        assert(!m.contains_key(numbered(prefix, n)));
    }
}

pub proof fn lemma_logged(
    s: ClosureStateView,
    ctx: RuntimeContextView,
    now: Timestamp,
    kind: Seq<char>,
    entity_id: Seq<char>,
    message: Seq<char>,
)
    requires
        s.orderly(),
    ensures
        s.leads_to(s.logged(ctx, now, kind, entity_id, message)),
{
}

pub proof fn lemma_io_logged(
    s: ClosureStateView,
    ctx: RuntimeContextView,
    now: Timestamp,
    kind: IoEventKind,
    handle_id: Option<Seq<char>>,
    thread_id: Option<Seq<char>>,
    message: Seq<char>,
)
    requires
        s.orderly(),
    ensures
        s.leads_to(s.io_logged(ctx, now, kind, handle_id, thread_id, message)),
{
}

/// Changing a handle without changing what it waits for.
pub proof fn lemma_handle_changed(
    s: ClosureStateView,
    t: ClosureStateView,
    id: Seq<char>,
    h: IoHandleView,
)
    requires
        s.orderly(),
        s.handles.contains_key(id),
        handle_kept(s.handles[id], h),
        t == (ClosureStateView { handles: s.handles.insert(id, h), ..s }),
    ensures
        s.leads_to(t),
{
    lemma_free_update(s.handles, "H"@, s.next_handle_seq, id, h);
}

pub proof fn lemma_thread_changed(
    s: ClosureStateView,
    t: ClosureStateView,
    id: Seq<char>,
    u: ThreadView,
)
    requires
        s.orderly(),
        s.threads.contains_key(id),
        thread_kept(s.threads[id], u),
        t == (ClosureStateView { threads: s.threads.insert(id, u), ..s }),
    ensures
        s.leads_to(t),
{
    lemma_free_update(s.threads, "QT"@, s.next_thread_seq, id, u);
}

pub proof fn lemma_wait_changed(
    s: ClosureStateView,
    t: ClosureStateView,
    id: Seq<char>,
    w: ThreadWaitView,
)
    requires
        s.orderly(),
        s.waits.contains_key(id),
        wait_kept(s.waits[id], w),
        t == (ClosureStateView { waits: s.waits.insert(id, w), ..s }),
    ensures
        s.leads_to(t),
{
    lemma_free_update(s.waits, "W"@, s.next_wait_seq, id, w);
}

pub proof fn lemma_problem_changed(
    s: ClosureStateView,
    t: ClosureStateView,
    id: Seq<char>,
    p: ProblemView,
)
    requires
        s.orderly(),
        s.problems.contains_key(id),
        problem_kept(s.problems[id], p),
        t == (ClosureStateView { problems: s.problems.insert(id, p), ..s }),
    ensures
        s.leads_to(t),
{
    lemma_free_update(s.problems, "P"@, s.next_problem_seq, id, p);
}

pub proof fn lemma_ticket_changed(
    s: ClosureStateView,
    t: ClosureStateView,
    id: Seq<char>,
    u: TicketView,
)
    requires
        s.orderly(),
        s.tickets.contains_key(id),
        ticket_kept(s.tickets[id], u),
        t == (ClosureStateView { tickets: s.tickets.insert(id, u), ..s }),
    ensures
        s.leads_to(t),
{
    lemma_free_update(s.tickets, "T"@, s.next_ticket_seq, id, u);
}

proof fn lemma_waits_refreshed(
    s: ClosureStateView,
    ids: Seq<Seq<char>>,
    n: int,
    now: Timestamp,
)
    requires
        s.orderly(),
    ensures
        s.leads_to(
            ClosureStateView {
                waits: waits_refreshed(s.waits, s.handles, ids, n, now),
                ..s
            },
        ),
    decreases n,
{
    if n > 0 {
        lemma_waits_refreshed(s, ids, n - 1, now);
        let before = ClosureStateView {
            waits: waits_refreshed(s.waits, s.handles, ids, n - 1, now),
            ..s
        };
        let after = ClosureStateView {
            waits: waits_refreshed(s.waits, s.handles, ids, n, now),
            ..s
        };
        let id = ids[n - 1];
        if before.waits.contains_key(id) && before.waits[id].status != WaitStatus::Consumed {
            lemma_wait_changed(before, after, id, after.waits[id]);
            law_history_accumulates(s, before, after);
        }
    }
}

pub proof fn lemma_refreshed(s: ClosureStateView, handle_id: Seq<char>, now: Timestamp)
    requires
        s.orderly(),
    ensures
        s.leads_to(s.refreshed(handle_id, now)),
{
    let ids = s.wait_ids_listing(handle_id);
    lemma_waits_refreshed(s, ids, ids.len() as int, now);
}

proof fn lemma_threads_woken(
    s: ClosureStateView,
    ids: Seq<Seq<char>>,
    n: int,
    now: Timestamp,
)
    requires
        s.orderly(),
    ensures
        s.leads_to(ClosureStateView { threads: threads_woken(s.threads, ids, n, now), ..s }),
    decreases n,
{
    if n > 0 {
        lemma_threads_woken(s, ids, n - 1, now);
        let before = ClosureStateView {
            threads: threads_woken(s.threads, ids, n - 1, now),
            ..s
        };
        let after = ClosureStateView { threads: threads_woken(s.threads, ids, n, now), ..s };
        let id = ids[n - 1];
        if before.threads.contains_key(id) && before.threads[id].status
            == ThreadStatus::WaitingIo {
            lemma_thread_changed(before, after, id, after.threads[id]);
            law_history_accumulates(s, before, after);
        }
    }
}

pub proof fn lemma_woken(s: ClosureStateView, handle_id: Seq<char>, now: Timestamp)
    requires
        s.orderly(),
    ensures
        s.leads_to(s.woken(handle_id, now)),
{
    let ids = s.thread_ids_ready(handle_id);
    lemma_threads_woken(s, ids, ids.len() as int, now);
}

/// A handle gets a status.
pub proof fn lemma_handle_status(
    s: ClosureStateView,
    id: Seq<char>,
    status: IoHandleStatus,
    now: Timestamp,
)
    requires
        s.orderly(),
        s.handles.contains_key(id),
        status != IoHandleStatus::Pending,
    ensures
        s.leads_to(s.with_handle_status(id, status, now)),
{
    let t = s.with_handle_status(id, status, now);
    lemma_handle_changed(s, t, id, t.handles[id]);
}

/// A thread gets a status.
pub proof fn lemma_thread_status(
    s: ClosureStateView,
    id: Seq<char>,
    status: ThreadStatus,
    now: Timestamp,
)
    requires
        s.orderly(),
        s.threads.contains_key(id),
    ensures
        s.leads_to(s.with_thread_status(id, status, now)),
{
    let t = s.with_thread_status(id, status, now);
    lemma_thread_changed(s, t, id, t.threads[id]);
}

/// A wait is over.
pub proof fn lemma_wait_over(s: ClosureStateView, id: Seq<char>, now: Timestamp)
    requires
        s.orderly(),
        s.waits.contains_key(id),
    ensures
        s.leads_to(s.with_wait_status(id, WaitStatus::Consumed, now)),
{
    let t = s.with_wait_status(id, WaitStatus::Consumed, now);
    lemma_wait_changed(s, t, id, t.waits[id]);
}

/// Telling the parent that a child is done rewrites nothing.
pub proof fn law_child_ready_keeps_history(
    s: ClosureStateView,
    ctx: RuntimeContextView,
    now: Timestamp,
    thread_id: Seq<char>,
    message: Seq<char>,
)
    requires
        s.orderly(),
    ensures
        s.leads_to(s.child_ready(ctx, now, thread_id, message).0),
{
    lemma_history_reflexive(s);
    if let Some(h) = s.child_thread_handle_id(thread_id) {
        if s.handles.contains_key(h) {
            let a = s.with_handle_status(h, IoHandleStatus::Ready, now);
            lemma_handle_status(s, h, IoHandleStatus::Ready, now);
            let b = a.refreshed(h, now);
            lemma_refreshed(a, h, now);
            law_history_accumulates(s, a, b);
            let c = b.io_logged(
                ctx,
                now,
                IoEventKind::ChildThreadDone,
                Some(h),
                Some(thread_id),
                message,
            );
            lemma_io_logged(
                b,
                ctx,
                now,
                IoEventKind::ChildThreadDone,
                Some(h),
                Some(thread_id),
                message,
            );
            law_history_accumulates(s, b, c);
            lemma_io_logged(
                c,
                ctx,
                now,
                IoEventKind::HandleReady,
                Some(h),
                Some(thread_id),
                "child-thread handle is ready"@,
            );
            law_history_accumulates(
                s,
                c,
                c.io_logged(
                    ctx,
                    now,
                    IoEventKind::HandleReady,
                    Some(h),
                    Some(thread_id),
                    "child-thread handle is ready"@,
                ),
            );
        }
    }
}

proof fn lemma_parent_released(s: ClosureStateView, parent_id: Seq<char>, now: Timestamp)
    requires
        s.orderly(),
    ensures
        s.leads_to(s.parent_released(parent_id, now)),
{
    lemma_history_reflexive(s);
    if s.threads.contains_key(parent_id) {
        lemma_thread_status(s, parent_id, ThreadStatus::Running, now);
    }
}

proof fn lemma_taken_back(
    s: ClosureStateView,
    ctx: RuntimeContextView,
    now: Timestamp,
    thread_id: Seq<char>,
    parent_thread_id: Seq<char>,
    message: Seq<char>,
    handle_id: Seq<char>,
    wait_id: Seq<char>,
)
    requires
        s.orderly(),
        s.threads.contains_key(thread_id),
        s.handles.contains_key(handle_id),
    ensures
        s.leads_to(
            s.taken_back(ctx, now, thread_id, parent_thread_id, message, handle_id, wait_id).0,
        ),
{
    lemma_history_reflexive(s);
    if s.handles[handle_id].status == IoHandleStatus::Ready {
        let a = ClosureStateView {
            threads: s.threads.insert(
                thread_id,
                ThreadView { joined_at: Some(now), updated_at: now, ..s.threads[thread_id] },
            ),
            ..s
        };
        lemma_thread_changed(s, a, thread_id, a.threads[thread_id]);
        let b = a.with_handle_status(handle_id, IoHandleStatus::Consumed, now);
        lemma_handle_status(a, handle_id, IoHandleStatus::Consumed, now);
        law_history_accumulates(s, a, b);
        if b.waits.contains_key(wait_id) {
            let c = b.with_wait_status(wait_id, WaitStatus::Consumed, now);
            lemma_wait_over(b, wait_id, now);
            law_history_accumulates(s, b, c);
            let d = c.parent_released(parent_thread_id, now);
            lemma_parent_released(c, parent_thread_id, now);
            law_history_accumulates(s, c, d);
            let e = d.logged(ctx, now, "thread_joined"@, thread_id, message);
            lemma_logged(d, ctx, now, "thread_joined"@, thread_id, message);
            law_history_accumulates(s, d, e);
            lemma_io_logged(
                e,
                ctx,
                now,
                IoEventKind::ChildThreadJoined,
                Some(handle_id),
                Some(thread_id),
                message,
            );
            law_history_accumulates(
                s,
                e,
                e.io_logged(
                    ctx,
                    now,
                    IoEventKind::ChildThreadJoined,
                    Some(handle_id),
                    Some(thread_id),
                    message,
                ),
            );
        }
    }
}

/// Joining a child thread rewrites nothing.
pub proof fn law_joined_keeps_history(
    s: ClosureStateView,
    ctx: RuntimeContextView,
    now: Timestamp,
    thread_id: Seq<char>,
    parent_thread_id: Seq<char>,
    message: Seq<char>,
)
    requires
        s.orderly(),
    ensures
        s.leads_to(s.joined(ctx, now, thread_id, parent_thread_id, message).0),
{
    lemma_history_reflexive(s);
    if let Ok((handle_id, wait_id)) = s.joinable(thread_id, parent_thread_id) {
        if s.handles[handle_id].status == IoHandleStatus::Pending {
            law_child_ready_keeps_history(
                s,
                ctx,
                now,
                thread_id,
                "joining done child thread"@,
            );
            let ready = s.child_ready(ctx, now, thread_id, "joining done child thread"@);
            if ready.1 is Ok {
                lemma_taken_back(
                    ready.0,
                    ctx,
                    now,
                    thread_id,
                    parent_thread_id,
                    message,
                    handle_id,
                    wait_id,
                );
                law_history_accumulates(
                    s,
                    ready.0,
                    ready.0.taken_back(
                        ctx,
                        now,
                        thread_id,
                        parent_thread_id,
                        message,
                        handle_id,
                        wait_id,
                    ).0,
                );
            }
        } else {
            lemma_taken_back(
                s,
                ctx,
                now,
                thread_id,
                parent_thread_id,
                message,
                handle_id,
                wait_id,
            );
        }
    }
}

/// Failing a child thread rewrites nothing.
pub proof fn law_child_failed_keeps_history(
    s: ClosureStateView,
    ctx: RuntimeContextView,
    now: Timestamp,
    thread_id: Seq<char>,
    kind: IoEventKind,
    message: Seq<char>,
)
    requires
        s.orderly(),
    ensures
        s.leads_to(s.child_failed(ctx, now, thread_id, kind, message).0),
{
    lemma_history_reflexive(s);
    if s.threads.contains_key(thread_id) {
        let a = s.with_thread_status(thread_id, ThreadStatus::Failed, now);
        lemma_thread_status(s, thread_id, ThreadStatus::Failed, now);
        if let Some(h) = s.child_thread_handle_id(thread_id) {
            if a.handles.contains_key(h) {
                let parent = s.threads[thread_id].parent_thread_id->0;
                let b = a.with_handle_status(h, IoHandleStatus::Failed, now);
                lemma_handle_status(a, h, IoHandleStatus::Failed, now);
                law_history_accumulates(s, a, b);
                let c = b.refreshed(h, now);
                lemma_refreshed(b, h, now);
                law_history_accumulates(s, b, c);
                let d = c.parent_released(parent, now);
                lemma_parent_released(c, parent, now);
                law_history_accumulates(s, c, d);
                let e = d.logged(ctx, now, "thread_failed"@, thread_id, message);
                lemma_logged(d, ctx, now, "thread_failed"@, thread_id, message);
                law_history_accumulates(s, d, e);
                lemma_io_logged(e, ctx, now, kind, Some(h), Some(thread_id), message);
                law_history_accumulates(
                    s,
                    e,
                    e.io_logged(ctx, now, kind, Some(h), Some(thread_id), message),
                );
            }
        }
    }
}

/// Recording that an actor stopped rewrites nothing.
pub proof fn law_actor_stopped_keeps_history(
    s: ClosureStateView,
    ctx: RuntimeContextView,
    now: Timestamp,
    thread_id: Seq<char>,
    status: Seq<char>,
)
    requires
        s.orderly(),
    ensures
        s.leads_to(s.actor_stopped(ctx, now, thread_id, status).0),
{
    lemma_history_reflexive(s);
    let text = "child actor completed before Qunux thread was done: "@ + status;
    law_child_failed_keeps_history(
        s,
        ctx,
        now,
        thread_id,
        IoEventKind::ChildThreadFailed,
        text,
    );
    let failed = s.child_failed(ctx, now, thread_id, IoEventKind::ChildThreadFailed, text);
    if let Ok((handle_id, _)) = failed.1 {
        let note = "Codex child actor completed before Qunux thread was done: "@ + status;
        lemma_io_logged(
            failed.0,
            ctx,
            now,
            IoEventKind::ActorCompletedWithoutThreadDone,
            Some(handle_id),
            Some(thread_id),
            note,
        );
        law_history_accumulates(
            s,
            failed.0,
            failed.0.io_logged(
                ctx,
                now,
                IoEventKind::ActorCompletedWithoutThreadDone,
                Some(handle_id),
                Some(thread_id),
                note,
            ),
        );
    }
}

/// Binding an actor rewrites nothing.
pub proof fn law_actor_bound_keeps_history(
    s: ClosureStateView,
    ctx: RuntimeContextView,
    now: Timestamp,
    thread_id: Seq<char>,
    actor_session_id: Seq<char>,
)
    requires
        s.orderly(),
    ensures
        s.leads_to(s.actor_bound(ctx, now, thread_id, actor_session_id).0),
{
    lemma_history_reflexive(s);
    let r = s.actor_bound(ctx, now, thread_id, actor_session_id);
    if r.1 is Ok {
        let a = ClosureStateView { threads: r.0.threads, ..s };
        lemma_thread_changed(s, a, thread_id, a.threads[thread_id]);
        lemma_logged(
            a,
            ctx,
            now,
            "thread_actor_bound"@,
            thread_id,
            "Codex child agent session bound"@,
        );
        law_history_accumulates(s, a, r.0);
    }
}

/// The parent taking a child back rewrites nothing.
pub proof fn law_auto_joined_keeps_history(
    s: ClosureStateView,
    ctx: RuntimeContextView,
    now: Timestamp,
    thread_id: Seq<char>,
    message: Seq<char>,
)
    requires
        s.orderly(),
    ensures
        s.leads_to(s.auto_joined(ctx, now, thread_id, message).0),
{
    lemma_history_reflexive(s);
    if s.threads.contains_key(thread_id) {
        if let Some(parent) = s.threads[thread_id].parent_thread_id {
            law_joined_keeps_history(s, ctx, now, thread_id, parent, message);
        }
    }
}

} // verus!
