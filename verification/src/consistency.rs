//! What it takes for a state to be free of faults, and what keeps it so.
use vstd::prelude::*;
use crate::clock::Timestamp;
use crate::closing::Fault;
use crate::entities::ClosureStateView;
use crate::ids::{lemma_numbered_injective, numbered};
use crate::soundness::law_new_root_sound;
use crate::strmap::{keys, lemma_listed};
use crate::validation::{first_fault, lemma_first_fault};

verus! {

impl ClosureStateView {
    /// Nothing is wrong with the state as a whole nor with any record in it.
    pub open spec fn consistent(self) -> bool {
        &&& self.header_fault() is None
        &&& forall|id: Seq<char>| #[trigger]
            self.threads.contains_key(id) ==> self.thread_fault(id) is None
        &&& forall|id: Seq<char>| #[trigger]
            self.handles.contains_key(id) ==> self.handle_fault(id) is None
        &&& forall|i: int|
            0 <= i < self.passive_events.len() ==> (self.event_faults())(
                #[trigger] self.passive_events[i],
            ) is None
        &&& forall|i: int|
            0 <= i < self.inbox.len() ==> (self.item_faults())(#[trigger] self.inbox[i]) is None
        &&& forall|id: Seq<char>| #[trigger]
            self.threads.contains_key(id) ==> self.awaiting_fault(id) is None
        &&& forall|id: Seq<char>| #[trigger]
            self.waits.contains_key(id) ==> self.wait_fault(id) is None
        &&& forall|id: Seq<char>| #[trigger]
            self.problems.contains_key(id) ==> self.problem_fault(id) is None
        &&& forall|id: Seq<char>| #[trigger]
            self.tickets.contains_key(id) ==> self.ticket_fault(id) is None
    }
}

proof fn lemma_no_fault<T>(m: Map<Seq<char>, T>, f: spec_fn(Seq<char>) -> Fault)
    requires
        m.dom().finite(),
    ensures
        first_fault(keys(m), f, 0) is None <==> forall|id: Seq<char>| #[trigger]
            m.contains_key(id) ==> f(id) is None,
{
    lemma_listed(m);
    lemma_first_fault(keys(m), f, 0);
    if first_fault(keys(m), f, 0) is None {
        assert forall|id: Seq<char>| #[trigger] m.contains_key(id) implies f(id) is None by {
            let i = keys(m).index_of(id);
            assert(keys(m)[i] == id);
        }
    }
}

/// A state passes validation exactly if nothing is wrong with any record in it.
pub proof fn law_valid_is_consistent(s: ClosureStateView)
    requires
        s.filed(),
    ensures
        s.fault() is None <==> s.consistent(),
{
    lemma_no_fault(s.threads, s.thread_faults());
    lemma_no_fault(s.handles, s.handle_faults());
    lemma_first_fault(s.passive_events, s.event_faults(), 0);
    lemma_first_fault(s.inbox, s.item_faults(), 0);
    lemma_no_fault(s.threads, s.awaiting_faults());
    lemma_no_fault(s.waits, s.wait_faults());
    lemma_no_fault(s.problems, s.problem_faults());
    lemma_no_fault(s.tickets, s.ticket_faults());
    if s.fault() is None {
        assert forall|id: Seq<char>| #[trigger] s.threads.contains_key(id) implies s.thread_fault(
            id,
        ) is None && s.awaiting_fault(id) is None by {
            assert((s.thread_faults())(id) is None);
            assert((s.awaiting_faults())(id) is None);
        }
        assert forall|id: Seq<char>| #[trigger] s.handles.contains_key(id) implies s.handle_fault(
            id,
        ) is None by {
            assert((s.handle_faults())(id) is None);
        }
        assert forall|id: Seq<char>| #[trigger] s.waits.contains_key(id) implies s.wait_fault(
            id,
        ) is None by {
            assert((s.wait_faults())(id) is None);
        }
        assert forall|id: Seq<char>| #[trigger] s.problems.contains_key(id) implies s.problem_fault(
            id,
        ) is None by {
            assert((s.problem_faults())(id) is None);
        }
        assert forall|id: Seq<char>| #[trigger] s.tickets.contains_key(id) implies s.ticket_fault(
            id,
        ) is None by {
            assert((s.ticket_faults())(id) is None);
        }
    }
}

/// A process begins with a state that is sound, in order and free of faults, in which nothing is
/// missed. The main thread must not bear the number of a thread to come.
pub proof fn law_new_root_is_valid(
    process_id: Seq<char>,
    main_thread_id: Seq<char>,
    actor_session_id: Option<Seq<char>>,
    title: Seq<char>,
    body: Seq<char>,
    now: Timestamp,
)
    requires
        forall|n: nat| n >= 1 ==> main_thread_id != #[trigger] numbered("QT"@, n),
    ensures
        ({
            let s = ClosureStateView::new_root(
                process_id,
                main_thread_id,
                actor_session_id,
                title,
                body,
                now,
            );
            s.sound() && s.orderly() && s.fault() is None && s.nothing_missed()
        }),
{
    let s = ClosureStateView::new_root(
        process_id,
        main_thread_id,
        actor_session_id,
        title,
        body,
        now,
    );
    law_new_root_sound(process_id, main_thread_id, actor_session_id, title, body, now);
    assert("P000"@ =~= numbered("P"@, 0)) by {
        reveal_strlit("P000");
        reveal_strlit("P");
        reveal_strlit("00");
    }
    assert forall|n: nat| n >= 1 implies !s.problems.contains_key(#[trigger] numbered("P"@, n)) by {
        if numbered("P"@, n) == "P000"@ {
            lemma_numbered_injective("P"@, n, 0);
        }
    }
    assert(s.filed());
    law_valid_is_consistent(s);
    let id = "P000"@;
    assert forall|p: Seq<char>| #[trigger] s.problems.contains_key(p) implies s.problem_fault(
        p,
    ) is None by {
        assert(p == id);
        assert(crate::forest::descends(s.problems, id, id) == Ok::<
            bool,
            crate::error::QunuxErrorView,
        >(true));
    }
}

} // verus!
