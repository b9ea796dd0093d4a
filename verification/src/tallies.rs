//! The numbers that the status of a process gives.
use vstd::prelude::*;
use crate::context::RuntimeContextView;
use crate::entities::{ClosureStateView, InboxItemView, IoHandleView, ProblemView, ThreadView};
use crate::kinds::{IoHandleStatus, PassiveEventStatus, ProblemStatus, ThreadStatus};
use crate::order::lemma_lex_irreflexive;
use crate::overview::{handles_that_are, open_problems, pending_items, running_threads, threads_that_are, waiting_threads};
use crate::search::{count, counted};
use crate::strmap::{keys, lemma_listed, values};

verus! {

/// The names under which a map holds what is asked for.
pub open spec fn names_of<T>(m: Map<Seq<char>, T>, f: spec_fn(T) -> bool) -> Set<Seq<char>> {
    m.dom().filter(|k: Seq<char>| f(m[k]))
}

spec fn names_up_to<T>(m: Map<Seq<char>, T>, f: spec_fn(T) -> bool, n: int) -> Set<Seq<char>> {
    Set::new(|k: Seq<char>| exists|i: int| 0 <= i < n && #[trigger] keys(m)[i] == k && f(m[k]))
}

proof fn lemma_names_up_to<T>(m: Map<Seq<char>, T>, f: spec_fn(T) -> bool, n: int)
    requires
        m.dom().finite(),
        0 <= n <= keys(m).len(),
    ensures
        names_up_to(m, f, n).finite(),
        names_up_to(m, f, n).len() == counted(values(m), f, n),
    decreases n,
{
    lemma_listed(m);
    if n == 0 {
        assert(names_up_to(m, f, n) =~= Set::empty());
    } else {
        lemma_names_up_to(m, f, n - 1);
        let k = keys(m)[n - 1];
        let before = names_up_to(m, f, n - 1);
        assert(m.contains_key(k) && values(m)[n - 1] == m[k]);
        assert(!before.contains(k)) by {
            if before.contains(k) {
                let i = choose|i: int| 0 <= i < n - 1 && #[trigger] keys(m)[i] == k && f(m[k]);
                assert(crate::order::lex_lt(keys(m)[i], keys(m)[n - 1]));
                lemma_lex_irreflexive(k);
            }
        }
        if f(m[k]) {
            assert forall|x: Seq<char>| names_up_to(m, f, n).contains(x) == before.insert(
                k,
            ).contains(x) by {
                if before.contains(x) {
                    let i = choose|i: int| 0 <= i < n - 1 && #[trigger] keys(m)[i] == x && f(m[x]);
                    assert(0 <= i < n && keys(m)[i] == x);
                }
            }
            assert(names_up_to(m, f, n) =~= before.insert(k));
        } else {
            assert forall|x: Seq<char>| names_up_to(m, f, n).contains(x) == before.contains(x) by {
                if before.contains(x) {
                    let i = choose|i: int| 0 <= i < n - 1 && #[trigger] keys(m)[i] == x && f(m[x]);
                    assert(0 <= i < n && keys(m)[i] == x);
                }
            }
            assert(names_up_to(m, f, n) =~= before);
        }
    }
}

/// What a map holds of a sort is counted by its names.
pub proof fn law_count_is_of_names<T>(m: Map<Seq<char>, T>, f: spec_fn(T) -> bool)
    requires
        m.dom().finite(),
    ensures
        count(values(m), f) == names_of(m, f).len(),
        names_of(m, f).len() <= m.dom().len(),
{
    lemma_listed(m);
    lemma_names_up_to(m, f, keys(m).len() as int);
    assert(names_up_to(m, f, keys(m).len() as int) =~= names_of(m, f)) by {
        assert forall|k: Seq<char>| names_of(m, f).contains(k) implies names_up_to(
            m,
            f,
            keys(m).len() as int,
        ).contains(k) by {
            let i = keys(m).index_of(k);
            assert(keys(m).contains(k));
            assert(keys(m)[i] == k);
        }
    }
    vstd::set_lib::lemma_len_subset(names_of(m, f), m.dom());
}

proof fn lemma_items(s: Seq<InboxItemView>, n: int)
    requires
        0 <= n <= s.len(),
    ensures
        counted(s, pending_items(), n) <= n,
    decreases n,
{
    if n > 0 {
        lemma_items(s, n - 1);
    }
}

/// The status names the process, the acting thread with its status and the two roots, and counts the
/// records of each sort by what they are: threads that have not ended, that wait and that failed,
/// problems that are not done, handles that are pending, ready and failed. A thread that is not there
/// counts as failed and works on the root of the process.
#[verifier::spinoff_prover]
pub proof fn law_status_counts_the_records(s: ClosureStateView, ctx: RuntimeContextView)
    requires
        s.threads.dom().finite() && s.threads.dom().len() <= usize::MAX,
        s.problems.dom().finite() && s.problems.dom().len() <= usize::MAX,
        s.handles.dom().finite() && s.handles.dom().len() <= usize::MAX,
        s.tickets.dom().finite() && s.tickets.dom().len() <= usize::MAX,
        s.results.dom().finite() && s.results.dom().len() <= usize::MAX,
        s.checks.dom().finite() && s.checks.dom().len() <= usize::MAX,
        s.inbox.len() <= usize::MAX,
        s.passive_events.len() <= usize::MAX,
    ensures
        ({
            let status = s.status(ctx);
            &&& status.process_id == ctx.process_id && status.thread_id == ctx.thread_id
            &&& status.root_problem_id == s.root_problem_id
            &&& s.threads.contains_key(ctx.thread_id) ==> status.thread_status
                == s.threads[ctx.thread_id].status && status.thread_root_problem_id
                == s.threads[ctx.thread_id].root_problem_id
            &&& !s.threads.contains_key(ctx.thread_id) ==> status.thread_status
                == ThreadStatus::Failed && status.thread_root_problem_id == s.root_problem_id
            &&& status.total_threads == s.threads.dom().len()
            &&& status.total_problems == s.problems.dom().len()
            &&& status.total_tickets == s.tickets.dom().len()
            &&& status.total_results == s.results.dom().len()
            &&& status.total_checks == s.checks.dom().len()
            &&& status.total_handles == s.handles.dom().len()
            &&& status.passive_events == s.passive_events.len()
            &&& status.inbox_items == s.inbox.len()
            &&& status.valid <==> s.fault() is None
            &&& status.open_threads == names_of(
                s.threads,
                |t: ThreadView|
                    t.status == ThreadStatus::Running || t.status == ThreadStatus::WaitingChildren
                        || t.status == ThreadStatus::WaitingIo,
            ).len()
            &&& status.waiting_threads == names_of(
                s.threads,
                |t: ThreadView|
                    t.status == ThreadStatus::WaitingChildren || t.status
                        == ThreadStatus::WaitingIo,
            ).len()
            &&& status.failed_threads == names_of(
                s.threads,
                |t: ThreadView| t.status == ThreadStatus::Failed,
            ).len()
            &&& status.open_problems == names_of(
                s.problems,
                |p: ProblemView| p.status != ProblemStatus::Done,
            ).len()
            &&& status.pending_handles == names_of(
                s.handles,
                |h: IoHandleView| h.status == IoHandleStatus::Pending,
            ).len()
            &&& status.ready_handles == names_of(
                s.handles,
                |h: IoHandleView| h.status == IoHandleStatus::Ready,
            ).len()
            &&& status.failed_handles == names_of(
                s.handles,
                |h: IoHandleView| h.status == IoHandleStatus::Failed,
            ).len()
            &&& status.pending_inbox_items == count(
                s.inbox,
                |i: InboxItemView| i.status == PassiveEventStatus::Inboxed,
            )
        }),
{
    law_count_is_of_names(s.threads, running_threads());
    law_count_is_of_names(s.threads, waiting_threads());
    law_count_is_of_names(s.threads, threads_that_are(ThreadStatus::Failed));
    law_count_is_of_names(s.problems, open_problems());
    law_count_is_of_names(s.handles, handles_that_are(IoHandleStatus::Pending));
    law_count_is_of_names(s.handles, handles_that_are(IoHandleStatus::Ready));
    law_count_is_of_names(s.handles, handles_that_are(IoHandleStatus::Failed));
    lemma_items(s.inbox, s.inbox.len() as int);
    assert(names_of(s.threads, running_threads()) =~= names_of(
        s.threads,
        |t: ThreadView|
            t.status == ThreadStatus::Running || t.status == ThreadStatus::WaitingChildren
                || t.status == ThreadStatus::WaitingIo,
    ));
    assert(names_of(s.threads, waiting_threads()) =~= names_of(
        s.threads,
        |t: ThreadView|
            t.status == ThreadStatus::WaitingChildren || t.status == ThreadStatus::WaitingIo,
    ));
    assert(names_of(s.threads, threads_that_are(ThreadStatus::Failed)) =~= names_of(
        s.threads,
        |t: ThreadView| t.status == ThreadStatus::Failed,
    ));
    assert(names_of(s.problems, open_problems()) =~= names_of(
        s.problems,
        |p: ProblemView| p.status != ProblemStatus::Done,
    ));
    assert(names_of(s.handles, handles_that_are(IoHandleStatus::Pending)) =~= names_of(
        s.handles,
        |h: IoHandleView| h.status == IoHandleStatus::Pending,
    ));
    assert(names_of(s.handles, handles_that_are(IoHandleStatus::Ready)) =~= names_of(
        s.handles,
        |h: IoHandleView| h.status == IoHandleStatus::Ready,
    ));
    assert(names_of(s.handles, handles_that_are(IoHandleStatus::Failed)) =~= names_of(
        s.handles,
        |h: IoHandleView| h.status == IoHandleStatus::Failed,
    ));
    assert(pending_items() =~= |i: InboxItemView| i.status == PassiveEventStatus::Inboxed);
}

} // verus!
