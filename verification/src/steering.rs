//! Which thread an event from outside is meant for.
use vstd::prelude::*;
use crate::context::RuntimeContextView;
use crate::entities::ClosureStateView;
use crate::kinds::{IoHandleKind, IoHandleStatus, PassiveEventKind, ThreadStatus, WaitStatus};
use crate::routing::{lemma_unseen_grows, lemma_unseen_push, unseen};
use crate::search::{find_from, lemma_find_from};
use crate::strmap::{keys, lemma_listed, values};

verus! {

/// A thread waits for an event of a kind: one of its waits is under way and lists a pending handle of
/// the kind.
pub open spec fn waits_for(s: ClosureStateView, thread_id: Seq<char>, kind: IoHandleKind) -> bool {
    exists|w: Seq<char>, i: int|
        #![trigger s.waits[w].handle_ids[i]]
        s.waits.contains_key(w) && s.waits[w].thread_id == thread_id && s.waits[w].status
            == WaitStatus::Waiting && 0 <= i < s.waits[w].handle_ids.len() && s.handles.contains_key(
            s.waits[w].handle_ids[i],
        ) && s.handles[s.waits[w].handle_ids[i]].kind == kind
            && s.handles[s.waits[w].handle_ids[i]].status == IoHandleStatus::Pending
}

/// A thread has another one as a child that has not ended.
pub open spec fn has_live_child(s: ClosureStateView, parent: Seq<char>, child: Seq<char>) -> bool {
    &&& s.threads.contains_key(parent)
    &&& s.threads[parent].child_thread_ids.contains(child)
    &&& s.threads.contains_key(child)
    &&& s.threads[child].status != ThreadStatus::Done
    &&& s.threads[child].status != ThreadStatus::Failed
    &&& s.threads[child].status != ThreadStatus::Cancelled
    &&& s.threads[child].status != ThreadStatus::Recovered
}

/// A line of threads, each a live child of the one before.
pub open spec fn is_line(s: ClosureStateView, line: Seq<Seq<char>>) -> bool {
    forall|i: int| 0 < i < line.len() ==> has_live_child(s, line[i - 1], #[trigger] line[i])
}

proof fn lemma_waits_for(s: ClosureStateView, thread_id: Seq<char>, kind: IoHandleKind)
    requires
        s.waits.dom().finite(),
    ensures
        s.is_parked_on(thread_id, kind) <==> waits_for(s, thread_id, kind),
{
    let list = values(s.waits);
    let f = s.waits_for_kind(thread_id, kind);
    let p = s.pending_of_kind(kind);
    lemma_listed(s.waits);
    lemma_find_from(list, f, 0);
    match find_from(list, f, 0) {
        Some(k) => {
            let w = keys(s.waits)[k];
            assert(s.waits.contains_key(w) && s.waits[w] == list[k]);
            assert(f(list[k]));
            lemma_find_from(s.waits[w].handle_ids, p, 0);
            let i = find_from(s.waits[w].handle_ids, p, 0)->0;
            assert(p(s.waits[w].handle_ids[i]));
        },
        None => {
            if waits_for(s, thread_id, kind) {
                let (w, i) = choose|w: Seq<char>, i: int|
                    #![trigger s.waits[w].handle_ids[i]]
                    s.waits.contains_key(w) && s.waits[w].thread_id == thread_id
                        && s.waits[w].status == WaitStatus::Waiting && 0 <= i
                        < s.waits[w].handle_ids.len() && s.handles.contains_key(
                        s.waits[w].handle_ids[i],
                    ) && s.handles[s.waits[w].handle_ids[i]].kind == kind
                        && s.handles[s.waits[w].handle_ids[i]].status == IoHandleStatus::Pending;
                let k = keys(s.waits).index_of(w);
                assert(keys(s.waits).contains(w));
                assert(keys(s.waits)[k] == w);
                assert(list[k] == s.waits[w]);
                lemma_find_from(s.waits[w].handle_ids, p, 0);
                assert(p(s.waits[w].handle_ids[i]));
                assert(f(list[k]));
            }
        },
    }
}

/// What was looked at in vain: none of it waits, and every live child of it was looked at too.
spec fn looked_through(
    s: ClosureStateView,
    kind: IoHandleKind,
    before: Seq<Seq<char>>,
    after: Seq<Seq<char>>,
) -> bool {
    &&& forall|x: Seq<char>| #[trigger] before.contains(x) ==> after.contains(x)
    &&& forall|x: Seq<char>| #[trigger]
        after.contains(x) && !before.contains(x) ==> !s.is_parked_on(x, kind)
    &&& forall|x: Seq<char>, c: Seq<char>|
        #![trigger has_live_child(s, x, c)]
        after.contains(x) && !before.contains(x) && has_live_child(s, x, c) ==> after.contains(c)
}

proof fn lemma_looked_on(
    s: ClosureStateView,
    kind: IoHandleKind,
    a: Seq<Seq<char>>,
    b: Seq<Seq<char>>,
    c: Seq<Seq<char>>,
)
    requires
        looked_through(s, kind, a, b),
        looked_through(s, kind, b, c),
    ensures
        looked_through(s, kind, a, c),
{
    assert forall|x: Seq<char>, y: Seq<char>|
        #![trigger has_live_child(s, x, y)]
        c.contains(x) && !a.contains(x) && has_live_child(s, x, y) implies c.contains(y) by {
        if b.contains(x) {
            assert(b.contains(y));
        }
    }
    assert forall|x: Seq<char>| #[trigger] c.contains(x) && !a.contains(x) implies !s.is_parked_on(
        x,
        kind,
    ) by {
        if b.contains(x) {
            assert(!s.is_parked_on(x, kind));
        }
    }
    assert forall|x: Seq<char>| #[trigger] a.contains(x) implies c.contains(x) by {
        assert(b.contains(x));
    }
}

/// What comes out of a search from one thread: one that waits, at the end of a line from it, or
/// nothing, and then everything below was looked through.
spec fn searched(
    s: ClosureStateView,
    kind: IoHandleKind,
    from: Seq<char>,
    seen: Seq<Seq<char>>,
    found: (Seq<Seq<char>>, Option<Seq<char>>),
) -> bool {
    &&& forall|x: Seq<char>| #[trigger] seen.contains(x) ==> found.0.contains(x)
    &&& match found.1 {
        Some(id) => s.is_parked_on(id, kind) && exists|line: Seq<Seq<char>>| #[trigger]
            is_line(s, line) && line.len() > 0 && line[0] == from && line.last() == id,
        None => found.0.contains(from) && looked_through(s, kind, seen, found.0),
    }
}

proof fn lemma_search(
    s: ClosureStateView,
    kind: IoHandleKind,
    id: Seq<char>,
    seen: Seq<Seq<char>>,
    fuel: nat,
)
    requires
        s.threads.dom().finite(),
        fuel > unseen(s, seen),
    ensures
        searched(s, kind, id, seen, s.parked_thread_below(kind, id, seen, fuel)),
    decreases fuel, 0nat,
{
    let found = s.parked_thread_below(kind, id, seen, fuel);
    let next = seen.push(id);
    assert(next[seen.len() as int] == id);
    assert forall|x: Seq<char>| #[trigger] seen.contains(x) implies next.contains(x) by {
        let i = seen.index_of(x);
        assert(next[i] == x);
    }
    assert forall|x: Seq<char>| #[trigger] next.contains(x) implies seen.contains(x) || x == id by {
        let i = next.index_of(x);
        if i < seen.len() {
            assert(seen[i] == x);
        }
    }
    if seen.contains(id) {
        assert(looked_through(s, kind, seen, found.0));
    } else if s.is_parked_on(id, kind) {
        let line = seq![id];
        assert(is_line(s, line));
        assert(line[0] == id && line.last() == id);
    } else if !s.threads.contains_key(id) {
        assert forall|x: Seq<char>, c: Seq<char>|
            #![trigger has_live_child(s, x, c)]
            next.contains(x) && !seen.contains(x) && has_live_child(s, x, c) implies next.contains(
            c,
        ) by {
            assert(x == id);
        }
        assert(looked_through(s, kind, seen, next));
    } else {
        lemma_unseen_push(s, seen, id);
        lemma_search_children(s, kind, id, next, 0, (fuel - 1) as nat);
        match found.1 {
            Some(to) => {},
            None => {
                let children = s.threads[id].child_thread_ids;
                assert forall|x: Seq<char>, c: Seq<char>|
                    #![trigger has_live_child(s, x, c)]
                    found.0.contains(x) && !seen.contains(x) && has_live_child(s, x, c) implies
                    found.0.contains(c) by {
                    if x == id {
                        let k = children.index_of(c);
                        assert(children[k] == c);
                    } else {
                        assert(!next.contains(x));
                    }
                }
                assert forall|x: Seq<char>| #[trigger] found.0.contains(x) && !seen.contains(
                    x,
                ) implies !s.is_parked_on(x, kind) by {
                    if x != id {
                        assert(!next.contains(x));
                    }
                }
                assert forall|x: Seq<char>| #[trigger] seen.contains(x) implies found.0.contains(
                    x,
                ) by {
                    assert(next.contains(x));
                }
                assert(next.contains(id));
                assert(looked_through(s, kind, seen, found.0));
            },
        }
    }
}

proof fn lemma_search_children(
    s: ClosureStateView,
    kind: IoHandleKind,
    id: Seq<char>,
    seen: Seq<Seq<char>>,
    i: nat,
    fuel: nat,
)
    requires
        s.threads.dom().finite(),
        s.threads.contains_key(id),
        fuel > unseen(s, seen),
    ensures
        ({
            let found = s.parked_child(kind, id, seen, i, fuel);
            let children = s.threads[id].child_thread_ids;
            &&& forall|x: Seq<char>| #[trigger] seen.contains(x) ==> found.0.contains(x)
            &&& match found.1 {
                Some(to) => s.is_parked_on(to, kind) && exists|line: Seq<Seq<char>>| #[trigger]
                    is_line(s, line) && line.len() > 0 && line[0] == id && line.last() == to,
                None => looked_through(s, kind, seen, found.0) && forall|k: int|
                    i <= k < children.len() && has_live_child(s, id, #[trigger] children[k])
                        ==> found.0.contains(children[k]),
            }
        }),
    decreases fuel, s.threads[id].child_thread_ids.len() - i + 1,
{
    let children = s.threads[id].child_thread_ids;
    if i < children.len() {
        let child = children[i as int];
        assert(children.contains(child));
        if !s.threads.contains_key(child) || s.threads[child].status.is_terminal() {
            lemma_search_children(s, kind, id, seen, i + 1, fuel);
            assert(!has_live_child(s, id, child));
        } else {
            lemma_search(s, kind, child, seen, fuel);
            let below = s.parked_thread_below(kind, child, seen, fuel);
            match below.1 {
                Some(to) => {
                    let rest = choose|line: Seq<Seq<char>>| #[trigger]
                        is_line(s, line) && line.len() > 0 && line[0] == child && line.last() == to;
                    let line = seq![id] + rest;
                    assert(has_live_child(s, id, child));
                    assert forall|k: int| 0 < k < line.len() implies has_live_child(
                        s,
                        line[k - 1],
                        #[trigger] line[k],
                    ) by {
                        assert(line[k] == rest[k - 1]);
                        if k > 1 {
                            assert(line[k - 1] == rest[k - 2]);
                            assert(has_live_child(s, rest[k - 1 - 1], rest[k - 1]));
                        }
                    }
                    assert(is_line(s, line));
                    assert(line[0] == id && line.last() == to);
                },
                None => {
                    lemma_unseen_grows(s, seen, below.0);
                    lemma_search_children(s, kind, id, below.0, i + 1, fuel);
                    let found = s.parked_child(kind, id, below.0, i + 1, fuel);
                    if found.1 is None {
                        lemma_looked_on(s, kind, seen, below.0, found.0);
                        assert(below.0.contains(child));
                    }
                    assert forall|x: Seq<char>| #[trigger] seen.contains(x) implies
                        found.0.contains(x) by {
                        assert(below.0.contains(x));
                    }
                },
            }
        }
    }
}

proof fn lemma_line_looked_through(
    s: ClosureStateView,
    kind: IoHandleKind,
    after: Seq<Seq<char>>,
    line: Seq<Seq<char>>,
    n: int,
)
    requires
        looked_through(s, kind, Seq::empty(), after),
        is_line(s, line),
        0 <= n < line.len(),
        after.contains(line[0]),
    ensures
        after.contains(line[n]),
    decreases n,
{
    if n > 0 {
        lemma_line_looked_through(s, kind, after, line, n - 1);
        assert(has_live_child(s, line[n - 1], line[n]));
        assert(!Seq::<Seq<char>>::empty().contains(line[n - 1]));
    }
}

/// An event of a kind is meant for a thread that waits for it, wherever one stands below the acting
/// thread among children that have not ended; the acting thread comes first if it waits itself, and it
/// gets the event where nobody does.
pub proof fn law_event_is_meant_for_a_waiting_thread(
    s: ClosureStateView,
    ctx: RuntimeContextView,
    kind: PassiveEventKind,
)
    requires
        s.threads.dom().finite(),
        s.waits.dom().finite(),
    ensures
        ({
            let awaited = match kind {
                PassiveEventKind::UserInput => IoHandleKind::UserInput,
                PassiveEventKind::Timer => IoHandleKind::Timer,
                PassiveEventKind::ExternalSignal => IoHandleKind::ExternalSignal,
            };
            let target = s.target_for_kind(ctx, kind);
            &&& waits_for(s, ctx.thread_id, awaited) ==> target == ctx.thread_id
            &&& (exists|line: Seq<Seq<char>>| #[trigger]
                is_line(s, line) && line.len() > 0 && line[0] == ctx.thread_id && waits_for(
                    s,
                    line.last(),
                    awaited,
                )) ==> waits_for(s, target, awaited)
            &&& target == ctx.thread_id || exists|line: Seq<Seq<char>>| #[trigger]
                is_line(s, line) && line.len() > 0 && line[0] == ctx.thread_id && line.last()
                    == target
            &&& target != ctx.thread_id ==> waits_for(s, target, awaited)
        }),
{
    let awaited = kind.handle_kind();
    let none = Seq::<Seq<char>>::empty();
    let fuel = s.threads.len() + 1;
    assert(s.threads.dom().difference(none.to_set()) =~= s.threads.dom()) by {
        assert forall|x: Seq<char>| !none.to_set().contains(x) by {
            assert(!none.contains(x));
        }
    }
    lemma_search(s, awaited, ctx.thread_id, none, fuel);
    let found = s.parked_thread_below(awaited, ctx.thread_id, none, fuel);
    let target = s.target_for_kind(ctx, kind);
    lemma_waits_for(s, ctx.thread_id, awaited);
    lemma_waits_for(s, target, awaited);
    assert(!none.contains(ctx.thread_id));
    if exists|line: Seq<Seq<char>>| #[trigger]
        is_line(s, line) && line.len() > 0 && line[0] == ctx.thread_id && waits_for(
            s,
            line.last(),
            awaited,
        ) {
        let line = choose|line: Seq<Seq<char>>| #[trigger]
            is_line(s, line) && line.len() > 0 && line[0] == ctx.thread_id && waits_for(
                s,
                line.last(),
                awaited,
            );
        lemma_waits_for(s, line.last(), awaited);
        if found.1 is None {
            lemma_line_looked_through(s, awaited, found.0, line, line.len() - 1);
            assert(!none.contains(line.last()));
            assert(!s.is_parked_on(line.last(), awaited));
        }
    }
}

/// The way to the actor of a thread names what the thread is bound to, and says whether it is the
/// acting thread; there is one exactly for the threads that are there.
pub proof fn law_route_names_the_actor(s: ClosureStateView, ctx: RuntimeContextView, thread_id: Seq<char>)
    ensures
        s.actor_route(ctx, thread_id) is Ok <==> s.threads.contains_key(thread_id),
        s.actor_route(ctx, thread_id) matches Ok(route) ==> {
            &&& route.thread_id == thread_id
            &&& route.is_current_thread <==> thread_id == ctx.thread_id
            &&& route.actor_session_id == s.threads[thread_id].actor_session_id
            &&& route.codex_thread_id == s.threads[thread_id].codex_thread_id
        },
{
}

} // verus!
