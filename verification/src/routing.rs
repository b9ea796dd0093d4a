//! Which thread an event from outside is meant for.
use vstd::prelude::*;
use crate::context::{RuntimeContext, RuntimeContextView};
use crate::entities::{ClosureState, ClosureStateView, ThreadActorRoute, ThreadActorRouteView, ThreadWait, ThreadWaitView};
use crate::error::{outcome, Outcome, Result};
use crate::kinds::{IoHandleKind, IoHandleStatus, PassiveEventKind, WaitStatus};
use crate::search::{find_first, find_index, position};
use crate::state::unknown_thread;
use crate::strmap::values;
use crate::text::{group_views, opt_view, str_eq, texts_contain, views};

verus! {

broadcast use group_views;

impl ThreadActorRouteView {
    /// The actor that runs the thread.
    pub open spec fn bound_actor(self) -> Option<Seq<char>> {
        match self.codex_thread_id {
            Some(id) => Some(id),
            None => self.actor_session_id,
        }
    }
}

impl ThreadActorRoute {
    /// The actor that runs the thread.
    pub fn bound_actor_id(&self) -> (r: Option<&str>)
        ensures
            crate::state::opt_str(r) == self@.bound_actor(),
    {
        match &self.codex_thread_id {
            Some(id) => Some(id.as_str()),
            None => match &self.actor_session_id {
                Some(id) => Some(id.as_str()),
                None => None,
            },
        }
    }
}

impl ClosureStateView {
    /// How the actor of a thread is reached.
    pub open spec fn actor_route(self, ctx: RuntimeContextView, thread_id: Seq<char>) -> Outcome<
        ThreadActorRouteView,
    > {
        if !self.threads.contains_key(thread_id) {
            Err(unknown_thread(thread_id))
        } else {
            Ok(
                ThreadActorRouteView {
                    thread_id,
                    is_current_thread: thread_id == ctx.thread_id,
                    actor_session_id: self.threads[thread_id].actor_session_id,
                    codex_thread_id: self.threads[thread_id].codex_thread_id,
                },
            )
        }
    }

    /// Pending handles of a kind.
    pub open spec fn pending_of_kind(self, kind: IoHandleKind) -> spec_fn(Seq<char>) -> bool {
        |id: Seq<char>|
            self.handles.contains_key(id) && self.handles[id].kind == kind
                && self.handles[id].status == IoHandleStatus::Pending
    }

    /// Waits of a thread that are held up by a handle of a kind.
    pub open spec fn waits_for_kind(self, thread_id: Seq<char>, kind: IoHandleKind) -> spec_fn(
        ThreadWaitView,
    ) -> bool {
        |w: ThreadWaitView|
            w.thread_id == thread_id && w.status == WaitStatus::Waiting && find_index(
                w.handle_ids,
                self.pending_of_kind(kind),
            ) is Some
    }

    /// A thread is parked on a handle of a kind.
    pub open spec fn is_parked_on(self, thread_id: Seq<char>, kind: IoHandleKind) -> bool {
        find_first(values(self.waits), self.waits_for_kind(thread_id, kind)) is Some
    }

    /// Looks for a thread that is parked on a handle of a kind, from a thread down to its children
    /// that have not ended, each thread once. Gives the threads it has seen and the one it found.
    /// `fuel` bounds how deep it goes.
    pub open spec fn parked_thread_below(
        self,
        kind: IoHandleKind,
        thread_id: Seq<char>,
        seen: Seq<Seq<char>>,
        fuel: nat,
    ) -> (Seq<Seq<char>>, Option<Seq<char>>)
        decreases fuel, 0nat,
    {
        if seen.contains(thread_id) || fuel == 0 {
            (seen, None)
        } else if self.is_parked_on(thread_id, kind) {
            (seen.push(thread_id), Some(thread_id))
        } else if !self.threads.contains_key(thread_id) {
            (seen.push(thread_id), None)
        } else {
            self.parked_child(kind, thread_id, seen.push(thread_id), 0, (fuel - 1) as nat)
        }
    }

    /// Looks below the children of a thread, from place `i` on.
    pub open spec fn parked_child(
        self,
        kind: IoHandleKind,
        thread_id: Seq<char>,
        seen: Seq<Seq<char>>,
        i: nat,
        fuel: nat,
    ) -> (Seq<Seq<char>>, Option<Seq<char>>)
        decreases fuel, self.threads[thread_id].child_thread_ids.len() - i + 1,
    {
        let children = self.threads[thread_id].child_thread_ids;
        if i >= children.len() {
            (seen, None)
        } else {
            let child = children[i as int];
            if !self.threads.contains_key(child) || self.threads[child].status.is_terminal() {
                self.parked_child(kind, thread_id, seen, i + 1, fuel)
            } else {
                let below = self.parked_thread_below(kind, child, seen, fuel);
                match below.1 {
                    Some(found) => below,
                    None => self.parked_child(kind, thread_id, below.0, i + 1, fuel),
                }
            }
        }
    }

    /// The thread that an event of a kind is meant for: one at or below the current thread that
    /// waits for it, else the current thread.
    pub open spec fn target_for_kind(self, ctx: RuntimeContextView, kind: PassiveEventKind) -> Seq<
        char,
    > {
        match self.parked_thread_below(
            kind.handle_kind(),
            ctx.thread_id,
            Seq::empty(),
            self.threads.len() + 1,
        ).1 {
            Some(found) => found,
            None => ctx.thread_id,
        }
    }
}

/// How many threads have not been seen.
pub open spec fn unseen(s: ClosureStateView, seen: Seq<Seq<char>>) -> nat {
    s.threads.dom().difference(seen.to_set()).len()
}

pub proof fn lemma_unseen_push(s: ClosureStateView, seen: Seq<Seq<char>>, id: Seq<char>)
    requires
        s.threads.dom().finite(),
        s.threads.contains_key(id),
        !seen.contains(id),
    ensures
        unseen(s, seen.push(id)) + 1 == unseen(s, seen),
{
    let left = s.threads.dom().difference(seen.to_set());
    assert(seen.push(id).to_set() =~= seen.to_set().insert(id)) by {
        broadcast use vstd::seq_lib::group_seq_properties;

    }
    assert(s.threads.dom().difference(seen.push(id).to_set()) =~= left.remove(id));
    assert(left.contains(id));
}

pub proof fn lemma_unseen_grows(s: ClosureStateView, a: Seq<Seq<char>>, b: Seq<Seq<char>>)
    requires
        s.threads.dom().finite(),
        forall|id: Seq<char>| #[trigger] a.contains(id) ==> b.contains(id),
    ensures
        unseen(s, b) <= unseen(s, a),
{
    let left_a = s.threads.dom().difference(a.to_set());
    let left_b = s.threads.dom().difference(b.to_set());
    assert forall|id: Seq<char>| left_b.contains(id) implies left_a.contains(id) by {
        if a.contains(id) {
            assert(b.contains(id));
        }
    }
    vstd::set_lib::lemma_len_subset(left_b, left_a);
}

impl ClosureState {
    /// How the actor of a thread is reached.
    pub fn thread_actor_route(&self, ctx: &RuntimeContext, thread_id: &str) -> (r: Result<
        ThreadActorRoute,
    >)
        requires
            self.wf(),
        ensures
            outcome(r) == self@.actor_route(ctx@, thread_id@),
    {
        let thread = self.require_thread(thread_id)?;
        Ok(
            ThreadActorRoute {
                thread_id: thread_id.to_owned(),
                is_current_thread: str_eq(thread_id, ctx.thread_id.as_str()),
                actor_session_id: thread.actor_session_id.clone(),
                codex_thread_id: thread.codex_thread_id.clone(),
            },
        )
    }

    fn thread_has_pending_passive_handle(&self, thread_id: &str, handle_kind: IoHandleKind) -> (r:
        bool)
        requires
            self.wf(),
        ensures
            r == self@.is_parked_on(thread_id@, handle_kind),
    {
        let pending = |id: &String| -> (b: bool)
            ensures
                b == (self@.pending_of_kind(handle_kind))(id@),
        {
            match self.handles.get(id.as_str()) {
                Some(handle) => handle.kind == handle_kind && handle.status
                    == IoHandleStatus::Pending,
                None => false,
            }
        };
        let held_up = |w: &ThreadWait| -> (b: bool)
            ensures
                b == (self@.waits_for_kind(thread_id@, handle_kind))(w@),
        {
            str_eq(w.thread_id.as_str(), thread_id) && w.status == WaitStatus::Waiting && position(
                &w.handle_ids,
                pending,
                Ghost(self@.pending_of_kind(handle_kind)),
            ).is_some()
        };
        self.waits.find(held_up, Ghost(self@.waits_for_kind(thread_id@, handle_kind))).is_some()
    }

    fn find_pending_passive_handle_thread(
        &self,
        thread_id: &str,
        handle_kind: IoHandleKind,
        visited: &mut Vec<String>,
        Ghost(fuel): Ghost<nat>,
    ) -> (r: Option<String>)
        requires
            self.wf(),
            self@.threads.dom().finite(),
            fuel > unseen(self@, views(old(visited)@)),
        ensures
            (views(final(visited)@), opt_view(r)) == self@.parked_thread_below(
                handle_kind,
                thread_id@,
                views(old(visited)@),
                fuel,
            ),
            forall|id: Seq<char>| #[trigger]
                views(old(visited)@).contains(id) ==> views(final(visited)@).contains(id),
        decreases fuel,
    {
        let ghost seen = views(visited@);
        if texts_contain(visited, thread_id) {
            return None;
        }
        visited.push(thread_id.to_owned());
        let ghost first = seen.push(thread_id@);
        proof {
            assert forall|id: Seq<char>| #[trigger] seen.contains(id) implies first.contains(
                id,
            ) by {
                let k = choose|k: int| 0 <= k < seen.len() && seen[k] == id;
                assert(first[k] == id);
            }
        }
        if self.thread_has_pending_passive_handle(thread_id, handle_kind) {
            return Some(thread_id.to_owned());
        }
        let thread = match self.threads.get(thread_id) {
            Some(thread) => thread,
            None => {
                return None;
            },
        };
        proof {
            lemma_unseen_push(self@, seen, thread_id@);
        }
        let mut i: usize = 0;
        while i < thread.child_thread_ids.len()
            invariant
                self.wf(),
                self@.threads.dom().finite(),
                fuel > 0,
                i <= thread.child_thread_ids@.len(),
                self@.threads.contains_key(thread_id@),
                thread@ == self@.threads[thread_id@],
                seen == views(old(visited)@),
                fuel - 1 > unseen(self@, views(visited@)),
                forall|id: Seq<char>| #[trigger]
                    seen.contains(id) ==> views(visited@).contains(id),
                self@.parked_thread_below(handle_kind, thread_id@, seen, fuel)
                    == self@.parked_child(
                    handle_kind,
                    thread_id@,
                    views(visited@),
                    i as nat,
                    (fuel - 1) as nat,
                ),
            decreases thread.child_thread_ids@.len() - i,
        {
            let child_thread_id = thread.child_thread_ids[i].as_str();
            assert(child_thread_id@ == thread@.child_thread_ids[i as int]);
            if let Some(child_thread) = self.threads.get(child_thread_id) {
                if !child_thread.status.is_terminal() {
                    let ghost before = views(visited@);
                    let found = self.find_pending_passive_handle_thread(
                        child_thread_id,
                        handle_kind,
                        visited,
                        Ghost((fuel - 1) as nat),
                    );
                    proof {
                        lemma_unseen_grows(self@, before, views(visited@));
                    }
                    if found.is_some() {
                        return found;
                    }
                }
            }
            i = i + 1;
        }
        None
    }

    /// The thread that an event of a kind is meant for.
    pub fn target_thread_id_for_passive_event_kind(
        &self,
        ctx: &RuntimeContext,
        kind: PassiveEventKind,
    ) -> (r: String)
        requires
            self.wf(),
        ensures
            r@ == self@.target_for_kind(ctx@, kind),
    {
        let mut visited: Vec<String> = Vec::new();
        let ghost fuel = self@.threads.len() + 1;
        proof {
            self.threads.lemma_order();
            assert(views(visited@) =~= Seq::<Seq<char>>::empty());
            vstd::set_lib::lemma_len_subset(
                self@.threads.dom().difference(views(visited@).to_set()),
                self@.threads.dom(),
            );
        }
        match self.find_pending_passive_handle_thread(
            ctx.thread_id.as_str(),
            kind.handle_kind(),
            &mut visited,
            Ghost(fuel),
        ) {
            Some(found) => found,
            None => ctx.thread_id.clone(),
        }
    }
}

} // verus!
