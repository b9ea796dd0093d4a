//! What every operation keeps of the problem tree: walks in it end, and the identifiers to come
//! are free.
use vstd::prelude::*;
use crate::clock::Timestamp;
use crate::context::RuntimeContextView;
use crate::entities::{CheckView, ClosureStateView, ProblemView};
use crate::forest::{below, branching, forest, handed_over, handed_over_below, height, is_depth, is_height, lemma_height, lemma_listed_below, listed, Problems};
use crate::ids::{lemma_numbered_injective, numbered};
use crate::kinds::{CheckStatus, ContextForkPolicy, EntityKind, IoEventKind, IoHandleStatus, TicketChildMode, TicketClassification, WaitMode};
use crate::reports::{PassiveEventInputView, RoutedPassiveEventView, WaitSpecView};

verus! {

/// Two sets of problems that are linked in the same way.
pub open spec fn same_links(a: Problems, b: Problems) -> bool {
    &&& a.dom() == b.dom()
    &&& forall|id: Seq<char>| #[trigger]
        a.contains_key(id) ==> a[id].parent_id == b[id].parent_id && a[id].child_problem_ids
            == b[id].child_problem_ids && a[id].followup_problem_ids == b[id].followup_problem_ids
}

/// No identifier that is still to come is taken, nor named as a parent.
pub open spec fn room_for_problems(problems: Problems, seq: u32) -> bool {
    &&& forall|n: nat| n >= seq ==> !problems.contains_key(#[trigger] numbered("P"@, n))
    &&& forall|n: nat, id: Seq<char>|
        n >= seq && #[trigger] problems.contains_key(id) ==> problems[id].parent_id != Some(
            #[trigger] numbered("P"@, n),
        )
}

impl ClosureStateView {
    /// Every walk in the problem tree ends, and the identifiers of problems to come are free.
    pub open spec fn sound(self) -> bool {
        forest(self.problems) && room_for_problems(self.problems, self.next_problem_seq)
    }
}

/// How problems are linked decides whether walks end.
pub proof fn lemma_same_links_forest(a: Problems, b: Problems)
    requires
        forest(a),
        same_links(a, b),
    ensures
        forest(b),
{
    let d = choose|d: spec_fn(Seq<char>) -> nat| is_depth(a, d);
    assert(is_depth(b, d)) by {
        assert forall|id: Seq<char>, p: Seq<char>|
            #[trigger] b.contains_key(id) && #[trigger] b.contains_key(p) && b[id].parent_id
                == Some(p) implies d(p) < d(id) by {
            assert(a.contains_key(id) && a.contains_key(p));
        }
    }
    let h = choose|h: spec_fn(Seq<char>) -> nat| is_height(a, h);
    assert(is_height(b, h)) by {
        assert forall|id: Seq<char>, c: Seq<char>|
            #[trigger] b.contains_key(id) && #[trigger] b.contains_key(c) && below(b[id], c)
            implies h(c) < h(id) by {
            assert(a.contains_key(id) && a.contains_key(c));
        }
    }
}

/// Changing problems without changing how they are linked keeps a state sound.
pub proof fn lemma_same_links_sound(s: ClosureStateView, t: ClosureStateView)
    requires
        s.sound(),
        same_links(s.problems, t.problems),
        t.next_problem_seq == s.next_problem_seq,
    ensures
        t.sound(),
{
    lemma_same_links_forest(s.problems, t.problems);
    assert forall|n: nat, id: Seq<char>|
        n >= t.next_problem_seq && #[trigger] t.problems.contains_key(id) implies t.problems[id].parent_id
        != Some(#[trigger] numbered("P"@, n)) by {
        assert(s.problems.contains_key(id));
    }
    assert forall|n: nat| n >= t.next_problem_seq implies !t.problems.contains_key(
        #[trigger] numbered("P"@, n),
    ) by {
        assert(!s.problems.contains_key(numbered("P"@, n)));
    }
}

/// Changing one problem without changing how it is linked keeps a state sound.
pub proof fn lemma_touch_sound(s: ClosureStateView, t: ClosureStateView, id: Seq<char>, p: ProblemView)
    requires
        s.sound(),
        s.problems.contains_key(id),
        t.problems == s.problems.insert(id, p),
        t.next_problem_seq == s.next_problem_seq,
        p.parent_id == s.problems[id].parent_id,
        p.child_problem_ids == s.problems[id].child_problem_ids,
        p.followup_problem_ids == s.problems[id].followup_problem_ids,
    ensures
        t.sound(),
{
    assert(t.problems.dom() =~= s.problems.dom());
    lemma_same_links_sound(s, t);
}

/// Adding a problem with a free identifier below another one keeps a state sound.
pub proof fn lemma_leaf_sound(
    s: ClosureStateView,
    t: ClosureStateView,
    parent_id: Seq<char>,
    leaf: ProblemView,
    parent: ProblemView,
)
    requires
        s.sound(),
        s.problems.contains_key(parent_id),
        leaf.id == s.fresh_problem_id(),
        leaf.parent_id == Some(parent_id),
        leaf.child_problem_ids.len() == 0,
        leaf.followup_problem_ids.len() == 0,
        s.next_problem_seq < u32::MAX,
        t.next_problem_seq == s.next_problem_seq + 1,
        t.problems == s.problems.insert(leaf.id, leaf).insert(parent_id, parent),
        parent.parent_id == s.problems[parent_id].parent_id,
        forall|c: Seq<char>| #[trigger]
            below(parent, c) ==> below(s.problems[parent_id], c) || c == leaf.id,
    ensures
        t.sound(),
        !s.problems.contains_key(leaf.id),
{
    let a = s.problems;
    let b = t.problems;
    assert(!a.contains_key(leaf.id));
    let d = choose|d: spec_fn(Seq<char>) -> nat| is_depth(a, d);
    let d2 = |id: Seq<char>| if id == leaf.id {
        d(parent_id) + 1
    } else {
        d(id)
    };
    assert(is_depth(b, d2)) by {
        assert forall|id: Seq<char>, p: Seq<char>|
            #[trigger] b.contains_key(id) && #[trigger] b.contains_key(p) && b[id].parent_id
                == Some(p) implies d2(p) < d2(id) by {
            if id != leaf.id {
                assert(a.contains_key(id));
                assert(a[id].parent_id == Some(p));
                assert(p != leaf.id);
                assert(a.contains_key(p));
            }
        }
    }
    let h = choose|h: spec_fn(Seq<char>) -> nat| is_height(a, h);
    let h2 = |id: Seq<char>| if id == leaf.id {
        0nat
    } else {
        h(id) + 1
    };
    assert(is_height(b, h2)) by {
        assert forall|id: Seq<char>, c: Seq<char>|
            #[trigger] b.contains_key(id) && #[trigger] b.contains_key(c) && below(b[id], c)
            implies h2(c) < h2(id) by {
            if id == leaf.id {
                assert(!below(leaf, c));
            } else {
                assert(a.contains_key(id));
                if c != leaf.id {
                    assert(a.contains_key(c));
                    assert(below(a[id], c));
                }
            }
        }
    }
    assert forall|n: nat| n >= t.next_problem_seq implies !b.contains_key(
        #[trigger] numbered("P"@, n),
    ) by {
        if numbered("P"@, n) == leaf.id {
            lemma_numbered_injective("P"@, n, s.next_problem_seq as nat);
        }
        assert(!a.contains_key(numbered("P"@, n)));
    }
    assert forall|n: nat, id: Seq<char>|
        n >= t.next_problem_seq && #[trigger] b.contains_key(id) implies b[id].parent_id != Some(
        #[trigger] numbered("P"@, n),
    ) by {
        assert(!a.contains_key(numbered("P"@, n)));
        if id != leaf.id {
            assert(a.contains_key(id));
        }
    }
}

/// Handing a subtree over changes no link.
pub proof fn lemma_handed_over_links(
    base: Problems,
    acc: Problems,
    id: Seq<char>,
    owner: Seq<char>,
    now: Timestamp,
)
    requires
        branching(base),
        same_links(base, acc),
    ensures
        same_links(base, handed_over(base, acc, id, owner, now).0),
    decreases height(base, id), listed(base[id]).len() + 1,
{
    if base.contains_key(id) {
        let first = acc.insert(
            id,
            ProblemView { owner_thread_id: owner, updated_at: now, ..acc[id] },
        );
        assert(first.dom() =~= base.dom());
        lemma_handed_over_below_links(base, first, id, owner, now, 0);
    }
}

proof fn lemma_handed_over_below_links(
    base: Problems,
    acc: Problems,
    id: Seq<char>,
    owner: Seq<char>,
    now: Timestamp,
    i: int,
)
    requires
        branching(base),
        same_links(base, acc),
        base.contains_key(id),
        0 <= i,
    ensures
        same_links(base, handed_over_below(base, acc, id, owner, now, i).0),
    decreases height(base, id), listed(base[id]).len() - i,
{
    if i < listed(base[id]).len() {
        lemma_listed_below(base[id], i);
        lemma_height(base, id, listed(base[id])[i]);
        lemma_handed_over_links(base, acc, listed(base[id])[i], owner, now);
        let step = handed_over(base, acc, listed(base[id])[i], owner, now);
        if step.1 is None {
            lemma_handed_over_below_links(base, step.0, id, owner, now, i + 1);
        }
    }
}

/// Handing a subtree over keeps a state sound.
pub proof fn lemma_transferred_sound(
    s: ClosureStateView,
    problem_id: Seq<char>,
    thread_id: Seq<char>,
    now: Timestamp,
)
    requires
        s.sound(),
    ensures
        s.transferred(problem_id, thread_id, now).0.sound(),
        s.transferred(problem_id, thread_id, now).0 == (ClosureStateView {
            problems: s.transferred(problem_id, thread_id, now).0.problems,
            ..s
        }),
{
    lemma_handed_over_links(s.problems, s.problems, problem_id, thread_id, now);
    lemma_same_links_sound(s, s.transferred(problem_id, thread_id, now).0);
}

/// A process begins with a sound state.
pub proof fn law_new_root_sound(
    process_id: Seq<char>,
    main_thread_id: Seq<char>,
    actor_session_id: Option<Seq<char>>,
    title: Seq<char>,
    body: Seq<char>,
    now: Timestamp,
)
    ensures
        ClosureStateView::new_root(
            process_id,
            main_thread_id,
            actor_session_id,
            title,
            body,
            now,
        ).sound(),
{
    let s = ClosureStateView::new_root(
        process_id,
        main_thread_id,
        actor_session_id,
        title,
        body,
        now,
    );
    let zero = |id: Seq<char>| 0nat;
    assert(is_depth(s.problems, zero));
    assert(is_height(s.problems, zero));
    reveal_strlit("P000");
    reveal_strlit("P");
    reveal_strlit("00");
    assert(crate::ids::decimal(0) =~= seq!['0']);
    assert(numbered("P"@, 0) =~= "P000"@);
    assert forall|n: nat| n >= 1 implies !s.problems.contains_key(
        #[trigger] numbered("P"@, n),
    ) by {
        if numbered("P"@, n) == "P000"@ {
            lemma_numbered_injective("P"@, n, 0);
        }
    }
}

/// Initializing the root problem keeps a state sound.
pub proof fn law_root_initialized_sound(
    s: ClosureStateView,
    ctx: RuntimeContextView,
    now: Timestamp,
    title: Option<Seq<char>>,
    body: Option<Seq<char>>,
)
    requires
        s.sound(),
    ensures
        s.root_initialized(ctx, now, title, body).0.sound(),
{
    let t = s.root_initialized(ctx, now, title, body).0;
    let id = s.root_problem_id;
    if t.problems != s.problems {
        lemma_touch_sound(s, t, id, t.problems[id]);
    }
}

/// Upgrading the root problem keeps a state sound.
pub proof fn law_root_upgraded_sound(
    s: ClosureStateView,
    ctx: RuntimeContextView,
    now: Timestamp,
    title: Seq<char>,
    body: Seq<char>,
)
    requires
        s.sound(),
    ensures
        s.root_upgraded(ctx, now, title, body).0.sound(),
{
    let t = s.root_upgraded(ctx, now, title, body).0;
    let id = s.root_problem_id;
    if t.problems != s.problems {
        lemma_touch_sound(s, t, id, t.problems[id]);
    }
}

proof fn lemma_writable_known(s: ClosureStateView, ctx: RuntimeContextView, id: Seq<char>)
    requires
        s.writable(ctx, id) is Ok,
    ensures
        s.problems.contains_key(id),
        s.threads.contains_key(ctx.thread_id),
        s.writable(ctx, id)->Ok_0 == s.problems[id],
{
}

proof fn lemma_child_sound(
    s: ClosureStateView,
    now: Timestamp,
    parent_id: Seq<char>,
    leaf: ProblemView,
)
    requires
        s.sound(),
        s.problems.contains_key(parent_id),
        s.next_problem_seq < u32::MAX,
        leaf.id == s.fresh_problem_id(),
        leaf.parent_id == Some(parent_id),
        leaf.child_problem_ids.len() == 0,
        leaf.followup_problem_ids.len() == 0,
    ensures
        s.with_child_problem(now, parent_id, leaf).sound(),
{
    let t = s.with_child_problem(now, parent_id, leaf);
    assert(!s.problems.contains_key(leaf.id));
    let parent = t.problems[parent_id];
    let old_children = s.problems[parent_id].child_problem_ids;
    assert forall|c: Seq<char>| #[trigger] below(parent, c) implies below(
        s.problems[parent_id],
        c,
    ) || c == leaf.id by {
        if parent.child_problem_ids.contains(c) {
            let k = choose|k: int|
                0 <= k < parent.child_problem_ids.len() && parent.child_problem_ids[k] == c;
            if k < old_children.len() {
                assert(old_children[k] == c);
            }
        }
    }
    lemma_leaf_sound(s, t, parent_id, leaf, parent);
}

/// Making a child problem keeps a state sound.
pub proof fn law_child_created_sound(
    s: ClosureStateView,
    ctx: RuntimeContextView,
    now: Timestamp,
    parent_id: Seq<char>,
    ticket_id: Seq<char>,
    mode: TicketChildMode,
    title: Seq<char>,
    body: Seq<char>,
)
    requires
        s.sound(),
        s.next_problem_seq < u32::MAX,
    ensures
        s.child_created(ctx, now, parent_id, ticket_id, mode, title, body).0.sound(),
{
    let r = s.child_created(ctx, now, parent_id, ticket_id, mode, title, body);
    if r.1 is Ok {
        lemma_writable_known(s, ctx, parent_id);
        let leaf = ProblemView {
            created_from_ticket_id: Some(ticket_id),
            created_from_ticket_mode: Some(mode),
            ..ProblemView::fresh(
                s.fresh_problem_id(),
                title,
                body,
                ctx.thread_id,
                Some(parent_id),
                now,
            )
        };
        lemma_child_sound(s, now, parent_id, leaf);
        assert(r.0.problems == s.with_child_problem(now, parent_id, leaf).problems);
    }
}

/// Making a ticket keeps a state sound.
pub proof fn law_ticket_created_sound(
    s: ClosureStateView,
    ctx: RuntimeContextView,
    now: Timestamp,
    problem_id: Seq<char>,
    title: Seq<char>,
    body: Seq<char>,
)
    requires
        s.sound(),
    ensures
        s.ticket_created(ctx, now, problem_id, title, body).0.sound(),
{
    let r = s.ticket_created(ctx, now, problem_id, title, body);
    if r.1 is Ok {
        lemma_writable_known(s, ctx, problem_id);
        lemma_touch_sound(s, r.0, problem_id, r.0.problems[problem_id]);
    }
}

/// Making a problem out of an inbox item keeps a state sound.
pub proof fn law_user_task_created_sound(
    s: ClosureStateView,
    ctx: RuntimeContextView,
    now: Timestamp,
    item_id: Seq<char>,
    title: Seq<char>,
    body: Seq<char>,
    note: Seq<char>,
)
    requires
        s.sound(),
        s.next_problem_seq < u32::MAX,
    ensures
        s.user_task_created(ctx, now, item_id, title, body, note).0.sound(),
{
    let r = s.user_task_created(ctx, now, item_id, title, body, note);
    if r.1 is Ok {
        let parent_id = s.threads[ctx.thread_id].root_problem_id;
        lemma_writable_known(s, ctx, parent_id);
        let (item_at, event_at) = s.task_source(ctx, item_id)->Ok_0;
        let leaf = ProblemView {
            created_from_passive_event_id: Some(s.passive_events[event_at].id),
            created_from_inbox_item_id: Some(s.inbox[item_at].id),
            created_from_user_task_kind: Some(s.passive_events[event_at].kind),
            ..ProblemView::fresh(
                s.fresh_problem_id(),
                title,
                body,
                ctx.thread_id,
                Some(parent_id),
                now,
            )
        };
        lemma_child_sound(s, now, parent_id, leaf);
        assert(r.0.problems == s.with_child_problem(now, parent_id, leaf).problems);
    }
}

/// Making a problem and its ticket out of an inbox item keeps a state sound.
pub proof fn law_user_task_scaffolded_sound(
    s: ClosureStateView,
    ctx: RuntimeContextView,
    now: Timestamp,
    item_id: Seq<char>,
    problem_title: Seq<char>,
    problem_body: Seq<char>,
    ticket_title: Seq<char>,
    ticket_body: Seq<char>,
    note: Seq<char>,
)
    requires
        s.sound(),
        s.next_problem_seq < u32::MAX,
    ensures
        s.user_task_scaffolded(
            ctx,
            now,
            item_id,
            problem_title,
            problem_body,
            ticket_title,
            ticket_body,
            note,
        ).0.sound(),
{
    law_user_task_created_sound(s, ctx, now, item_id, problem_title, problem_body, note);
    let task = s.user_task_created(ctx, now, item_id, problem_title, problem_body, note);
    if task.1 is Ok {
        law_ticket_created_sound(
            task.0,
            ctx,
            now,
            task.1->Ok_0.problem_id,
            ticket_title,
            ticket_body,
        );
    }
}

/// Setting a status keeps a state sound.
pub proof fn law_status_set_sound(
    s: ClosureStateView,
    ctx: RuntimeContextView,
    now: Timestamp,
    kind: EntityKind,
    id: Seq<char>,
    status: Seq<char>,
)
    requires
        s.sound(),
    ensures
        s.status_set(ctx, now, kind, id, status).0.sound(),
{
    let r = s.status_set(ctx, now, kind, id, status);
    if r.0.problems != s.problems {
        lemma_touch_sound(s, r.0, id, r.0.problems[id]);
    }
}

/// Recording a result keeps a state sound.
pub proof fn law_result_recorded_sound(
    s: ClosureStateView,
    ctx: RuntimeContextView,
    now: Timestamp,
    ticket_id: Seq<char>,
    title: Seq<char>,
    body: Seq<char>,
)
    requires
        s.sound(),
    ensures
        s.result_recorded(ctx, now, ticket_id, title, body).0.sound(),
{
    let r = s.result_recorded(ctx, now, ticket_id, title, body);
    if r.1 is Ok {
        let problem_id = s.tickets[ticket_id].problem_id;
        lemma_writable_known(s, ctx, problem_id);
        lemma_touch_sound(s, r.0, problem_id, r.0.problems[problem_id]);
    }
}

proof fn lemma_thread_finished_problems(
    s: ClosureStateView,
    ctx: RuntimeContextView,
    now: Timestamp,
    problem_id: Seq<char>,
)
    ensures
        s.thread_finished(ctx, now, problem_id).0.problems == s.problems,
        s.thread_finished(ctx, now, problem_id).0.next_problem_seq == s.next_problem_seq,
{
}

/// Checking a problem keeps a state sound.
pub proof fn law_checked_sound(
    s: ClosureStateView,
    ctx: RuntimeContextView,
    now: Timestamp,
    problem_id: Seq<char>,
    status: CheckStatus,
    result_ids: Seq<Seq<char>>,
    title: Seq<char>,
    body: Seq<char>,
    followup: Option<(Seq<char>, Seq<char>)>,
)
    requires
        s.sound(),
        s.next_problem_seq < u32::MAX,
    ensures
        s.checked(ctx, now, problem_id, status, result_ids, title, body, followup).0.sound(),
{
    if s.writable(ctx, problem_id) is Ok && s.check_fault(
        problem_id,
        status,
        result_ids,
        followup is Some,
    ) is None {
        lemma_writable_known(s, ctx, problem_id);
        let check_id = s.fresh_check_id();
        let numbered = ClosureStateView { next_check_seq: (s.next_check_seq + 1) as u32, ..s };
        let prepared = match followup {
            Some((followup_title, followup_body)) => numbered.with_followup(
                ctx,
                now,
                problem_id,
                check_id,
                followup_title,
                followup_body,
            ),
            None => numbered,
        };
        if followup is Some {
            let leaf = ProblemView {
                created_from_check_id: Some(check_id),
                ..ProblemView::fresh(
                    s.fresh_problem_id(),
                    (followup->0).0,
                    (followup->0).1,
                    ctx.thread_id,
                    Some(problem_id),
                    now,
                )
            };
            assert(!s.problems.contains_key(leaf.id));
            let parent = prepared.problems[problem_id];
            let old_followups = s.problems[problem_id].followup_problem_ids;
            assert forall|c: Seq<char>| #[trigger] below(parent, c) implies below(
                s.problems[problem_id],
                c,
            ) || c == leaf.id by {
                if parent.followup_problem_ids.contains(c) {
                    let k = choose|k: int|
                        0 <= k < parent.followup_problem_ids.len()
                            && parent.followup_problem_ids[k] == c;
                    if k < old_followups.len() {
                        assert(old_followups[k] == c);
                    }
                }
            }
            lemma_leaf_sound(numbered, prepared, problem_id, leaf, parent);
        }
        let check = CheckView {
            id: check_id,
            problem_id,
            status,
            title,
            body,
            result_ids,
            followup_problem_id: match followup {
                Some(_) => Some(s.fresh_problem_id()),
                None => None,
            },
            created_at: now,
        };
        let recorded = prepared.with_check(now, problem_id, check);
        lemma_touch_sound(prepared, recorded, problem_id, recorded.problems[problem_id]);
        lemma_thread_finished_problems(recorded, ctx, now, problem_id);
    }
}

/// Spawning a thread keeps a state sound.
pub proof fn law_spawned_sound(
    s: ClosureStateView,
    ctx: RuntimeContextView,
    now: Timestamp,
    problem_id: Seq<char>,
    policy: ContextForkPolicy,
    bootstrap_instruction: Seq<char>,
    inherited_cwd: Option<Seq<char>>,
    inherited_model: Option<Seq<char>>,
    inherited_tools: Seq<Seq<char>>,
)
    requires
        s.sound(),
    ensures
        s.spawned(
            ctx,
            now,
            problem_id,
            policy,
            bootstrap_instruction,
            inherited_cwd,
            inherited_model,
            inherited_tools,
        ).0.sound(),
{
    let fork = crate::entities::ContextForkView {
        policy,
        parent_thread_id: Some(ctx.thread_id),
        parent_actor_session_id: ctx.actor_session_id,
        fork_turn_id: None,
        bootstrap_instruction,
        inherited_cwd,
        inherited_model,
        inherited_tools,
    };
    let made = s.with_child_thread(ctx, now, problem_id, fork);
    assert(made.sound());
    lemma_transferred_sound(made, problem_id, s.fresh_thread_id(), now);
}

/// Recovering a thread keeps a state sound.
pub proof fn law_recovered_sound(
    s: ClosureStateView,
    ctx: RuntimeContextView,
    now: Timestamp,
    thread_id: Seq<char>,
)
    requires
        s.sound(),
    ensures
        s.recovered(ctx, now, thread_id).0.sound(),
{
    lemma_transferred_sound(s, s.threads[thread_id].root_problem_id, ctx.thread_id, now);
}

proof fn lemma_inbox_matched_problems(
    s: ClosureStateView,
    ctx: RuntimeContextView,
    now: Timestamp,
    handle_id: Seq<char>,
)
    ensures
        s.inbox_matched(ctx, now, handle_id).0.problems == s.problems,
        s.inbox_matched(ctx, now, handle_id).0.next_problem_seq == s.next_problem_seq,
{
}

proof fn lemma_handles_parked_problems(
    s: ClosureStateView,
    thread_id: Seq<char>,
    now: Timestamp,
    specs: Seq<WaitSpecView>,
    n: int,
)
    ensures
        s.handles_parked(thread_id, now, specs, n).0.problems == s.problems,
        s.handles_parked(thread_id, now, specs, n).0.next_problem_seq == s.next_problem_seq,
    decreases n,
{
    if n > 0 {
        lemma_handles_parked_problems(s, thread_id, now, specs, n - 1);
    }
}

proof fn lemma_waits_announced_problems(
    s: ClosureStateView,
    ctx: RuntimeContextView,
    now: Timestamp,
    reason: Seq<char>,
    ids: Seq<Seq<char>>,
    n: int,
)
    ensures
        s.waits_announced(ctx, now, reason, ids, n).0.problems == s.problems,
        s.waits_announced(ctx, now, reason, ids, n).0.next_problem_seq == s.next_problem_seq,
    decreases n,
{
    if n > 0 {
        lemma_waits_announced_problems(s, ctx, now, reason, ids, n - 1);
        let before = s.waits_announced(ctx, now, reason, ids, n - 1);
        let told = before.0.io_logged(
            ctx,
            now,
            IoEventKind::PassiveWaitCreated,
            Some(ids[n - 1]),
            Some(ctx.thread_id),
            "passive wait created: "@ + reason,
        );
        lemma_inbox_matched_problems(told, ctx, now, ids[n - 1]);
    }
}

/// Parking leaves the problems alone.
pub proof fn law_parked_leaves_problems(
    s: ClosureStateView,
    ctx: RuntimeContextView,
    now: Timestamp,
    mode: WaitMode,
    reason: Seq<char>,
    specs: Seq<WaitSpecView>,
)
    ensures
        s.parked(ctx, now, mode, reason, specs).0.problems == s.problems,
        s.parked(ctx, now, mode, reason, specs).0.next_problem_seq == s.next_problem_seq,
{
    if s.parking_refusal(ctx, specs) is Ok {
        let wait_id = s.fresh_wait_id();
        let numbered_state = ClosureStateView { next_wait_seq: (s.next_wait_seq + 1) as u32, ..s };
        let n = specs.len() as int;
        lemma_handles_parked_problems(numbered_state, ctx.thread_id, now, specs, n);
        let made = numbered_state.handles_parked(ctx.thread_id, now, specs, n);
        if let Ok(ids) = made.1 {
            lemma_waits_announced_problems(
                made.0.with_thread_wait(ctx, now, wait_id, mode, ids),
                ctx,
                now,
                reason,
                ids,
                ids.len() as int,
            );
        }
    }
}

/// Parking on one event leaves the problems alone.
pub proof fn law_parked_on_leaves_problems(
    s: ClosureStateView,
    ctx: RuntimeContextView,
    now: Timestamp,
    reason: Seq<char>,
    spec_: WaitSpecView,
)
    ensures
        s.parked_on(ctx, now, reason, spec_).0.problems == s.problems,
        s.parked_on(ctx, now, reason, spec_).0.next_problem_seq == s.next_problem_seq,
{
    law_parked_leaves_problems(s, ctx, now, WaitMode::All, reason, seq![spec_]);
}

proof fn lemma_siblings_cancelled_problems(
    s: ClosureStateView,
    ids: Seq<Seq<char>>,
    n: int,
    taken: Seq<char>,
    now: Timestamp,
)
    ensures
        s.siblings_cancelled(ids, n, taken, now).problems == s.problems,
        s.siblings_cancelled(ids, n, taken, now).next_problem_seq == s.next_problem_seq,
    decreases n,
{
    if n > 0 {
        lemma_siblings_cancelled_problems(s, ids, n - 1, taken, now);
    }
}

/// Taking a handle leaves the problems alone.
pub proof fn law_consumed_leaves_problems(
    s: ClosureStateView,
    ctx: RuntimeContextView,
    now: Timestamp,
    handle_id: Seq<char>,
)
    ensures
        s.consumed(ctx, now, handle_id).0.problems == s.problems,
        s.consumed(ctx, now, handle_id).0.next_problem_seq == s.next_problem_seq,
{
    let a = s.with_handle_status(handle_id, IoHandleStatus::Consumed, now);
    if let Some(wait_id) = s.wait_id_for_handle(handle_id) {
        let ids = a.waits[wait_id].handle_ids;
        lemma_siblings_cancelled_problems(a, ids, ids.len() as int, handle_id, now);
    }
}

/// Giving up a handle leaves the problems alone.
pub proof fn law_cancelled_leaves_problems(
    s: ClosureStateView,
    ctx: RuntimeContextView,
    now: Timestamp,
    handle_id: Seq<char>,
    reason: Seq<char>,
)
    ensures
        s.cancelled(ctx, now, handle_id, reason).0.problems == s.problems,
        s.cancelled(ctx, now, handle_id, reason).0.next_problem_seq == s.next_problem_seq,
{
}

proof fn lemma_delivered_problems(
    s: ClosureStateView,
    ctx: RuntimeContextView,
    now: Timestamp,
    routed: RoutedPassiveEventView,
    event_id: Seq<char>,
    ids: Seq<Seq<char>>,
    n: int,
)
    ensures
        s.delivered(ctx, now, routed, event_id, ids, n).0.problems == s.problems,
        s.delivered(ctx, now, routed, event_id, ids, n).0.next_problem_seq == s.next_problem_seq,
    decreases n,
{
    if n > 0 {
        lemma_delivered_problems(s, ctx, now, routed, event_id, ids, n - 1);
    }
}

/// Taking in an event leaves the problems alone.
pub proof fn law_received_leaves_problems(
    s: ClosureStateView,
    ctx: RuntimeContextView,
    now: Timestamp,
    input: PassiveEventInputView,
)
    ensures
        s.received(ctx, now, input).0.problems == s.problems,
        s.received(ctx, now, input).0.next_problem_seq == s.next_problem_seq,
{
    if let Ok(routed) = input.route() {
        let matched = s.matching_passive_handle_ids(routed);
        lemma_delivered_problems(
            s.event_recorded(ctx, now, routed),
            ctx,
            now,
            routed,
            s.fresh_event_id(),
            matched,
            matched.len() as int,
        );
    }
}

/// Acknowledging an inbox item leaves the problems alone.
pub proof fn law_acknowledged_leaves_problems(
    s: ClosureStateView,
    ctx: RuntimeContextView,
    now: Timestamp,
    item_id: Seq<char>,
    note: Seq<char>,
)
    ensures
        s.acknowledged(ctx, now, item_id, note).0.problems == s.problems,
        s.acknowledged(ctx, now, item_id, note).0.next_problem_seq == s.next_problem_seq,
{
}

/// Classifying a ticket leaves the problems alone.
pub proof fn law_ticket_classified_leaves_problems(
    s: ClosureStateView,
    ctx: RuntimeContextView,
    now: Timestamp,
    ticket_id: Seq<char>,
    classification: TicketClassification,
    reason: Seq<char>,
)
    ensures
        s.ticket_classified(ctx, now, ticket_id, classification, reason).0.problems == s.problems,
        s.ticket_classified(ctx, now, ticket_id, classification, reason).0.next_problem_seq == s.next_problem_seq,
{
}

/// Reporting on a child thread, binding an actor to it and joining it leave the problems alone.
pub proof fn law_threads_leave_problems(
    s: ClosureStateView,
    ctx: RuntimeContextView,
    now: Timestamp,
    thread_id: Seq<char>,
    other: Seq<char>,
    kind: IoEventKind,
    text: Seq<char>,
)
    ensures
        s.child_ready(ctx, now, thread_id, text).0.problems == s.problems,
        s.child_ready(ctx, now, thread_id, text).0.next_problem_seq == s.next_problem_seq,
        s.joined(ctx, now, thread_id, other, text).0.problems == s.problems,
        s.joined(ctx, now, thread_id, other, text).0.next_problem_seq == s.next_problem_seq,
        s.auto_joined(ctx, now, thread_id, text).0.problems == s.problems,
        s.auto_joined(ctx, now, thread_id, text).0.next_problem_seq == s.next_problem_seq,
        s.child_failed(ctx, now, thread_id, kind, text).0.problems == s.problems,
        s.child_failed(ctx, now, thread_id, kind, text).0.next_problem_seq == s.next_problem_seq,
        s.actor_stopped(ctx, now, thread_id, text).0.problems == s.problems,
        s.actor_stopped(ctx, now, thread_id, text).0.next_problem_seq == s.next_problem_seq,
        s.actor_bound(ctx, now, thread_id, text).0.problems == s.problems,
        s.actor_bound(ctx, now, thread_id, text).0.next_problem_seq == s.next_problem_seq,
{
}

} // verus!
