//! The overview shows the whole tree: one entry for each place of a problem, in order, set in by its
//! level.
use vstd::prelude::*;
use crate::entities::ClosureStateView;
use crate::forest::{branching, height, lemma_height, lemma_listed_below, listed};
use crate::kinds::{ProblemStatus, TicketClassification, TicketStatus};

verus! {

/// Where a problem stands in the tree: at each level, the place in the list of children and then
/// follow-ups of the problem above.
pub open spec fn problem_at(s: ClosureStateView, root: Seq<char>, place: Seq<int>) -> Option<Seq<char>>
    decreases place.len(),
{
    if place.len() == 0 {
        if s.problems.contains_key(root) {
            Some(root)
        } else {
            None
        }
    } else {
        match problem_at(s, root, place.drop_last()) {
            Some(above) => {
                let ids = s.problems[above].child_problem_ids
                    + s.problems[above].followup_problem_ids;
                if 0 <= place.last() < ids.len() && s.problems.contains_key(ids[place.last()]) {
                    Some(ids[place.last()])
                } else {
                    None
                }
            },
            None => None,
        }
    }
}

/// A place comes before another: it stands above it, or parts from it to an earlier place in a list.
pub open spec fn comes_before(a: Seq<int>, b: Seq<int>) -> bool {
    ||| a.len() < b.len() && b.take(a.len() as int) == a
    ||| exists|i: int|
        0 <= i < a.len() && i < b.len() && a.take(i) == b.take(i) && #[trigger] a[i] < b[i]
}

/// Two blanks for each level.
pub open spec fn set_in(level: nat) -> Seq<char> {
    Seq::new(2 * level, |i: int| ' ')
}

/// What stands in the overview for a problem at some level: a line with its name, status, owner and
/// title, and one with its ticket where it has one.
pub open spec fn entry(s: ClosureStateView, id: Seq<char>, level: nat) -> Seq<char> {
    let problem = s.problems[id];
    let word = match problem.status {
        ProblemStatus::Todo => "todo"@,
        ProblemStatus::Doing => "doing"@,
        ProblemStatus::Checking => "checking"@,
        ProblemStatus::Followup => "followup"@,
        ProblemStatus::Done => "done"@,
    };
    let line = set_in(level) + "- "@ + problem.id + " ["@ + word + " owner="@
        + problem.owner_thread_id + "] "@ + problem.title + "\n"@;
    match problem.ticket_id {
        Some(ticket_id) if s.tickets.contains_key(ticket_id) => {
            let ticket = s.tickets[ticket_id];
            let state = match ticket.status {
                TicketStatus::Created => "created"@,
                TicketStatus::Defined => "defined"@,
                TicketStatus::Classified => "classified"@,
                TicketStatus::Executing => "executing"@,
                TicketStatus::Splitting => "splitting"@,
                TicketStatus::Done => "done"@,
            };
            let class = match ticket.classification {
                Some(TicketClassification::OneGo) => "Some(OneGo)"@,
                Some(TicketClassification::Split) => "Some(Split)"@,
                None => "None"@,
            };
            line + set_in(level) + "  ticket "@ + ticket.id + " ["@ + state + "] "@ + class + "\n"@
        },
        _ => line,
    }
}

/// The entries of the problems at some places, one after another.
pub open spec fn entries_at(s: ClosureStateView, root: Seq<char>, places: Seq<Seq<int>>) -> Seq<char>
    decreases places.len(),
{
    if places.len() == 0 {
        Seq::empty()
    } else {
        entries_at(s, root, places.drop_last()) + (match problem_at(s, root, places.last()) {
            Some(id) => entry(s, id, places.last().len()),
            None => Seq::empty(),
        })
    }
}

/// All places where a problem stands, each once, in order.
pub open spec fn all_places(s: ClosureStateView, root: Seq<char>, places: Seq<Seq<int>>) -> bool {
    &&& forall|i: int| 0 <= i < places.len() ==> problem_at(s, root, #[trigger] places[i]) is Some
    &&& forall|place: Seq<int>| #[trigger]
        problem_at(s, root, place) is Some ==> places.contains(place)
    &&& forall|i: int, j: int|
        0 <= i < j < places.len() ==> comes_before(#[trigger] places[i], #[trigger] places[j])
}

proof fn lemma_entry(s: ClosureStateView, id: Seq<char>, level: nat)
    ensures
        entry(s, id, level) == s.problem_line(id, set_in(level)) + s.ticket_line(id, set_in(level)),
{
    reveal_strlit("Some(OneGo)");
    reveal_strlit("Some(Split)");
    reveal_strlit("Some(");
    reveal_strlit("OneGo");
    reveal_strlit("Split");
    reveal_strlit(")");
    let problem = s.problems[id];
    assert("Some("@ + "OneGo"@ + ")"@ =~= "Some(OneGo)"@);
    assert("Some("@ + "Split"@ + ")"@ =~= "Some(Split)"@);
    assert(entry(s, id, level) =~= s.problem_line(id, set_in(level)) + s.ticket_line(
        id,
        set_in(level),
    ));
}

proof fn lemma_entries_added(
    s: ClosureStateView,
    root: Seq<char>,
    a: Seq<Seq<int>>,
    b: Seq<Seq<int>>,
)
    ensures
        entries_at(s, root, a + b) == entries_at(s, root, a) + entries_at(s, root, b),
    decreases b.len(),
{
    if b.len() == 0 {
        assert(a + b =~= a);
        assert(entries_at(s, root, a) + entries_at(s, root, b) =~= entries_at(s, root, a));
    } else {
        lemma_entries_added(s, root, a, b.drop_last());
        assert((a + b).drop_last() =~= a + b.drop_last());
        assert((a + b).last() == b.last());
        let last = match problem_at(s, root, b.last()) {
            Some(id) => entry(s, id, b.last().len()),
            None => Seq::empty(),
        };
        assert((entries_at(s, root, a) + entries_at(s, root, b.drop_last())) + last
            =~= entries_at(s, root, a) + (entries_at(s, root, b.drop_last()) + last));
    }
}

spec fn starts_with(place: Seq<int>, base: Seq<int>) -> bool {
    place.len() >= base.len() && place.take(base.len() as int) == base
}

/// The places at and below one.
spec fn under(s: ClosureStateView, id: Seq<char>, base: Seq<int>) -> Seq<Seq<int>>
    decreases height(s.problems, id), listed(s.problems[id]).len() + 1,
    when branching(s.problems)
{
    if !s.problems.contains_key(id) {
        Seq::empty()
    } else {
        seq![base] + under_from(s, id, base, 0)
    }
}

spec fn under_from(s: ClosureStateView, id: Seq<char>, base: Seq<int>, i: int) -> Seq<Seq<int>>
    decreases height(s.problems, id), listed(s.problems[id]).len() - i,
    when branching(s.problems) && s.problems.contains_key(id) && 0 <= i
    via under_from_decreases
{
    let ids = listed(s.problems[id]);
    if i >= ids.len() {
        Seq::empty()
    } else {
        under(s, ids[i], base.push(i)) + under_from(s, id, base, i + 1)
    }
}

#[via_fn]
proof fn under_from_decreases(s: ClosureStateView, id: Seq<char>, base: Seq<int>, i: int) {
    let ids = listed(s.problems[id]);
    if i < ids.len() && s.problems.contains_key(ids[i]) {
        lemma_listed_below(s.problems[id], i);
        lemma_height(s.problems, id, ids[i]);
    }
}

proof fn lemma_first_step(
    s: ClosureStateView,
    root: Seq<char>,
    id: Seq<char>,
    base: Seq<int>,
    place: Seq<int>,
)
    requires
        problem_at(s, root, base) == Some(id),
        problem_at(s, root, place) is Some,
        place.len() > base.len(),
        starts_with(place, base),
    ensures
        ({
            let k = place[base.len() as int];
            let ids = listed(s.problems[id]);
            &&& 0 <= k < ids.len()
            &&& s.problems.contains_key(ids[k])
            &&& problem_at(s, root, base.push(k)) == Some(ids[k])
            &&& starts_with(place, base.push(k))
        }),
    decreases place.len(),
{
    let k = place[base.len() as int];
    assert(place.take(base.len() as int + 1) =~= base.push(k));
    if place.len() == base.len() + 1 {
        assert(place =~= base.push(k));
        assert(place.drop_last() =~= base);
    } else {
        assert(place.drop_last().take(base.len() as int) =~= base);
        lemma_first_step(s, root, id, base, place.drop_last());
    }
}

proof fn lemma_step_down(s: ClosureStateView, root: Seq<char>, id: Seq<char>, base: Seq<int>, i: int)
    requires
        problem_at(s, root, base) == Some(id),
        0 <= i < listed(s.problems[id]).len(),
        s.problems.contains_key(listed(s.problems[id])[i]),
    ensures
        problem_at(s, root, base.push(i)) == Some(listed(s.problems[id])[i]),
{
    assert(base.push(i).drop_last() =~= base);
}

proof fn lemma_under_is_there(s: ClosureStateView, root: Seq<char>, id: Seq<char>, base: Seq<int>)
    requires
        branching(s.problems),
        problem_at(s, root, base) == Some(id),
        s.problems.contains_key(id),
    ensures
        forall|i: int|
            0 <= i < under(s, id, base).len() ==> problem_at(
                s,
                root,
                #[trigger] under(s, id, base)[i],
            ) is Some && starts_with(under(s, id, base)[i], base),
    decreases height(s.problems, id), listed(s.problems[id]).len() + 1,
{
    lemma_under_from_is_there(s, root, id, base, 0);
    let all = under(s, id, base);
    let rest = under_from(s, id, base, 0);
    assert(base.take(base.len() as int) =~= base);
    assert forall|i: int| 0 <= i < all.len() implies problem_at(s, root, #[trigger] all[i]) is Some
        && starts_with(all[i], base) by {
        if i > 0 {
            assert(all[i] == rest[i - 1]);
        }
    }
}

proof fn lemma_under_from_is_there(
    s: ClosureStateView,
    root: Seq<char>,
    id: Seq<char>,
    base: Seq<int>,
    i: int,
)
    requires
        branching(s.problems),
        problem_at(s, root, base) == Some(id),
        s.problems.contains_key(id),
        0 <= i,
    ensures
        ({
            let all = under_from(s, id, base, i);
            forall|j: int|
                0 <= j < all.len() ==> problem_at(s, root, #[trigger] all[j]) is Some
                    && starts_with(all[j], base) && all[j].len() > base.len()
                    && all[j][base.len() as int] >= i
        }),
    decreases height(s.problems, id), listed(s.problems[id]).len() - i,
{
    let ids = listed(s.problems[id]);
    let all = under_from(s, id, base, i);
    if i < ids.len() {
        let first = under(s, ids[i], base.push(i));
        let rest = under_from(s, id, base, i + 1);
        lemma_listed_below(s.problems[id], i);
        lemma_height(s.problems, id, ids[i]);
        lemma_under_from_is_there(s, root, id, base, i + 1);
        if s.problems.contains_key(ids[i]) {
            lemma_step_down(s, root, id, base, i);
            lemma_under_is_there(s, root, ids[i], base.push(i));
        }
        assert forall|j: int| 0 <= j < all.len() implies problem_at(s, root, #[trigger] all[j]) is Some
            && starts_with(all[j], base) && all[j].len() > base.len() && all[j][base.len() as int]
            >= i by {
            if j < first.len() {
                assert(all[j] == first[j]);
                assert(starts_with(first[j], base.push(i)));
                assert(first[j].take(base.len() as int) =~= first[j].take(
                    base.push(i).len() as int,
                ).take(base.len() as int));
                assert(base.push(i).take(base.len() as int) =~= base);
                assert(first[j][base.len() as int] == first[j].take(
                    base.push(i).len() as int,
                )[base.len() as int]);
            } else {
                assert(all[j] == rest[j - first.len()]);
            }
        }
    }
}

proof fn lemma_under_has_all(
    s: ClosureStateView,
    root: Seq<char>,
    id: Seq<char>,
    base: Seq<int>,
    place: Seq<int>,
)
    requires
        branching(s.problems),
        problem_at(s, root, base) == Some(id),
        s.problems.contains_key(id),
        problem_at(s, root, place) is Some,
        starts_with(place, base),
    ensures
        under(s, id, base).contains(place),
    decreases height(s.problems, id), listed(s.problems[id]).len() + 1,
{
    let all = under(s, id, base);
    let rest = under_from(s, id, base, 0);
    if place.len() == base.len() {
        assert(place.take(base.len() as int) =~= place);
        assert(all[0] == place);
    } else {
        lemma_first_step(s, root, id, base, place);
        lemma_under_from_has_all(s, root, id, base, 0, place);
        let j = rest.index_of(place);
        assert(rest[j] == place);
        assert(all[j + 1] == place);
    }
}

proof fn lemma_under_from_has_all(
    s: ClosureStateView,
    root: Seq<char>,
    id: Seq<char>,
    base: Seq<int>,
    i: int,
    place: Seq<int>,
)
    requires
        branching(s.problems),
        problem_at(s, root, base) == Some(id),
        s.problems.contains_key(id),
        0 <= i,
        problem_at(s, root, place) is Some,
        place.len() > base.len(),
        starts_with(place, base),
        place[base.len() as int] >= i,
    ensures
        under_from(s, id, base, i).contains(place),
    decreases height(s.problems, id), listed(s.problems[id]).len() - i,
{
    let ids = listed(s.problems[id]);
    let all = under_from(s, id, base, i);
    let k = place[base.len() as int];
    lemma_first_step(s, root, id, base, place);
    let first = under(s, ids[i], base.push(i));
    let rest = under_from(s, id, base, i + 1);
    if k == i {
        lemma_listed_below(s.problems[id], i);
        lemma_height(s.problems, id, ids[i]);
        lemma_under_has_all(s, root, ids[i], base.push(i), place);
        let j = first.index_of(place);
        assert(first[j] == place);
        assert(all[j] == place);
    } else {
        lemma_under_from_has_all(s, root, id, base, i + 1, place);
        let j = rest.index_of(place);
        assert(rest[j] == place);
        assert(all[first.len() + j] == place);
    }
}

spec fn in_order(places: Seq<Seq<int>>) -> bool {
    forall|i: int, j: int|
        0 <= i < j < places.len() ==> comes_before(#[trigger] places[i], #[trigger] places[j])
}

proof fn lemma_under_in_order(s: ClosureStateView, root: Seq<char>, id: Seq<char>, base: Seq<int>)
    requires
        branching(s.problems),
        problem_at(s, root, base) == Some(id),
        s.problems.contains_key(id),
    ensures
        in_order(under(s, id, base)),
    decreases height(s.problems, id), listed(s.problems[id]).len() + 1,
{
    let all = under(s, id, base);
    let rest = under_from(s, id, base, 0);
    lemma_under_from_in_order(s, root, id, base, 0);
    lemma_under_from_is_there(s, root, id, base, 0);
    assert forall|i: int, j: int| 0 <= i < j < all.len() implies comes_before(
        #[trigger] all[i],
        #[trigger] all[j],
    ) by {
        assert(all[j] == rest[j - 1]);
        if i > 0 {
            assert(all[i] == rest[i - 1]);
        } else {
            assert(all[i] == base);
        }
    }
}

proof fn lemma_under_from_in_order(
    s: ClosureStateView,
    root: Seq<char>,
    id: Seq<char>,
    base: Seq<int>,
    i: int,
)
    requires
        branching(s.problems),
        problem_at(s, root, base) == Some(id),
        s.problems.contains_key(id),
        0 <= i,
    ensures
        in_order(under_from(s, id, base, i)),
    decreases height(s.problems, id), listed(s.problems[id]).len() - i,
{
    let ids = listed(s.problems[id]);
    let all = under_from(s, id, base, i);
    if i < ids.len() {
        let first = under(s, ids[i], base.push(i));
        let rest = under_from(s, id, base, i + 1);
        let n = base.len() as int;
        lemma_listed_below(s.problems[id], i);
        lemma_height(s.problems, id, ids[i]);
        lemma_under_from_in_order(s, root, id, base, i + 1);
        lemma_under_from_is_there(s, root, id, base, i + 1);
        if s.problems.contains_key(ids[i]) {
            lemma_step_down(s, root, id, base, i);
            lemma_under_in_order(s, root, ids[i], base.push(i));
            lemma_under_is_there(s, root, ids[i], base.push(i));
        }
        assert forall|j: int, k: int| 0 <= j < k < all.len() implies comes_before(
            #[trigger] all[j],
            #[trigger] all[k],
        ) by {
            if k < first.len() {
                assert(all[j] == first[j] && all[k] == first[k]);
            } else if j >= first.len() {
                assert(all[j] == rest[j - first.len()] && all[k] == rest[k - first.len()]);
            } else {
                let a = first[j];
                let b = rest[k - first.len()];
                assert(all[j] == a && all[k] == b);
                assert(starts_with(a, base.push(i)));
                assert(a.take(n) =~= a.take(n + 1).take(n));
                assert(base.push(i).take(n) =~= base);
                assert(a[n] == a.take(n + 1)[n]);
                assert(a.take(n) == b.take(n) && a[n] < b[n]);
            }
        }
    }
}

proof fn lemma_rendered(s: ClosureStateView, root: Seq<char>, id: Seq<char>, base: Seq<int>)
    requires
        branching(s.problems),
        problem_at(s, root, base) == Some(id),
        s.problems.contains_key(id),
    ensures
        s.rendered(id, set_in(base.len())) == entries_at(s, root, under(s, id, base)),
    decreases height(s.problems, id), listed(s.problems[id]).len() + 1,
{
    let rest = under_from(s, id, base, 0);
    lemma_rendered_below(s, root, id, base, 0);
    lemma_entry(s, id, base.len());
    lemma_entries_added(s, root, seq![base], rest);
    let one = seq![base];
    assert(one.drop_last() =~= Seq::<Seq<int>>::empty());
    assert(one.last() == base);
    assert(entries_at(s, root, one.drop_last()) =~= Seq::<char>::empty());
    assert(entries_at(s, root, one) =~= entry(s, id, base.len()));
}

proof fn lemma_rendered_below(
    s: ClosureStateView,
    root: Seq<char>,
    id: Seq<char>,
    base: Seq<int>,
    i: int,
)
    requires
        branching(s.problems),
        problem_at(s, root, base) == Some(id),
        s.problems.contains_key(id),
        0 <= i,
    ensures
        s.rendered_below(id, set_in(base.len()), i) == entries_at(s, root, under_from(s, id, base, i)),
    decreases height(s.problems, id), listed(s.problems[id]).len() - i,
{
    let ids = listed(s.problems[id]);
    if i < ids.len() {
        let first = under(s, ids[i], base.push(i));
        let rest = under_from(s, id, base, i + 1);
        lemma_listed_below(s.problems[id], i);
        lemma_height(s.problems, id, ids[i]);
        reveal_strlit("  ");
        assert(set_in(base.len()) + "  "@ =~= set_in(base.push(i).len()));
        lemma_rendered_below(s, root, id, base, i + 1);
        lemma_entries_added(s, root, first, rest);
        if s.problems.contains_key(ids[i]) {
            lemma_step_down(s, root, id, base, i);
            lemma_rendered(s, root, ids[i], base.push(i));
        } else {
            assert(first =~= Seq::<Seq<int>>::empty());
        }
        let inner = set_in(base.push(i).len());
        assert(s.rendered(ids[i], inner) == entries_at(s, root, first));
        assert(s.rendered_below(id, set_in(base.len()), i) =~= s.rendered(ids[i], inner)
            + s.rendered_below(id, set_in(base.len()), i + 1));
    } else {
        assert(under_from(s, id, base, i) =~= Seq::<Seq<int>>::empty());
    }
}

/// The overview holds one entry for each place where a problem stands below the root, children before
/// follow-ups and each problem before those below it, set in by two blanks for each level, and nothing
/// else.
pub proof fn law_overview_shows_the_tree(s: ClosureStateView)
    requires
        branching(s.problems),
    ensures
        exists|places: Seq<Seq<int>>| #[trigger]
            all_places(s, s.root_problem_id, places) && s.rendered(s.root_problem_id, ""@)
                == entries_at(s, s.root_problem_id, places),
{
    let root = s.root_problem_id;
    let top = Seq::<int>::empty();
    reveal_strlit("");
    assert(""@ =~= set_in(0));
    if s.problems.contains_key(root) {
        let places = under(s, root, top);
        assert(problem_at(s, root, top) == Some(root));
        lemma_rendered(s, root, root, top);
        lemma_under_is_there(s, root, root, top);
        lemma_under_in_order(s, root, root, top);
        assert forall|place: Seq<int>| #[trigger] problem_at(s, root, place) is Some implies
            places.contains(place) by {
            assert(place.take(0) =~= top);
            lemma_under_has_all(s, root, root, top, place);
        }
        assert(all_places(s, root, places));
    } else {
        let places = Seq::<Seq<int>>::empty();
        assert forall|place: Seq<int>| #[trigger] problem_at(s, root, place) is Some implies
            places.contains(place) by {
            lemma_nothing_there(s, root, place);
        }
        assert(all_places(s, root, places));
    }
}

proof fn lemma_nothing_there(s: ClosureStateView, root: Seq<char>, place: Seq<int>)
    requires
        !s.problems.contains_key(root),
    ensures
        problem_at(s, root, place) is None,
    decreases place.len(),
{
    if place.len() > 0 {
        lemma_nothing_there(s, root, place.drop_last());
    }
}

/// A text holds another one from some place on.
pub open spec fn holds_at(text: Seq<char>, part: Seq<char>, at: int) -> bool {
    0 <= at && at + part.len() <= text.len() && text.subrange(at, at + part.len()) == part
}

proof fn lemma_entry_is_held(s: ClosureStateView, root: Seq<char>, places: Seq<Seq<int>>, i: int)
    requires
        0 <= i < places.len(),
        problem_at(s, root, places[i]) is Some,
    ensures
        exists|at: int| #[trigger]
            holds_at(
                entries_at(s, root, places),
                entry(s, problem_at(s, root, places[i])->0, places[i].len()),
                at,
            ),
    decreases places.len(),
{
    let text = entries_at(s, root, places);
    let before = entries_at(s, root, places.drop_last());
    let part = entry(s, problem_at(s, root, places[i])->0, places[i].len());
    if i == places.len() - 1 {
        assert(text.subrange(before.len() as int, before.len() as int + part.len()) =~= part);
        assert(holds_at(text, part, before.len() as int));
    } else {
        assert(places.drop_last()[i] == places[i]);
        lemma_entry_is_held(s, root, places.drop_last(), i);
        let at = choose|at: int| #[trigger] holds_at(before, part, at);
        assert(text.subrange(at, at + part.len()) =~= before.subrange(at, at + part.len()));
        assert(holds_at(text, part, at));
    }
}

/// Every problem that can be reached from the root through lists of children and follow-ups has its
/// entry in the overview.
pub proof fn law_every_reached_problem_is_shown(s: ClosureStateView, place: Seq<int>)
    requires
        branching(s.problems),
        problem_at(s, s.root_problem_id, place) is Some,
    ensures
        exists|at: int| #[trigger]
            holds_at(
                s.rendered(s.root_problem_id, ""@),
                entry(s, problem_at(s, s.root_problem_id, place)->0, place.len()),
                at,
            ),
{
    law_overview_shows_the_tree(s);
    let places = choose|places: Seq<Seq<int>>| #[trigger]
        all_places(s, s.root_problem_id, places) && s.rendered(s.root_problem_id, ""@)
            == entries_at(s, s.root_problem_id, places);
    let i = places.index_of(place);
    assert(places.contains(place));
    assert(places[i] == place);
    lemma_entry_is_held(s, s.root_problem_id, places, i);
}

} // verus!
