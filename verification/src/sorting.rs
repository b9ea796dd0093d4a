//! Sorting that keeps what came first first.
use vstd::prelude::*;
use crate::search::{find_from, kept, lemma_find_from, select};
use crate::text::{group_views, views};

verus! {

broadcast use group_views;

/// The elements that come behind `x`.
pub open spec fn behind<T>(before: spec_fn(T, T) -> bool, x: T) -> spec_fn(T) -> bool {
    |y: T| before(x, y)
}

/// `x` is put in front of the first element that comes behind it.
pub open spec fn put<T>(s: Seq<T>, before: spec_fn(T, T) -> bool, x: T) -> Seq<T> {
    match find_from(s, behind(before, x), 0) {
        Some(i) => s.insert(i, x),
        None => s.push(x),
    }
}

/// The first `n` elements in order; elements of which neither comes before the other stay as they
/// are.
pub open spec fn sorted_part<T>(s: Seq<T>, before: spec_fn(T, T) -> bool, n: int) -> Seq<T>
    decreases n,
{
    if n <= 0 {
        Seq::empty()
    } else {
        put(sorted_part(s, before, n - 1), before, s[n - 1])
    }
}

/// The elements in order.
pub open spec fn sorted<T>(s: Seq<T>, before: spec_fn(T, T) -> bool) -> Seq<T> {
    sorted_part(s, before, s.len() as int)
}

/// `before` is an order: what is not before something is not before anything before that.
pub open spec fn is_order<T>(before: spec_fn(T, T) -> bool) -> bool {
    &&& forall|x: T| !#[trigger] before(x, x)
    &&& forall|x: T, y: T, z: T| #[trigger] before(x, y) && #[trigger] before(y, z) ==> before(x, z)
    &&& forall|x: T, y: T, z: T|
        #[trigger] before(x, z) ==> before(x, y) || #[trigger] before(y, z)
}

/// No element comes before an earlier one.
pub open spec fn in_order<T>(s: Seq<T>, before: spec_fn(T, T) -> bool) -> bool {
    forall|i: int, j: int| 0 <= i < j < s.len() ==> !before(#[trigger] s[j], #[trigger] s[i])
}

proof fn lemma_put_in_order<T>(s: Seq<T>, before: spec_fn(T, T) -> bool, x: T)
    requires
        is_order(before),
        in_order(s, before),
    ensures
        in_order(put(s, before, x), before),
{
    lemma_find_from(s, behind(before, x), 0);
    let out = put(s, before, x);
    let at = match find_from(s, behind(before, x), 0) {
        Some(i) => i,
        None => s.len() as int,
    };
    assert(out =~= s.insert(at, x));
    assert forall|i: int, j: int| 0 <= i < j < out.len() implies !before(
        #[trigger] out[j],
        #[trigger] out[i],
    ) by {
        let a = if i < at {
            i
        } else {
            i - 1
        };
        let b = if j < at {
            j
        } else {
            j - 1
        };
        if i != at && j != at {
            assert(!before(s[b], s[a]));
        } else if j == at {
            assert(!behind(before, x)(s[i]));
        } else {
            assert(behind(before, x)(s[at]));
            if b > at {
                assert(!before(s[b], s[at]));
                if before(s[b], x) {
                    assert(before(s[b], s[at]));
                }
            } else if before(s[b], x) {
                assert(before(x, x));
            }
        }
    }
}

proof fn lemma_part_in_order<T>(s: Seq<T>, before: spec_fn(T, T) -> bool, n: int)
    requires
        is_order(before),
        0 <= n <= s.len(),
    ensures
        in_order(sorted_part(s, before, n), before),
        sorted_part(s, before, n).to_multiset() == s.take(n).to_multiset(),
    decreases n,
{
    broadcast use vstd::seq_lib::group_to_multiset_ensures;

    if n > 0 {
        lemma_part_in_order(s, before, n - 1);
        let done = sorted_part(s, before, n - 1);
        lemma_put_in_order(done, before, s[n - 1]);
        lemma_find_from(done, behind(before, s[n - 1]), 0);
        assert(s.take(n) =~= s.take(n - 1).push(s[n - 1]));
    } else {
        assert(s.take(n) =~= Seq::<T>::empty());
    }
}

/// Sorting brings the elements in order and keeps every one of them.
pub proof fn law_sorted<T>(s: Seq<T>, before: spec_fn(T, T) -> bool)
    requires
        is_order(before),
    ensures
        in_order(sorted(s, before), before),
        sorted(s, before).to_multiset() == s.to_multiset(),
{
    lemma_part_in_order(s, before, s.len() as int);
    assert(s.take(s.len() as int) =~= s);
}

/// Neither of two elements comes before the other.
pub open spec fn on_a_par<T>(before: spec_fn(T, T) -> bool, x: T) -> spec_fn(T) -> bool {
    |y: T| !before(x, y) && !before(y, x)
}

pub proof fn lemma_select_added<T>(a: Seq<T>, b: Seq<T>, f: spec_fn(T) -> bool)
    ensures
        select(a + b, f) == select(a, f) + select(b, f),
    decreases b.len(),
{
    if b.len() == 0 {
        assert(a + b =~= a);
        assert(select(a, f) + select(b, f) =~= select(a, f));
    } else {
        let c = b.drop_last();
        let whole = a + b;
        lemma_select_added(a, c, f);
        lemma_kept_alike(whole, a + c, f, (whole.len() - 1) as int);
        lemma_kept_alike(b, c, f, (b.len() - 1) as int);
        assert(whole[whole.len() - 1] == b.last());
        if f(b.last()) {
            assert(select(a, f) + select(c, f).push(b.last()) =~= (select(a, f) + select(
                c,
                f,
            )).push(b.last()));
        }
    }
}

proof fn lemma_kept_alike<T>(a: Seq<T>, b: Seq<T>, f: spec_fn(T) -> bool, n: int)
    requires
        n <= a.len(),
        n <= b.len(),
        forall|i: int| 0 <= i < n ==> a[i] == b[i],
    ensures
        kept(a, f, n) == kept(b, f, n),
    decreases n,
{
    if n > 0 {
        lemma_kept_alike(a, b, f, n - 1);
    }
}

proof fn lemma_put_is_stable<T>(s: Seq<T>, before: spec_fn(T, T) -> bool, x: T, y: T)
    requires
        is_order(before),
        in_order(s, before),
    ensures
        select(put(s, before, y), on_a_par(before, x)) == select(s.push(y), on_a_par(before, x)),
{
    let f = on_a_par(before, x);
    lemma_find_from(s, behind(before, y), 0);
    if let Some(at) = find_from(s, behind(before, y), 0) {
        let a = s.take(at);
        let b = s.skip(at);
        let one = seq![y];
        assert(put(s, before, y) =~= a + one + b);
        assert(s.push(y) =~= a + b + one);
        lemma_select_added(a + one, b, f);
        lemma_select_added(a, one, f);
        lemma_select_added(a + b, one, f);
        lemma_select_added(a, b, f);
        assert(behind(before, y)(s[at]));
        if f(y) {
            assert forall|i: int| 0 <= i < b.len() implies !f(#[trigger] b[i]) by {
                let z = s[at + i];
                assert(b[i] == z);
                if i > 0 {
                    assert(!before(s[at + i], s[at]));
                }
                assert(before(y, z));
                if f(z) {
                    assert(before(y, x) || before(x, z));
                }
            }
            lemma_none_kept(b, f, b.len() as int);
            assert(select(b, f) =~= Seq::<T>::empty());
        } else {
            lemma_none_kept(one, f, 1);
            assert(select(one, f) =~= Seq::<T>::empty());
        }
        assert(select(a, f) + select(one, f) + select(b, f) =~= select(a, f) + select(b, f) + select(
            one,
            f,
        ));
    }
}

proof fn lemma_none_kept<T>(s: Seq<T>, f: spec_fn(T) -> bool, n: int)
    requires
        n <= s.len(),
        forall|i: int| 0 <= i < n ==> !f(#[trigger] s[i]),
    ensures
        kept(s, f, n).len() == 0,
    decreases n,
{
    if n > 0 {
        lemma_none_kept(s, f, n - 1);
    }
}

proof fn lemma_part_is_stable<T>(s: Seq<T>, before: spec_fn(T, T) -> bool, x: T, n: int)
    requires
        is_order(before),
        0 <= n <= s.len(),
    ensures
        select(sorted_part(s, before, n), on_a_par(before, x)) == select(
            s.take(n),
            on_a_par(before, x),
        ),
    decreases n,
{
    let f = on_a_par(before, x);
    if n > 0 {
        lemma_part_is_stable(s, before, x, n - 1);
        lemma_part_in_order(s, before, n - 1);
        let done = sorted_part(s, before, n - 1);
        let one = seq![s[n - 1]];
        lemma_put_is_stable(done, before, x, s[n - 1]);
        assert(done.push(s[n - 1]) =~= done + one);
        assert(s.take(n) =~= s.take(n - 1) + one);
        lemma_select_added(done, one, f);
        lemma_select_added(s.take(n - 1), one, f);
    } else {
        assert(s.take(n) =~= Seq::<T>::empty());
    }
}

/// Elements of which neither comes before the other stay in the order in which they came.
pub proof fn law_sort_is_stable<T>(s: Seq<T>, before: spec_fn(T, T) -> bool, x: T)
    requires
        is_order(before),
    ensures
        select(sorted(s, before), on_a_par(before, x)) == select(s, on_a_par(before, x)),
{
    lemma_part_is_stable(s, before, x, s.len() as int);
    assert(s.take(s.len() as int) =~= s);
}

/// Sorts by `f`, which decides whether one element comes before another.
pub(crate) fn sort<T: View, F: Fn(&T, &T) -> bool>(
    list: Vec<T>,
    f: F,
    Ghost(before): Ghost<spec_fn(T::V, T::V) -> bool>,
) -> (r: Vec<T>)
    requires
        forall|x: &T, y: &T| #[trigger] call_requires(f, (x, y)),
        forall|x: &T, y: &T, b: bool| #[trigger]
            call_ensures(f, (x, y), b) ==> b == before(x@, y@),
    ensures
        views(r@) == sorted(views(list@), before),
{
    let ghost all = views(list@);
    let mut r: Vec<T> = Vec::new();
    let mut rest = list;
    let ghost mut n: int = 0;
    assert(all.skip(0) =~= all);
    while rest.len() > 0
        invariant
            forall|x: &T, y: &T| #[trigger] call_requires(f, (x, y)),
            forall|x: &T, y: &T, b: bool| #[trigger]
                call_ensures(f, (x, y), b) ==> b == before(x@, y@),
            0 <= n <= all.len(),
            views(rest@) == all.skip(n),
            rest@.len() == all.len() - n,
            views(r@) == sorted_part(all, before, n),
        decreases rest@.len(),
    {
        let ghost before_rest = rest@;
        let x = rest.remove(0);
        proof {
            assert(before_rest[0]@ == all.skip(n)[0]);
            assert(x@ == all[n]);
            assert(views(rest@) =~= all.skip(n + 1)) by {
                assert forall|i: int| 0 <= i < rest@.len() implies #[trigger] views(rest@)[i]
                    == all.skip(n + 1)[i] by {
                    assert(rest@[i] == before_rest[i + 1]);
                    assert(views(before_rest)[i + 1] == all.skip(n)[i + 1]);
                }
            }
        }
        let mut at: usize = 0;
        while at < r.len() && !f(&x, &r[at])
            invariant
                forall|x: &T, y: &T| #[trigger] call_requires(f, (x, y)),
                forall|x: &T, y: &T, b: bool| #[trigger]
                    call_ensures(f, (x, y), b) ==> b == before(x@, y@),
                at <= r@.len(),
                find_from(views(r@), behind(before, x@), 0) == find_from(
                    views(r@),
                    behind(before, x@),
                    at as int,
                ),
            decreases r@.len() - at,
        {
            at = at + 1;
        }
        assert(at == r@.len() ==> views(r@).insert(at as int, x@) =~= views(r@).push(x@));
        r.insert(at, x);
        proof {
            n = n + 1;
        }
    }
    r
}

} // verus!
