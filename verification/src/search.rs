//! Searching, filtering and counting in sequences.
use vstd::prelude::*;
use crate::text::views;

verus! {

/// The first place from `i` on whose element satisfies `f`.
pub open spec fn find_from<T>(s: Seq<T>, f: spec_fn(T) -> bool, i: int) -> Option<int>
    decreases s.len() - i,
{
    if i < 0 || i >= s.len() {
        None
    } else if f(s[i]) {
        Some(i)
    } else {
        find_from(s, f, i + 1)
    }
}

/// The first place whose element satisfies `f`.
pub open spec fn find_index<T>(s: Seq<T>, f: spec_fn(T) -> bool) -> Option<int> {
    find_from(s, f, 0)
}

/// The first element that satisfies `f`.
pub open spec fn find_first<T>(s: Seq<T>, f: spec_fn(T) -> bool) -> Option<T> {
    match find_from(s, f, 0) {
        Some(i) => Some(s[i]),
        None => None,
    }
}

pub proof fn lemma_find_from<T>(s: Seq<T>, f: spec_fn(T) -> bool, i: int)
    requires
        0 <= i,
    ensures
        match find_from(s, f, i) {
            Some(k) => i <= k < s.len() && f(s[k]) && forall|j: int| i <= j < k ==> !f(#[trigger] s[j]),
            None => forall|j: int| i <= j < s.len() ==> !f(#[trigger] s[j]),
        },
    decreases s.len() - i,
{
    if i < s.len() && !f(s[i]) {
        lemma_find_from(s, f, i + 1);
    }
}

/// Those of the first `n` elements that satisfy `f`, in order.
pub open spec fn kept<T>(s: Seq<T>, f: spec_fn(T) -> bool, n: int) -> Seq<T>
    decreases n,
{
    if n <= 0 {
        Seq::empty()
    } else if f(s[n - 1]) {
        kept(s, f, n - 1).push(s[n - 1])
    } else {
        kept(s, f, n - 1)
    }
}

/// The elements that satisfy `f`, in order.
pub open spec fn select<T>(s: Seq<T>, f: spec_fn(T) -> bool) -> Seq<T> {
    kept(s, f, s.len() as int)
}

pub proof fn lemma_kept<T>(s: Seq<T>, f: spec_fn(T) -> bool, n: int)
    requires
        n <= s.len(),
    ensures
        kept(s, f, n).len() <= if n < 0 { 0 } else { n },
        forall|x: T| #[trigger] kept(s, f, n).contains(x) ==> f(x) && s.contains(x),
        forall|i: int| 0 <= i < n && f(#[trigger] s[i]) ==> kept(s, f, n).contains(s[i]),
    decreases n,
{
    if n > 0 {
        lemma_kept(s, f, n - 1);
        let before = kept(s, f, n - 1);
        if f(s[n - 1]) {
            let after = before.push(s[n - 1]);
            assert forall|x: T| #[trigger] after.contains(x) implies f(x) && s.contains(x) by {
                let k = choose|k: int| 0 <= k < after.len() && after[k] == x;
                if k < before.len() {
                    assert(before[k] == x);
                    assert(before.contains(x));
                }
            }
            assert forall|i: int| 0 <= i < n && f(#[trigger] s[i]) implies after.contains(
                s[i],
            ) by {
                if i < n - 1 {
                    assert(before.contains(s[i]));
                    let k = choose|k: int| 0 <= k < before.len() && before[k] == s[i];
                    assert(after[k] == s[i]);
                } else {
                    assert(after[before.len() as int] == s[i]);
                }
            }
        }
    }
}

/// How many of the first `n` elements satisfy `f`.
pub open spec fn counted<T>(s: Seq<T>, f: spec_fn(T) -> bool, n: int) -> nat
    decreases n,
{
    if n <= 0 {
        0
    } else if f(s[n - 1]) {
        counted(s, f, n - 1) + 1
    } else {
        counted(s, f, n - 1)
    }
}

/// How many elements satisfy `f`.
pub open spec fn count<T>(s: Seq<T>, f: spec_fn(T) -> bool) -> nat {
    counted(s, f, s.len() as int)
}

/// The first place of a vector whose element satisfies `f`, which decides `p`.
pub(crate) fn position<T: View, F: Fn(&T) -> bool>(
    v: &Vec<T>,
    f: F,
    Ghost(p): Ghost<spec_fn(T::V) -> bool>,
) -> (r: Option<usize>)
    requires
        forall|x: &T| #[trigger] call_requires(f, (x,)),
        forall|x: &T, b: bool| #[trigger] call_ensures(f, (x,), b) ==> b == p(x@),
    ensures
        match r {
            Some(i) => i < v@.len() && find_index(views(v@), p) == Some(i as int),
            None => find_index(views(v@), p) is None,
        },
{
    let mut i: usize = 0;
    while i < v.len()
        invariant
            i <= v@.len(),
            forall|x: &T| #[trigger] call_requires(f, (x,)),
            forall|x: &T, b: bool| #[trigger] call_ensures(f, (x,), b) ==> b == p(x@),
            find_index(views(v@), p) == find_from(views(v@), p, i as int),
        decreases v@.len() - i,
    {
        if f(&v[i]) {
            return Some(i);
        }
        i = i + 1;
    }
    None
}

/// How many elements of a vector satisfy `f`, which decides `p`.
pub(crate) fn count_in<T: View, F: Fn(&T) -> bool>(
    v: &Vec<T>,
    f: F,
    Ghost(p): Ghost<spec_fn(T::V) -> bool>,
) -> (r: usize)
    requires
        forall|x: &T| #[trigger] call_requires(f, (x,)),
        forall|x: &T, b: bool| #[trigger] call_ensures(f, (x,), b) ==> b == p(x@),
    ensures
        r == count(views(v@), p),
{
    let mut i: usize = 0;
    let mut n: usize = 0;
    while i < v.len()
        invariant
            n <= i <= v@.len(),
            forall|x: &T| #[trigger] call_requires(f, (x,)),
            forall|x: &T, b: bool| #[trigger] call_ensures(f, (x,), b) ==> b == p(x@),
            n == counted(views(v@), p, i as int),
        decreases v@.len() - i,
    {
        if f(&v[i]) {
            n = n + 1;
        }
        i = i + 1;
    }
    n
}

/// Those strings of a vector that satisfy `f`, which decides `p`.
pub(crate) fn select_texts<F: Fn(&String) -> bool>(
    v: &Vec<String>,
    f: F,
    Ghost(p): Ghost<spec_fn(Seq<char>) -> bool>,
) -> (r: Vec<String>)
    requires
        forall|x: &String| #[trigger] call_requires(f, (x,)),
        forall|x: &String, b: bool| #[trigger] call_ensures(f, (x,), b) ==> b == p(x@),
    ensures
        views(r@) == select(views(v@), p),
{
    broadcast use crate::text::group_views;

    let mut i: usize = 0;
    let mut out: Vec<String> = Vec::new();
    while i < v.len()
        invariant
            i <= v@.len(),
            forall|x: &String| #[trigger] call_requires(f, (x,)),
            forall|x: &String, b: bool| #[trigger] call_ensures(f, (x,), b) ==> b == p(x@),
            views(out@) == kept(views(v@), p, i as int),
        decreases v@.len() - i,
    {
        if f(&v[i]) {
            out.push(v[i].clone());
        }
        i = i + 1;
    }
    out
}

} // verus!
