//! The order of strings by their characters, and the ascending listing of a set of strings.
use vstd::prelude::*;
use crate::text::chars_of;

verus! {

/// `a` comes before `b`: at the first place where they differ the character of `a` is the
/// smaller one, or `a` ends there.
pub open spec fn lex_lt(a: Seq<char>, b: Seq<char>) -> bool
    decreases a.len(),
{
    if b.len() == 0 {
        false
    } else if a.len() == 0 {
        true
    } else if a[0] != b[0] {
        (a[0] as int) < (b[0] as int)
    } else {
        lex_lt(a.drop_first(), b.drop_first())
    }
}

pub proof fn lemma_lex_irreflexive(a: Seq<char>)
    ensures
        !lex_lt(a, a),
    decreases a.len(),
{
    if a.len() > 0 {
        lemma_lex_irreflexive(a.drop_first());
    }
}

pub proof fn lemma_lex_transitive(a: Seq<char>, b: Seq<char>, c: Seq<char>)
    requires
        lex_lt(a, b),
        lex_lt(b, c),
    ensures
        lex_lt(a, c),
    decreases a.len(),
{
    if a.len() > 0 && b.len() > 0 && c.len() > 0 && a[0] == b[0] && b[0] == c[0] {
        lemma_lex_transitive(a.drop_first(), b.drop_first(), c.drop_first());
    }
}

pub proof fn lemma_lex_total(a: Seq<char>, b: Seq<char>)
    ensures
        lex_lt(a, b) || a == b || lex_lt(b, a),
    decreases a.len(),
{
    if a.len() == 0 || b.len() == 0 {
        if a.len() == 0 && b.len() == 0 {
            assert(a =~= b);
        }
    } else if a[0] == b[0] {
        lemma_lex_total(a.drop_first(), b.drop_first());
        if a.drop_first() == b.drop_first() {
            assert(a =~= seq![a[0]] + a.drop_first());
            assert(b =~= seq![b[0]] + b.drop_first());
        }
    }
}

/// Strictly ascending, so without repetition.
pub open spec fn ascending(ks: Seq<Seq<char>>) -> bool {
    forall|i: int, j: int| 0 <= i < j < ks.len() ==> #[trigger] lex_lt(ks[i], ks[j])
}

/// The members of a set of strings, from the first to the last.
pub open spec fn sorted_keys(dom: Set<Seq<char>>) -> Seq<Seq<char>> {
    choose|ks: Seq<Seq<char>>| ascending(ks) && #[trigger] ks.to_set() == dom
}

proof fn lemma_last_is_greatest(ks: Seq<Seq<char>>, k: Seq<char>)
    requires
        ascending(ks),
        ks.contains(k),
    ensures
        k == ks.last() || lex_lt(k, ks.last()),
{
    let i = choose|i: int| 0 <= i < ks.len() && ks[i] == k;
    if i < ks.len() - 1 {
        assert(lex_lt(ks[i], ks[ks.len() - 1]));
    }
}

proof fn lemma_drop_last_set(ks: Seq<Seq<char>>)
    requires
        ascending(ks),
        ks.len() > 0,
    ensures
        ascending(ks.drop_last()),
        forall|k: Seq<char>|
            #[trigger] ks.drop_last().contains(k) <==> ks.contains(k) && k != ks.last(),
{
    let ds = ks.drop_last();
    assert forall|i: int, j: int| 0 <= i < j < ds.len() implies #[trigger] lex_lt(
        ds[i],
        ds[j],
    ) by {
        assert(lex_lt(ks[i], ks[j]));
    }
    assert forall|k: Seq<char>| #[trigger] ds.contains(k) <==> ks.contains(k) && k
        != ks.last() by {
        if ds.contains(k) {
            let i = choose|i: int| 0 <= i < ds.len() && ds[i] == k;
            assert(ks[i] == k);
            assert(lex_lt(ks[i], ks[ks.len() - 1]));
            lemma_lex_irreflexive(k);
        }
        if ks.contains(k) && k != ks.last() {
            let i = choose|i: int| 0 <= i < ks.len() && ks[i] == k;
            assert(ds[i] == k);
        }
    }
}

/// Two ascending sequences with the same members are the same sequence.
pub proof fn lemma_ascending_unique(a: Seq<Seq<char>>, b: Seq<Seq<char>>)
    requires
        ascending(a),
        ascending(b),
        forall|k: Seq<char>| a.contains(k) <==> b.contains(k),
    ensures
        a == b,
    decreases a.len(),
{
    if a.len() == 0 {
        if b.len() > 0 {
            assert(b.contains(b[0]));
            assert(a.contains(b[0]));
        }
        assert(a =~= b);
    } else {
        assert(a.contains(a[0]));
        assert(b.contains(a[0]));
        assert(a.contains(a.last()));
        assert(b.contains(b.last()));
        lemma_last_is_greatest(b, a.last());
        lemma_last_is_greatest(a, b.last());
        if a.last() != b.last() {
            lemma_lex_transitive(a.last(), b.last(), a.last());
            lemma_lex_irreflexive(a.last());
        }
        lemma_drop_last_set(a);
        lemma_drop_last_set(b);
        assert forall|k: Seq<char>| a.drop_last().contains(k) <==> b.drop_last().contains(k) by {
            assert(a.contains(k) <==> b.contains(k));
        }
        lemma_ascending_unique(a.drop_last(), b.drop_last());
        assert(a =~= a.drop_last().push(a.last()));
        assert(b =~= b.drop_last().push(b.last()));
    }
}

/// The ascending listing of a set is the one that any ascending listing of it gives.
pub proof fn lemma_sorted_keys(ks: Seq<Seq<char>>, dom: Set<Seq<char>>)
    requires
        ascending(ks),
        ks.to_set() == dom,
    ensures
        sorted_keys(dom) == ks,
{
    let other = sorted_keys(dom);
    assert(ascending(other) && other.to_set() == dom);
    assert forall|k: Seq<char>| ks.contains(k) <==> other.contains(k) by {
        assert(ks.to_set().contains(k) <==> ks.contains(k));
        assert(other.to_set().contains(k) <==> other.contains(k));
    }
    lemma_ascending_unique(ks, other);
}

proof fn lemma_put_in_order(ks: Seq<Seq<char>>, k: Seq<char>, at: int)
    requires
        ascending(ks),
        0 <= at <= ks.len(),
        forall|i: int| 0 <= i < at ==> lex_lt(#[trigger] ks[i], k),
        at < ks.len() ==> lex_lt(k, ks[at]),
    ensures
        ascending(ks.insert(at, k)),
{
    let out = ks.insert(at, k);
    assert forall|i: int, j: int| 0 <= i < j < out.len() implies #[trigger] lex_lt(
        out[i],
        out[j],
    ) by {
        if j < at {
            assert(lex_lt(ks[i], ks[j]));
        } else if j == at {
            assert(lex_lt(ks[i], k));
        } else if i == at {
            assert(out[j] == ks[j - 1]);
            if j - 1 > at {
                assert(lex_lt(ks[at], ks[j - 1]));
                lemma_lex_transitive(k, ks[at], ks[j - 1]);
            }
        } else if i < at {
            assert(lex_lt(ks[i], ks[j - 1]));
        } else {
            assert(lex_lt(ks[i - 1], ks[j - 1]));
        }
    }
}

proof fn lemma_place_for(ks: Seq<Seq<char>>, k: Seq<char>, from: int) -> (at: int)
    requires
        ascending(ks),
        !ks.contains(k),
        0 <= from <= ks.len(),
        forall|i: int| 0 <= i < from ==> lex_lt(#[trigger] ks[i], k),
    ensures
        from <= at <= ks.len(),
        forall|i: int| 0 <= i < at ==> lex_lt(#[trigger] ks[i], k),
        at < ks.len() ==> lex_lt(k, ks[at]),
    decreases ks.len() - from,
{
    if from == ks.len() {
        from
    } else {
        lemma_lex_total(ks[from], k);
        if lex_lt(k, ks[from]) {
            from
        } else {
            assert(ks.contains(ks[from]));
            lemma_place_for(ks, k, from + 1)
        }
    }
}

proof fn lemma_listing_exists(dom: Set<Seq<char>>) -> (ks: Seq<Seq<char>>)
    requires
        dom.finite(),
    ensures
        ascending(ks),
        ks.to_set() == dom,
    decreases dom.len(),
{
    if dom.len() == 0 {
        let ks = Seq::<Seq<char>>::empty();
        assert(ks.to_set() =~= dom);
        ks
    } else {
        let k = dom.choose();
        let rest = lemma_listing_exists(dom.remove(k));
        assert(!rest.contains(k)) by {
            assert(rest.to_set().contains(k) <==> rest.contains(k));
        }
        let at = lemma_place_for(rest, k, 0);
        lemma_put_in_order(rest, k, at);
        let out = rest.insert(at, k);
        assert forall|x: Seq<char>| out.contains(x) <==> dom.contains(x) by {
            assert(rest.to_set().contains(x) <==> rest.contains(x));
            if rest.contains(x) {
                let i = rest.index_of(x);
                if i < at {
                    assert(out[i] == x);
                } else {
                    assert(out[i + 1] == x);
                }
            }
            if x == k {
                assert(out[at] == k);
            }
            if out.contains(x) {
                let i = out.index_of(x);
                if i < at {
                    assert(rest[i] == x);
                } else if i > at {
                    assert(rest[i - 1] == x);
                }
            }
        }
        assert(out.to_set() =~= dom);
        out
    }
}

/// Every finite set has an ascending listing.
pub proof fn lemma_listing(dom: Set<Seq<char>>)
    requires
        dom.finite(),
    ensures
        ascending(sorted_keys(dom)),
        sorted_keys(dom).to_set() == dom,
        forall|k: Seq<char>| #[trigger] sorted_keys(dom).contains(k) <==> dom.contains(k),
{
    let ks = lemma_listing_exists(dom);
    assert(ascending(ks) && ks.to_set() == dom);
    let listing = sorted_keys(dom);
    assert forall|k: Seq<char>| #[trigger] listing.contains(k) <==> dom.contains(k) by {
        assert(listing.to_set().contains(k) <==> listing.contains(k));
    }
}

/// Whether one string comes before another.
pub(crate) fn str_lt(a: &str, b: &str) -> (r: bool)
    ensures
        r == lex_lt(a@, b@),
{
    let x = chars_of(a);
    let y = chars_of(b);
    let mut i: usize = 0;
    assert(a@.skip(0) =~= a@ && b@.skip(0) =~= b@);
    while i < x.len() && i < y.len()
        invariant
            x@ == a@,
            y@ == b@,
            i <= a@.len(),
            i <= b@.len(),
            lex_lt(a@, b@) == lex_lt(a@.skip(i as int), b@.skip(i as int)),
        decreases a@.len() - i,
    {
        if x[i] != y[i] {
            return x[i] < y[i];
        }
        assert(a@.skip(i as int).drop_first() =~= a@.skip(i + 1));
        assert(b@.skip(i as int).drop_first() =~= b@.skip(i + 1));
        i = i + 1;
    }
    i < y.len()
}

} // verus!
