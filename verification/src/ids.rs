//! Numbered identifiers.
use vstd::prelude::*;
use crate::text::chars_of;

verus! {

/// The decimal digit `d`.
pub open spec fn digit(d: nat) -> char {
    (('0' as int) + d) as char
}

/// A number in decimal, without leading zeros.
pub open spec fn decimal(n: nat) -> Seq<char>
    decreases n,
{
    if n < 10 {
        seq![digit(n)]
    } else {
        decimal(n / 10).push(digit(n % 10))
    }
}

/// A number in decimal, filled up with zeros to three digits.
pub open spec fn padded(n: nat) -> Seq<char> {
    if n < 10 {
        "00"@ + decimal(n)
    } else if n < 100 {
        "0"@ + decimal(n)
    } else {
        decimal(n)
    }
}

/// The identifier number `n` of the kind that `prefix` stands for.
pub open spec fn numbered(prefix: Seq<char>, n: nat) -> Seq<char> {
    prefix + padded(n)
}

/// The number that a string of decimal digits stands for.
pub open spec fn number_of(s: Seq<char>) -> int
    decreases s.len(),
{
    if s.len() == 0 {
        0
    } else {
        number_of(s.drop_last()) * 10 + ((s.last() as int) - ('0' as int))
    }
}

proof fn lemma_number_of_decimal(n: nat)
    ensures
        number_of(decimal(n)) == n,
    decreases n,
{
    if n < 10 {
        assert(decimal(n).drop_last() =~= Seq::<char>::empty());
        assert(number_of(Seq::<char>::empty()) == 0);
    } else {
        lemma_number_of_decimal(n / 10);
        assert(decimal(n).drop_last() =~= decimal(n / 10));
    }
}

proof fn lemma_number_of_leading_zero(s: Seq<char>)
    ensures
        number_of(seq!['0'] + s) == number_of(s),
    decreases s.len(),
{
    if s.len() == 0 {
        assert((seq!['0'] + s).drop_last() =~= Seq::<char>::empty());
        assert(number_of(Seq::<char>::empty()) == 0);
    } else {
        lemma_number_of_leading_zero(s.drop_last());
        assert((seq!['0'] + s).drop_last() =~= seq!['0'] + s.drop_last());
    }
}

proof fn lemma_number_of_padded(n: nat)
    ensures
        number_of(padded(n)) == n,
{
    reveal_strlit("00");
    reveal_strlit("0");
    lemma_number_of_decimal(n);
    lemma_number_of_leading_zero(decimal(n));
    lemma_number_of_leading_zero(seq!['0'] + decimal(n));
    assert("0"@ + decimal(n) =~= seq!['0'] + decimal(n));
    assert("00"@ + decimal(n) =~= seq!['0'] + (seq!['0'] + decimal(n)));
}

/// Identifiers of one kind with different numbers differ.
pub proof fn lemma_numbered_injective(prefix: Seq<char>, n: nat, m: nat)
    requires
        numbered(prefix, n) == numbered(prefix, m),
    ensures
        n == m,
{
    assert(padded(n) =~= numbered(prefix, n).skip(prefix.len() as int));
    assert(padded(m) =~= numbered(prefix, m).skip(prefix.len() as int));
    lemma_number_of_padded(n);
    lemma_number_of_padded(m);
}

fn append_digit(s: &mut String, d: u64)
    requires
        d < 10,
    ensures
        final(s)@ == old(s)@.push(digit(d as nat)),
{
    let text = if d == 0 {
        "0"
    } else if d == 1 {
        "1"
    } else if d == 2 {
        "2"
    } else if d == 3 {
        "3"
    } else if d == 4 {
        "4"
    } else if d == 5 {
        "5"
    } else if d == 6 {
        "6"
    } else if d == 7 {
        "7"
    } else if d == 8 {
        "8"
    } else {
        "9"
    };
    proof {
        reveal_strlit("0");
        reveal_strlit("1");
        reveal_strlit("2");
        reveal_strlit("3");
        reveal_strlit("4");
        reveal_strlit("5");
        reveal_strlit("6");
        reveal_strlit("7");
        reveal_strlit("8");
        reveal_strlit("9");
        assert(text@ =~= seq![digit(d as nat)]);
    }
    s.append(text);
    assert(s@ =~= old(s)@.push(digit(d as nat)));
}

/// A number in decimal.
pub fn decimal_text(n: u64) -> (r: String)
    ensures
        r@ == decimal(n as nat),
    decreases n,
{
    let mut r = if n < 10 {
        String::new()
    } else {
        decimal_text(n / 10)
    };
    append_digit(&mut r, n % 10);
    assert(r@ =~= decimal(n as nat));
    r
}

/// The identifier number `n` of the kind that `prefix` stands for.
pub fn numbered_id(prefix: &str, n: u32) -> (r: String)
    ensures
        r@ == numbered(prefix@, n as nat),
{
    let mut r = prefix.to_owned();
    if n < 10 {
        r.append("00");
    } else if n < 100 {
        r.append("0");
    }
    r.append(decimal_text(n as u64).as_str());
    assert(r@ =~= numbered(prefix@, n as nat));
    r
}

/// Every character is a decimal digit.
pub open spec fn all_digits(s: Seq<char>) -> bool {
    forall|i: int| 0 <= i < s.len() ==> '0' <= #[trigger] s[i] <= '9'
}

/// A number as it is written behind a prefix: at least three digits, and a leading zero only to
/// make up three.
pub open spec fn is_padded(s: Seq<char>) -> bool {
    all_digits(s) && s.len() >= 3 && (s.len() == 3 || s[0] != '0')
}

proof fn lemma_decimal_digits(n: nat)
    ensures
        all_digits(decimal(n)),
        decimal(n).len() > 0,
        decimal(n).len() == 1 <==> n < 10,
        decimal(n).len() == 2 <==> 10 <= n < 100,
        decimal(n).len() >= 3 <==> n >= 100,
        n > 0 ==> decimal(n)[0] != '0',
    decreases n,
{
    if n >= 10 {
        lemma_decimal_digits(n / 10);
    }
}

proof fn lemma_padded_is_padded(n: nat)
    ensures
        is_padded(padded(n)),
{
    reveal_strlit("00");
    reveal_strlit("0");
    lemma_decimal_digits(n);
    let d = decimal(n);
    let s = padded(n);
    assert forall|i: int| 0 <= i < s.len() implies '0' <= #[trigger] s[i] <= '9' by {
        if n < 10 {
            if i >= 2 {
                assert(s[i] == d[i - 2]);
            }
        } else if n < 100 {
            if i >= 1 {
                assert(s[i] == d[i - 1]);
            }
        }
    }
    if s.len() > 3 {
        assert(s == d);
    }
}

proof fn lemma_number_nonneg(s: Seq<char>)
    requires
        all_digits(s),
    ensures
        number_of(s) >= 0,
        s.len() > 0 && s[0] != '0' ==> number_of(s) > 0,
    decreases s.len(),
{
    if s.len() > 0 {
        let t = s.drop_last();
        assert forall|i: int| 0 <= i < t.len() implies '0' <= #[trigger] t[i] <= '9' by {
            assert(s[i] == t[i]);
        }
        lemma_number_nonneg(t);
        assert('0' <= s.last() <= '9');
    }
}

proof fn lemma_decimal_of_number(s: Seq<char>)
    requires
        all_digits(s),
        s.len() > 0,
        s.len() == 1 || s[0] != '0',
    ensures
        decimal(number_of(s) as nat) == s,
    decreases s.len(),
{
    let t = s.drop_last();
    let last = (s.last() as int) - ('0' as int);
    assert('0' <= s.last() <= '9');
    assert(digit(last as nat) == s.last());
    if s.len() == 1 {
        assert(t =~= Seq::<char>::empty());
        assert(number_of(t) == 0);
        assert(number_of(s) == last);
        assert(seq![digit(last as nat)] =~= s);
    } else {
        assert forall|i: int| 0 <= i < t.len() implies '0' <= #[trigger] t[i] <= '9' by {
            assert(s[i] == t[i]);
        }
        assert(t[0] == s[0]);
        lemma_number_nonneg(t);
        lemma_decimal_of_number(t);
        let n = number_of(s) as nat;
        assert(n == number_of(t) * 10 + last);
        assert(n / 10 == number_of(t));
        assert(n % 10 == last);
        assert(decimal(n) =~= t.push(s.last()));
        assert(s =~= t.push(s.last()));
    }
}

proof fn lemma_padded_of_number(s: Seq<char>)
    requires
        is_padded(s),
    ensures
        padded(number_of(s) as nat) == s,
        number_of(s) >= 0,
{
    reveal_strlit("00");
    reveal_strlit("0");
    lemma_number_nonneg(s);
    if s[0] != '0' {
        lemma_decimal_of_number(s);
        lemma_decimal_digits(number_of(s) as nat);
    } else {
        let t = s.skip(1);
        assert(s =~= seq!['0'] + t);
        lemma_number_of_leading_zero(t);
        assert forall|i: int| 0 <= i < t.len() implies '0' <= #[trigger] t[i] <= '9' by {
            assert(s[i + 1] == t[i]);
        }
        if t[0] != '0' {
            lemma_decimal_of_number(t);
            lemma_decimal_digits(number_of(t) as nat);
            assert("0"@ + decimal(number_of(s) as nat) =~= s);
        } else {
            let u = t.skip(1);
            assert(t =~= seq!['0'] + u);
            lemma_number_of_leading_zero(u);
            assert forall|i: int| 0 <= i < u.len() implies '0' <= #[trigger] u[i] <= '9' by {
                assert(t[i + 1] == u[i]);
            }
            lemma_decimal_of_number(u);
            lemma_decimal_digits(number_of(u) as nat);
            assert("00"@ + decimal(number_of(s) as nat) =~= s);
        }
    }
}

/// Whether `id` is an identifier with a number from `seq` on, of the kind that `prefix` stands
/// for.
pub fn is_numbered_from(prefix: &str, id: &str, seq: u32) -> (r: bool)
    ensures
        r == exists|n: nat| n >= seq && id@ == #[trigger] numbered(prefix@, n),
{
    let head = chars_of(prefix);
    let chars = chars_of(id);
    let from: usize = head.len();
    let ghost rest = if from <= chars@.len() {
        id@.skip(from as int)
    } else {
        Seq::<char>::empty()
    };
    proof {
        assert forall|n: nat| id@ == #[trigger] numbered(prefix@, n) implies rest == padded(n)
            && is_padded(rest) && number_of(rest) == n && id@.take(from as int) == prefix@
            && from <= id@.len() by {
            assert(rest =~= padded(n));
            assert(id@.take(from as int) =~= prefix@);
            lemma_padded_is_padded(n);
            lemma_number_of_padded(n);
        }
    }
    if chars.len() < from || chars.len() - from < 3 {
        return false;
    }
    let mut i: usize = 0;
    while i < from
        invariant
            i <= from,
            from <= chars@.len(),
            from == head@.len(),
            head@ == prefix@,
            chars@ == id@,
            forall|j: int| 0 <= j < i ==> #[trigger] chars@[j] == head@[j],
            forall|n: nat|
                id@ == #[trigger] numbered(prefix@, n) ==> id@.take(from as int) == prefix@,
        decreases from - i,
    {
        if chars[i] != head[i] {
            assert(id@.take(from as int)[i as int] != prefix@[i as int]);
            return false;
        }
        i = i + 1;
    }
    if chars.len() - from > 3 && chars[from] == '0' {
        assert(rest[0] == chars@[from as int]);
        return false;
    }
    // The number read so far, or anything from 10^10 on where it has grown beyond that.
    let mut number: u64 = 0;
    let mut at: usize = from;
    while at < chars.len()
        invariant
            from <= at <= chars@.len(),
            chars@ == id@,
            rest == id@.skip(from as int),
            all_digits(rest.take(at - from)),
            number < 10_000_000_000 ==> number == number_of(rest.take(at - from)),
            number >= 10_000_000_000 ==> number_of(rest.take(at - from)) >= 10_000_000_000,
            number <= 10_000_000_000,
            forall|n: nat| id@ == #[trigger] numbered(prefix@, n) ==> is_padded(rest),
        decreases chars@.len() - at,
    {
        let c = chars[at];
        assert(rest[at - from] == c);
        if !('0' <= c && c <= '9') {
            return false;
        }
        proof {
            let t = rest.take(at - from);
            let u = rest.take(at + 1 - from);
            assert(u =~= t.push(c));
            assert(u.drop_last() =~= t);
            assert(u.last() == c);
            lemma_number_nonneg(t);
            assert forall|k: int| 0 <= k < u.len() implies '0' <= #[trigger] u[k] <= '9' by {
                if k < t.len() {
                    assert(u[k] == t[k]);
                }
            }
            assert(number_of(u) == number_of(t) * 10 + ((c as int) - ('0' as int)));
        }
        let d: u64 = (c as u64) - ('0' as u64);
        if number < 1_000_000_000 {
            number = number * 10 + d;
        } else {
            number = 10_000_000_000;
        }
        at = at + 1;
    }
    proof {
        assert(rest.take(at - from) =~= rest);
        assert(is_padded(rest));
        lemma_padded_of_number(rest);
        assert(id@.take(from as int) =~= prefix@);
        assert(id@ =~= numbered(prefix@, number_of(rest) as nat));
    }
    number >= seq as u64
}

} // verus!
