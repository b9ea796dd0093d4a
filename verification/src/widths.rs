//! How many columns text takes on a terminal.
use vstd::prelude::*;
use crate::lines::text_of;
use crate::text::chars_of;

verus! {

/// What `unicode_width` says of a character: the columns it takes, or nothing for a control
/// character.
pub uninterp spec fn char_columns(c: char) -> Option<usize>;

/// What `unicode_width` says of a text: the columns it takes.
pub uninterp spec fn text_columns(s: Seq<char>) -> usize;

/// Asks `UnicodeWidthChar::width`, which looks the character up in a table.
#[verifier::external_body]
fn char_width(c: char) -> (r: Option<usize>)
    ensures
        r == char_columns(c),
{
    unicode_width::UnicodeWidthChar::width(c)
}

/// Asks `UnicodeWidthStr::width`, which goes over the characters with a table; sequences that are
/// shown as one count as one.
#[verifier::external_body]
pub(crate) fn text_width(s: &str) -> (r: usize)
    ensures
        r == text_columns(s@),
{
    unicode_width::UnicodeWidthStr::width(s)
}

/// The columns of a character on its own; a control character takes none.
pub open spec fn columns_of(c: char) -> nat {
    match char_columns(c) {
        Some(n) => n as nat,
        None => 0,
    }
}

/// The columns of the first `n` characters, one by one.
pub open spec fn columns(s: Seq<char>, n: int) -> nat
    decreases n,
{
    if n <= 0 {
        0
    } else {
        columns(s, n - 1) + columns_of(s[n - 1])
    }
}

/// How many characters fit into `max` columns, given that the first `i` do.
pub open spec fn fitting(s: Seq<char>, max: nat, i: int) -> int
    decreases s.len() - i,
{
    if i >= s.len() || columns(s, i + 1) > max {
        i
    } else {
        fitting(s, max, i + 1)
    }
}

/// The longest beginning of a text that fits into `max` columns.
pub open spec fn prefix_within(s: Seq<char>, max: nat) -> Seq<char> {
    s.take(fitting(s, max, 0))
}

proof fn lemma_fitting(s: Seq<char>, max: nat, i: int)
    requires
        0 <= i <= s.len(),
        columns(s, i) <= max,
    ensures
        i <= fitting(s, max, i) <= s.len(),
        columns(s, fitting(s, max, i)) <= max,
        fitting(s, max, i) < s.len() ==> columns(s, fitting(s, max, i) + 1) > max,
    decreases s.len() - i,
{
    if i < s.len() && columns(s, i + 1) <= max {
        lemma_fitting(s, max, i + 1);
    }
}

/// The beginning fits, and one more character would not.
pub proof fn law_prefix_is_longest(s: Seq<char>, max: nat)
    ensures
        prefix_within(s, max).is_prefix_of(s),
        columns(s, prefix_within(s, max).len() as int) <= max,
        prefix_within(s, max).len() < s.len() ==> columns(
            s,
            prefix_within(s, max).len() as int + 1,
        ) > max,
{
    lemma_fitting(s, max, 0);
}

/// The longest beginning of a text that fits into `max` columns, and how many it takes.
pub fn take_prefix_by_width(s: &str, max: usize) -> (r: (String, usize))
    ensures
        r.0@ == prefix_within(s@, max as nat),
        r.1 == columns(s@, fitting(s@, max as nat, 0)),
{
    let chars = chars_of(s);
    let mut i: usize = 0;
    let mut taken: usize = 0;
    while i < chars.len()
        invariant
            chars@ == s@,
            i <= chars@.len(),
            taken <= max,
            taken == columns(s@, i as int),
            fitting(s@, max as nat, 0) == fitting(s@, max as nat, i as int),
        ensures
            chars@ == s@,
            i <= chars@.len(),
            taken == columns(s@, i as int),
            fitting(s@, max as nat, 0) == i,
        decreases chars@.len() - i,
    {
        let w: usize = match char_width(chars[i]) {
            Some(n) => n,
            None => 0,
        };
        if w > max - taken {
            break;
        }
        taken = taken + w;
        i = i + 1;
    }
    let head = text_of(&chars, 0, i);
    assert(head@ =~= prefix_within(s@, max as nat));
    (head, taken)
}

} // verus!
