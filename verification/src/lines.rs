//! Lines and blanks.
use vstd::prelude::*;
use crate::search::{find_from, lemma_find_from};
use crate::text::{chars_of, group_views, views};

verus! {

broadcast use group_views;

/// The characters with the Unicode property `White_Space`.
pub open spec fn is_whitespace(c: char) -> bool {
    let n = c as u32;
    ||| 0x9 <= n <= 0xd
    ||| n == 0x20
    ||| n == 0x85
    ||| n == 0xa0
    ||| n == 0x1680
    ||| 0x2000 <= n <= 0x200a
    ||| n == 0x2028
    ||| n == 0x2029
    ||| n == 0x202f
    ||| n == 0x205f
    ||| n == 0x3000
}

/// `char::is_whitespace` says whether the character has the Unicode property `White_Space`.
pub assume_specification[ char::is_whitespace ](c: char) -> (r: bool)
    ensures
        r == is_whitespace(c),
;

/// `String::push` appends the character.
pub assume_specification[ String::push ](s: &mut String, c: char)
    ensures
        final(s)@ == old(s)@.push(c),
;

/// The string of the characters from one place up to another.
pub fn text_of(chars: &Vec<char>, from: usize, to: usize) -> (r: String)
    requires
        from <= to <= chars@.len(),
    ensures
        r@ == chars@.subrange(from as int, to as int),
{
    let mut r = String::new();
    let mut i: usize = from;
    assert(r@ =~= chars@.subrange(from as int, from as int));
    while i < to
        invariant
            from <= i <= to <= chars@.len(),
            r@ == chars@.subrange(from as int, i as int),
        decreases to - i,
    {
        r.push(chars[i]);
        i = i + 1;
        assert(r@ =~= chars@.subrange(from as int, i as int));
    }
    r
}

/// Ends of lines.
pub open spec fn is_newline() -> spec_fn(char) -> bool {
    |c: char| c == '\n'
}

/// A line without the carriage return before its end.
pub open spec fn chomp(line: Seq<char>) -> Seq<char> {
    if line.len() > 0 && line.last() == '\r' {
        line.drop_last()
    } else {
        line
    }
}

/// The lines of a text from place `from` on. A line ends with a newline, with or without a
/// carriage return before it; the last one may do without.
pub open spec fn lines_from(s: Seq<char>, from: int) -> Seq<Seq<char>>
    decreases s.len() - from,
    when 0 <= from
    via lines_from_decreases
{
    if from >= s.len() {
        Seq::empty()
    } else {
        match find_from(s, is_newline(), from) {
            Some(end) => seq![chomp(s.subrange(from, end))] + lines_from(s, end + 1),
            None => seq![s.subrange(from, s.len() as int)],
        }
    }
}

#[via_fn]
proof fn lines_from_decreases(s: Seq<char>, from: int) {
    lemma_find_from(s, is_newline(), from);
}

/// The lines of a text.
pub open spec fn lines(s: Seq<char>) -> Seq<Seq<char>> {
    lines_from(s, 0)
}

fn find_newline(chars: &Vec<char>, from: usize) -> (r: Option<usize>)
    requires
        from <= chars@.len(),
    ensures
        match r {
            Some(i) => from <= i < chars@.len() && find_from(chars@, is_newline(), from as int)
                == Some(i as int),
            None => find_from(chars@, is_newline(), from as int) is None,
        },
{
    let mut i: usize = from;
    while i < chars.len()
        invariant
            from <= i <= chars@.len(),
            find_from(chars@, is_newline(), from as int) == find_from(
                chars@,
                is_newline(),
                i as int,
            ),
        decreases chars@.len() - i,
    {
        if chars[i] == '\n' {
            return Some(i);
        }
        i = i + 1;
    }
    None
}

/// The lines of a text.
pub fn lines_of(s: &str) -> (r: Vec<String>)
    ensures
        views(r@) == lines(s@),
{
    let chars = chars_of(s);
    let mut out: Vec<String> = Vec::new();
    let mut from: usize = 0;
    assert(views(out@) + lines_from(s@, 0) =~= lines(s@));
    while from < chars.len()
        invariant
            chars@ == s@,
            from <= chars@.len(),
            views(out@) + lines_from(s@, from as int) == lines(s@),
        decreases chars@.len() - from,
    {
        let ghost before = views(out@);
        match find_newline(&chars, from) {
            Some(end) => {
                let to: usize = if end > from && chars[end - 1] == '\r' {
                    end - 1
                } else {
                    end
                };
                proof {
                    let line = s@.subrange(from as int, end as int);
                    assert(s@.subrange(from as int, to as int) =~= chomp(line));
                }
                out.push(text_of(&chars, from, to));
                proof {
                    let line = chomp(s@.subrange(from as int, end as int));
                    assert(before + (seq![line] + lines_from(s@, end + 1)) =~= before.push(line)
                        + lines_from(s@, end + 1));
                }
                from = end + 1;
            },
            None => {
                out.push(text_of(&chars, from, chars.len()));
                proof {
                    let line = s@.subrange(from as int, s@.len() as int);
                    assert(before + seq![line] =~= before.push(line) + Seq::<Seq<char>>::empty());
                }
                from = chars.len();
            },
        }
    }
    assert(views(out@) + Seq::<Seq<char>>::empty() =~= views(out@));
    out
}

/// The text without the blanks before it.
pub open spec fn trim_start(s: Seq<char>) -> Seq<char>
    decreases s.len(),
{
    if s.len() > 0 && is_whitespace(s[0]) {
        trim_start(s.drop_first())
    } else {
        s
    }
}

/// The text without the blanks behind it.
pub open spec fn trim_end(s: Seq<char>) -> Seq<char>
    decreases s.len(),
{
    if s.len() > 0 && is_whitespace(s.last()) {
        trim_end(s.drop_last())
    } else {
        s
    }
}

/// The text without the blanks around it.
pub open spec fn trimmed(s: Seq<char>) -> Seq<char> {
    trim_end(trim_start(s))
}

/// The text without the blanks around it.
pub fn trim(s: &str) -> (r: String)
    ensures
        r@ == trimmed(s@),
{
    let chars = chars_of(s);
    let n: usize = chars.len();
    let mut from: usize = 0;
    assert(s@.subrange(0, n as int) =~= s@);
    while from < n && chars[from].is_whitespace()
        invariant
            chars@ == s@,
            n == chars@.len(),
            from <= n,
            trim_start(s@) == trim_start(s@.subrange(from as int, n as int)),
        decreases n - from,
    {
        assert(s@.subrange(from as int, n as int).drop_first() =~= s@.subrange(
            from + 1,
            n as int,
        ));
        from = from + 1;
    }
    let mut to: usize = n;
    while to > from && chars[to - 1].is_whitespace()
        invariant
            chars@ == s@,
            n == chars@.len(),
            from <= to <= n,
            trimmed(s@) == trim_end(s@.subrange(from as int, to as int)),
        decreases to,
    {
        assert(s@.subrange(from as int, to as int).drop_last() =~= s@.subrange(
            from as int,
            to - 1,
        ));
        to = to - 1;
    }
    text_of(&chars, from, to)
}

/// The text without the blanks behind it.
pub fn trim_text_end(s: &str) -> (r: String)
    ensures
        r@ == trim_end(s@),
{
    let chars = chars_of(s);
    let mut to: usize = chars.len();
    assert(s@.subrange(0, to as int) =~= s@);
    while to > 0 && chars[to - 1].is_whitespace()
        invariant
            chars@ == s@,
            to <= chars@.len(),
            trim_end(s@) == trim_end(s@.subrange(0, to as int)),
        decreases to,
    {
        assert(s@.subrange(0, to as int).drop_last() =~= s@.subrange(0, to - 1));
        to = to - 1;
    }
    text_of(&chars, 0, to)
}

/// A line without a carriage return at its end.
pub fn chomp_text(s: &str) -> (r: String)
    ensures
        r@ == chomp(s@),
{
    let chars = chars_of(s);
    let n: usize = chars.len();
    let to: usize = if n > 0 && chars[n - 1] == '\r' {
        n - 1
    } else {
        n
    };
    assert(s@.subrange(0, to as int) =~= chomp(s@));
    text_of(&chars, 0, to)
}

/// The last `n` elements, or all where there are fewer.
pub open spec fn last_of<T>(s: Seq<T>, n: nat) -> Seq<T> {
    if s.len() > n {
        s.skip(s.len() - n)
    } else {
        s
    }
}

/// The last `n` texts, or all where there are fewer.
pub fn keep_last(v: &Vec<String>, n: usize) -> (r: Vec<String>)
    ensures
        views(r@) == last_of(views(v@), n as nat),
{
    let mut i: usize = if v.len() > n {
        v.len() - n
    } else {
        0
    };
    let ghost all = last_of(views(v@), n as nat);
    let ghost start = i as int;
    let mut out: Vec<String> = Vec::new();
    assert(views(out@) =~= all.take(0));
    while i < v.len()
        invariant
            0 <= start <= i <= v@.len(),
            all == views(v@).skip(start),
            views(out@) == all.take(i - start),
        decreases v@.len() - i,
    {
        out.push(v[i].clone());
        i = i + 1;
        assert(views(out@) =~= all.take(i - start));
    }
    assert(all.take(i - start) =~= all);
    out
}

} // verus!
