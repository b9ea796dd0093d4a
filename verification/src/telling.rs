//! Texts, lines and what is said of running processes.
use vstd::prelude::*;
use crate::exec_state::{said, UnifiedExecProcessSummaryView};
use crate::footer::summary;
use crate::ids::decimal;
use crate::lines::{chomp, is_newline, lines, lines_from, trim_end, trim_start, trimmed};
use crate::monitor_output::{chunk_lines, is_spoken, shown_of, unit_of, bytes_text, DetailOutputStateView};
use crate::pty::{ProcessState, TerminationError, TerminationStep};
use crate::search::{find_from, lemma_find_from, lemma_kept, select};
use crate::separators::still_running_text;
use crate::text::joined;

verus! {

/// Lines, each with the sign that ends it.
pub open spec fn written(list: Seq<Seq<char>>) -> Seq<char>
    decreases list.len(),
{
    if list.len() == 0 {
        Seq::empty()
    } else {
        list[0] + seq!['\n'] + written(list.drop_first())
    }
}

/// A text that stands on one line.
pub open spec fn is_one_line(l: Seq<char>) -> bool {
    forall|i: int| 0 <= i < l.len() ==> #[trigger] l[i] != '\n'
}

proof fn lemma_newline_found(s: Seq<char>, from: int, end: int)
    requires
        0 <= from <= end < s.len(),
        s[end] == '\n',
        forall|i: int| from <= i < end ==> #[trigger] s[i] != '\n',
    ensures
        find_from(s, is_newline(), from) == Some(end),
{
    lemma_find_from(s, is_newline(), from);
    assert((is_newline())(s[end]));
    if let Some(k) = find_from(s, is_newline(), from) {
        assert((is_newline())(s[k]));
    }
}

proof fn lemma_lines_read_back(a: Seq<char>, list: Seq<Seq<char>>, last: Seq<char>)
    requires
        forall|i: int|
            0 <= i < list.len() ==> is_one_line(#[trigger] list[i]) && (list[i].len() == 0
                || list[i].last() != '\r'),
        is_one_line(last),
    ensures
        lines_from(a + written(list) + last, a.len() as int) == if last.len() == 0 {
            list
        } else {
            list.push(last)
        },
    decreases list.len(),
{
    let s = a + written(list) + last;
    if list.len() == 0 {
        assert(s =~= a + last);
        if last.len() > 0 {
            lemma_find_from(s, is_newline(), a.len() as int);
            if let Some(k) = find_from(s, is_newline(), a.len() as int) {
                assert((is_newline())(s[k]));
                assert(s[k] == last[k - a.len()]);
            }
            assert(s.subrange(a.len() as int, s.len() as int) =~= last);
            assert(seq![last] =~= list.push(last));
        } else {
            assert(lines_from(s, a.len() as int) =~= list);
        }
    } else {
        let first = list[0];
        let rest = list.drop_first();
        let b = a + first + seq!['\n'];
        let end = (a.len() + first.len()) as int;
        assert(s =~= b + written(rest) + last);
        assert(s[end] == '\n');
        assert forall|i: int| a.len() <= i < end implies #[trigger] s[i] != '\n' by {
            assert(s[i] == first[i - a.len()]);
        }
        lemma_newline_found(s, a.len() as int, end);
        assert(s.subrange(a.len() as int, end) =~= first);
        assert forall|i: int| 0 <= i < rest.len() implies is_one_line(#[trigger] rest[i]) && (
        rest[i].len() == 0 || rest[i].last() != '\r') by {
            assert(rest[i] == list[i + 1]);
        }
        lemma_lines_read_back(b, rest, last);
        assert(b.len() == end + 1);
        assert(seq![first] + rest =~= list);
        assert(seq![first] + rest.push(last) =~= list.push(last));
    }
}

/// Lines that were written one after another are read back, and so is a last one without an end.
pub proof fn law_lines_are_read_back(list: Seq<Seq<char>>, last: Seq<char>)
    requires
        forall|i: int|
            0 <= i < list.len() ==> is_one_line(#[trigger] list[i]) && (list[i].len() == 0
                || list[i].last() != '\r'),
        is_one_line(last),
    ensures
        lines(written(list) + last) == if last.len() == 0 {
            list
        } else {
            list.push(last)
        },
{
    lemma_lines_read_back(Seq::empty(), list, last);
    assert(Seq::<char>::empty() + written(list) + last =~= written(list) + last);
}

/// A carriage return before the end of a line is no part of it.
pub proof fn law_carriage_return_is_dropped(line: Seq<char>, rest: Seq<char>)
    requires
        is_one_line(line),
    ensures
        lines(line + seq!['\r', '\n'] + rest) == seq![line] + lines_from(
            line + seq!['\r', '\n'] + rest,
            line.len() as int + 2,
        ),
{
    let s = line + seq!['\r', '\n'] + rest;
    let end = line.len() as int + 1;
    assert forall|i: int| 0 <= i < end implies #[trigger] s[i] != '\n' by {
        if i < line.len() {
            assert(s[i] == line[i]);
        }
    }
    lemma_newline_found(s, 0, end);
    assert(s.subrange(0, end) =~= line.push('\r'));
    assert(chomp(line.push('\r')) =~= line);
}

proof fn lemma_trim_start(s: Seq<char>)
    ensures
        ({
            let t = trim_start(s);
            &&& t.len() <= s.len()
            &&& t == s.skip(s.len() - t.len())
            &&& t.len() > 0 ==> !crate::lines::is_whitespace(t[0])
            &&& forall|i: int| 0 <= i < s.len() - t.len() ==> crate::lines::is_whitespace(#[trigger] s[i])
        }),
    decreases s.len(),
{
    if s.len() > 0 && crate::lines::is_whitespace(s[0]) {
        let rest = s.drop_first();
        lemma_trim_start(rest);
        let t = trim_start(s);
        assert(rest.skip(rest.len() - t.len()) =~= s.skip(s.len() - t.len()));
        assert forall|i: int| 0 <= i < s.len() - t.len() implies crate::lines::is_whitespace(#[trigger] s[i]) by {
            if i > 0 {
                assert(rest[i - 1] == s[i]);
            }
        }
    } else {
        assert(s.skip(0) =~= s);
    }
}

/// Without the blanks behind it a text is its longest beginning that does not end in a blank.
pub proof fn law_trim_end_takes_only_blanks(s: Seq<char>)
    ensures
        trim_end(s).len() <= s.len(),
        trim_end(s) == s.take(trim_end(s).len() as int),
        trim_end(s).len() > 0 ==> !crate::lines::is_whitespace(trim_end(s).last()),
        forall|i: int| trim_end(s).len() <= i < s.len() ==> crate::lines::is_whitespace(#[trigger] s[i]),
    decreases s.len(),
{
    if s.len() > 0 && crate::lines::is_whitespace(s.last()) {
        let rest = s.drop_last();
        law_trim_end_takes_only_blanks(rest);
        let t = trim_end(s);
        assert(rest.take(t.len() as int) =~= s.take(t.len() as int));
        assert forall|i: int| t.len() <= i < s.len() implies crate::lines::is_whitespace(#[trigger] s[i]) by {
            if i < rest.len() {
                assert(rest[i] == s[i]);
            }
        }
    } else {
        assert(s.take(s.len() as int) =~= s);
    }
}

/// Trimming takes the blanks at both ends and nothing else: what stays stands in the text, begins and
/// ends with no blank, and all around it is blank.
pub proof fn law_trim_takes_only_blanks(s: Seq<char>)
    ensures
        exists|from: int|
            0 <= from && from + trimmed(s).len() <= s.len() && #[trigger] s.subrange(
                from,
                from + trimmed(s).len(),
            ) == trimmed(s) && (forall|i: int|
                (0 <= i < from || from + trimmed(s).len() <= i < s.len()) ==> crate::lines::is_whitespace(
                    #[trigger] s[i],
                )),
        trimmed(s).len() > 0 ==> !crate::lines::is_whitespace(trimmed(s)[0]) && !crate::lines::is_whitespace(trimmed(s).last()),
{
    let a = trim_start(s);
    lemma_trim_start(s);
    law_trim_end_takes_only_blanks(a);
    let t = trimmed(s);
    let from = s.len() - a.len();
    assert(s.subrange(from, from + t.len()) =~= t) by {
        assert(t == a.take(t.len() as int));
        assert(a == s.skip(from));
    }
    assert forall|i: int| (0 <= i < from || from + t.len() <= i < s.len()) implies crate::lines::is_whitespace(
        #[trigger] s[i],
    ) by {
        if i >= from {
            assert(a[i - from] == s[i]);
        }
    }
    if t.len() > 0 {
        assert(t[0] == a[0]);
    }
}

/// A terminal in the background keeps the last few of the lines that it said, without the blanks behind
/// them and without empty ones; what it is stays, and nothing is told of it.
pub proof fn law_terminal_keeps_its_last_lines(process: UnifiedExecProcessSummaryView, chunk: Seq<char>)
    requires
        process.kind is BackgroundTerminal,
    ensures
        ({
            let (now, event) = process.said(chunk);
            let all = process.recent_chunks + said(chunk);
            &&& event is None
            &&& now == (UnifiedExecProcessSummaryView { recent_chunks: now.recent_chunks, ..process })
            &&& now.recent_chunks.len() == if all.len() < 3 {
                all.len()
            } else {
                3
            }
            &&& now.recent_chunks == all.skip(all.len() - now.recent_chunks.len())
            &&& forall|i: int|
                0 <= i < said(chunk).len() ==> (#[trigger] said(chunk)[i]).len() > 0
                    && !crate::lines::is_whitespace(said(chunk)[i].last())
            &&& forall|i: int|
                0 <= i < lines(chunk).len() && trimmed_end_is_something(#[trigger] lines(chunk)[i])
                    ==> said(chunk).contains(trim_end(lines(chunk)[i]))
        }),
{
    let all = process.recent_chunks + said(chunk);
    assert(all.skip(0) =~= all);
    let ends = crate::exec_state::trimmed_ends(lines(chunk));
    let f = crate::exec_state::is_something();
    lemma_kept(ends, f, ends.len() as int);
    assert forall|i: int| 0 <= i < said(chunk).len() implies (#[trigger] said(chunk)[i]).len() > 0
        && !crate::lines::is_whitespace(said(chunk)[i].last()) by {
        let l = said(chunk)[i];
        assert(said(chunk).contains(l));
        assert(f(l) && ends.contains(l));
        let k = ends.index_of(l);
        assert(ends[k] == l);
        law_trim_end_takes_only_blanks(lines(chunk)[k]);
    }
    assert forall|i: int|
        0 <= i < lines(chunk).len() && trimmed_end_is_something(#[trigger] lines(chunk)[i]) implies
        said(chunk).contains(trim_end(lines(chunk)[i])) by {
        assert(f(ends[i]));
    }
}

/// Something is left of a line without the blanks behind it.
pub open spec fn trimmed_end_is_something(line: Seq<char>) -> bool {
    trim_end(line).len() > 0
}

/// Everything that a monitor says at once is told as one event under its description, line by line and
/// without carriage returns, unless it said nothing; its output goes on behind what it said before, on
/// a line of its own.
pub proof fn law_monitor_output_is_told(process: UnifiedExecProcessSummaryView, chunk: Seq<char>)
    requires
        process.kind is Monitor,
    ensures
        ({
            let (now, event) = process.said(chunk);
            let before = process.kind->Monitor_0;
            let after = now.kind->Monitor_0;
            let text = joined(Seq::new(lines(chunk).len(), |i: int| chomp(lines(chunk)[i])), "\n"@);
            let gap = if before.output_tail.len() > 0 && before.output_tail.last() != '\n' && (
            chunk.len() == 0 || chunk[0] != '\n') {
                seq!['\n']
            } else {
                Seq::empty()
            };
            let whole = before.output_tail + gap + chunk;
            &&& event is None <==> text.len() == 0
            &&& event matches Some(told) ==> told.description == before.info.description
                && told.event == text
            &&& now == (UnifiedExecProcessSummaryView {
                recent_chunks: now.recent_chunks,
                kind: now.kind,
                ..process
            })
            &&& now.kind is Monitor && after.info == before.info
            &&& after.output_tail.len() <= whole.len()
            &&& after.output_tail == whole.skip(whole.len() - after.output_tail.len())
            &&& crate::exec_state::utf8_bytes(after.output_tail) <= 8192
            &&& crate::exec_state::utf8_bytes(whole) <= 8192 ==> after.output_tail == whole
            &&& now.recent_chunks.len() <= 10
        }),
{
    let before = process.kind->Monitor_0;
    let gap = if before.output_tail.len() > 0 && before.output_tail.last() != '\n' && (chunk.len()
        == 0 || chunk[0] != '\n') {
        seq!['\n']
    } else {
        Seq::empty()
    };
    let whole = before.output_tail + gap + chunk;
    assert(before.output_tail.push('\n') + chunk =~= before.output_tail + seq!['\n'] + chunk);
    assert(before.output_tail + Seq::<char>::empty() + chunk =~= before.output_tail + chunk);
    crate::exec_state::law_tail_is_longest(whole, 8192);
    assert(crate::exec_state::chomped(lines(chunk)) =~= Seq::new(
        lines(chunk).len(),
        |i: int| chomp(lines(chunk)[i]),
    ));
}

/// Of the output of a monitor, the last few lines that are not blank are shown, in order; there is none
/// exactly if all are blank, and it is told whether earlier ones are left out.
pub proof fn law_last_lines_of_a_monitor_are_shown(
    list: Seq<Seq<char>>,
    bytes_total: Option<u64>,
    truncated: bool,
)
    ensures
        ({
            let spoken = select(list, is_spoken());
            match shown_of(list, bytes_total, truncated) {
                DetailOutputStateView::Content(content) => {
                    &&& content.bytes_total == bytes_total && content.truncated == truncated
                    &&& content.lines_omitted <==> spoken.len() > 10
                    &&& content.lines.len() == if spoken.len() > 10 {
                        10
                    } else {
                        spoken.len()
                    }
                    &&& content.lines == spoken.skip(spoken.len() - content.lines.len())
                },
                state => state == DetailOutputStateView::NoOutput && forall|i: int|
                    0 <= i < list.len() ==> trimmed(#[trigger] list[i]).len() == 0,
            }
        }),
{
    let spoken = select(list, is_spoken());
    assert(spoken.skip(0) =~= spoken);
    lemma_kept(list, is_spoken(), list.len() as int);
    if spoken.len() == 0 {
        assert forall|i: int| 0 <= i < list.len() implies trimmed(#[trigger] list[i]).len() == 0 by {
            if (is_spoken())(list[i]) {
                assert(spoken.contains(list[i]));
            }
        }
    }
}

/// Sizes are told in the greatest unit that they reach.
pub proof fn law_size_is_told_in_its_unit(bytes: nat, quotient: Seq<char>)
    ensures
        bytes < 1024 ==> bytes_text(bytes, quotient) == decimal(bytes) + " bytes"@ && unit_of(bytes)
            is None,
        1024 <= bytes < 1024 * 1024 ==> unit_of(bytes) == Some(("KB"@, 1024nat)),
        1024 * 1024 <= bytes < 1024 * 1024 * 1024 ==> unit_of(bytes) == Some(("MB"@, 1048576nat)),
        1024 * 1024 * 1024 <= bytes ==> unit_of(bytes) == Some(("GB"@, 1073741824nat)),
        unit_of(bytes) matches Some((unit, _)) ==> bytes_text(bytes, quotient) == (if quotient.len()
            >= 2 && quotient.skip(quotient.len() - 2) == seq!['.', '0'] {
            quotient.take(quotient.len() - 2)
        } else {
            quotient
        }) + unit,
{
    if quotient.len() >= 2 {
        let end = quotient.skip(quotient.len() - 2);
        assert(end.len() == 2);
        assert(end[0] == quotient[quotient.len() - 2] && end[1] == quotient[quotient.len() - 1]);
        if quotient[quotient.len() - 2] == '.' && quotient[quotient.len() - 1] == '0' {
            assert(end =~= seq!['.', '0']);
        }
    }
}

/// What is shown of a monitor that is no longer asked for stays and is marked as stale; marking it
/// again changes nothing.
pub proof fn law_suspended_output_stays(state: DetailOutputStateView)
    ensures
        state.suspended() is Suspended,
        state.suspended().suspended() == state.suspended(),
        state is Content ==> state.suspended().content() == Some(state->Content_0),
        state is Loading || state is NoOutput ==> state.suspended().content() is None,
        state.suspended().content() == state.content(),
{
}

/// What is said below the output of a monitor: how many lines are shown, of how much if the output was
/// cut, or that earlier lines are hidden, and that it is stale where it is.
pub proof fn law_output_footer_tells_what_is_hidden(
    state: DetailOutputStateView,
    shown: nat,
    size: Seq<char>,
)
    ensures
        state.footer(shown, size) is None <==> state.content() is None,
        state matches DetailOutputStateView::Content(content) ==> state.footer(shown, size) == Some(
            if content.truncated {
                "Showing "@ + decimal(shown) + " lines of "@ + size
            } else if content.lines_omitted {
                "Showing last "@ + decimal(shown) + " lines · earlier lines hidden"@
            } else {
                "Showing "@ + decimal(shown) + " lines"@
            },
        ),
        state matches DetailOutputStateView::Suspended(Some(content)) ==> state.footer(shown, size)
            == Some(
            DetailOutputStateView::Content(content).footer(shown, size)->0
                + " · stale; refresh paused; reopen to retry"@,
        ),
{
}

/// A process is killed on request exactly if it is not over, the means to end it are held, and its root
/// runs or what it left behind is to go too. After that the means are given up; they are given up as
/// well once it is over, and kept in every other case. What is known of the process is not touched.
pub proof fn law_request_kills_what_runs(state: ProcessState, descendants_stay: bool)
    ensures
        ({
            let (now, step) = state.requested(descendants_stay);
            let over = state.exited && state.output_closed;
            &&& step == TerminationStep::Kill || step == TerminationStep::Nothing
            &&& step == TerminationStep::Kill <==> !over && state.has_terminator && !(state.exited
                && descendants_stay)
            &&& now.has_terminator <==> state.has_terminator && !over && step
                != TerminationStep::Kill
            &&& now.exited == state.exited && now.output_closed == state.output_closed
        }),
{
}

/// A forced end is refused exactly if something still runs and the means to end it were given up; it
/// says whether the root has exited already. The end is confirmed exactly once all is over.
pub proof fn law_forced_end_needs_the_means(state: ProcessState)
    ensures
        ({
            let over = state.exited && state.output_closed;
            &&& state.forced() is Err <==> !over && !state.has_terminator
            &&& state.forced() matches Err(e) ==> e == TerminationError::Unavailable
            &&& state.forced() matches Ok(step) ==> step == if over {
                TerminationStep::Nothing
            } else {
                TerminationStep::ForceKill { root_exited: state.exited }
            }
            &&& state.confirmed().1 is Ok <==> over
            &&& state.confirmed().1 matches Err(e) ==> e == TerminationError::StillRunning
                && state.confirmed().0 == state
            &&& over ==> !state.confirmed().0.has_terminator
        }),
{
}

/// A number of things: the one thing, or the things with an `s`.
pub open spec fn so_many(n: nat, one: Seq<char>, more: Seq<char>) -> Seq<char> {
    decimal(n) + " "@ + if n == 1 {
        one
    } else {
        more
    }
}

proof fn lemma_so_many(n: nat)
    ensures
        crate::footer::counted(n, " monitor"@) == so_many(n, "monitor"@, "monitors"@),
        crate::footer::counted(n, " shell"@) == so_many(n, "shell"@, "shells"@),
        crate::footer::counted(n, " background terminal"@) == so_many(
            n,
            "background terminal"@,
            "background terminals"@,
        ),
{
    reveal_strlit(" monitor");
    reveal_strlit(" shell");
    reveal_strlit(" background terminal");
    reveal_strlit("monitor");
    reveal_strlit("monitors");
    reveal_strlit("shell");
    reveal_strlit("shells");
    reveal_strlit("background terminal");
    reveal_strlit("background terminals");
    reveal_strlit(" ");
    reveal_strlit("s");
    reveal_strlit("");
    assert(crate::footer::counted(n, " monitor"@) =~= so_many(n, "monitor"@, "monitors"@));
    assert(crate::footer::counted(n, " shell"@) =~= so_many(n, "shell"@, "shells"@));
    assert(crate::footer::counted(n, " background terminal"@) =~= so_many(
        n,
        "background terminal"@,
        "background terminals"@,
    ));
}

/// The footer counts what runs in the background, each kind by its own number, and says nothing where
/// nothing runs.
pub proof fn law_footer_counts_what_runs(terminals: nat, monitors: nat)
    ensures
        summary(terminals, monitors) is None <==> terminals == 0 && monitors == 0,
        terminals > 0 && monitors == 0 ==> summary(terminals, monitors) == Some(
            so_many(terminals, "background terminal"@, "background terminals"@)
                + " running · /ps to view · /stop to close"@,
        ),
        terminals == 0 && monitors > 0 ==> summary(terminals, monitors) == Some(
            so_many(monitors, "monitor"@, "monitors"@) + " · ↓ to manage"@,
        ),
        terminals > 0 && monitors > 0 ==> summary(terminals, monitors) == Some(
            so_many(terminals, "shell"@, "shells"@) + ", "@ + so_many(
                monitors,
                "monitor"@,
                "monitors"@,
            ) + " · ↓ to manage"@,
        ),
        still_running_text(terminals, monitors) is None <==> terminals == 0 && monitors == 0,
        terminals > 0 && monitors == 0 ==> still_running_text(terminals, monitors) == Some(
            so_many(terminals, "shell"@, "shells"@) + " still running"@,
        ),
        terminals == 0 && monitors > 0 ==> still_running_text(terminals, monitors) == Some(
            so_many(monitors, "monitor"@, "monitors"@) + " still running"@,
        ),
        terminals > 0 && monitors > 0 ==> still_running_text(terminals, monitors) == Some(
            so_many(terminals, "shell"@, "shells"@) + ", "@ + so_many(
                monitors,
                "monitor"@,
                "monitors"@,
            ) + " still running"@,
        ),
{
    lemma_so_many(terminals);
    lemma_so_many(monitors);
}

/// The lines that a terminal said one by one are shown one by one, in order.
pub proof fn law_chunks_are_lines(chunks: Seq<Seq<char>>, n: int)
    requires
        0 <= n <= chunks.len(),
        forall|i: int|
            0 <= i < chunks.len() ==> (#[trigger] chunks[i]).len() > 0 && is_one_line(chunks[i]),
    ensures
        chunk_lines(chunks, n) == chunks.take(n),
    decreases n,
{
    if n > 0 {
        law_chunks_are_lines(chunks, n - 1);
        let last = chunks[n - 1];
        let none = Seq::<Seq<char>>::empty();
        law_lines_are_read_back(none, last);
        assert(written(none) + last =~= last);
        assert(lines(last) =~= seq![last]);
        assert(chunks.take(n) =~= chunks.take(n - 1) + seq![last]);
    } else {
        assert(chunks.take(0) =~= Seq::<Seq<char>>::empty());
    }
}

} // verus!
