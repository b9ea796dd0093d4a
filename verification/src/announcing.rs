//! The words for monitors, for the time a turn took, and for what bodies of text must hold.
use vstd::prelude::*;
use crate::background::{BackgroundProcessesModel, StopStateView};
use crate::document::{is_heading, is_title, section_fault, title_of};
use crate::error::{QunuxError, QunuxErrorView};
use crate::ids::{decimal, padded};
use crate::lines::{is_newline, lines, trimmed};
use crate::monitor::{completed_text, detail_rows, event_header_spans, header_spans, output_rows, laid_out, split_from, started_text, timeout_text, without_zeros, CommandExecutionStatus, CommandMonitorTerminationReason};
use crate::pages::DetailBodyView;
use crate::monitor_output::DetailOutputStateView;
use crate::pty::exit_code;
use crate::search::{find_from, lemma_find_from};
use crate::separators::{metrics_text, SeparatorView};
use crate::styled::{bold_view, dim_view, heading_view, plain_view, raw_view, Color, SpanView};
use crate::text::joined;
use crate::widths::text_columns;

verus! {

/// Zeros behind a text.
pub open spec fn zeros(n: nat) -> Seq<char> {
    Seq::new(n, |i: int| '0')
}

proof fn lemma_without_zeros(s: Seq<char>)
    ensures
        without_zeros(s).len() <= s.len(),
        s == without_zeros(s) + zeros((s.len() - without_zeros(s).len()) as nat),
        without_zeros(s).len() > 0 ==> without_zeros(s).last() != '0',
    decreases s.len(),
{
    let t = without_zeros(s);
    if s.len() > 0 && s.last() == '0' {
        lemma_without_zeros(s.drop_last());
        assert(s =~= s.drop_last().push('0'));
        assert(zeros((s.len() - t.len()) as nat) =~= zeros((s.len() - 1 - t.len()) as nat).push(
            '0',
        ));
        assert(s =~= t + zeros((s.len() - t.len()) as nat));
    } else {
        assert(s =~= t + zeros(0));
    }
}

/// A time limit is told in seconds: a whole number of them as it is, any other with the thousandths
/// behind a point, without the zeros at the end.
pub proof fn law_timeout_is_told_in_seconds(timeout_ms: nat)
    ensures
        timeout_ms % 1000 == 0 ==> timeout_text(timeout_ms) == decimal(timeout_ms / 1000) + "s"@,
        timeout_ms % 1000 != 0 ==> exists|fraction: Seq<char>, n: nat|
            #![trigger zeros(n), fraction.len()]
            timeout_text(timeout_ms) == decimal(timeout_ms / 1000) + "."@ + fraction + "s"@
                && padded(timeout_ms % 1000) == fraction + zeros(n) && (fraction.len() > 0
                ==> fraction.last() != '0'),
{
    let p = padded(timeout_ms % 1000);
    lemma_without_zeros(p);
    let fraction = without_zeros(p);
    let n = (p.len() - fraction.len()) as nat;
    assert(p == fraction + zeros(n));
    if timeout_ms % 1000 != 0 {
        assert(timeout_text(timeout_ms) == decimal(timeout_ms / 1000) + "."@ + fraction + "s"@);
    }
}

/// The start of a monitor is told with its task, and with its time limit unless it is to stay.
pub proof fn law_start_of_a_monitor_is_told(task_id: Seq<char>, timeout_ms: nat, persistent: bool)
    ensures
        persistent ==> started_text(task_id, timeout_ms, persistent) == "Monitor started · task "@
            + task_id + " · persistent"@,
        !persistent ==> started_text(task_id, timeout_ms, persistent) == "Monitor started · task "@
            + task_id + " · timeout "@ + timeout_text(timeout_ms),
{
}

/// The end of a monitor is told with its task: why it was ended where something ended it, else how it
/// went and, where that is known, with which exit code.
pub proof fn law_end_of_a_monitor_is_told(
    task_id: Seq<char>,
    status: CommandExecutionStatus,
    exit_code: Option<i32>,
)
    ensures
        completed_text(task_id, status, Some(CommandMonitorTerminationReason::TimedOut), exit_code)
            == "Monitor timed out · task "@ + task_id,
        completed_text(
            task_id,
            status,
            Some(CommandMonitorTerminationReason::UserStopped),
            exit_code,
        ) == "Monitor stopped · task "@ + task_id,
        completed_text(task_id, status, Some(CommandMonitorTerminationReason::Stopped), exit_code)
            == "Monitor stopped · task "@ + task_id,
        completed_text(
            task_id,
            status,
            Some(CommandMonitorTerminationReason::SessionShutdown),
            exit_code,
        ) == "Monitor stopped · task "@ + task_id + " · session ended"@,
        completed_text(task_id, status, Some(CommandMonitorTerminationReason::Capacity), exit_code)
            == "Monitor stopped · task "@ + task_id + " · capacity limit"@,
        ({
            let word = match status {
                CommandExecutionStatus::InProgress => "running"@,
                CommandExecutionStatus::Completed => "completed"@,
                CommandExecutionStatus::Failed => "failed"@,
                CommandExecutionStatus::Declined => "declined"@,
            };
            &&& exit_code is None ==> completed_text(task_id, status, None, exit_code)
                == "Monitor "@ + word + " · task "@ + task_id
            &&& exit_code matches Some(code) ==> completed_text(task_id, status, None, exit_code)
                == "Monitor "@ + word + " · task "@ + task_id + " · exit "@ + if code < 0 {
                "-"@ + decimal(-code as nat)
            } else {
                decimal(code as nat)
            }
        }),
{
}

proof fn lemma_split(s: Seq<char>, from: int)
    requires
        0 <= from <= s.len(),
    ensures
        split_from(s, from).len() > 0,
        glued(split_from(s, from)) == s.skip(from),
        forall|i: int, j: int|
            0 <= i < split_from(s, from).len() && 0 <= j < split_from(s, from)[i].len()
                ==> #[trigger] split_from(s, from)[i][j] != '\n',
    decreases s.len() - from,
{
    lemma_find_from(s, is_newline(), from);
    let all = split_from(s, from);
    match find_from(s, is_newline(), from) {
        Some(end) => {
            let first = s.subrange(from, end);
            let rest = split_from(s, end + 1);
            lemma_split(s, end + 1);
            assert((is_newline())(s[end]));
            assert(all == seq![first] + rest);
            assert(all.drop_first() =~= rest);
            assert(all[0] == first);
            assert(first + seq!['\n'] + s.skip(end + 1) =~= s.skip(from));
            assert forall|i: int, j: int| 0 <= i < all.len() && 0 <= j < all[i].len() implies
                #[trigger] all[i][j] != '\n' by {
                if i == 0 {
                    assert(!(is_newline())(s[from + j]));
                } else {
                    assert(all[i] == rest[i - 1]);
                }
            }
        },
        None => {
            assert(s.subrange(from, s.len() as int) =~= s.skip(from));
            assert(all.drop_first() =~= Seq::<Seq<char>>::empty());
            assert forall|i: int, j: int| 0 <= i < all.len() && 0 <= j < all[i].len() implies
                #[trigger] all[i][j] != '\n' by {
                assert(!(is_newline())(s[from + j]));
            }
        },
    }
}

/// Pieces of a text with the sign that ends a line between them.
pub open spec fn glued(pieces: Seq<Seq<char>>) -> Seq<char>
    decreases pieces.len(),
{
    if pieces.len() == 0 {
        Seq::empty()
    } else if pieces.len() == 1 {
        pieces[0]
    } else {
        pieces[0] + seq!['\n'] + glued(pieces.drop_first())
    }
}

/// The details of a monitor are parted at the ends of lines and nowhere else: put together again, the
/// rows make up the text, but for an end of line at its end.
pub proof fn law_detail_rows_make_up_the_detail(detail: Seq<char>)
    ensures
        forall|i: int, j: int|
            0 <= i < detail_rows(detail).len() && 0 <= j < detail_rows(detail)[i].len()
                ==> #[trigger] detail_rows(detail)[i][j] != '\n',
        glued(detail_rows(detail)) == detail || glued(detail_rows(detail).push(Seq::empty()))
            == detail,
{
    lemma_split(detail, 0);
    let pieces = split_from(detail, 0);
    assert(detail.skip(0) =~= detail);
    if pieces.last().len() == 0 {
        assert(pieces.last() =~= Seq::<char>::empty());
        assert(pieces.drop_last().push(Seq::<char>::empty()) =~= pieces);
        assert forall|i: int, j: int|
            0 <= i < detail_rows(detail).len() && 0 <= j < detail_rows(detail)[i].len() implies
            #[trigger] detail_rows(detail)[i][j] != '\n' by {
            assert(detail_rows(detail)[i] == pieces[i]);
            assert(pieces[i][j] != '\n');
        }
    }
}

/// What is told of a monitor stands in rows: a marked one for the header and one for each line of
/// detail, dimmed and set in, the first of them with a hook. Nothing is told without room.
pub proof fn law_monitor_is_laid_out(width: nat, header: Seq<SpanView>, detail: Seq<Seq<SpanView>>)
    ensures
        ({
            let rows = laid_out(width, header, detail);
            &&& width == 0 ==> rows.len() == 0
            &&& width > 0 ==> {
                &&& rows.len() == detail.len() + 1
                &&& rows[0].line == header
                &&& rows[0].initial_indent == bold_view("⏺ "@, Color::Cyan)
                &&& rows[0].subsequent_indent == raw_view("  "@)
                &&& forall|i: int|
                    0 <= i < detail.len() ==> (#[trigger] rows[i + 1]).initial_indent == (if i == 0 {
                        dim_view("  ⎿  "@)
                    } else {
                        raw_view("     "@)
                    }) && rows[i + 1].subsequent_indent == raw_view("     "@) && rows[i
                        + 1].line.len() == detail[i].len()
            }
        }),
{
}

/// The details of a process say what it is, how it stands, what went wrong with stopping it, how long it
/// has run and what it runs, in this order.
pub proof fn law_details_are_told_in_order(
    view: BackgroundProcessesModel,
    idx: usize,
    runtime: Seq<char>,
    command: Seq<SpanView>,
    failure: Seq<SpanView>,
)
    requires
        view.detail_idx == Some(idx),
        idx < view.items.len(),
    ensures
        ({
            let item = view.items[idx as int];
            let told = view.metadata(runtime, command, failure);
            let failed = view.stop is Failed;
            let at: int = if failed {
                4
            } else {
                3
            };
            let status = if view.stop == (StopStateView::InFlight { process_id: item.process_id }) {
                "Stopping…"@
            } else {
                "Running"@
            };
            &&& told.len() == at + 4
            &&& told[0] == seq![
                heading_view(
                    if item.monitor is Some {
                        "Monitor details"@
                    } else {
                        "Shell details"@
                    },
                ),
            ]
            &&& told[1] == plain_view(""@)
            &&& told[2] == seq![heading_view("Status: "@), raw_view(status)]
            &&& failed ==> told[3].len() == failure.len()
            &&& told[at] == seq![heading_view("Runtime: "@), raw_view(runtime)]
            &&& told[at + 1] == seq![
                heading_view(
                    if item.monitor is Some {
                        "Script: "@
                    } else {
                        "Command: "@
                    },
                ),
            ] + command
            &&& told[at + 2] == plain_view(""@)
            &&& told[at + 3] == seq![heading_view("Output:"@)]
        }),
{
}

/// Where there is no output to show, it is said why; else as many of its first lines are shown as fit.
pub proof fn law_missing_output_is_told(
    state: DetailOutputStateView,
    height: nat,
    lines: Seq<Seq<SpanView>>,
    size: Seq<char>,
)
    ensures
        state is Loading ==> state.body(lines, size) == DetailBodyView::Note("Loading output…"@),
        state is NoOutput ==> state.body(lines, size) == DetailBodyView::Note(
            "No output available"@,
        ),
        state == DetailOutputStateView::Suspended(None) ==> state.body(lines, size)
            == DetailBodyView::Note("Output unavailable · refresh paused; reopen to retry"@),
        state.content() matches Some(content) ==> {
            &&& state.body(lines, size) == (DetailBodyView::Frame {
                lines,
                footer: state.footer(lines.len(), size)->0,
            })
            &&& state.shown(height).len() == if content.lines.len() < height {
                content.lines.len()
            } else {
                height
            }
            &&& state.shown(height).is_prefix_of(content.lines)
        },
        state.content() is None ==> state.shown(height).len() == 0,
{
}

/// What is said between two turns: how long the turn took, if monitors ran or if it took more than a
/// minute, by the verb that was drawn where monitors ran; then the measures; then what still runs.
pub proof fn law_separator_tells_the_time(view: SeparatorView, elapsed: Seq<char>)
    ensures
        ({
            let time = view.elapsed_part(elapsed);
            &&& view.elapsed_seconds is None ==> time.len() == 0
            &&& view.elapsed_seconds matches Some(seconds) ==> {
                &&& view.monitor_count > 0 ==> time == seq![
                    view.monitor_duration_verb + " for "@ + elapsed,
                ]
                &&& view.monitor_count == 0 && seconds > 60 ==> time == seq![
                    "Worked for "@ + elapsed,
                ]
                &&& view.monitor_count == 0 && seconds <= 60 ==> time.len() == 0
            }
            &&& view.runtime_metrics is None && view.background_process_summary is None
                ==> view.label(elapsed) == joined(time, " • "@)
            &&& view.runtime_metrics is None && time.len() == 0 ==> (
            view.background_process_summary matches Some(running) ==> view.label(elapsed)
                == running)
            &&& view.runtime_metrics matches Some(m) ==> view.background_process_summary is None
                && time.len() == 0 ==> view.label(elapsed) == match metrics_text(m) {
                Some(text) => text,
                None => Seq::empty(),
            }
        }),
{
    let time = view.elapsed_part(elapsed);
    assert(time + Seq::<Seq<char>>::empty() =~= time);
    if time.len() == 0 {
        assert(time =~= Seq::<Seq<char>>::empty());
        assert(joined(time, " • "@) =~= Seq::<char>::empty());
        if let Some(running) = view.background_process_summary {
            assert(joined(time, " • "@) + running =~= running);
        }
        if let Some(m) = view.runtime_metrics {
            if let Some(text) = metrics_text(m) {
                assert(time + seq![text] =~= seq![text]);
            }
        }
    }
}

/// A separator without words is a full line of dashes.
pub proof fn law_empty_separator_is_a_line(view: SeparatorView, elapsed: Seq<char>, width: nat)
    requires
        view.label(elapsed).len() == 0,
    ensures
        view.display(elapsed, width).len() == width,
        forall|i: int| 0 <= i < width ==> #[trigger] view.display(elapsed, width)[i] == '─',
{
}

/// The title of a body is its first heading of the first level, trimmed, and something else where there
/// is none or where that one is blank.
pub proof fn law_title_is_the_first_heading(body: Seq<char>, fallback: Seq<char>, at: int)
    requires
        0 <= at <= lines(body).len(),
        at < lines(body).len() ==> lines(body)[at].len() >= 2 && lines(body)[at][0] == '#'
            && lines(body)[at][1] == ' ',
        forall|i: int|
            0 <= i < at ==> !((#[trigger] lines(body)[i]).len() >= 2 && lines(body)[i][0] == '#'
                && lines(body)[i][1] == ' '),
    ensures
        at == lines(body).len() ==> title_of(body, fallback) == fallback,
        at < lines(body).len() ==> title_of(body, fallback) == if trimmed(
            lines(body)[at].skip(2),
        ).len() > 0 {
            trimmed(lines(body)[at].skip(2))
        } else {
            fallback
        },
{
    let all = lines(body);
    lemma_find_from(all, is_title(), 0);
    if at < all.len() {
        assert((is_title())(all[at]));
    }
    if let Some(i) = find_from(all, is_title(), 0) {
        assert((is_title())(all[i]));
    }
}

/// A body lacks a section exactly if none of its lines is the heading of the second level with that
/// name, blanks around it aside.
pub proof fn law_section_is_found_by_its_heading(body: Seq<char>, section: Seq<char>)
    ensures
        section_fault(body, section) is None <==> exists|i: int|
            0 <= i < lines(body).len() && trimmed(#[trigger] lines(body)[i]) == "## "@ + section,
{
    let all = lines(body);
    let f = is_heading("## "@ + section);
    lemma_find_from(all, f, 0);
    if let Some(i) = find_from(all, f, 0) {
        assert(f(all[i]));
    } else {
        assert forall|i: int| 0 <= i < all.len() implies trimmed(#[trigger] all[i]) != "## "@
            + section by {
            assert(!f(all[i]));
        }
    }
}

/// What stands above a monitor and above one of its events.
pub proof fn law_headers_hold_the_description(description: Seq<SpanView>)
    ensures
        ({
            let header = header_spans(description);
            let event = event_header_spans(description);
            let n = description.len() as int;
            &&& header.len() == n + 3 && event.len() == n + 3
            &&& header[0] == heading_view("Monitor"@) && header[1] == raw_view("("@)
            &&& header.subrange(2, n + 2) == description && header[n + 2] == raw_view(")"@)
            &&& event[0] == heading_view("Monitor event: "@) && event[1] == raw_view("\""@)
            &&& event.subrange(2, n + 2) == description && event[n + 2] == raw_view("\""@)
        }),
{
    let n = description.len() as int;
    assert(header_spans(description).subrange(2, n + 2) =~= description);
    assert(event_header_spans(description).subrange(2, n + 2) =~= description);
}

/// The rows of output behind an event are set in alike and hold the lines as they are.
pub proof fn law_output_rows_are_set_in(output: Seq<Seq<SpanView>>, i: int)
    requires
        0 <= i < output.len(),
    ensures
        output_rows(output).len() == output.len(),
        output_rows(output)[i].line == output[i],
        output_rows(output)[i].initial_indent == raw_view("     "@),
        output_rows(output)[i].subsequent_indent == raw_view("     "@),
{
}

/// The page of the list: its title, what is told of it, a note where it is empty, and the keys.
pub proof fn law_list_page_tells_the_keys(
    view: BackgroundProcessesModel,
    width: nat,
    height: nat,
    hint_width: u16,
)
    ensures
        ({
            let page = view.list_page(width, height, hint_width);
            let full = "↑/↓ select · Enter view · x stop · Esc close"@;
            &&& page.title == "Background"@
            &&& page.rows == view.rows(width, height)
            &&& page.placeholder == if view.items.len() == 0 {
                Some("No tasks currently running"@)
            } else {
                None
            }
            &&& page.hint == if text_columns(full) <= hint_width {
                full
            } else {
                "↑/↓ · Enter · x stop · Esc"@
            }
            &&& page.failed <==> view.stop is Failed
            &&& view.stop is InFlight ==> page.subtitle == "Stopping selected process…"@
            &&& view.stop matches StopStateView::Failed { message } ==> page.subtitle == message
        }),
{
}

/// The exit code of a process: its own one first, else that of the signal above 128, else none.
pub proof fn law_exit_code_is_its_own_first(code: i32, signal: i32)
    ensures
        exit_code(Some(code), None) == code,
        exit_code(Some(code), Some(signal)) == code,
        exit_code(None, Some(signal)) == 128 + signal,
        exit_code(None, None) == -1,
{
}

/// Errors are told by what they are about.
pub proof fn law_errors_are_told(text: Seq<char>)
    ensures
        QunuxError::message_view(QunuxErrorView::InvalidId(text)) == "invalid id `"@ + text + "`"@,
        QunuxError::message_view(QunuxErrorView::InvalidState(text)) == "state error: "@ + text,
{
}

} // verus!
