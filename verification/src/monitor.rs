//! What is shown of a command monitor: that it started, what it reported and how it ended.
use vstd::prelude::*;
use crate::ids::{decimal, decimal_text, padded};
use crate::lines::{lines, lines_of, text_of};
use crate::styled::{bold, bold_view, dim, dim_view, dimmed, escapes, extend, heading, heading_view, lemma_below_nothing, line_below, push_below, raw, raw_view, styled_below, Color, Line, Span, SpanView, Style};
use crate::text::{cat2, cat3, cat4, cat6, chars_of, group_views, views};

verus! {

broadcast use group_views;

/// How the command of a monitor stands.
#[derive(Clone, Copy, Debug, PartialEq, Eq, Structural)]
pub enum CommandExecutionStatus {
    InProgress,
    Completed,
    Failed,
    Declined,
}

/// Why a monitor was ended.
#[derive(Clone, Copy, Debug, PartialEq, Eq, Structural)]
pub enum CommandMonitorTerminationReason {
    TimedOut,
    UserStopped,
    Stopped,
    SessionShutdown,
    Capacity,
}

/// A text without the zeros behind it.
pub open spec fn without_zeros(s: Seq<char>) -> Seq<char>
    decreases s.len(),
{
    if s.len() > 0 && s.last() == '0' {
        without_zeros(s.drop_last())
    } else {
        s
    }
}

/// A number of milliseconds as seconds, with as many decimals as it takes.
pub open spec fn timeout_text(timeout_ms: nat) -> Seq<char> {
    if timeout_ms % 1000 == 0 {
        decimal(timeout_ms / 1000) + "s"@
    } else {
        decimal(timeout_ms / 1000) + "."@ + without_zeros(padded(timeout_ms % 1000)) + "s"@
    }
}

fn drop_zeros(s: &str) -> (r: String)
    ensures
        r@ == without_zeros(s@),
{
    let chars = chars_of(s);
    let mut to: usize = chars.len();
    assert(s@.subrange(0, to as int) =~= s@);
    while to > 0 && chars[to - 1] == '0'
        invariant
            chars@ == s@,
            to <= chars@.len(),
            without_zeros(s@) == without_zeros(s@.subrange(0, to as int)),
        decreases to,
    {
        assert(s@.subrange(0, to as int).drop_last() =~= s@.subrange(0, to - 1));
        to = to - 1;
    }
    text_of(&chars, 0, to)
}

/// A number of milliseconds as seconds, with as many decimals as it takes.
pub fn format_monitor_timeout(timeout_ms: u64) -> (r: String)
    ensures
        r@ == timeout_text(timeout_ms as nat),
{
    let seconds: u64 = timeout_ms / 1000;
    let remainder_ms: u64 = timeout_ms % 1000;
    if remainder_ms == 0 {
        return cat2(decimal_text(seconds).as_str(), "s");
    }
    let digits = crate::ids::numbered_id("", remainder_ms as u32);
    proof {
        reveal_strlit("");
        assert(digits@ =~= padded(remainder_ms as nat));
    }
    let fractional = drop_zeros(digits.as_str());
    cat4(decimal_text(seconds).as_str(), ".", fractional.as_str(), "s")
}

/// What is said when a monitor started.
pub open spec fn started_text(task_id: Seq<char>, timeout_ms: nat, persistent: bool) -> Seq<char> {
    if persistent {
        "Monitor started · task "@ + task_id + " · persistent"@
    } else {
        "Monitor started · task "@ + task_id + " · timeout "@ + timeout_text(timeout_ms)
    }
}

/// What is said when a monitor started.
pub fn monitor_started_detail(task_id: &str, timeout_ms: u64, persistent: bool) -> (r: String)
    ensures
        r@ == started_text(task_id@, timeout_ms as nat, persistent),
{
    if persistent {
        cat3("Monitor started · task ", task_id, " · persistent")
    } else {
        cat4(
            "Monitor started · task ",
            task_id,
            " · timeout ",
            format_monitor_timeout(timeout_ms).as_str(),
        )
    }
}

/// A whole number in decimal.
pub open spec fn integer_text(n: int) -> Seq<char> {
    if n < 0 {
        "-"@ + decimal((-n) as nat)
    } else {
        decimal(n as nat)
    }
}

fn format_integer(n: i32) -> (r: String)
    ensures
        r@ == integer_text(n as int),
{
    if n < 0 {
        let size: u64 = (-(n as i64)) as u64;
        cat2("-", decimal_text(size).as_str())
    } else {
        decimal_text(n as u64)
    }
}

impl CommandExecutionStatus {
    pub open spec fn word_view(self) -> Seq<char> {
        match self {
            CommandExecutionStatus::InProgress => "running"@,
            CommandExecutionStatus::Completed => "completed"@,
            CommandExecutionStatus::Failed => "failed"@,
            CommandExecutionStatus::Declined => "declined"@,
        }
    }

    /// The word for the status.
    pub fn word(self) -> (r: &'static str)
        ensures
            r@ == self.word_view(),
    {
        match self {
            CommandExecutionStatus::InProgress => "running",
            CommandExecutionStatus::Completed => "completed",
            CommandExecutionStatus::Failed => "failed",
            CommandExecutionStatus::Declined => "declined",
        }
    }
}

/// What is said when a monitor ended: why it was ended, or else how its command stands.
pub open spec fn completed_text(
    task_id: Seq<char>,
    status: CommandExecutionStatus,
    termination_reason: Option<CommandMonitorTerminationReason>,
    exit_code: Option<i32>,
) -> Seq<char> {
    match termination_reason {
        Some(CommandMonitorTerminationReason::TimedOut) => "Monitor timed out · task "@ + task_id,
        Some(CommandMonitorTerminationReason::UserStopped)
        | Some(CommandMonitorTerminationReason::Stopped) => "Monitor stopped · task "@ + task_id,
        Some(CommandMonitorTerminationReason::SessionShutdown) => "Monitor stopped · task "@
            + task_id + " · session ended"@,
        Some(CommandMonitorTerminationReason::Capacity) => "Monitor stopped · task "@ + task_id
            + " · capacity limit"@,
        None => match exit_code {
            Some(code) => "Monitor "@ + status.word_view() + " · task "@ + task_id + " · exit "@
                + integer_text(code as int),
            None => "Monitor "@ + status.word_view() + " · task "@ + task_id,
        },
    }
}

/// What is said when a monitor ended.
pub fn monitor_completed_detail(
    task_id: &str,
    status: CommandExecutionStatus,
    termination_reason: Option<CommandMonitorTerminationReason>,
    exit_code: Option<i32>,
) -> (r: String)
    ensures
        r@ == completed_text(task_id@, status, termination_reason, exit_code),
{
    match termination_reason {
        Some(CommandMonitorTerminationReason::TimedOut) => cat2(
            "Monitor timed out · task ",
            task_id,
        ),
        Some(CommandMonitorTerminationReason::UserStopped)
        | Some(CommandMonitorTerminationReason::Stopped) => cat2(
            "Monitor stopped · task ",
            task_id,
        ),
        Some(CommandMonitorTerminationReason::SessionShutdown) => cat3(
            "Monitor stopped · task ",
            task_id,
            " · session ended",
        ),
        Some(CommandMonitorTerminationReason::Capacity) => cat3(
            "Monitor stopped · task ",
            task_id,
            " · capacity limit",
        ),
        None => match exit_code {
            Some(code) => cat6(
                "Monitor ",
                status.word(),
                " · task ",
                task_id,
                " · exit ",
                format_integer(code).as_str(),
            ),
            None => cat4("Monitor ", status.word(), " · task ", task_id),
        },
    }
}

/// The pieces of a text between newlines, from place `from` on.
pub open spec fn split_from(s: Seq<char>, from: int) -> Seq<Seq<char>>
    decreases s.len() - from,
    when 0 <= from <= s.len()
    via split_from_decreases
{
    match crate::search::find_from(s, crate::lines::is_newline(), from) {
        Some(end) => seq![s.subrange(from, end)] + split_from(s, end + 1),
        None => seq![s.subrange(from, s.len() as int)],
    }
}

#[via_fn]
proof fn split_from_decreases(s: Seq<char>, from: int) {
    crate::search::lemma_find_from(s, crate::lines::is_newline(), from);
}

/// The rows of a detail: the pieces between newlines, but for an empty one at the end.
pub open spec fn detail_rows(detail: Seq<char>) -> Seq<Seq<char>> {
    let pieces = split_from(detail, 0);
    if pieces.last().len() == 0 {
        pieces.drop_last()
    } else {
        pieces
    }
}

proof fn lemma_split_nonempty(s: Seq<char>, from: int)
    requires
        0 <= from <= s.len(),
    ensures
        split_from(s, from).len() > 0,
        split_from(s, from).last().len() == 0 <==> from == s.len() || s.last() == '\n',
    decreases s.len() - from,
{
    crate::search::lemma_find_from(s, crate::lines::is_newline(), from);
    match crate::search::find_from(s, crate::lines::is_newline(), from) {
        Some(end) => {
            lemma_split_nonempty(s, end + 1);
            assert(split_from(s, from).last() == split_from(s, end + 1).last());
            assert(s[end] == '\n');
        },
        None => {
            if from < s.len() {
                assert(!(crate::lines::is_newline())(s[s.len() - 1]));
            }
        },
    }
}

/// The rows of a detail: the pieces between newlines, but for an empty one at the end.
pub fn split_detail(detail: &str) -> (r: Vec<String>)
    ensures
        views(r@) == detail_rows(detail@),
{
    let chars = chars_of(detail);
    let n: usize = chars.len();
    let mut out: Vec<String> = Vec::new();
    let mut from: usize = 0;
    let mut i: usize = 0;
    proof {
        lemma_split_nonempty(detail@, 0);
        assert(views(out@) + split_from(detail@, 0) =~= split_from(detail@, 0));
    }
    while i < n
        invariant
            chars@ == detail@,
            n == chars@.len(),
            from <= i <= n,
            crate::search::find_from(detail@, crate::lines::is_newline(), from as int)
                == crate::search::find_from(detail@, crate::lines::is_newline(), i as int),
            views(out@) + split_from(detail@, from as int) == split_from(detail@, 0),
        decreases n - i,
    {
        if chars[i] == '\n' {
            let ghost before = views(out@);
            out.push(text_of(&chars, from, i));
            proof {
                let piece = detail@.subrange(from as int, i as int);
                assert(before + (seq![piece] + split_from(detail@, i + 1)) =~= before.push(piece)
                    + split_from(detail@, i + 1));
            }
            from = i + 1;
        }
        i = i + 1;
    }
    let ghost before = views(out@);
    let last = text_of(&chars, from, n);
    proof {
        assert(split_from(detail@, from as int) == seq![last@]);
        assert(split_from(detail@, 0) =~= before.push(last@));
        assert(before.push(last@).drop_last() =~= before);
    }
    if from < n {
        out.push(last);
    }
    out
}

/// The rows that say that a monitor reported something.
#[derive(Debug, PartialEq, Eq)]
pub struct MonitorEventCell {
    pub description: String,
    pub event: String,
}

/// The rows that say that a monitor started.
#[derive(Debug, PartialEq, Eq)]
pub struct MonitorStartedCell {
    pub description: String,
    pub task_id: String,
    pub timeout_ms: u64,
    pub persistent: bool,
}

/// The rows that say how a monitor ended.
#[derive(Debug, PartialEq, Eq)]
pub struct MonitorCompletedCell {
    pub description: String,
    pub task_id: String,
    pub status: CommandExecutionStatus,
    pub termination_reason: Option<CommandMonitorTerminationReason>,
    pub aggregated_output: Option<String>,
    pub exit_code: Option<i32>,
}

pub fn new_monitor_started(
    description: String,
    task_id: String,
    timeout_ms: u64,
    persistent: bool,
) -> (r: MonitorStartedCell)
    ensures
        r == (MonitorStartedCell { description, task_id, timeout_ms, persistent }),
{
    MonitorStartedCell { description, task_id, timeout_ms, persistent }
}

pub fn new_monitor_event(description: String, event: String) -> (r: MonitorEventCell)
    ensures
        r == (MonitorEventCell { description, event }),
{
    MonitorEventCell { description, event }
}

pub fn new_monitor_completed(
    description: String,
    task_id: String,
    status: CommandExecutionStatus,
    termination_reason: Option<CommandMonitorTerminationReason>,
    aggregated_output: Option<String>,
    exit_code: Option<i32>,
) -> (r: MonitorCompletedCell)
    ensures
        r == (MonitorCompletedCell {
            description,
            task_id,
            status,
            termination_reason,
            aggregated_output,
            exit_code,
        }),
{
    MonitorCompletedCell {
        description,
        task_id,
        status,
        termination_reason,
        aggregated_output,
        exit_code,
    }
}

/// The heading of a monitor; its description comes escaped.
pub open spec fn header_spans(description: Seq<SpanView>) -> Seq<SpanView> {
    seq![heading_view("Monitor"@), raw_view("("@)] + description + seq![raw_view(")"@)]
}

/// The line may be the heading of a monitor.
pub open spec fn heads<F: Fn(&str) -> Line>(
    escape: F,
    description: Seq<char>,
    line: Seq<SpanView>,
) -> bool {
    exists|d: Seq<SpanView>| #[trigger] escapes(escape, description, d) && line == header_spans(d)
}

/// The heading of a monitor. `escape` makes a line of a text: it takes control sequences for styles
/// and expands tabs.
pub fn monitor_header_spans<F: Fn(&str) -> Line + Copy>(description: &str, escape: F) -> (r: Line)
    requires
        forall|s: &str| #[trigger] call_requires(escape, (s,)),
    ensures
        heads(escape, description@, r@),
{
    let escaped = escape(description);
    let mut spans: Vec<Span> = Vec::new();
    spans.push(heading("Monitor"));
    spans.push(raw("("));
    push_below(&mut spans, &escaped, Style::plain());
    spans.push(raw(")"));
    proof {
        lemma_below_nothing(escaped@);
        assert(escapes(escape, description@, escaped@));
        assert(views(spans@) =~= header_spans(escaped@));
    }
    Line { spans }
}

/// The heading of a report; its description comes escaped.
pub open spec fn event_header_spans(description: Seq<SpanView>) -> Seq<SpanView> {
    seq![heading_view("Monitor event: "@), raw_view("\""@)] + description + seq![raw_view("\""@)]
}

/// The line may be the heading of a report.
pub open spec fn heads_event<F: Fn(&str) -> Line>(
    escape: F,
    description: Seq<char>,
    line: Seq<SpanView>,
) -> bool {
    exists|d: Seq<SpanView>| #[trigger]
        escapes(escape, description, d) && line == event_header_spans(d)
}

/// The heading of a report. `escape` makes a line of a text.
pub fn monitor_event_header_spans<F: Fn(&str) -> Line + Copy>(description: &str, escape: F) -> (r:
    Line)
    requires
        forall|s: &str| #[trigger] call_requires(escape, (s,)),
    ensures
        heads_event(escape, description@, r@),
{
    let escaped = escape(description);
    let mut spans: Vec<Span> = Vec::new();
    spans.push(heading("Monitor event: "));
    spans.push(raw("\""));
    push_below(&mut spans, &escaped, Style::plain());
    spans.push(raw("\""));
    proof {
        lemma_below_nothing(escaped@);
        assert(escapes(escape, description@, escaped@));
        assert(views(spans@) =~= event_header_spans(escaped@));
    }
    Line { spans }
}

/// The lines may be what `escape` made of the texts, one of each.
pub open spec fn escapes_all<F: Fn(&str) -> Line>(
    escape: F,
    texts: Seq<Seq<char>>,
    lines: Seq<Seq<SpanView>>,
) -> bool {
    &&& lines.len() == texts.len()
    &&& forall|i: int| 0 <= i < texts.len() ==> escapes(escape, texts[i], #[trigger] lines[i])
}

fn escaped_all<F: Fn(&str) -> Line + Copy>(texts: &Vec<String>, escape: F) -> (r: Vec<Line>)
    requires
        forall|s: &str| #[trigger] call_requires(escape, (s,)),
    ensures
        escapes_all(escape, views(texts@), views(r@)),
{
    let mut r: Vec<Line> = Vec::new();
    let mut i: usize = 0;
    while i < texts.len()
        invariant
            forall|s: &str| #[trigger] call_requires(escape, (s,)),
            i <= texts@.len(),
            r@.len() == i,
            forall|k: int|
                0 <= k < i ==> escapes(escape, views(texts@)[k], #[trigger] views(r@)[k]),
        decreases texts@.len() - i,
    {
        let ghost before = r@;
        assert(views(texts@)[i as int] == texts@[i as int]@);
        let line = escape(texts[i].as_str());
        assert(escapes(escape, texts@[i as int]@, line@));
        r.push(line);
        i = i + 1;
        assert forall|k: int| 0 <= k < i implies escapes(
            escape,
            views(texts@)[k],
            #[trigger] views(r@)[k],
        ) by {
            if k < i - 1 {
                assert(views(r@)[k] == views(before)[k]);
            }
        }
    }
    r
}

impl MonitorStartedCell {
    /// What is said, row by row and without any layout. `escape` makes a line of a text.
    pub fn raw_lines<F: Fn(&str) -> Line + Copy>(&self, escape: F) -> (r: Vec<Line>)
        requires
            forall|s: &str| #[trigger] call_requires(escape, (s,)),
        ensures
            r@.len() == 2,
            heads(escape, self.description@, r@[0]@),
            escapes(
                escape,
                started_text(self.task_id@, self.timeout_ms as nat, self.persistent),
                r@[1]@,
            ),
    {
        let detail = monitor_started_detail(
            self.task_id.as_str(),
            self.timeout_ms,
            self.persistent,
        );
        let mut rows: Vec<Line> = Vec::new();
        rows.push(monitor_header_spans(self.description.as_str(), escape));
        let line = escape(detail.as_str());
        assert(escapes(escape, detail@, line@));
        rows.push(line);
        rows
    }
}

impl MonitorEventCell {
    /// What is said, row by row and without any layout. `escape` makes a line of a text.
    pub fn raw_lines<F: Fn(&str) -> Line + Copy>(&self, escape: F) -> (r: Vec<Line>)
        requires
            forall|s: &str| #[trigger] call_requires(escape, (s,)),
        ensures
            r@.len() > 0,
            heads_event(escape, self.description@, r@[0]@),
            escapes_all(escape, lines(self.event@), views(r@).skip(1)),
    {
        let mut rows: Vec<Line> = Vec::new();
        rows.push(monitor_event_header_spans(self.description.as_str(), escape));
        let said = escaped_all(&lines_of(self.event.as_str()), escape);
        let ghost first = rows@[0];
        let ghost rest = views(said@);
        extend(&mut rows, said);
        assert(views(rows@)[0] == first@);
        assert(views(rows@).skip(1) =~= rest);
        rows
    }
}

impl MonitorCompletedCell {
    /// What is said, row by row and without any layout. `escape` makes a line of a text.
    pub fn raw_lines<F: Fn(&str) -> Line + Copy>(&self, escape: F) -> (r: Vec<Line>)
        requires
            forall|s: &str| #[trigger] call_requires(escape, (s,)),
        ensures
            r@.len() >= 2,
            heads(escape, self.description@, r@[0]@),
            escapes(
                escape,
                completed_text(
                    self.task_id@,
                    self.status,
                    self.termination_reason,
                    self.exit_code,
                ),
                r@[1]@,
            ),
            escapes_all(
                escape,
                match self.aggregated_output {
                    Some(output) => lines(output@),
                    None => Seq::empty(),
                },
                views(r@).skip(2),
            ),
    {
        let detail = monitor_completed_detail(
            self.task_id.as_str(),
            self.status,
            self.termination_reason,
            self.exit_code,
        );
        let mut rows: Vec<Line> = Vec::new();
        rows.push(monitor_header_spans(self.description.as_str(), escape));
        let line = escape(detail.as_str());
        assert(escapes(escape, detail@, line@));
        rows.push(line);
        let ghost first = rows@;
        let said = match &self.aggregated_output {
            Some(output) => escaped_all(&lines_of(output.as_str()), escape),
            None => Vec::new(),
        };
        let ghost rest = views(said@);
        extend(&mut rows, said);
        assert(views(rows@)[0] == first[0]@);
        assert(views(rows@)[1] == first[1]@);
        assert(views(rows@).skip(2) =~= rest);
        rows
    }
}

/// A row and how it is set in when it is wrapped: its first part and the others.
#[derive(Debug, PartialEq, Eq)]
pub struct Row {
    pub initial_indent: Span,
    pub subsequent_indent: Span,
    pub line: Line,
}

/// What a [`Row`] says.
#[verifier::ext_equal]
pub struct RowView {
    pub initial_indent: SpanView,
    pub subsequent_indent: SpanView,
    pub line: Seq<SpanView>,
}

impl View for Row {
    type V = RowView;

    open spec fn view(&self) -> RowView {
        RowView {
            initial_indent: self.initial_indent@,
            subsequent_indent: self.subsequent_indent@,
            line: self.line@,
        }
    }
}

/// A heading and the rows of a detail below it, which come escaped; nothing where there is no room.
pub open spec fn laid_out(
    width: nat,
    header: Seq<SpanView>,
    detail: Seq<Seq<SpanView>>,
) -> Seq<RowView> {
    if width == 0 {
        Seq::empty()
    } else {
        seq![
            RowView {
                initial_indent: bold_view("⏺ "@, Color::Cyan),
                subsequent_indent: raw_view("  "@),
                line: header,
            },
        ] + Seq::new(
            detail.len(),
            |i: int|
                RowView {
                    initial_indent: if i == 0 {
                        dim_view("  ⎿  "@)
                    } else {
                        raw_view("     "@)
                    },
                    subsequent_indent: raw_view("     "@),
                    line: styled_below(detail[i], dimmed()),
                },
        )
    }
}

/// The rows may be those of a heading and of a detail below it.
pub open spec fn lays_out<F: Fn(&str) -> Line>(
    escape: F,
    width: nat,
    header: Seq<SpanView>,
    detail: Seq<char>,
    rows: Seq<RowView>,
) -> bool {
    exists|d: Seq<Seq<SpanView>>| #[trigger]
        escapes_all(escape, detail_rows(detail), d) && rows == laid_out(width, header, d)
}

/// A heading and the rows of a detail below it; nothing where there is no room. `escape` makes a
/// line of a text.
pub fn monitor_lines<F: Fn(&str) -> Line + Copy>(
    width: u16,
    header: Line,
    detail: &str,
    escape: F,
) -> (r: Vec<Row>)
    requires
        forall|s: &str| #[trigger] call_requires(escape, (s,)),
    ensures
        lays_out(escape, width as nat, header@, detail@, views(r@)),
{
    let details = escaped_all(&split_detail(detail), escape);
    let ghost d = views(details@);
    let ghost all = laid_out(width as nat, header@, d);
    let mut rows: Vec<Row> = Vec::new();
    if width == 0 {
        assert(views(rows@) =~= all);
        return rows;
    }
    rows.push(
        Row {
            initial_indent: bold("⏺ ", Color::Cyan),
            subsequent_indent: raw("  "),
            line: header,
        },
    );
    assert(views(rows@) =~= all.take(1));
    let mut i: usize = 0;
    while i < details.len()
        invariant
            i <= details@.len(),
            width > 0,
            d == views(details@),
            all == laid_out(width as nat, header@, d),
            views(rows@) == all.take(i + 1),
        decreases details@.len() - i,
    {
        assert(d[i as int] == details@[i as int]@);
        let initial_indent = if i == 0 {
            dim("  ⎿  ")
        } else {
            raw("     ")
        };
        let style = Style { dim: Some(true), ..Style::plain() };
        rows.push(
            Row {
                initial_indent,
                subsequent_indent: raw("     "),
                line: line_below(&details[i], style),
            },
        );
        i = i + 1;
        assert(views(rows@) =~= all.take(i + 1));
    }
    assert(all.take(i + 1) =~= all);
    rows
}

impl MonitorStartedCell {
    /// What is said, laid out for a width. `escape` makes a line of a text.
    pub fn display_rows<F: Fn(&str) -> Line + Copy>(&self, width: u16, escape: F) -> (r: Vec<Row>)
        requires
            forall|s: &str| #[trigger] call_requires(escape, (s,)),
        ensures
            exists|header: Seq<SpanView>| #[trigger]
                heads(escape, self.description@, header) && lays_out(
                    escape,
                    width as nat,
                    header,
                    started_text(self.task_id@, self.timeout_ms as nat, self.persistent),
                    views(r@),
                ),
    {
        let detail = monitor_started_detail(
            self.task_id.as_str(),
            self.timeout_ms,
            self.persistent,
        );
        let header = monitor_header_spans(self.description.as_str(), escape);
        monitor_lines(width, header, detail.as_str(), escape)
    }
}

impl MonitorEventCell {
    /// What is said, laid out for a width. `escape` makes a line of a text.
    pub fn display_rows<F: Fn(&str) -> Line + Copy>(&self, width: u16, escape: F) -> (r: Vec<Row>)
        requires
            forall|s: &str| #[trigger] call_requires(escape, (s,)),
        ensures
            exists|header: Seq<SpanView>| #[trigger]
                heads_event(escape, self.description@, header) && lays_out(
                    escape,
                    width as nat,
                    header,
                    self.event@,
                    views(r@),
                ),
    {
        let header = monitor_event_header_spans(self.description.as_str(), escape);
        monitor_lines(width, header, self.event.as_str(), escape)
    }
}

/// The rows of what a command said, below a heading.
pub open spec fn output_rows(output: Seq<Seq<SpanView>>) -> Seq<RowView> {
    Seq::new(
        output.len(),
        |i: int|
            RowView {
                initial_indent: raw_view("     "@),
                subsequent_indent: raw_view("     "@),
                line: output[i],
            },
    )
}

fn push_output_rows(rows: &mut Vec<Row>, output: Vec<Line>)
    ensures
        views(final(rows)@) == views(old(rows)@) + output_rows(views(output@)),
{
    let ghost first = views(rows@);
    let ghost lines = output@;
    let ghost all = output_rows(views(lines));
    let mut rest = output;
    let ghost mut n: int = 0;
    assert(first + all.take(0) =~= first);
    assert(rest@ =~= lines.skip(0));
    while rest.len() > 0
        invariant
            0 <= n <= lines.len(),
            rest@ == lines.skip(n),
            all == output_rows(views(lines)),
            views(rows@) == first + all.take(n),
        decreases rest@.len(),
    {
        let line = rest.remove(0);
        proof {
            assert(line == lines[n]);
            assert(views(lines)[n] == line@);
            assert(rest@ =~= lines.skip(n + 1));
            n = n + 1;
        }
        rows.push(
            Row { initial_indent: raw("     "), subsequent_indent: raw("     "), line },
        );
        assert(views(rows@) =~= first + all.take(n));
    }
    assert(all.take(n) =~= all);
}

impl MonitorCompletedCell {
    /// What is said, laid out for a width; `output` is what is shown of the output of the command,
    /// which is left out where there was none. `escape` makes a line of a text.
    pub fn display_rows<F: Fn(&str) -> Line + Copy>(
        &self,
        width: u16,
        output: Vec<Line>,
        escape: F,
    ) -> (r: Vec<Row>)
        requires
            forall|s: &str| #[trigger] call_requires(escape, (s,)),
        ensures
            exists|header: Seq<SpanView>, first: Seq<RowView>|
                #![trigger heads(escape, self.description@, header), first.len()]
                heads(escape, self.description@, header) && lays_out(
                    escape,
                    width as nat,
                    header,
                    completed_text(
                        self.task_id@,
                        self.status,
                        self.termination_reason,
                        self.exit_code,
                    ),
                    first,
                ) && views(r@) == first + (match self.aggregated_output {
                    Some(said) if width > 0 && said@.len() > 0 => output_rows(views(output@)),
                    _ => Seq::empty(),
                }),
    {
        let detail = monitor_completed_detail(
            self.task_id.as_str(),
            self.status,
            self.termination_reason,
            self.exit_code,
        );
        let header = monitor_header_spans(self.description.as_str(), escape);
        let ghost head = header@;
        let mut rows = monitor_lines(width, header, detail.as_str(), escape);
        let ghost first = views(rows@);
        assert(first + Seq::<RowView>::empty() =~= first);
        let said = match &self.aggregated_output {
            Some(said) => !said.as_str().is_empty(),
            None => false,
        };
        if width > 0 && said {
            push_output_rows(&mut rows, output);
        }
        proof {
            assert(heads(escape, self.description@, head));
            let n = first.len();
        }
        rows
    }
}

} // verus!
