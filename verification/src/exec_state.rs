//! The processes that commands left running, and what they said last.
use vstd::prelude::*;
use crate::lines::{chomp, chomp_text, keep_last, last_of, lines, lines_of, text_of, trim_end, trim_text_end};
use crate::search::{kept, select};
use crate::text::{chars_of, clone_texts, group_views, join, joined, opt_view, str_eq, views};

verus! {

broadcast use group_views;

/// How many lines of a background terminal are kept.
pub const MAX_RECENT_TERMINAL_LINES: usize = 3;

/// How many bytes of what a monitor said are kept.
pub const MAX_MONITOR_OUTPUT_BYTES: usize = 8192;

/// How many lines of a monitor are shown.
pub const MAX_MONITOR_DETAIL_LINES: usize = 10;

/// Where a command comes from.
#[derive(Clone, Copy, Debug, PartialEq, Eq, Structural)]
pub enum ExecCommandSource {
    Agent,
    UserShell,
    UnifiedExecStartup,
    UnifiedExecInteraction,
}

/// What a command was recognized as.
#[derive(Clone, Copy, Debug, PartialEq, Eq, Structural)]
pub enum ParsedCommand {
    Known,
    Unknown,
}

/// A command that runs.
#[derive(Clone, Debug, PartialEq, Eq)]
pub struct RunningCommand {
    pub command: Vec<String>,
    pub parsed_cmd: Vec<ParsedCommand>,
    pub source: ExecCommandSource,
}

/// What a monitor watches for.
#[derive(Debug, PartialEq, Eq)]
pub struct CommandMonitorInfo {
    pub task_id: String,
    pub description: String,
    pub timeout_ms: u64,
    pub persistent: bool,
}

/// What a [`CommandMonitorInfo`] says.
#[verifier::ext_equal]
pub struct CommandMonitorInfoView {
    pub task_id: Seq<char>,
    pub description: Seq<char>,
    pub timeout_ms: u64,
    pub persistent: bool,
}

impl View for CommandMonitorInfo {
    type V = CommandMonitorInfoView;

    open spec fn view(&self) -> CommandMonitorInfoView {
        CommandMonitorInfoView {
            task_id: self.task_id@,
            description: self.description@,
            timeout_ms: self.timeout_ms,
            persistent: self.persistent,
        }
    }
}

impl Clone for CommandMonitorInfo {
    fn clone(&self) -> (r: Self)
        ensures
            r@ == self@,
    {
        CommandMonitorInfo {
            task_id: self.task_id.clone(),
            description: self.description.clone(),
            timeout_ms: self.timeout_ms,
            persistent: self.persistent,
        }
    }
}

/// A monitor and the end of what it said.
#[derive(Debug, PartialEq, Eq)]
pub struct MonitorProcessState {
    pub info: CommandMonitorInfo,
    pub output_tail: String,
}

/// What a [`MonitorProcessState`] says.
#[verifier::ext_equal]
pub struct MonitorProcessStateView {
    pub info: CommandMonitorInfoView,
    pub output_tail: Seq<char>,
}

impl View for MonitorProcessState {
    type V = MonitorProcessStateView;

    open spec fn view(&self) -> MonitorProcessStateView {
        MonitorProcessStateView { info: self.info@, output_tail: self.output_tail@ }
    }
}

/// What a process was started for.
#[derive(Debug, PartialEq, Eq)]
pub enum UnifiedExecProcessKind {
    BackgroundTerminal,
    Monitor(MonitorProcessState),
}

/// What a [`UnifiedExecProcessKind`] says.
#[verifier::ext_equal]
pub enum UnifiedExecProcessKindView {
    BackgroundTerminal,
    Monitor(MonitorProcessStateView),
}

impl View for UnifiedExecProcessKind {
    type V = UnifiedExecProcessKindView;

    open spec fn view(&self) -> UnifiedExecProcessKindView {
        match self {
            UnifiedExecProcessKind::BackgroundTerminal =>
                UnifiedExecProcessKindView::BackgroundTerminal,
            UnifiedExecProcessKind::Monitor(state) => UnifiedExecProcessKindView::Monitor(state@),
        }
    }
}

/// A process that a command left running. It was started so many nanoseconds after some instant
/// in the past.
#[derive(Debug, PartialEq, Eq)]
pub struct UnifiedExecProcessSummary {
    pub key: String,
    pub call_id: String,
    pub command_display: String,
    pub recent_chunks: Vec<String>,
    pub kind: UnifiedExecProcessKind,
    pub started_at: u64,
}

/// What a [`UnifiedExecProcessSummary`] says.
#[verifier::ext_equal]
pub struct UnifiedExecProcessSummaryView {
    pub key: Seq<char>,
    pub call_id: Seq<char>,
    pub command_display: Seq<char>,
    pub recent_chunks: Seq<Seq<char>>,
    pub kind: UnifiedExecProcessKindView,
    pub started_at: u64,
}

impl View for UnifiedExecProcessSummary {
    type V = UnifiedExecProcessSummaryView;

    open spec fn view(&self) -> UnifiedExecProcessSummaryView {
        UnifiedExecProcessSummaryView {
            key: self.key@,
            call_id: self.call_id@,
            command_display: self.command_display@,
            recent_chunks: views(self.recent_chunks@),
            kind: self.kind@,
            started_at: self.started_at,
        }
    }
}

/// What a monitor reports at once.
#[derive(Debug, PartialEq, Eq)]
pub struct MonitorOutputBatch {
    pub description: String,
    pub event: String,
}

/// What a [`MonitorOutputBatch`] says.
#[verifier::ext_equal]
pub struct MonitorOutputBatchView {
    pub description: Seq<char>,
    pub event: Seq<char>,
}

impl View for MonitorOutputBatch {
    type V = MonitorOutputBatchView;

    open spec fn view(&self) -> MonitorOutputBatchView {
        MonitorOutputBatchView { description: self.description@, event: self.event@ }
    }
}

/// How many bytes a character takes in UTF-8.
pub open spec fn utf8_len(c: char) -> nat {
    if (c as u32) < 0x80 {
        1
    } else if (c as u32) < 0x800 {
        2
    } else if (c as u32) < 0x10000 {
        3
    } else {
        4
    }
}

fn utf8_len_of(c: char) -> (r: usize)
    ensures
        r == utf8_len(c),
{
    let n: u32 = c as u32;
    if n < 0x80 {
        1
    } else if n < 0x800 {
        2
    } else if n < 0x10000 {
        3
    } else {
        4
    }
}

/// How many bytes a text takes in UTF-8.
pub open spec fn utf8_bytes(s: Seq<char>) -> nat
    decreases s.len(),
{
    if s.len() == 0 {
        0
    } else {
        utf8_len(s[0]) + utf8_bytes(s.drop_first())
    }
}

/// The longest end of a text that takes no more than `max` bytes.
pub open spec fn tail_within(s: Seq<char>, max: nat) -> Seq<char>
    decreases s.len(),
{
    if utf8_bytes(s) <= max {
        s
    } else {
        tail_within(s.drop_first(), max)
    }
}

/// What is kept is an end of the text that takes no more than the bytes allowed, and with the
/// character before it, it would take more.
pub proof fn law_tail_is_longest(s: Seq<char>, max: nat)
    ensures
        tail_within(s, max).len() <= s.len(),
        tail_within(s, max) == s.skip(s.len() - tail_within(s, max).len()),
        utf8_bytes(tail_within(s, max)) <= max,
        tail_within(s, max).len() < s.len() ==> utf8_bytes(
            s.skip(s.len() - tail_within(s, max).len() - 1),
        ) > max,
    decreases s.len(),
{
    if utf8_bytes(s) <= max {
        assert(s.skip(0) =~= s);
    } else {
        let rest = s.drop_first();
        law_tail_is_longest(rest, max);
        let kept = tail_within(rest, max);
        assert(rest.skip(rest.len() - kept.len()) =~= s.skip(s.len() - kept.len()));
        if kept.len() == rest.len() {
            assert(s.skip(0) =~= s);
        } else {
            assert(rest.skip(rest.len() - kept.len() - 1) =~= s.skip(s.len() - kept.len() - 1));
        }
    }
}

proof fn lemma_bytes_grow(s: Seq<char>, i: int)
    requires
        0 <= i <= s.len(),
    ensures
        utf8_bytes(s.skip(i)) <= utf8_bytes(s),
    decreases i,
{
    if i == 0 {
        assert(s.skip(0) =~= s);
    } else {
        lemma_bytes_grow(s.drop_first(), i - 1);
        assert(s.drop_first().skip(i - 1) =~= s.skip(i));
    }
}

/// A text that ends later takes no more, so the longest end that fits is found from behind.
proof fn lemma_tail_at(s: Seq<char>, max: nat, i: int)
    requires
        0 <= i <= s.len(),
        utf8_bytes(s.skip(i)) <= max,
        i > 0 ==> utf8_bytes(s.skip(i - 1)) > max,
    ensures
        tail_within(s, max) == s.skip(i),
    decreases i,
{
    if i == 0 {
        assert(s.skip(0) =~= s);
    } else {
        lemma_bytes_grow(s, i - 1);
        let rest = s.drop_first();
        assert(rest.skip(i - 1) =~= s.skip(i));
        if i > 1 {
            assert(rest.skip(i - 2) =~= s.skip(i - 1));
        }
        lemma_tail_at(rest, max, i - 1);
    }
}

/// The longest end of a text that takes no more than `max_bytes` bytes.
pub fn truncate_utf8_tail(value: &str, max_bytes: usize) -> (r: String)
    ensures
        r@ == tail_within(value@, max_bytes as nat),
{
    let chars = chars_of(value);
    let mut i: usize = chars.len();
    let mut bytes: usize = 0;
    assert(value@.skip(i as int) =~= Seq::empty());
    while i > 0
        invariant
            chars@ == value@,
            i <= chars@.len(),
            bytes <= max_bytes,
            bytes == utf8_bytes(value@.skip(i as int)),
        ensures
            chars@ == value@,
            i <= chars@.len(),
            utf8_bytes(value@.skip(i as int)) <= max_bytes,
            i > 0 ==> utf8_bytes(value@.skip(i - 1)) > max_bytes,
        decreases i,
    {
        let n: usize = utf8_len_of(chars[i - 1]);
        assert(value@.skip(i - 1).drop_first() =~= value@.skip(i as int));
        if n > max_bytes - bytes {
            break;
        }
        bytes = bytes + n;
        i = i - 1;
    }
    proof {
        lemma_tail_at(value@, max_bytes as nat, i as int);
        assert(value@.subrange(i as int, value@.len() as int) =~= value@.skip(i as int));
    }
    text_of(&chars, i, chars.len())
}

/// The lines without the carriage returns at their ends.
pub open spec fn chomped(lines: Seq<Seq<char>>) -> Seq<Seq<char>> {
    Seq::new(lines.len(), |i: int| chomp(lines[i]))
}

fn chomp_all(lines: &Vec<String>) -> (r: Vec<String>)
    ensures
        views(r@) == chomped(views(lines@)),
{
    let mut out: Vec<String> = Vec::new();
    let mut i: usize = 0;
    while i < lines.len()
        invariant
            i <= lines@.len(),
            views(out@) == chomped(views(lines@)).take(i as int),
        decreases lines@.len() - i,
    {
        out.push(chomp_text(lines[i].as_str()));
        i = i + 1;
        assert(views(out@) =~= chomped(views(lines@)).take(i as int));
    }
    assert(chomped(views(lines@)).take(i as int) =~= chomped(views(lines@)));
    out
}

/// Whether there is anything in a text.
pub open spec fn is_something() -> spec_fn(Seq<char>) -> bool {
    |s: Seq<char>| s.len() > 0
}

/// The lines without the blanks at their ends.
pub open spec fn trimmed_ends(lines: Seq<Seq<char>>) -> Seq<Seq<char>> {
    Seq::new(lines.len(), |i: int| trim_end(lines[i]))
}

/// The lines of a chunk that say anything, without the blanks at their ends.
pub open spec fn said(chunk: Seq<char>) -> Seq<Seq<char>> {
    select(trimmed_ends(lines(chunk)), is_something())
}

fn said_lines(chunk: &str) -> (r: Vec<String>)
    ensures
        views(r@) == said(chunk@),
{
    let all = lines_of(chunk);
    let ghost ends = trimmed_ends(lines(chunk@));
    let mut out: Vec<String> = Vec::new();
    let mut i: usize = 0;
    while i < all.len()
        invariant
            i <= all@.len(),
            views(all@) == lines(chunk@),
            ends == trimmed_ends(views(all@)),
            views(out@) == kept(ends, is_something(), i as int),
        decreases all@.len() - i,
    {
        assert(ends[i as int] == trim_end(all@[i as int]@));
        let line = trim_text_end(all[i].as_str());
        if !line.as_str().is_empty() {
            out.push(line);
        }
        i = i + 1;
    }
    out
}

/// The end of what a monitor said with a chunk behind it: a chunk starts on a line of its own.
pub open spec fn tail_with(tail: Seq<char>, chunk: Seq<char>) -> Seq<char> {
    let apart = tail.len() > 0 && tail.last() != '\n' && !(chunk.len() > 0 && chunk[0] == '\n');
    tail_within(
        (if apart {
            tail.push('\n')
        } else {
            tail
        }) + chunk,
        MAX_MONITOR_OUTPUT_BYTES as nat,
    )
}

fn tail_and(tail: &str, chunk: &str) -> (r: String)
    ensures
        r@ == tail_with(tail@, chunk@),
{
    let before = chars_of(tail);
    let added = chars_of(chunk);
    let n: usize = before.len();
    let mut all = tail.to_owned();
    if n > 0 && before[n - 1] != '\n' && !(added.len() > 0 && added[0] == '\n') {
        all.push('\n');
    }
    all.append(chunk);
    truncate_utf8_tail(all.as_str(), MAX_MONITOR_OUTPUT_BYTES)
}

impl UnifiedExecProcessSummaryView {
    /// A process that was just started.
    pub open spec fn started(
        key: Seq<char>,
        call_id: Seq<char>,
        command_display: Seq<char>,
        monitor: Option<CommandMonitorInfoView>,
        started_at: u64,
    ) -> Self {
        UnifiedExecProcessSummaryView {
            key,
            call_id,
            command_display,
            recent_chunks: Seq::empty(),
            kind: match monitor {
                None => UnifiedExecProcessKindView::BackgroundTerminal,
                Some(info) => UnifiedExecProcessKindView::Monitor(
                    MonitorProcessStateView { info, output_tail: Seq::empty() },
                ),
            },
            started_at,
        }
    }

    /// What the process watches for, if it is a monitor.
    pub open spec fn monitor(self) -> Option<CommandMonitorInfoView> {
        match self.kind {
            UnifiedExecProcessKindView::BackgroundTerminal => None,
            UnifiedExecProcessKindView::Monitor(state) => Some(state.info),
        }
    }

    /// The process once it said something, and what is reported of it. A terminal keeps its last
    /// lines that say anything and reports nothing; a monitor keeps the end of all it said and
    /// reports the lines of the chunk as one event.
    pub open spec fn said(self, chunk: Seq<char>) -> (Self, Option<MonitorOutputBatchView>) {
        match self.kind {
            UnifiedExecProcessKindView::BackgroundTerminal => (
                UnifiedExecProcessSummaryView {
                    recent_chunks: last_of(
                        self.recent_chunks + said(chunk),
                        MAX_RECENT_TERMINAL_LINES as nat,
                    ),
                    ..self
                },
                None,
            ),
            UnifiedExecProcessKindView::Monitor(state) => {
                let tail = tail_with(state.output_tail, chunk);
                let event = joined(chomped(lines(chunk)), "\n"@);
                (
                    UnifiedExecProcessSummaryView {
                        recent_chunks: chomped(
                            last_of(lines(tail), MAX_MONITOR_DETAIL_LINES as nat),
                        ),
                        kind: UnifiedExecProcessKindView::Monitor(
                            MonitorProcessStateView { output_tail: tail, ..state },
                        ),
                        ..self
                    },
                    if event.len() > 0 {
                        Some(
                            MonitorOutputBatchView { description: state.info.description, event },
                        )
                    } else {
                        None
                    },
                )
            },
        }
    }
}

/// However much a process says, what is kept of it stays small.
pub proof fn law_output_stays_bounded(process: UnifiedExecProcessSummaryView, chunk: Seq<char>)
    ensures
        ({
            let now = process.said(chunk).0;
            match now.kind {
                UnifiedExecProcessKindView::BackgroundTerminal => now.recent_chunks.len()
                    <= MAX_RECENT_TERMINAL_LINES,
                UnifiedExecProcessKindView::Monitor(state) => {
                    &&& now.recent_chunks.len() <= MAX_MONITOR_DETAIL_LINES
                    &&& utf8_bytes(state.output_tail) <= MAX_MONITOR_OUTPUT_BYTES
                },
            }
        }),
{
    if let UnifiedExecProcessKindView::Monitor(state) = process.kind {
        let apart = state.output_tail.push('\n') + chunk;
        law_tail_is_longest(apart, MAX_MONITOR_OUTPUT_BYTES as nat);
        law_tail_is_longest(state.output_tail + chunk, MAX_MONITOR_OUTPUT_BYTES as nat);
    }
}

impl UnifiedExecProcessSummary {
    /// A process that was just started.
    pub fn new(
        key: String,
        call_id: String,
        command_display: String,
        monitor: Option<CommandMonitorInfo>,
        started_at: u64,
    ) -> (r: Self)
        ensures
            r@ == UnifiedExecProcessSummaryView::started(
                key@,
                call_id@,
                command_display@,
                opt_view(monitor),
                started_at,
            ),
    {
        let kind = match monitor {
            None => UnifiedExecProcessKind::BackgroundTerminal,
            Some(info) => UnifiedExecProcessKind::Monitor(
                MonitorProcessState { info, output_tail: String::new() },
            ),
        };
        UnifiedExecProcessSummary {
            key,
            call_id,
            command_display,
            recent_chunks: Vec::new(),
            kind,
            started_at,
        }
    }

    /// Starts the process anew under the same key.
    pub fn reset(
        &mut self,
        call_id: String,
        command_display: String,
        monitor: Option<CommandMonitorInfo>,
        started_at: u64,
    )
        ensures
            final(self)@ == UnifiedExecProcessSummaryView::started(
                old(self)@.key,
                call_id@,
                command_display@,
                opt_view(monitor),
                started_at,
            ),
    {
        *self = UnifiedExecProcessSummary::new(
            self.key.clone(),
            call_id,
            command_display,
            monitor,
            started_at,
        );
    }

    /// What the process watches for, if it is a monitor.
    pub fn monitor_info(&self) -> (r: Option<&CommandMonitorInfo>)
        ensures
            match r {
                Some(info) => self@.monitor() == Some(info@),
                None => self@.monitor() is None,
            },
    {
        match &self.kind {
            UnifiedExecProcessKind::BackgroundTerminal => None,
            UnifiedExecProcessKind::Monitor(state) => Some(&state.info),
        }
    }

    /// Takes in what the process said; says what is to be reported.
    pub fn record_output(&mut self, chunk: &str) -> (r: Option<MonitorOutputBatch>)
        ensures
            (final(self)@, opt_view(r)) == old(self)@.said(chunk@),
    {
        match &mut self.kind {
            UnifiedExecProcessKind::BackgroundTerminal => {
                let mut recent = clone_texts(&self.recent_chunks);
                let mut added = said_lines(chunk);
                proof {
                    assert(views(recent@ + added@) =~= views(recent@) + views(added@));
                }
                recent.append(&mut added);
                self.recent_chunks = keep_last(&recent, MAX_RECENT_TERMINAL_LINES);
                None
            },
            UnifiedExecProcessKind::Monitor(monitor) => {
                let lines = chomp_all(&lines_of(chunk));
                let tail = tail_and(monitor.output_tail.as_str(), chunk);
                self.recent_chunks = chomp_all(
                    &keep_last(&lines_of(tail.as_str()), MAX_MONITOR_DETAIL_LINES),
                );
                monitor.output_tail = tail;
                let event = join(&lines, "\n");
                if event.as_str().is_empty() {
                    None
                } else {
                    Some(MonitorOutputBatch { description: monitor.info.description.clone(), event })
                }
            },
        }
    }
}

/// The command that is waited for.
#[derive(Debug, PartialEq, Eq)]
pub struct UnifiedExecWaitState {
    command_display: String,
}

impl UnifiedExecWaitState {
    pub closed spec fn display(&self) -> Seq<char> {
        self.command_display@
    }

    pub fn new(command_display: String) -> (r: Self)
        ensures
            r.display() == command_display@,
    {
        UnifiedExecWaitState { command_display }
    }

    /// Whether the same command is waited for.
    pub fn is_duplicate(&self, command_display: &str) -> (r: bool)
        ensures
            r == (self.display() == command_display@),
    {
        str_eq(self.command_display.as_str(), command_display)
    }
}

/// Waits for one process, one after another.
#[derive(Clone, Debug, PartialEq, Eq)]
pub struct UnifiedExecWaitStreak {
    pub process_id: String,
    pub command_display: Option<String>,
}

/// A text that is there and says something.
pub open spec fn nonempty(o: Option<Seq<char>>) -> Option<Seq<char>> {
    match o {
        Some(s) if s.len() > 0 => o,
        _ => None,
    }
}

fn drop_empty(o: Option<String>) -> (r: Option<String>)
    ensures
        opt_view(r) == nonempty(opt_view(o)),
{
    match o {
        Some(s) => if s.as_str().is_empty() {
            None
        } else {
            Some(s)
        },
        None => None,
    }
}

impl UnifiedExecWaitStreak {
    pub fn new(process_id: String, command_display: Option<String>) -> (r: Self)
        ensures
            r.process_id@ == process_id@,
            opt_view(r.command_display) == nonempty(opt_view(command_display)),
    {
        UnifiedExecWaitStreak { process_id, command_display: drop_empty(command_display) }
    }

    /// Takes the command that is shown, unless one is there already.
    pub fn update_command_display(&mut self, command_display: Option<String>)
        ensures
            final(self).process_id@ == old(self).process_id@,
            opt_view(final(self).command_display) == (if old(self).command_display is Some {
                opt_view(old(self).command_display)
            } else {
                nonempty(opt_view(command_display))
            }),
    {
        if self.command_display.is_some() {
            return;
        }
        self.command_display = drop_empty(command_display);
    }
}

/// Whether a command comes from a process that is left running.
pub fn is_unified_exec_source(source: ExecCommandSource) -> (r: bool)
    ensures
        r == (source == ExecCommandSource::UnifiedExecStartup || source
            == ExecCommandSource::UnifiedExecInteraction),
{
    source == ExecCommandSource::UnifiedExecStartup || source
        == ExecCommandSource::UnifiedExecInteraction
}

/// Whether there are commands and each of them was recognized.
pub fn is_standard_tool_call(parsed_cmd: &Vec<ParsedCommand>) -> (r: bool)
    ensures
        r == (parsed_cmd@.len() > 0 && forall|i: int|
            0 <= i < parsed_cmd@.len() ==> parsed_cmd@[i] != ParsedCommand::Unknown),
{
    let mut i: usize = 0;
    while i < parsed_cmd.len()
        invariant
            i <= parsed_cmd@.len(),
            forall|j: int| 0 <= j < i ==> parsed_cmd@[j] != ParsedCommand::Unknown,
        decreases parsed_cmd@.len() - i,
    {
        if parsed_cmd[i] == ParsedCommand::Unknown {
            return false;
        }
        i = i + 1;
    }
    parsed_cmd.len() > 0
}

} // verus!
