//! The list of processes that run in the background, and one of them in detail.
use vstd::prelude::*;
use crate::exec_state::{CommandMonitorInfo, CommandMonitorInfoView, UnifiedExecProcessSummary, UnifiedExecProcessSummaryView};
use crate::footer::{count_of, counted};
use crate::lines::text_of;
use crate::monitor_output::{detail_output_state_from_chunks, detail_output_state_from_snapshot, of_chunks, of_snapshot, same_output, DetailOutputState, DetailOutputStateView, ThreadBackgroundTerminalOutput, ThreadBackgroundTerminalOutputView};
use crate::scroll::ScrollState;
use crate::search::{count, count_in, find_index, position};
use crate::styled::{escapes, fits, flat, flat_text, heading, heading_view, lemma_below_nothing, line1, line2, line_below, plain, plain_view, push_above, push_below, raw, raw_view, reddened, styled_above, styled_below, unstyled, Color, Line, Span, SpanView, Style};
use crate::text::{cat2, cat3, chars_of, clone_texts, group_views, opt_view, str_eq, views};
use crate::widths::{text_columns, text_width};

verus! {

broadcast use group_views;

/// The name of the view.
pub const BACKGROUND_PROCESSES_VIEW_ID: &'static str = "background-processes";

/// How long the output of a monitor is left alone between two requests, in nanoseconds.
pub const MONITOR_OUTPUT_POLL_INTERVAL: u64 = 1_000_000_000;

/// How many UTF-16 units of a command are shown.
pub const MAX_COMMAND_UNITS: usize = 280;

/// Whose output is asked for.
#[derive(Debug, PartialEq, Eq)]
pub struct MonitorOutputTarget {
    pub thread_id: u128,
    pub process_id: String,
    pub task_id: String,
}

/// What a [`MonitorOutputTarget`] says.
#[verifier::ext_equal]
pub struct MonitorOutputTargetView {
    pub thread_id: u128,
    pub process_id: Seq<char>,
    pub task_id: Seq<char>,
}

impl View for MonitorOutputTarget {
    type V = MonitorOutputTargetView;

    open spec fn view(&self) -> MonitorOutputTargetView {
        MonitorOutputTargetView {
            thread_id: self.thread_id,
            process_id: self.process_id@,
            task_id: self.task_id@,
        }
    }
}

/// A request for the output of a monitor. Two requests differ in their generation.
#[derive(Debug, PartialEq, Eq)]
pub struct BackgroundMonitorOutputRequest {
    pub thread_id: u128,
    pub process_id: String,
    pub task_id: String,
    pub generation: u128,
}

/// What a [`BackgroundMonitorOutputRequest`] says.
#[verifier::ext_equal]
pub struct BackgroundMonitorOutputRequestView {
    pub thread_id: u128,
    pub process_id: Seq<char>,
    pub task_id: Seq<char>,
    pub generation: u128,
}

impl View for BackgroundMonitorOutputRequest {
    type V = BackgroundMonitorOutputRequestView;

    open spec fn view(&self) -> BackgroundMonitorOutputRequestView {
        BackgroundMonitorOutputRequestView {
            thread_id: self.thread_id,
            process_id: self.process_id@,
            task_id: self.task_id@,
            generation: self.generation,
        }
    }
}

impl Clone for BackgroundMonitorOutputRequest {
    fn clone(&self) -> (r: Self)
        ensures
            r@ == self@,
    {
        BackgroundMonitorOutputRequest {
            thread_id: self.thread_id,
            process_id: self.process_id.clone(),
            task_id: self.task_id.clone(),
            generation: self.generation,
        }
    }
}

fn same_request(a: &BackgroundMonitorOutputRequest, b: &BackgroundMonitorOutputRequest) -> (r: bool)
    ensures
        r == (a@ == b@),
{
    a.thread_id == b.thread_id && a.process_id == b.process_id && a.task_id == b.task_id
        && a.generation == b.generation
}

impl MonitorOutputTargetView {
    /// The request for this output.
    pub open spec fn request(self, generation: u128) -> BackgroundMonitorOutputRequestView {
        BackgroundMonitorOutputRequestView {
            thread_id: self.thread_id,
            process_id: self.process_id,
            task_id: self.task_id,
            generation,
        }
    }
}

impl MonitorOutputTarget {
    fn request(&self, generation: u128) -> (r: BackgroundMonitorOutputRequest)
        ensures
            r@ == self@.request(generation),
    {
        BackgroundMonitorOutputRequest {
            thread_id: self.thread_id,
            process_id: self.process_id.clone(),
            task_id: self.task_id.clone(),
            generation,
        }
    }

    fn matches_request(&self, request: &BackgroundMonitorOutputRequest) -> (r: bool)
        ensures
            r == (self@.request(request@.generation) == request@),
    {
        self.thread_id == request.thread_id && self.process_id == request.process_id
            && self.task_id == request.task_id
    }
}

fn same_target(a: &Option<MonitorOutputTarget>, b: &Option<MonitorOutputTarget>) -> (r: bool)
    ensures
        r == (opt_view(*a) == opt_view(*b)),
{
    match (a, b) {
        (Some(x), Some(y)) => x.thread_id == y.thread_id && x.process_id == y.process_id
            && x.task_id == y.task_id,
        (None, None) => true,
        _ => false,
    }
}

/// Whether a request is under way. Once one failed or expired, none is sent until the target
/// changes: the old one may still be pending.
#[derive(Debug, PartialEq, Eq)]
pub enum MonitorPollLifecycle {
    Idle,
    InFlight { request: BackgroundMonitorOutputRequest, started_at: u64 },
    Suspended,
}

/// What a [`MonitorPollLifecycle`] says.
#[verifier::ext_equal]
pub enum MonitorPollLifecycleView {
    Idle,
    InFlight { request: BackgroundMonitorOutputRequestView, started_at: u64 },
    Suspended,
}

impl View for MonitorPollLifecycle {
    type V = MonitorPollLifecycleView;

    open spec fn view(&self) -> MonitorPollLifecycleView {
        match self {
            MonitorPollLifecycle::Idle => MonitorPollLifecycleView::Idle,
            MonitorPollLifecycle::InFlight { request, started_at } =>
                MonitorPollLifecycleView::InFlight { request: request@, started_at: *started_at },
            MonitorPollLifecycle::Suspended => MonitorPollLifecycleView::Suspended,
        }
    }
}

/// Whether a process is being stopped.
#[derive(Debug, PartialEq, Eq)]
pub enum StopState {
    Idle,
    InFlight { process_id: String },
    Failed { message: String },
}

/// What a [`StopState`] says.
#[verifier::ext_equal]
pub enum StopStateView {
    Idle,
    InFlight { process_id: Seq<char> },
    Failed { message: Seq<char> },
}

impl View for StopState {
    type V = StopStateView;

    open spec fn view(&self) -> StopStateView {
        match self {
            StopState::Idle => StopStateView::Idle,
            StopState::InFlight { process_id } => StopStateView::InFlight {
                process_id: process_id@,
            },
            StopState::Failed { message } => StopStateView::Failed { message: message@ },
        }
    }
}

/// How the view was left.
#[derive(Clone, Copy, Debug, PartialEq, Eq, Structural)]
pub enum ViewCompletion {
    Accepted,
    Cancelled,
}

/// A process as it is listed.
#[derive(Debug, PartialEq, Eq)]
pub struct BackgroundProcessItem {
    pub process_id: String,
    pub command_display: String,
    pub recent_output: Vec<String>,
    pub monitor: Option<CommandMonitorInfo>,
    pub started_at: u64,
}

/// What a [`BackgroundProcessItem`] says.
#[verifier::ext_equal]
pub struct BackgroundProcessItemView {
    pub process_id: Seq<char>,
    pub command_display: Seq<char>,
    pub recent_output: Seq<Seq<char>>,
    pub monitor: Option<CommandMonitorInfoView>,
    pub started_at: u64,
}

impl View for BackgroundProcessItem {
    type V = BackgroundProcessItemView;

    open spec fn view(&self) -> BackgroundProcessItemView {
        BackgroundProcessItemView {
            process_id: self.process_id@,
            command_display: self.command_display@,
            recent_output: views(self.recent_output@),
            monitor: opt_view(self.monitor),
            started_at: self.started_at,
        }
    }
}

fn clone_monitor(monitor: &Option<CommandMonitorInfo>) -> (r: Option<CommandMonitorInfo>)
    ensures
        opt_view(r) == opt_view(*monitor),
{
    match monitor {
        Some(info) => Some(info.clone()),
        None => None,
    }
}

impl Clone for BackgroundProcessItem {
    fn clone(&self) -> (r: Self)
        ensures
            r@ == self@,
    {
        BackgroundProcessItem {
            process_id: self.process_id.clone(),
            command_display: self.command_display.clone(),
            recent_output: clone_texts(&self.recent_output),
            monitor: clone_monitor(&self.monitor),
            started_at: self.started_at,
        }
    }
}

/// A process as it is listed.
pub open spec fn listed_as(process: UnifiedExecProcessSummaryView) -> BackgroundProcessItemView {
    BackgroundProcessItemView {
        process_id: process.key,
        command_display: process.command_display,
        recent_output: process.recent_chunks,
        monitor: process.monitor(),
        started_at: process.started_at,
    }
}

/// The processes as they are listed.
pub fn background_process_items(processes: &Vec<UnifiedExecProcessSummary>) -> (r: Vec<
    BackgroundProcessItem,
>)
    ensures
        views(r@) == Seq::new(processes@.len(), |i: int| listed_as(processes@[i]@)),
{
    let ghost all = Seq::new(processes@.len(), |i: int| listed_as(processes@[i]@));
    let mut items: Vec<BackgroundProcessItem> = Vec::new();
    let mut i: usize = 0;
    while i < processes.len()
        invariant
            i <= processes@.len(),
            all == Seq::new(processes@.len(), |i: int| listed_as(processes@[i]@)),
            views(items@) == all.take(i as int),
        decreases processes@.len() - i,
    {
        let process = &processes[i];
        let monitor = match process.monitor_info() {
            Some(info) => Some(info.clone()),
            None => None,
        };
        items.push(
            BackgroundProcessItem {
                process_id: process.key.clone(),
                command_display: process.command_display.clone(),
                recent_output: clone_texts(&process.recent_chunks),
                monitor,
                started_at: process.started_at,
            },
        );
        i = i + 1;
        assert(views(items@) =~= all.take(i as int));
    }
    assert(all.take(i as int) =~= all);
    items
}

/// How many units a character takes in UTF-16.
pub open spec fn utf16_len(c: char) -> nat {
    if (c as u32) < 0x10000 {
        1
    } else {
        2
    }
}

/// How many units a text takes in UTF-16.
pub open spec fn utf16_units(s: Seq<char>) -> nat
    decreases s.len(),
{
    if s.len() == 0 {
        0
    } else {
        utf16_units(s.drop_last()) + utf16_len(s.last())
    }
}

/// The longest beginning of a text that takes no more than `max` units.
pub open spec fn head_within(s: Seq<char>, max: nat) -> Seq<char>
    decreases s.len(),
{
    if utf16_units(s) <= max {
        s
    } else {
        head_within(s.drop_last(), max)
    }
}

proof fn lemma_units_grow(s: Seq<char>, i: int)
    requires
        0 <= i <= s.len(),
    ensures
        utf16_units(s.take(i)) <= utf16_units(s),
    decreases s.len() - i,
{
    if i == s.len() {
        assert(s.take(i) =~= s);
    } else {
        lemma_units_grow(s.drop_last(), i);
        assert(s.drop_last().take(i) =~= s.take(i));
    }
}

proof fn lemma_head_at(s: Seq<char>, max: nat, i: int)
    requires
        0 <= i <= s.len(),
        utf16_units(s.take(i)) <= max,
        i < s.len() ==> utf16_units(s.take(i + 1)) > max,
    ensures
        head_within(s, max) == s.take(i),
    decreases s.len() - i,
{
    if i == s.len() {
        assert(s.take(i) =~= s);
    } else {
        lemma_units_grow(s, i + 1);
        let rest = s.drop_last();
        assert(rest.take(i) =~= s.take(i));
        if i < rest.len() {
            assert(rest.take(i + 1) =~= s.take(i + 1));
        }
        lemma_head_at(rest, max, i);
    }
}

/// The longest beginning of a text that takes no more than `max_units` UTF-16 units.
pub fn truncate_utf16_units(value: &str, max_units: usize) -> (r: String)
    ensures
        r@ == head_within(value@, max_units as nat),
{
    let chars = chars_of(value);
    let mut i: usize = 0;
    let mut units: usize = 0;
    assert(value@.take(0) =~= Seq::empty());
    while i < chars.len()
        invariant
            chars@ == value@,
            i <= chars@.len(),
            units <= max_units,
            units == utf16_units(value@.take(i as int)),
        ensures
            chars@ == value@,
            i <= chars@.len(),
            utf16_units(value@.take(i as int)) <= max_units,
            i < chars@.len() ==> utf16_units(value@.take(i + 1)) > max_units,
        decreases chars@.len() - i,
    {
        let code: u32 = chars[i] as u32;
        let n: usize = if code < 0x10000 {
            1
        } else {
            2
        };
        assert(value@.take(i + 1).drop_last() =~= value@.take(i as int));
        if n > max_units - units {
            break;
        }
        units = units + n;
        i = i + 1;
    }
    proof {
        lemma_head_at(value@, max_units as nat, i as int);
        assert(value@.subrange(0, i as int) =~= value@.take(i as int));
    }
    text_of(&chars, 0, i)
}

/// The processes with their commands cut to the length that is shown.
pub open spec fn normalized(items: Seq<BackgroundProcessItemView>) -> Seq<
    BackgroundProcessItemView,
> {
    Seq::new(
        items.len(),
        |i: int|
            BackgroundProcessItemView {
                command_display: head_within(items[i].command_display, MAX_COMMAND_UNITS as nat),
                ..items[i]
            },
    )
}

fn normalize_items(items: &Vec<BackgroundProcessItem>) -> (r: Vec<BackgroundProcessItem>)
    ensures
        views(r@) == normalized(views(items@)),
{
    let ghost all = normalized(views(items@));
    let mut out: Vec<BackgroundProcessItem> = Vec::new();
    let mut i: usize = 0;
    while i < items.len()
        invariant
            i <= items@.len(),
            all == normalized(views(items@)),
            views(out@) == all.take(i as int),
        decreases items@.len() - i,
    {
        let mut item = items[i].clone();
        item.command_display = truncate_utf16_units(
            item.command_display.as_str(),
            MAX_COMMAND_UNITS,
        );
        assert(item@ == all[i as int]);
        out.push(item);
        i = i + 1;
        assert(views(out@) =~= all.take(i as int));
    }
    assert(all.take(i as int) =~= all);
    out
}

/// A key on the keyboard.
#[derive(Clone, Copy, Debug, PartialEq, Eq, Structural)]
pub enum KeyCode {
    Left,
    Esc,
    Enter,
    Char(char),
    Other,
}

/// A key that was pressed or released, whether it came without modifiers, and what it is bound
/// to.
#[derive(Clone, Copy, Debug, PartialEq, Eq, Structural)]
pub struct KeyPress {
    pub released: bool,
    pub code: KeyCode,
    pub unmodified: bool,
    pub moves_left: bool,
    pub cancels: bool,
    pub moves_up: bool,
    pub moves_down: bool,
    pub accepts: bool,
}

/// What the view asks for.
#[derive(Debug, PartialEq, Eq)]
pub enum BackgroundCommand {
    FetchMonitorOutput(BackgroundMonitorOutputRequest),
    TerminateProcess(String),
}

/// What a [`BackgroundCommand`] says.
#[verifier::ext_equal]
pub enum BackgroundCommandView {
    FetchMonitorOutput(BackgroundMonitorOutputRequestView),
    TerminateProcess(Seq<char>),
}

impl View for BackgroundCommand {
    type V = BackgroundCommandView;

    open spec fn view(&self) -> BackgroundCommandView {
        match self {
            BackgroundCommand::FetchMonitorOutput(request) =>
                BackgroundCommandView::FetchMonitorOutput(request@),
            BackgroundCommand::TerminateProcess(process_id) =>
                BackgroundCommandView::TerminateProcess(process_id@),
        }
    }
}

/// The list of processes, the one that is selected, the one that is shown in detail, and what is
/// under way. Times are nanoseconds after some instant in the past.
#[derive(Debug, PartialEq, Eq)]
pub struct BackgroundProcessesView {
    items: Vec<BackgroundProcessItem>,
    thread_id: Option<u128>,
    state: ScrollState,
    detail_idx: Option<usize>,
    monitor_output_target: Option<MonitorOutputTarget>,
    monitor_output_state: DetailOutputState,
    monitor_poll_lifecycle: MonitorPollLifecycle,
    monitor_output_generation: Option<u128>,
    monitor_output_last_started_at: Option<u64>,
    stop_state: StopState,
    completion: Option<ViewCompletion>,
    max_rows: u16,
    request_timeout: u64,
}

/// What a [`BackgroundProcessesView`] says.
#[verifier::ext_equal]
pub struct BackgroundProcessesModel {
    pub items: Seq<BackgroundProcessItemView>,
    pub thread_id: Option<u128>,
    pub scroll: ScrollState,
    pub detail_idx: Option<usize>,
    pub target: Option<MonitorOutputTargetView>,
    pub output: DetailOutputStateView,
    pub poll: MonitorPollLifecycleView,
    pub generation: Option<u128>,
    pub last_started_at: Option<u64>,
    pub stop: StopStateView,
    pub completion: Option<ViewCompletion>,
    pub max_rows: u16,
    pub request_timeout: u64,
}

impl View for BackgroundProcessesView {
    type V = BackgroundProcessesModel;

    closed spec fn view(&self) -> BackgroundProcessesModel {
        BackgroundProcessesModel {
            items: views(self.items@),
            thread_id: self.thread_id,
            scroll: self.state,
            detail_idx: self.detail_idx,
            target: opt_view(self.monitor_output_target),
            output: self.monitor_output_state@,
            poll: self.monitor_poll_lifecycle@,
            generation: self.monitor_output_generation,
            last_started_at: self.monitor_output_last_started_at,
            stop: self.stop_state@,
            completion: self.completion,
            max_rows: self.max_rows,
            request_timeout: self.request_timeout,
        }
    }
}

/// How long ago something was; what lies ahead was no time ago.
pub open spec fn since(now: u64, then: u64) -> int {
    if now > then {
        now - then
    } else {
        0
    }
}

fn time_since(now: u64, then: u64) -> (r: u64)
    ensures
        r == since(now, then),
{
    if now > then {
        now - then
    } else {
        0
    }
}

/// A request as a command.
pub open spec fn fetch(request: Option<BackgroundMonitorOutputRequestView>) -> Option<
    BackgroundCommandView,
> {
    match request {
        Some(request) => Some(BackgroundCommandView::FetchMonitorOutput(request)),
        None => None,
    }
}

fn fetch_command(request: Option<BackgroundMonitorOutputRequest>) -> (r: Option<
    BackgroundCommand,
>)
    ensures
        opt_view(r) == fetch(opt_view(request)),
{
    match request {
        Some(request) => Some(BackgroundCommand::FetchMonitorOutput(request)),
        None => None,
    }
}

/// Whether a process is the one of this name.
pub open spec fn has_id(process_id: Seq<char>) -> spec_fn(BackgroundProcessItemView) -> bool {
    |item: BackgroundProcessItemView| item.process_id == process_id
}

/// Whether a process is a monitor.
pub open spec fn is_monitor() -> spec_fn(BackgroundProcessItemView) -> bool {
    |item: BackgroundProcessItemView| item.monitor is Some
}

impl BackgroundProcessesModel {
    /// The view as it opens on these processes, before the output of any is asked for: one
    /// process alone is shown in detail.
    pub open spec fn opened(
        items: Seq<BackgroundProcessItemView>,
        thread_id: Option<u128>,
        max_rows: u16,
        request_timeout: u64,
    ) -> Self {
        BackgroundProcessesModel {
            items: normalized(items),
            thread_id,
            scroll: ScrollState {
                selected_idx: if items.len() > 0 {
                    Some(0)
                } else {
                    None
                },
                scroll_top: 0,
            },
            detail_idx: if items.len() == 1 {
                Some(0)
            } else {
                None
            },
            target: None,
            output: DetailOutputStateView::Loading,
            poll: MonitorPollLifecycleView::Idle,
            generation: None,
            last_started_at: None,
            stop: StopStateView::Idle,
            completion: None,
            max_rows,
            request_timeout,
        }
    }

    /// The process at a place.
    pub open spec fn item_at(self, idx: Option<usize>) -> Option<BackgroundProcessItemView> {
        match idx {
            Some(i) if i < self.items.len() => Some(self.items[i as int]),
            _ => None,
        }
    }

    /// The name of the process at a place.
    pub open spec fn id_at(self, idx: Option<usize>) -> Option<Seq<char>> {
        match self.item_at(idx) {
            Some(item) => Some(item.process_id),
            None => None,
        }
    }

    /// The selected place, if there is a process.
    pub open spec fn selected(self) -> Option<usize> {
        match self.scroll.selected_idx {
            Some(i) if i < self.items.len() => Some(i),
            _ => None,
        }
    }

    /// The place that is acted on: the one in detail, else the selected one.
    pub open spec fn acted_on(self) -> Option<usize> {
        if self.detail_idx is Some {
            self.detail_idx
        } else {
            self.selected()
        }
    }

    /// Whose output belongs on the screen: that of the monitor in detail.
    pub open spec fn selected_target(self) -> Option<MonitorOutputTargetView> {
        match (self.item_at(self.detail_idx), self.thread_id) {
            (Some(item), Some(thread_id)) => match item.monitor {
                Some(monitor) => Some(
                    MonitorOutputTargetView {
                        thread_id,
                        process_id: item.process_id,
                        task_id: monitor.task_id,
                    },
                ),
                None => None,
            },
            _ => None,
        }
    }

    /// The view with what belongs on the screen; where that is another output than before, what
    /// was known is forgotten and any request is given up.
    pub open spec fn retargeted(self) -> Self {
        if self.selected_target() == self.target {
            self
        } else {
            BackgroundProcessesModel {
                target: self.selected_target(),
                output: DetailOutputStateView::Loading,
                poll: MonitorPollLifecycleView::Idle,
                generation: None,
                last_started_at: None,
                ..self
            }
        }
    }

    /// Whether a request is due.
    pub open spec fn is_due(self, now: u64) -> bool {
        &&& self.poll is Idle
        &&& self.target is Some
        &&& self.last_started_at is Some ==> since(now, self.last_started_at->0)
            >= MONITOR_OUTPUT_POLL_INTERVAL
    }

    /// The view after the request that is due, if one is; whether it changed; and that request.
    /// A request that takes too long is given up.
    pub open spec fn asked(self, now: u64, generation: u128) -> (
        Self,
        bool,
        Option<BackgroundMonitorOutputRequestView>,
    ) {
        match self.poll {
            MonitorPollLifecycleView::InFlight { request, started_at } => if since(now, started_at)
                < self.request_timeout {
                (self, false, None)
            } else {
                (
                    BackgroundProcessesModel {
                        poll: MonitorPollLifecycleView::Suspended,
                        output: self.output.suspended(),
                        ..self
                    },
                    self.output !is Suspended,
                    None,
                )
            },
            _ => if self.is_due(now) {
                let request = self.target->0.request(generation);
                (
                    BackgroundProcessesModel {
                        poll: MonitorPollLifecycleView::InFlight { request, started_at: now },
                        generation: Some(generation),
                        last_started_at: Some(now),
                        ..self
                    },
                    true,
                    Some(request),
                )
            } else {
                (self, false, None)
            },
        }
    }

    /// The view with what belongs on the screen, after the request that is due.
    pub open spec fn synced(self, now: u64, generation: u128) -> (
        Self,
        bool,
        Option<BackgroundMonitorOutputRequestView>,
    ) {
        self.retargeted().asked(now, generation)
    }

    /// Whether a request is the one under way.
    pub open spec fn awaits(self, request: BackgroundMonitorOutputRequestView) -> bool {
        match self.poll {
            MonitorPollLifecycleView::InFlight { request: in_flight, .. } => in_flight == request,
            _ => false,
        }
    }

    /// Whether a request asked for what belongs on the screen.
    pub open spec fn is_current(self, request: BackgroundMonitorOutputRequestView) -> bool {
        &&& self.target is Some
        &&& self.target->0.request(request.generation) == request
        &&& self.generation == Some(request.generation)
    }

    /// The view after a response, whether it changed, and the request that is due then. A response
    /// to anything but the request under way is ignored; a failure ends the requests.
    pub open spec fn answered(
        self,
        request: BackgroundMonitorOutputRequestView,
        result: Result<Option<ThreadBackgroundTerminalOutputView>, ()>,
        now: u64,
        generation: u128,
    ) -> (Self, bool, Option<BackgroundMonitorOutputRequestView>) {
        let current = self.is_current(request);
        if !self.awaits(request) {
            (self, false, None)
        } else {
            match result {
                Ok(output) => {
                    let next = if current {
                        of_snapshot(output)
                    } else {
                        self.output
                    };
                    let (then, asked, more) = BackgroundProcessesModel {
                        poll: MonitorPollLifecycleView::Idle,
                        output: next,
                        ..self
                    }.asked(now, generation);
                    (then, asked || next != self.output, more)
                },
                Err(_) => (
                    BackgroundProcessesModel {
                        poll: MonitorPollLifecycleView::Suspended,
                        output: if current {
                            self.output.suspended()
                        } else {
                            self.output
                        },
                        ..self
                    },
                    current && self.output !is Suspended,
                    None,
                ),
            }
        }
    }

    /// The view once it is left.
    pub open spec fn closed_view(self) -> Self {
        BackgroundProcessesModel { completion: Some(ViewCompletion::Cancelled), ..self }
    }

    /// How many rows of the list are shown.
    pub open spec fn visible_rows(self) -> nat {
        let len = if self.items.len() > 0 {
            self.items.len()
        } else {
            1
        };
        if self.max_rows < len {
            self.max_rows as nat
        } else {
            len
        }
    }

    /// The list with the entry above selected.
    pub open spec fn moved_up(self) -> Self {
        let len = self.items.len();
        BackgroundProcessesModel {
            scroll: self.scroll.moved_up(len).shown(len, self.visible_rows()),
            ..self
        }
    }

    /// The list with the entry below selected.
    pub open spec fn moved_down(self) -> Self {
        let len = self.items.len();
        BackgroundProcessesModel {
            scroll: self.scroll.moved_down(len).shown(len, self.visible_rows()),
            ..self
        }
    }

    /// The view with the selected process in detail, and the request that is due then.
    pub open spec fn with_details(self, now: u64, generation: u128) -> (
        Self,
        bool,
        Option<BackgroundMonitorOutputRequestView>,
    ) {
        BackgroundProcessesModel { detail_idx: self.selected(), ..self }.synced(now, generation)
    }

    /// The view back at the list; one process alone has no list, so the view is left.
    pub open spec fn back(self, now: u64, generation: u128) -> (
        Self,
        Option<BackgroundMonitorOutputRequestView>,
    ) {
        if self.items.len() == 1 {
            (self.closed_view(), None)
        } else {
            let (then, _, request) = BackgroundProcessesModel { detail_idx: None, ..self }.synced(
                now,
                generation,
            );
            (then, request)
        }
    }

    /// The view as the process acted on is being stopped, and which one that is. While one is
    /// being stopped, no other is.
    pub open spec fn stopping(self) -> (Self, Option<Seq<char>>) {
        match self.id_at(self.acted_on()) {
            Some(process_id) if self.stop !is InFlight => (
                BackgroundProcessesModel { stop: StopStateView::InFlight { process_id }, ..self },
                Some(process_id),
            ),
            _ => (self, None),
        }
    }

    /// The view after the word that a process was stopped or not, and whether it changed. A word
    /// on any other process is ignored; a failure can be tried again. An error comes escaped.
    pub open spec fn stopped(self, process_id: Seq<char>, result: Result<bool, Seq<char>>) -> (
        Self,
        bool,
    ) {
        if self.stop != (StopStateView::InFlight { process_id }) {
            (self, false)
        } else {
            (
                match result {
                    Ok(true) => BackgroundProcessesModel {
                        completion: Some(ViewCompletion::Accepted),
                        ..self
                    },
                    Ok(false) => BackgroundProcessesModel {
                        stop: StopStateView::Failed {
                            message: "Process still running · press x to retry"@,
                        },
                        ..self
                    },
                    Err(error) => BackgroundProcessesModel {
                        stop: StopStateView::Failed {
                            message: "Stop failed: "@ + error + ". Press x to retry."@,
                        },
                        ..self
                    },
                },
                true,
            )
        }
    }

    /// The view after a key, and what it asks for.
    pub open spec fn pressed(self, key: KeyPress, now: u64, generation: u128) -> (
        Self,
        Option<BackgroundCommandView>,
    ) {
        if key.released {
            (self, None)
        } else if key.code == KeyCode::Char('x') && key.unmodified {
            let (then, process_id) = self.stopping();
            (
                then,
                match process_id {
                    Some(process_id) => Some(BackgroundCommandView::TerminateProcess(process_id)),
                    None => None,
                },
            )
        } else if self.detail_idx is Some {
            if key.code == KeyCode::Left || key.moves_left {
                let (then, request) = self.back(now, generation);
                (then, fetch(request))
            } else if key.code == KeyCode::Esc || key.code == KeyCode::Enter || key.code
                == KeyCode::Char(' ') || key.cancels {
                (self.closed_view(), None)
            } else {
                (self, None)
            }
        } else if key.code == KeyCode::Esc || key.cancels {
            (self.closed_view(), None)
        } else if key.moves_up {
            (self.moved_up(), None)
        } else if key.moves_down {
            (self.moved_down(), None)
        } else if key.accepts {
            let (then, _, request) = self.with_details(now, generation);
            (then, fetch(request))
        } else {
            (self, None)
        }
    }

    /// The view on other processes, and the request that is due then. The process in detail stays
    /// in detail, and the selected one selected, as long as it is there; once the process in
    /// detail or the last one is gone, the view is left.
    pub open spec fn updated(
        self,
        items: Seq<BackgroundProcessItemView>,
        now: u64,
        generation: u128,
    ) -> (Self, Option<BackgroundMonitorOutputRequestView>) {
        let fresh = BackgroundProcessesModel { items: normalized(items), ..self };
        if items.len() == 0 {
            (fresh.closed_view(), None)
        } else if self.id_at(self.detail_idx) is Some {
            match find_index(fresh.items, has_id(self.id_at(self.detail_idx)->0)) {
                None => (fresh.closed_view(), None),
                Some(i) => fresh.showing(i as usize, now, generation),
            }
        } else if items.len() == 1 {
            fresh.showing(0, now, generation)
        } else {
            let selected = match self.id_at(self.selected()) {
                Some(process_id) => match find_index(fresh.items, has_id(process_id)) {
                    Some(i) => i as usize,
                    None => 0,
                },
                None => 0,
            };
            let (then, _, request) = BackgroundProcessesModel {
                scroll: ScrollState { selected_idx: Some(selected), ..self.scroll }.shown(
                    items.len(),
                    fresh.visible_rows(),
                ),
                ..fresh
            }.synced(now, generation);
            (then, request)
        }
    }

    /// The view with one process in detail, and the request that is due then.
    pub open spec fn showing(self, idx: usize, now: u64, generation: u128) -> (
        Self,
        Option<BackgroundMonitorOutputRequestView>,
    ) {
        let (then, _, request) = BackgroundProcessesModel {
            detail_idx: Some(idx),
            scroll: ScrollState { selected_idx: Some(idx), ..self.scroll },
            ..self
        }.synced(now, generation);
        (then, request)
    }

    /// What is shown of the output of the process in detail.
    pub open spec fn detail_output(self) -> DetailOutputStateView {
        match self.item_at(self.detail_idx) {
            None => DetailOutputStateView::NoOutput,
            Some(item) => if item.monitor is Some {
                self.output
            } else {
                of_chunks(item.recent_output)
            },
        }
    }

    /// Whether this process is being stopped.
    pub open spec fn is_stopping(self, process_id: Seq<char>) -> bool {
        self.stop == (StopStateView::InFlight { process_id })
    }
}

/// Whether a number is a random UUID: one of version 4 and of the variant of RFC 4122.
pub open spec fn is_random_uuid(n: u128) -> bool {
    (n >> 76u128) & 0xf == 4 && (n >> 62u128) & 0x3 == 2
}

/// Draws a random UUID with `Uuid::new_v4` and takes it as a number. Which one comes is a matter
/// of chance; that two of them differ is likely and not claimed.
#[verifier::external_body]
fn new_generation() -> (r: u128)
    ensures
        is_random_uuid(r),
{
    uuid::Uuid::new_v4().as_u128()
}

impl BackgroundProcessesView {
    /// The view on these processes and the request that is due, which is numbered by
    /// `generation`.
    pub fn new_with(
        items: Vec<BackgroundProcessItem>,
        thread_id: Option<u128>,
        max_rows: u16,
        request_timeout: u64,
        now: u64,
        generation: u128,
    ) -> (r: (Self, Option<BackgroundCommand>))
        ensures
            ({
                let (view, _, request) = BackgroundProcessesModel::opened(
                    views(items@),
                    thread_id,
                    max_rows,
                    request_timeout,
                ).synced(now, generation);
                r.0@ == view && opt_view(r.1) == fetch(request)
            }),
    {
        let items = normalize_items(&items);
        assert(views(items@).len() == items@.len());
        let detail_idx: Option<usize> = if items.len() == 1 {
            Some(0)
        } else {
            None
        };
        let mut state = ScrollState::new();
        if !items.is_empty() {
            state.selected_idx = Some(0);
        }
        let mut view = BackgroundProcessesView {
            items,
            thread_id,
            state,
            detail_idx,
            monitor_output_target: None,
            monitor_output_state: DetailOutputState::Loading,
            monitor_poll_lifecycle: MonitorPollLifecycle::Idle,
            monitor_output_generation: None,
            monitor_output_last_started_at: None,
            stop_state: StopState::Idle,
            completion: None,
            max_rows,
            request_timeout,
        };
        let (_, request) = view.sync_with(now, generation);
        (view, fetch_command(request))
    }

    /// The view on these processes and the request that is due.
    pub fn new(
        items: Vec<BackgroundProcessItem>,
        thread_id: Option<u128>,
        max_rows: u16,
        request_timeout: u64,
        now: u64,
    ) -> (r: (Self, Option<BackgroundCommand>))
        ensures
            exists|generation: u128| #[trigger]
                is_random_uuid(generation) && ({
                    let (view, _, request) = BackgroundProcessesModel::opened(
                        views(items@),
                        thread_id,
                        max_rows,
                        request_timeout,
                    ).synced(now, generation);
                    r.0@ == view && opt_view(r.1) == fetch(request)
                }),
    {
        let generation: u128 = new_generation();
        Self::new_with(items, thread_id, max_rows, request_timeout, now, generation)
    }

    fn item(&self, idx: Option<usize>) -> (r: Option<&BackgroundProcessItem>)
        ensures
            match r {
                Some(item) => self@.item_at(idx) == Some(item@),
                None => self@.item_at(idx) is None,
            },
    {
        match idx {
            Some(i) => if i < self.items.len() {
                Some(&self.items[i])
            } else {
                None
            },
            None => None,
        }
    }

    fn id(&self, idx: Option<usize>) -> (r: Option<String>)
        ensures
            opt_view(r) == self@.id_at(idx),
    {
        match self.item(idx) {
            Some(item) => Some(item.process_id.clone()),
            None => None,
        }
    }

    fn selected_idx(&self) -> (r: Option<usize>)
        ensures
            r == self@.selected(),
    {
        match self.state.selected_idx {
            Some(i) => if i < self.items.len() {
                Some(i)
            } else {
                None
            },
            None => None,
        }
    }

    /// The place that is acted on: the one in detail, else the selected one.
    pub fn selected_index(&self) -> (r: Option<usize>)
        ensures
            r == self@.acted_on(),
    {
        if self.detail_idx.is_some() {
            self.detail_idx
        } else {
            self.selected_idx()
        }
    }

    fn visible_rows(&self) -> (r: usize)
        ensures
            r == self@.visible_rows(),
    {
        let len: usize = if self.items.len() > 0 {
            self.items.len()
        } else {
            1
        };
        let max: usize = self.max_rows as usize;
        if max < len {
            max
        } else {
            len
        }
    }

    fn move_up(&mut self)
        ensures
            final(self)@ == old(self)@.moved_up(),
    {
        let len: usize = self.items.len();
        let rows: usize = self.visible_rows();
        self.state.move_up_wrap(len);
        self.state.ensure_visible(len, rows);
    }

    fn move_down(&mut self)
        ensures
            final(self)@ == old(self)@.moved_down(),
    {
        let len: usize = self.items.len();
        let rows: usize = self.visible_rows();
        self.state.move_down_wrap(len);
        self.state.ensure_visible(len, rows);
    }

    fn close(&mut self)
        ensures
            final(self)@ == old(self)@.closed_view(),
    {
        self.completion = Some(ViewCompletion::Cancelled);
    }

    /// Shows the selected process in detail; says what is asked for.
    pub fn open_selected_with(&mut self, now: u64, generation: u128) -> (r: (
        bool,
        Option<BackgroundMonitorOutputRequest>,
    ))
        ensures
            (final(self)@, r.0, opt_view(r.1)) == old(self)@.with_details(now, generation),
    {
        self.detail_idx = self.selected_idx();
        self.sync_with(now, generation)
    }

    fn go_back_with(&mut self, now: u64, generation: u128) -> (r: Option<
        BackgroundMonitorOutputRequest,
    >)
        ensures
            (final(self)@, opt_view(r)) == old(self)@.back(now, generation),
    {
        if self.items.len() == 1 {
            self.close();
            None
        } else {
            self.detail_idx = None;
            let (_, request) = self.sync_with(now, generation);
            request
        }
    }

    fn selected_monitor_output_target(&self) -> (r: Option<MonitorOutputTarget>)
        ensures
            opt_view(r) == self@.selected_target(),
    {
        match (self.item(self.detail_idx), self.thread_id) {
            (Some(item), Some(thread_id)) => match &item.monitor {
                Some(monitor) => Some(
                    MonitorOutputTarget {
                        thread_id,
                        process_id: item.process_id.clone(),
                        task_id: monitor.task_id.clone(),
                    },
                ),
                None => None,
            },
            _ => None,
        }
    }

    /// Turns to what belongs on the screen and sends the request that is due; says whether the
    /// view changed.
    pub fn sync_with(&mut self, now: u64, generation: u128) -> (r: (
        bool,
        Option<BackgroundMonitorOutputRequest>,
    ))
        ensures
            (final(self)@, r.0, opt_view(r.1)) == old(self)@.synced(now, generation),
    {
        let target = self.selected_monitor_output_target();
        if !same_target(&target, &self.monitor_output_target) {
            self.monitor_output_target = target;
            self.monitor_output_state = DetailOutputState::Loading;
            self.monitor_poll_lifecycle = MonitorPollLifecycle::Idle;
            self.monitor_output_generation = None;
            self.monitor_output_last_started_at = None;
        }
        assert(self@ == old(self)@.retargeted());
        self.maybe_request_with(now, generation)
    }

    fn maybe_request_with(&mut self, now: u64, generation: u128) -> (r: (
        bool,
        Option<BackgroundMonitorOutputRequest>,
    ))
        ensures
            (final(self)@, r.0, opt_view(r.1)) == old(self)@.asked(now, generation),
    {
        match &self.monitor_poll_lifecycle {
            MonitorPollLifecycle::Idle => {},
            MonitorPollLifecycle::InFlight { started_at, .. } => {
                if time_since(now, *started_at) < self.request_timeout {
                    return (false, None);
                }
                self.monitor_poll_lifecycle = MonitorPollLifecycle::Suspended;
                let changed = self.monitor_output_state.suspend();
                return (changed, None);
            },
            MonitorPollLifecycle::Suspended => {
                return (false, None);
            },
        }
        let request = match &self.monitor_output_target {
            Some(target) => target.request(generation),
            None => {
                return (false, None);
            },
        };
        if let Some(started_at) = self.monitor_output_last_started_at {
            if time_since(now, started_at) < MONITOR_OUTPUT_POLL_INTERVAL {
                return (false, None);
            }
        }
        self.monitor_output_generation = Some(generation);
        self.monitor_output_last_started_at = Some(now);
        self.monitor_poll_lifecycle =
        MonitorPollLifecycle::InFlight { request: request.clone(), started_at: now };
        (true, Some(request))
    }

    fn awaits(&self, request: &BackgroundMonitorOutputRequest) -> (r: bool)
        ensures
            r == self@.awaits(request@),
    {
        match &self.monitor_poll_lifecycle {
            MonitorPollLifecycle::InFlight { request: in_flight, .. } => same_request(
                in_flight,
                request,
            ),
            _ => false,
        }
    }

    fn is_current(&self, request: &BackgroundMonitorOutputRequest) -> (r: bool)
        ensures
            r == self@.is_current(request@),
    {
        let generation = match self.monitor_output_generation {
            Some(generation) => generation == request.generation,
            None => false,
        };
        match &self.monitor_output_target {
            Some(target) => generation && target.matches_request(request),
            None => false,
        }
    }

    /// Takes in a response; says whether the view changed and what is asked for next.
    pub fn apply_monitor_output_response_with(
        &mut self,
        request: BackgroundMonitorOutputRequest,
        result: Result<Option<ThreadBackgroundTerminalOutput>, String>,
        now: u64,
        generation: u128,
    ) -> (r: (bool, Option<BackgroundMonitorOutputRequest>))
        ensures
            (final(self)@, r.0, opt_view(r.1)) == old(self)@.answered(
                request@,
                response_of(result),
                now,
                generation,
            ),
    {
        if !self.awaits(&request) {
            return (false, None);
        }
        let current = self.is_current(&request);
        match result {
            Ok(output) => {
                self.monitor_poll_lifecycle = MonitorPollLifecycle::Idle;
                let mut changed = false;
                if current {
                    let next_state = detail_output_state_from_snapshot(output);
                    changed = !same_output(&self.monitor_output_state, &next_state);
                    self.monitor_output_state = next_state;
                }
                let (asked, more) = self.maybe_request_with(now, generation);
                (asked || changed, more)
            },
            Err(_) => {
                self.monitor_poll_lifecycle = MonitorPollLifecycle::Suspended;
                if current {
                    let changed = self.monitor_output_state.suspend();
                    return (changed, None);
                }
                (false, None)
            },
        }
    }

    /// Takes in a response; says whether the view changed and what is asked for next.
    pub fn update_background_monitor_output(
        &mut self,
        request: BackgroundMonitorOutputRequest,
        result: Result<Option<ThreadBackgroundTerminalOutput>, String>,
        now: u64,
    ) -> (r: (bool, Option<BackgroundMonitorOutputRequest>))
        ensures
            exists|generation: u128| #[trigger]
                is_random_uuid(generation) && (final(self)@, r.0, opt_view(r.1)) == old(
                    self,
                )@.answered(request@, response_of(result), now, generation),
    {
        let generation: u128 = new_generation();
        self.apply_monitor_output_response_with(request, result, now, generation)
    }

    fn stop_selected(&mut self) -> (r: Option<String>)
        ensures
            (final(self)@, opt_view(r)) == old(self)@.stopping(),
    {
        if let StopState::InFlight { .. } = &self.stop_state {
            return None;
        }
        match self.id(self.selected_index()) {
            Some(process_id) => {
                self.stop_state = StopState::InFlight { process_id: process_id.clone() };
                Some(process_id)
            },
            None => None,
        }
    }

    /// Takes in the word that a process was stopped or not; says whether the view changed. Of an
    /// error the text is kept that `escape` leaves of it: it makes a line of a text, takes control
    /// sequences for styles and expands tabs.
    pub fn apply_stop_response<F: Fn(&str) -> Line + Copy>(
        &mut self,
        process_id: &str,
        result: Result<bool, String>,
        escape: F,
    ) -> (r: bool)
        requires
            forall|s: &str| #[trigger] call_requires(escape, (s,)),
        ensures
            exists|told: Result<bool, Seq<char>>| #[trigger]
                tells(escape, result, told) && (final(self)@, r) == old(self)@.stopped(
                    process_id@,
                    told,
                ),
    {
        let ghost word = result;
        let result = match result {
            Ok(stopped) => Ok(stopped),
            Err(error) => {
                let line = escape(error.as_str());
                assert(escapes(escape, error@, line@));
                Err(flat_text(&line))
            },
        };
        let ghost told = stop_result(result);
        let pending = match &self.stop_state {
            StopState::InFlight { process_id: pending } => str_eq(pending.as_str(), process_id),
            _ => false,
        };
        assert(tells(escape, word, told));
        if !pending {
            return false;
        }
        match result {
            Ok(true) => {
                self.completion = Some(ViewCompletion::Accepted);
            },
            Ok(false) => {
                self.stop_state =
                StopState::Failed {
                    message: "Process still running · press x to retry".to_owned(),
                };
            },
            Err(error) => {
                self.stop_state =
                StopState::Failed {
                    message: cat3("Stop failed: ", error.as_str(), ". Press x to retry."),
                };
            },
        }
        true
    }

    /// Takes in a key; says what is asked for. A request is numbered by `generation`.
    pub fn handle_key_event_with(&mut self, key: KeyPress, now: u64, generation: u128) -> (r:
        Option<BackgroundCommand>)
        ensures
            (final(self)@, opt_view(r)) == old(self)@.pressed(key, now, generation),
    {
        if key.released {
            return None;
        }
        if key.code == KeyCode::Char('x') && key.unmodified {
            return match self.stop_selected() {
                Some(process_id) => Some(BackgroundCommand::TerminateProcess(process_id)),
                None => None,
            };
        }
        if self.detail_idx.is_some() {
            if key.code == KeyCode::Left || key.moves_left {
                return fetch_command(self.go_back_with(now, generation));
            } else if key.code == KeyCode::Esc || key.code == KeyCode::Enter || key.code
                == KeyCode::Char(' ') || key.cancels {
                self.close();
            }
            return None;
        }
        if key.code == KeyCode::Esc || key.cancels {
            self.close();
            return None;
        }
        if key.moves_up {
            self.move_up();
        } else if key.moves_down {
            self.move_down();
        } else if key.accepts {
            let (_, request) = self.open_selected_with(now, generation);
            return fetch_command(request);
        }
        None
    }

    /// Takes in a key; says what is asked for.
    pub fn handle_key_event(&mut self, key: KeyPress, now: u64) -> (r: Option<BackgroundCommand>)
        ensures
            exists|generation: u128| #[trigger]
                is_random_uuid(generation) && (final(self)@, opt_view(r)) == old(self)@.pressed(
                    key,
                    now,
                    generation,
                ),
    {
        let generation: u128 = new_generation();
        self.handle_key_event_with(key, now, generation)
    }

    fn show_with(&mut self, idx: usize, now: u64, generation: u128) -> (r: Option<
        BackgroundMonitorOutputRequest,
    >)
        ensures
            (final(self)@, opt_view(r)) == old(self)@.showing(idx, now, generation),
    {
        self.detail_idx = Some(idx);
        self.state.selected_idx = Some(idx);
        let (_, request) = self.sync_with(now, generation);
        request
    }

    fn find(&self, process_id: &str) -> (r: Option<usize>)
        ensures
            match r {
                Some(i) => find_index(self@.items, has_id(process_id@)) == Some(i as int),
                None => find_index(self@.items, has_id(process_id@)) is None,
            },
    {
        let is_it = |item: &BackgroundProcessItem| -> (b: bool)
            ensures
                b == (has_id(process_id@))(item@),
        {
            str_eq(item.process_id.as_str(), process_id)
        };
        position(&self.items, is_it, Ghost(has_id(process_id@)))
    }

    /// Turns to other processes; the view always changes. Says that, and what is asked for. A request
    /// is numbered by `generation`.
    pub fn update_background_processes_with(
        &mut self,
        items: Vec<BackgroundProcessItem>,
        now: u64,
        generation: u128,
    ) -> (r: (bool, Option<BackgroundMonitorOutputRequest>))
        ensures
            r.0,
            (final(self)@, opt_view(r.1)) == old(self)@.updated(views(items@), now, generation),
    {
        let selected_process_id = self.id(self.selected_idx());
        let detail_process_id = self.id(self.detail_idx);
        assert(views(items@).len() == items@.len());
        self.items = normalize_items(&items);
        assert(views(self.items@).len() == self.items@.len());
        if self.items.is_empty() {
            self.close();
            return (true, None);
        }
        if let Some(process_id) = detail_process_id {
            return match self.find(process_id.as_str()) {
                None => {
                    self.close();
                    (true, None)
                },
                Some(idx) => (true, self.show_with(idx, now, generation)),
            };
        }
        if self.items.len() == 1 {
            return (true, self.show_with(0, now, generation));
        }
        let selected: usize = match selected_process_id {
            Some(process_id) => match self.find(process_id.as_str()) {
                Some(idx) => idx,
                None => 0,
            },
            None => 0,
        };
        let len: usize = self.items.len();
        let rows: usize = self.visible_rows();
        self.state.selected_idx = Some(selected);
        self.state.ensure_visible(len, rows);
        let (_, request) = self.sync_with(now, generation);
        (true, request)
    }

    /// Turns to other processes; the view always changes. Says that, and what is asked for.
    pub fn update_background_processes(&mut self, items: Vec<BackgroundProcessItem>, now: u64) -> (r:
        (bool, Option<BackgroundMonitorOutputRequest>))
        ensures
            r.0,
            exists|generation: u128| #[trigger]
                is_random_uuid(generation) && (final(self)@, opt_view(r.1)) == old(self)@.updated(
                    views(items@),
                    now,
                    generation,
                ),
    {
        let generation: u128 = new_generation();
        self.update_background_processes_with(items, now, generation)
    }

    /// What is done before the view is drawn; says whether it changed and what is asked for.
    pub fn pre_draw_tick(&mut self, now: u64) -> (r: (bool, Option<BackgroundMonitorOutputRequest>))
        ensures
            exists|generation: u128| #[trigger]
                is_random_uuid(generation) && (final(self)@, r.0, opt_view(r.1)) == old(
                    self,
                )@.synced(now, generation),
    {
        let generation: u128 = new_generation();
        self.sync_with(now, generation)
    }

    pub fn is_complete(&self) -> (r: bool)
        ensures
            r == (self@.completion is Some),
    {
        self.completion.is_some()
    }

    pub fn completion(&self) -> (r: Option<ViewCompletion>)
        ensures
            r == self@.completion,
    {
        self.completion
    }

    /// The place that is shown in detail.
    pub fn detail_idx(&self) -> (r: Option<usize>)
        ensures
            r == self@.detail_idx,
    {
        self.detail_idx
    }

    /// The selection in the list.
    pub fn scroll(&self) -> (r: ScrollState)
        ensures
            r == self@.scroll,
    {
        self.state
    }

    /// Whether a request is under way.
    pub fn monitor_poll_lifecycle(&self) -> (r: &MonitorPollLifecycle)
        ensures
            r@ == self@.poll,
    {
        &self.monitor_poll_lifecycle
    }

    /// Whether a process is being stopped.
    pub fn stop_state(&self) -> (r: &StopState)
        ensures
            r@ == self@.stop,
    {
        &self.stop_state
    }

    pub fn view_id(&self) -> (r: &'static str)
        ensures
            r@ == "background-processes"@,
    {
        BACKGROUND_PROCESSES_VIEW_ID
    }

    /// Leaves the view.
    pub fn on_ctrl_c(&mut self)
        ensures
            final(self)@ == old(self)@.closed_view(),
    {
        self.close();
    }

    /// When the view wants to be drawn again, in nanoseconds.
    pub fn next_frame_delay(&self) -> (r: Option<u64>)
        ensures
            r == (if self@.detail_idx is Some {
                Some(MONITOR_OUTPUT_POLL_INTERVAL)
            } else {
                None
            }),
    {
        if self.detail_idx.is_some() {
            Some(MONITOR_OUTPUT_POLL_INTERVAL)
        } else {
            None
        }
    }

    /// What is shown of the output of the process in detail.
    pub fn detail_output_state(&self) -> (r: DetailOutputState)
        ensures
            r@ == self@.detail_output(),
    {
        match self.item(self.detail_idx) {
            None => DetailOutputState::NoOutput,
            Some(item) => if item.monitor.is_some() {
                self.monitor_output_state.clone()
            } else {
                detail_output_state_from_chunks(&item.recent_output)
            },
        }
    }
}

/// The result of a request; why it failed plays no part.
pub open spec fn response_of(
    result: Result<Option<ThreadBackgroundTerminalOutput>, String>,
) -> Result<Option<ThreadBackgroundTerminalOutputView>, ()> {
    match result {
        Ok(output) => Ok(opt_view(output)),
        Err(_) => Err(()),
    }
}

/// Whether a process was stopped, or why that cannot be said.
pub open spec fn stop_result(result: Result<bool, String>) -> Result<bool, Seq<char>> {
    match result {
        Ok(stopped) => Ok(stopped),
        Err(error) => Err(error@),
    }
}

/// What is taken in of the word that a process was stopped or not.
pub open spec fn tells<F: Fn(&str) -> Line>(
    escape: F,
    result: Result<bool, String>,
    told: Result<bool, Seq<char>>,
) -> bool {
    match (result, told) {
        (Ok(a), Ok(b)) => a == b,
        (Err(error), Err(text)) => exists|line: Seq<SpanView>| #[trigger]
            escapes(escape, error@, line) && text == flat(line),
        _ => false,
    }
}

/// A row of the list: a process with what stands before and behind it, and how many columns are
/// left for it.
#[derive(Debug, PartialEq, Eq)]
pub struct ListRow {
    pub selected: bool,
    pub prefix: &'static str,
    pub label: String,
    pub suffix: &'static str,
    pub label_width: usize,
}

/// What a [`ListRow`] says.
#[verifier::ext_equal]
pub struct ListRowView {
    pub selected: bool,
    pub prefix: Seq<char>,
    pub label: Seq<char>,
    pub suffix: Seq<char>,
    pub label_width: nat,
}

impl View for ListRow {
    type V = ListRowView;

    open spec fn view(&self) -> ListRowView {
        ListRowView {
            selected: self.selected,
            prefix: self.prefix@,
            label: self.label@,
            suffix: self.suffix@,
            label_width: self.label_width as nat,
        }
    }
}

/// What is left of a number once another is taken away.
pub open spec fn less(a: nat, b: nat) -> nat {
    if a > b {
        (a - b) as nat
    } else {
        0
    }
}

/// How many processes there are of each kind.
pub open spec fn counts_text(shells: nat, monitors: nat) -> Seq<char> {
    if shells == 0 && monitors == 0 {
        "No active processes"@
    } else if monitors == 0 {
        counted(shells, " active shell"@)
    } else if shells == 0 {
        counted(monitors, " active monitor"@)
    } else {
        counted(shells, " shell"@) + ", "@ + counted(monitors, " monitor"@) + " active"@
    }
}

fn text_of_counts(shells: usize, monitors: usize) -> (r: String)
    ensures
        r@ == counts_text(shells as nat, monitors as nat),
{
    if shells == 0 && monitors == 0 {
        "No active processes".to_owned()
    } else if monitors == 0 {
        count_of(shells, " active shell")
    } else if shells == 0 {
        count_of(monitors, " active monitor")
    } else {
        let shells = count_of(shells, " shell");
        let monitors = count_of(monitors, " monitor");
        cat2(cat3(shells.as_str(), ", ", monitors.as_str()).as_str(), " active")
    }
}

proof fn lemma_counted<T>(s: Seq<T>, f: spec_fn(T) -> bool, n: int)
    requires
        0 <= n,
    ensures
        crate::search::counted(s, f, n) <= n,
    decreases n,
{
    if n > 0 {
        lemma_counted(s, f, n - 1);
    }
}

impl BackgroundProcessesModel {
    /// The row of a process in a list of this width.
    pub open spec fn row(self, idx: int, width: nat) -> ListRowView {
        let item = self.items[idx];
        let selected = self.scroll.selected_idx == Some(idx as usize);
        let prefix = if selected {
            "› "@
        } else {
            "  "@
        };
        let suffix = if self.is_stopping(item.process_id) {
            " (stopping…)"@
        } else {
            " (running)"@
        };
        ListRowView {
            selected,
            prefix,
            label: match item.monitor {
                Some(monitor) => monitor.description,
                None => item.command_display,
            },
            suffix,
            label_width: less(
                less(width, text_columns(prefix) as nat),
                text_columns(suffix) as nat,
            ),
        }
    }

    /// The rows of the list that fit into this many.
    pub open spec fn rows(self, width: nat, height: nat) -> Seq<ListRowView> {
        let left = less(self.items.len(), self.scroll.scroll_top as nat);
        Seq::new(
            if height < left {
                height
            } else {
                left
            },
            |k: int| self.row(self.scroll.scroll_top + k, width),
        )
    }

    /// What stands above the list, and whether it tells of a failure.
    pub open spec fn subtitle(self) -> (Seq<char>, bool) {
        match self.stop {
            StopStateView::Idle => {
                let monitors = count(self.items, is_monitor());
                (counts_text(less(self.items.len(), monitors), monitors), false)
            },
            StopStateView::InFlight { .. } => ("Stopping selected process…"@, false),
            StopStateView::Failed { message } => (message, true),
        }
    }

    /// What is said of the process in detail, which runs for as long as `runtime` says. The command
    /// and the word of a failure come escaped.
    pub open spec fn metadata(
        self,
        runtime: Seq<char>,
        command: Seq<SpanView>,
        failure: Seq<SpanView>,
    ) -> Seq<Seq<SpanView>> {
        match self.item_at(self.detail_idx) {
            None => Seq::empty(),
            Some(item) => {
                let title = if item.monitor is Some {
                    "Monitor details"@
                } else {
                    "Shell details"@
                };
                let command_label = if item.monitor is Some {
                    "Script: "@
                } else {
                    "Command: "@
                };
                let status = if self.is_stopping(item.process_id) {
                    "Stopping…"@
                } else {
                    "Running"@
                };
                seq![
                    seq![heading_view(title)],
                    plain_view(""@),
                    seq![heading_view("Status: "@), raw_view(status)],
                ] + (match self.stop {
                    StopStateView::Failed { message } => seq![styled_below(failure, reddened())],
                    _ => Seq::empty(),
                }) + seq![
                    seq![heading_view("Runtime: "@), raw_view(runtime)],
                    seq![heading_view(command_label)] + command,
                    plain_view(""@),
                    seq![heading_view("Output:"@)],
                ]
            },
        }
    }
}

impl BackgroundProcessesModel {
    /// The lines may be what `escape` made of the command of the process in detail and of the word
    /// of a failure, where there are any.
    pub open spec fn escapes_detail<F: Fn(&str) -> Line>(
        self,
        escape: F,
        command: Seq<SpanView>,
        failure: Seq<SpanView>,
    ) -> bool {
        &&& self.item_at(self.detail_idx) matches Some(item) ==> escapes(
            escape,
            item.command_display,
            command,
        )
        &&& self.item_at(self.detail_idx) is Some ==> (self.stop matches StopStateView::Failed {
            message,
        } ==> escapes(escape, message, failure))
    }

    /// The lines may be what is said of the process in detail.
    pub open spec fn describes<F: Fn(&str) -> Line>(
        self,
        escape: F,
        runtime: Seq<char>,
        lines: Seq<Seq<SpanView>>,
    ) -> bool {
        exists|command: Seq<SpanView>, failure: Seq<SpanView>| #[trigger]
            self.escapes_detail(escape, command, failure) && lines == self.metadata(
                runtime,
                command,
                failure,
            )
    }
}

/// A row as it is drawn; its label comes escaped and cut to its columns. The selected row is in the
/// style `accent`.
pub open spec fn row_line(row: ListRowView, accent: Style, label: Seq<SpanView>) -> Seq<SpanView> {
    let base = if row.selected {
        accent
    } else {
        unstyled()
    };
    seq![SpanView { text: row.prefix, style: base }] + styled_above(label, base) + seq![
        SpanView { text: row.suffix, style: Style { dim: Some(true), ..base } },
    ]
}

impl ListRow {
    /// The row as it is drawn, where the selected one is in the style `accent`. `fit` makes a line of
    /// a text that fits into a number of columns: it takes control sequences for styles, expands
    /// tabs, and cuts what does not fit.
    pub fn line<F: Fn(&str, usize) -> Line + Copy>(&self, accent: Style, fit: F) -> (r: Line)
        requires
            forall|s: &str, n: usize| #[trigger] call_requires(fit, (s, n)),
        ensures
            exists|label: Seq<SpanView>| #[trigger]
                fits(fit, self.label@, self.label_width as nat, label) && r@ == row_line(
                    self@,
                    accent,
                    label,
                ),
    {
        let base = if self.selected {
            accent
        } else {
            Style::plain()
        };
        let label = fit(self.label.as_str(), self.label_width);
        let mut spans: Vec<Span> = Vec::new();
        spans.push(Span { text: self.prefix.to_owned(), style: base });
        push_above(&mut spans, &label, base);
        spans.push(
            Span { text: self.suffix.to_owned(), style: Style { dim: Some(true), ..base } },
        );
        proof {
            assert(fits(fit, self.label@, self.label_width as nat, label@));
            assert(views(spans@) =~= row_line(self@, accent, label@));
        }
        Line { spans }
    }
}

/// The keys of the list, in short where there is little room.
pub open spec fn hint_view(width: u16) -> Seq<char> {
    let full = "↑/↓ select · Enter view · x stop · Esc close"@;
    if text_columns(full) <= width {
        full
    } else {
        "↑/↓ · Enter · x stop · Esc"@
    }
}

/// The keys of the list, in short where there is little room.
pub fn list_hint(width: u16) -> (r: &'static str)
    ensures
        r@ == hint_view(width),
{
    let full = "↑/↓ select · Enter view · x stop · Esc close";
    if text_width(full) <= width as usize {
        full
    } else {
        "↑/↓ · Enter · x stop · Esc"
    }
}

impl BackgroundProcessesView {
    fn is_stopping(&self, process_id: &String) -> (r: bool)
        ensures
            r == self@.is_stopping(process_id@),
    {
        match &self.stop_state {
            StopState::InFlight { process_id: pending } => *pending == *process_id,
            _ => false,
        }
    }

    fn list_row(&self, idx: usize, width: u16) -> (r: ListRow)
        requires
            idx < self@.items.len(),
        ensures
            r@ == self@.row(idx as int, width as nat),
    {
        let item = &self.items[idx];
        let selected = match self.state.selected_idx {
            Some(i) => i == idx,
            None => false,
        };
        let prefix = if selected {
            "› "
        } else {
            "  "
        };
        let label = match &item.monitor {
            Some(monitor) => monitor.description.clone(),
            None => item.command_display.clone(),
        };
        let suffix = if self.is_stopping(&item.process_id) {
            " (stopping…)"
        } else {
            " (running)"
        };
        let mut label_width: usize = width as usize;
        let before: usize = text_width(prefix);
        label_width = if label_width > before {
            label_width - before
        } else {
            0
        };
        let behind: usize = text_width(suffix);
        label_width = if label_width > behind {
            label_width - behind
        } else {
            0
        };
        ListRow { selected, prefix, label, suffix, label_width }
    }

    /// The rows of the list that fit into this many.
    pub fn list_rows(&self, width: u16, height: u16) -> (r: Vec<ListRow>)
        ensures
            views(r@) == self@.rows(width as nat, height as nat),
    {
        let mut rows: Vec<ListRow> = Vec::new();
        let ghost all = self@.rows(width as nat, height as nat);
        let top: usize = self.state.scroll_top;
        assert(views(self.items@).len() == self.items@.len());
        let left: usize = if self.items.len() > top {
            self.items.len() - top
        } else {
            0
        };
        let n: usize = if (height as usize) < left {
            height as usize
        } else {
            left
        };
        let mut k: usize = 0;
        while k < n
            invariant
                k <= n,
                n == all.len(),
                k < n ==> top + n <= self.items.len(),
                self@.items.len() == self.items.len(),
                all == self@.rows(width as nat, height as nat),
                top == self@.scroll.scroll_top,
                views(rows@) == all.take(k as int),
            decreases n - k,
        {
            rows.push(self.list_row(top + k, width));
            k = k + 1;
            assert(views(rows@) =~= all.take(k as int));
        }
        assert(all.take(k as int) =~= all);
        rows
    }

    /// Whether there is any process.
    pub fn has_processes(&self) -> (r: bool)
        ensures
            r == (self@.items.len() > 0),
    {
        assert(views(self.items@).len() == self.items@.len());
        self.items.len() > 0
    }

    /// What stands above the list, and whether it tells of a failure.
    pub fn subtitle(&self) -> (r: (String, bool))
        ensures
            (r.0@, r.1) == self@.subtitle(),
    {
        match &self.stop_state {
            StopState::Idle => {
                let is_it = |item: &BackgroundProcessItem| -> (b: bool)
                    ensures
                        b == (is_monitor())(item@),
                {
                    item.monitor.is_some()
                };
                let monitors: usize = count_in(&self.items, is_it, Ghost(is_monitor()));
                proof {
                    lemma_counted(self@.items, is_monitor(), self@.items.len() as int);
                }
                assert(views(self.items@).len() == self.items@.len());
                let shells: usize = self.items.len() - monitors;
                (text_of_counts(shells, monitors), false)
            },
            StopState::InFlight { .. } => ("Stopping selected process…".to_owned(), false),
            StopState::Failed { message } => (message.clone(), true),
        }
    }

    /// How long the process in detail runs, in seconds.
    pub fn detail_runtime(&self, now: u64) -> (r: Option<u64>)
        ensures
            match r {
                Some(seconds) => self@.item_at(self@.detail_idx) is Some && seconds == since(
                    now,
                    self@.item_at(self@.detail_idx)->0.started_at,
                ) / 1_000_000_000,
                None => self@.item_at(self@.detail_idx) is None,
            },
    {
        match self.item(self.detail_idx) {
            Some(item) => Some(time_since(now, item.started_at) / 1_000_000_000),
            None => None,
        }
    }

    /// What is said of the process in detail, which runs for as long as `runtime` says. `escape`
    /// makes a line of a text: it takes control sequences for styles and expands tabs.
    pub fn detail_metadata_lines<F: Fn(&str) -> Line + Copy>(&self, runtime: &str, escape: F) -> (r:
        Vec<Line>)
        requires
            forall|s: &str| #[trigger] call_requires(escape, (s,)),
        ensures
            self@.describes(escape, runtime@, views(r@)),
    {
        let mut lines: Vec<Line> = Vec::new();
        let item = match self.item(self.detail_idx) {
            Some(item) => item,
            None => {
                proof {
                    let nothing = Seq::<SpanView>::empty();
                    assert(self@.escapes_detail(escape, nothing, nothing));
                    assert(views(lines@) =~= self@.metadata(runtime@, nothing, nothing));
                }
                return lines;
            },
        };
        let title = if item.monitor.is_some() {
            "Monitor details"
        } else {
            "Shell details"
        };
        let command_label = if item.monitor.is_some() {
            "Script: "
        } else {
            "Command: "
        };
        let status = if self.is_stopping(&item.process_id) {
            "Stopping…"
        } else {
            "Running"
        };
        lines.push(line1(heading(title)));
        lines.push(plain(""));
        lines.push(line2(heading("Status: "), raw(status)));
        let ghost mut failure = Seq::<SpanView>::empty();
        if let StopState::Failed { message } = &self.stop_state {
            let told = escape(message.as_str());
            let style = Style { color: Some(Color::Red), ..Style::plain() };
            proof {
                assert(escapes(escape, message@, told@));
                failure = told@;
            }
            lines.push(line_below(&told, style));
        }
        lines.push(line2(heading("Runtime: "), raw(runtime)));
        let command = escape(item.command_display.as_str());
        let mut spans: Vec<Span> = Vec::new();
        spans.push(heading(command_label));
        push_below(&mut spans, &command, Style::plain());
        proof {
            lemma_below_nothing(command@);
            assert(escapes(escape, item.command_display@, command@));
            assert(views(spans@) =~= seq![heading_view(command_label@)] + command@);
        }
        lines.push(Line { spans });
        lines.push(plain(""));
        lines.push(line1(heading("Output:")));
        proof {
            assert(self@.escapes_detail(escape, command@, failure));
            assert(views(lines@) =~= self@.metadata(runtime@, command@, failure));
        }
        lines
    }

    /// How many rows the view wants, where what is said of the process in detail takes
    /// `metadata_rows`.
    pub fn desired_height(&self, metadata_rows: u16) -> (r: u16)
        ensures
            r == ({
                let wanted: int = if self@.detail_idx is Some {
                    metadata_rows + if self@.detail_output().content() is Some {
                        15int
                    } else {
                        3int
                    }
                } else {
                    self@.visible_rows() as int + 6
                };
                if wanted > u16::MAX {
                    u16::MAX as int
                } else {
                    wanted
                }
            }),
    {
        if self.detail_idx.is_some() {
            let output_rows: u16 = if self.detail_output_state().has_content() {
                15
            } else {
                3
            };
            return metadata_rows.saturating_add(output_rows);
        }
        (self.visible_rows() as u16).saturating_add(6)
    }
}

/// While a request is under way and not yet overdue, no other is sent and nothing changes.
pub proof fn law_one_request_at_a_time(
    view: BackgroundProcessesModel,
    request: BackgroundMonitorOutputRequestView,
    now: u64,
    generation: u128,
)
    requires
        view.awaits(request),
        view.selected_target() == view.target,
        since(now, view.poll->started_at) < view.request_timeout,
    ensures
        view.synced(now, generation) == (view, false, None::<BackgroundMonitorOutputRequestView>),
{
}

/// Once a request failed or took too long, none is sent for the same output.
pub proof fn law_failed_requests_are_not_repeated(
    view: BackgroundProcessesModel,
    now: u64,
    generation: u128,
)
    requires
        view.poll is Suspended,
        view.selected_target() == view.target,
    ensures
        view.synced(now, generation) == (view, false, None::<BackgroundMonitorOutputRequestView>),
{
}

/// A response to anything but the request under way changes nothing and asks for nothing.
pub proof fn law_stale_responses_are_ignored(
    view: BackgroundProcessesModel,
    request: BackgroundMonitorOutputRequestView,
    result: Result<Option<ThreadBackgroundTerminalOutputView>, ()>,
    now: u64,
    generation: u128,
)
    requires
        !view.awaits(request),
    ensures
        view.answered(request, result, now, generation) == (view, false, None::<BackgroundMonitorOutputRequestView>),
{
}

/// Two requests for the same output are at least a poll interval apart.
pub proof fn law_requests_are_apart(
    view: BackgroundProcessesModel,
    now: u64,
    generation: u128,
    result: Result<Option<ThreadBackgroundTerminalOutputView>, ()>,
    later: u64,
    next: u128,
)
    requires
        view.selected_target() == view.target,
        view.synced(now, generation).2 is Some,
        since(later, now) < MONITOR_OUTPUT_POLL_INTERVAL,
    ensures
        ({
            let (asked, _, request) = view.synced(now, generation);
            let (then, _, more) = asked.answered(request->0, result, later, next);
            more is None && then.synced(later, next).2 is None
        }),
{
    let (asked, _, request) = view.synced(now, generation);
    let (then, _, more) = asked.answered(request->0, result, later, next);
    assert(asked.awaits(request->0));
    assert(then.target == view.target);
    assert(then.selected_target() == view.selected_target());
}

/// Nothing is asked for while no monitor is shown in detail.
pub proof fn law_only_monitors_in_detail_are_asked_for(
    view: BackgroundProcessesModel,
    now: u64,
    generation: u128,
)
    requires
        match view.item_at(view.detail_idx) {
            Some(item) => item.monitor is None,
            None => true,
        },
    ensures
        view.synced(now, generation).2 is None,
{
    assert(view.selected_target() is None);
    assert(view.retargeted().target is None);
}

/// A failed request keeps the lines that were known and marks them as stale.
pub proof fn law_failure_keeps_lines(
    view: BackgroundProcessesModel,
    request: BackgroundMonitorOutputRequestView,
    now: u64,
    generation: u128,
)
    requires
        view.awaits(request),
        view.is_current(request),
    ensures
        ({
            let then = view.answered(request, Err(()), now, generation).0;
            then.output is Suspended && then.output.content() == view.output.content()
        }),
{
}

/// While a process is being stopped, no other stop is asked for.
pub proof fn law_one_stop_at_a_time(view: BackgroundProcessesModel)
    requires
        view.stop is InFlight,
    ensures
        view.stopping() == (view, None::<Seq<char>>),
{
}

/// A stop that failed leaves the view open and can be asked for again.
pub proof fn law_failed_stop_can_be_repeated(
    view: BackgroundProcessesModel,
    process_id: Seq<char>,
    result: Result<bool, Seq<char>>,
)
    requires
        view.is_stopping(process_id),
        result != Ok::<bool, Seq<char>>(true),
        view.id_at(view.acted_on()) == Some(process_id),
    ensures
        view.stopped(process_id, result).0.completion == view.completion,
        view.stopped(process_id, result).0.stopping().1 == Some(process_id),
{
    let then = view.stopped(process_id, result).0;
    assert(then.id_at(then.acted_on()) == Some(process_id));
}

/// The process in detail stays in detail as the processes change around it; once it is gone, the
/// view is left.
pub proof fn law_detail_follows_its_process(
    view: BackgroundProcessesModel,
    items: Seq<BackgroundProcessItemView>,
    now: u64,
    generation: u128,
)
    requires
        view.item_at(view.detail_idx) is Some,
        items.len() <= usize::MAX,
    ensures
        ({
            let process_id = view.id_at(view.detail_idx);
            let then = view.updated(items, now, generation).0;
            if exists|i: int| 0 <= i < items.len() && #[trigger] items[i].process_id == process_id->0 {
                then.id_at(then.detail_idx) == process_id && then.completion == view.completion
            } else {
                then.completion == Some(ViewCompletion::Cancelled)
            }
        }),
{
    let process_id = view.id_at(view.detail_idx)->0;
    let fresh = normalized(items);
    crate::search::lemma_find_from(fresh, has_id(process_id), 0);
    match find_index(fresh, has_id(process_id)) {
        Some(k) => {
            assert((has_id(process_id))(fresh[k]));
            assert(items[k].process_id == process_id);
        },
        None => {
            assert forall|i: int| 0 <= i < items.len() implies #[trigger] items[i].process_id
                != process_id by {
                assert(!(has_id(process_id))(fresh[i]));
            }
        },
    }
}

} // verus!
