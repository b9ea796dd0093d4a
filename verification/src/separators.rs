//! The line between two turns, and what it says of the turn before it.
use vstd::prelude::*;
use crate::footer::{count_of, counted};
use crate::ids::{decimal, decimal_text};
use crate::text::{cat2, cat3, cat5, cat6, group_views, join, joined, opt_view, views};
use crate::widths::{columns, fitting, prefix_within, take_prefix_by_width};

verus! {

broadcast use group_views;

/// Something that was measured: how much of it there was, and the time it took in whole
/// milliseconds; `seconds` are its seconds as they are shown, with one decimal.
#[derive(Clone, Debug, PartialEq, Eq)]
pub struct Measured {
    pub amount: u64,
    pub duration_ms: u64,
    pub seconds: String,
}

/// What was measured in a turn. A time alone has an amount above zero exactly if the time is above
/// zero, even where it is rounded to no whole millisecond.
#[derive(Clone, Debug, PartialEq, Eq)]
pub struct RuntimeMetricsSummary {
    pub tool_calls: Measured,
    pub api_calls: Measured,
    pub websocket_calls: Measured,
    pub streaming_events: Measured,
    pub websocket_events: Measured,
    pub responses_api_overhead: Measured,
    pub responses_api_inference_time: Measured,
    pub responses_api_engine_iapi_ttft: Measured,
    pub responses_api_engine_service_ttft: Measured,
    pub responses_api_engine_iapi_tbt: Measured,
    pub responses_api_engine_service_tbt: Measured,
}

/// A number of milliseconds as it is shown: in seconds where there are any.
pub open spec fn duration_text(duration_ms: nat, seconds: Seq<char>) -> Seq<char> {
    if duration_ms >= 1_000 {
        seconds + "s"@
    } else {
        decimal(duration_ms) + "ms"@
    }
}

/// A number of milliseconds as it is shown; `seconds` are its seconds with one decimal.
pub fn format_duration_ms(duration_ms: u64, seconds: &str) -> (r: String)
    ensures
        r@ == duration_text(duration_ms as nat, seconds@),
{
    if duration_ms >= 1_000 {
        cat2(seconds, "s")
    } else {
        cat2(decimal_text(duration_ms).as_str(), "ms")
    }
}

impl Measured {
    /// The time as it is shown.
    pub open spec fn time(self) -> Seq<char> {
        duration_text(self.duration_ms as nat, self.seconds@)
    }

    /// The time as it is shown.
    pub fn duration(&self) -> (r: String)
        ensures
            r@ == self.time(),
    {
        format_duration_ms(self.duration_ms, self.seconds.as_str())
    }
}

/// One thing or more.
pub open spec fn plural_word(count: nat, singular: Seq<char>, plural: Seq<char>) -> Seq<char> {
    if count == 1 {
        singular
    } else {
        plural
    }
}

/// One thing or more.
pub fn pluralize(count: u64, singular: &'static str, plural: &'static str) -> (r: &'static str)
    ensures
        r@ == plural_word(count as nat, singular@, plural@),
{
    if count == 1 {
        singular
    } else {
        plural
    }
}

/// A part of a label that is there only if something was measured.
pub open spec fn part(amount: nat, text: Seq<char>) -> Seq<Seq<char>> {
    if amount > 0 {
        seq![text]
    } else {
        Seq::empty()
    }
}

fn push_part(parts: &mut Vec<String>, text: String)
    ensures
        views(final(parts)@) == views(old(parts)@) + seq![text@],
{
    parts.push(text);
    assert(views(parts@) =~= views(old(parts)@) + seq![text@]);
}

/// Two times side by side.
pub open spec fn pair_parts(iapi: Measured, service: Measured) -> Seq<Seq<char>> {
    part(iapi.amount as nat, iapi.time() + " (iapi)"@) + part(
        service.amount as nat,
        service.time() + " (service)"@,
    )
}

fn pair_text(iapi: &Measured, service: &Measured) -> (r: String)
    ensures
        r@ == joined(pair_parts(*iapi, *service), " "@),
{
    let mut parts: Vec<String> = Vec::new();
    if iapi.amount > 0 {
        push_part(&mut parts, cat2(iapi.duration().as_str(), " (iapi)"));
    }
    if service.amount > 0 {
        push_part(&mut parts, cat2(service.duration().as_str(), " (service)"));
    }
    assert(views(parts@) =~= pair_parts(*iapi, *service));
    join(&parts, " ")
}

/// The calls and events of a turn.
pub open spec fn call_parts(m: RuntimeMetricsSummary) -> Seq<Seq<char>> {
    let (tools, api, sent, streams, received) = (
        m.tool_calls,
        m.api_calls,
        m.websocket_calls,
        m.streaming_events,
        m.websocket_events,
    );
    part(
        tools.amount as nat,
        "Local tools: "@ + decimal(tools.amount as nat) + " "@ + plural_word(
            tools.amount as nat,
            "call"@,
            "calls"@,
        ) + " ("@ + tools.time() + ")"@,
    ) + part(
        api.amount as nat,
        "Inference: "@ + decimal(api.amount as nat) + " "@ + plural_word(
            api.amount as nat,
            "call"@,
            "calls"@,
        ) + " ("@ + api.time() + ")"@,
    ) + part(
        sent.amount as nat,
        "WebSocket: "@ + decimal(sent.amount as nat) + " events send ("@ + sent.time() + ")"@,
    ) + part(
        streams.amount as nat,
        plural_word(streams.amount as nat, "Stream"@, "Streams"@) + ": "@ + decimal(
            streams.amount as nat,
        ) + " "@ + plural_word(streams.amount as nat, "event"@, "events"@) + " ("@
            + streams.time() + ")"@,
    ) + part(
        received.amount as nat,
        decimal(received.amount as nat) + " events received ("@ + received.time() + ")"@,
    )
}

fn push_call_parts(parts: &mut Vec<String>, m: &RuntimeMetricsSummary)
    ensures
        views(final(parts)@) == views(old(parts)@) + call_parts(*m),
{
    if m.tool_calls.amount > 0 {
        let n: u64 = m.tool_calls.amount;
        push_part(
            parts,
            cat6(
                "Local tools: ",
                decimal_text(n).as_str(),
                " ",
                pluralize(n, "call", "calls"),
                " (",
                cat2(m.tool_calls.duration().as_str(), ")").as_str(),
            ),
        );
        proof {
            let d = m.tool_calls.time();
            let head = "Local tools: "@ + decimal(n as nat) + " "@ + plural_word(
                n as nat,
                "call"@,
                "calls"@,
            ) + " ("@;
            assert(head + (d + ")"@) =~= head + d + ")"@);
        }
    }
    if m.api_calls.amount > 0 {
        let n: u64 = m.api_calls.amount;
        push_part(
            parts,
            cat6(
                "Inference: ",
                decimal_text(n).as_str(),
                " ",
                pluralize(n, "call", "calls"),
                " (",
                cat2(m.api_calls.duration().as_str(), ")").as_str(),
            ),
        );
        proof {
            let d = m.api_calls.time();
            let head = "Inference: "@ + decimal(n as nat) + " "@ + plural_word(
                n as nat,
                "call"@,
                "calls"@,
            ) + " ("@;
            assert(head + (d + ")"@) =~= head + d + ")"@);
        }
    }
    if m.websocket_calls.amount > 0 {
        push_part(
            parts,
            cat5(
                "WebSocket: ",
                decimal_text(m.websocket_calls.amount).as_str(),
                " events send (",
                m.websocket_calls.duration().as_str(),
                ")",
            ),
        );
    }
    if m.streaming_events.amount > 0 {
        let n: u64 = m.streaming_events.amount;
        let head = cat5(
            pluralize(n, "Stream", "Streams"),
            ": ",
            decimal_text(n).as_str(),
            " ",
            pluralize(n, "event", "events"),
        );
        push_part(
            parts,
            cat2(cat3(head.as_str(), " (", m.streaming_events.duration().as_str()).as_str(), ")"),
        );
    }
    if m.websocket_events.amount > 0 {
        push_part(
            parts,
            cat2(
                cat3(
                    decimal_text(m.websocket_events.amount).as_str(),
                    " events received (",
                    m.websocket_events.duration().as_str(),
                ).as_str(),
                ")",
            ),
        );
    }
    assert(views(parts@) =~= views(old(parts)@) + call_parts(*m));
}

/// The times of a turn.
pub open spec fn time_parts(m: RuntimeMetricsSummary) -> Seq<Seq<char>> {
    let ttft = pair_parts(m.responses_api_engine_iapi_ttft, m.responses_api_engine_service_ttft);
    let tbt = pair_parts(m.responses_api_engine_iapi_tbt, m.responses_api_engine_service_tbt);
    part(
        m.responses_api_overhead.amount as nat,
        "Responses API overhead: "@ + m.responses_api_overhead.time(),
    ) + part(
        m.responses_api_inference_time.amount as nat,
        "Responses API inference: "@ + m.responses_api_inference_time.time(),
    ) + part(ttft.len(), "TTFT: "@ + joined(ttft, " "@)) + part(
        tbt.len(),
        "TBT: "@ + joined(tbt, " "@),
    )
}

fn push_time_parts(parts: &mut Vec<String>, m: &RuntimeMetricsSummary)
    ensures
        views(final(parts)@) == views(old(parts)@) + time_parts(*m),
{
    if m.responses_api_overhead.amount > 0 {
        push_part(
            parts,
            cat2("Responses API overhead: ", m.responses_api_overhead.duration().as_str()),
        );
    }
    if m.responses_api_inference_time.amount > 0 {
        push_part(
            parts,
            cat2("Responses API inference: ", m.responses_api_inference_time.duration().as_str()),
        );
    }
    if m.responses_api_engine_iapi_ttft.amount > 0 || m.responses_api_engine_service_ttft.amount
        > 0 {
        let pair = pair_text(
            &m.responses_api_engine_iapi_ttft,
            &m.responses_api_engine_service_ttft,
        );
        push_part(parts, cat2("TTFT: ", pair.as_str()));
    }
    if m.responses_api_engine_iapi_tbt.amount > 0 || m.responses_api_engine_service_tbt.amount > 0 {
        let pair = pair_text(
            &m.responses_api_engine_iapi_tbt,
            &m.responses_api_engine_service_tbt,
        );
        push_part(parts, cat2("TBT: ", pair.as_str()));
    }
    assert(views(parts@) =~= views(old(parts)@) + time_parts(*m));
}

/// What was measured in a turn, in words; nothing where nothing was.
pub open spec fn metrics_text(m: RuntimeMetricsSummary) -> Option<Seq<char>> {
    let parts = call_parts(m) + time_parts(m);
    if parts.len() == 0 {
        None
    } else {
        Some(joined(parts, " • "@))
    }
}

/// What was measured in a turn, in words; nothing where nothing was.
pub fn runtime_metrics_label(summary: &RuntimeMetricsSummary) -> (r: Option<String>)
    ensures
        opt_view(r) == metrics_text(*summary),
{
    let mut parts: Vec<String> = Vec::new();
    push_call_parts(&mut parts, summary);
    push_time_parts(&mut parts, summary);
    assert(views(parts@) =~= call_parts(*summary) + time_parts(*summary));
    if parts.is_empty() {
        None
    } else {
        Some(join(&parts, " • "))
    }
}

/// The processes that still run after a turn; nothing where none does.
pub open spec fn still_running_text(shells: nat, monitors: nat) -> Option<Seq<char>> {
    if shells > 0 && monitors > 0 {
        Some(
            counted(shells, " shell"@) + ", "@ + counted(monitors, " monitor"@)
                + " still running"@,
        )
    } else if shells > 0 {
        Some(counted(shells, " shell"@) + " still running"@)
    } else if monitors > 0 {
        Some(counted(monitors, " monitor"@) + " still running"@)
    } else {
        None
    }
}

/// The processes that still run after a turn; nothing where none does.
pub fn background_process_summary(shell_count: usize, monitor_count: usize) -> (r: Option<String>)
    ensures
        opt_view(r) == still_running_text(shell_count as nat, monitor_count as nat),
{
    if shell_count > 0 && monitor_count > 0 {
        let shells = count_of(shell_count, " shell");
        let monitors = count_of(monitor_count, " monitor");
        Some(
            cat2(cat3(shells.as_str(), ", ", monitors.as_str()).as_str(), " still running"),
        )
    } else if shell_count > 0 {
        Some(cat2(count_of(shell_count, " shell").as_str(), " still running"))
    } else if monitor_count > 0 {
        Some(cat2(count_of(monitor_count, " monitor").as_str(), " still running"))
    } else {
        None
    }
}

/// The parts of a label and what still runs.
pub open spec fn label_text(parts: Seq<Seq<char>>, running: Option<Seq<char>>) -> Seq<char> {
    let label = joined(parts, " • "@);
    match running {
        None => label,
        Some(running) => if label.len() > 0 {
            label + " · "@ + running
        } else {
            label + running
        },
    }
}

/// The parts of a label and what still runs.
pub fn footer_label(label_parts: &Vec<String>, running: &Option<String>) -> (r: String)
    ensures
        r@ == label_text(views(label_parts@), opt_view(*running)),
{
    let label = join(label_parts, " • ");
    match running {
        None => label,
        Some(running) => if !label.as_str().is_empty() {
            cat3(label.as_str(), " · ", running.as_str())
        } else {
            cat2(label.as_str(), running.as_str())
        },
    }
}

/// How many verbs there are.
pub const VERB_COUNT: usize = 8;

/// One of the verbs for what a turn did while it was monitored.
pub open spec fn verb(i: int) -> Seq<char> {
    if i == 0 {
        "Baked"@
    } else if i == 1 {
        "Brewed"@
    } else if i == 2 {
        "Churned"@
    } else if i == 3 {
        "Cogitated"@
    } else if i == 4 {
        "Cooked"@
    } else if i == 5 {
        "Crunched"@
    } else if i == 6 {
        "Sautéed"@
    } else {
        "Worked"@
    }
}

/// One of the verbs for what a turn did while it was monitored.
pub fn monitor_duration_verb(i: usize) -> (r: &'static str)
    ensures
        r@ == verb(i as int),
{
    if i == 0 {
        "Baked"
    } else if i == 1 {
        "Brewed"
    } else if i == 2 {
        "Churned"
    } else if i == 3 {
        "Cogitated"
    } else if i == 4 {
        "Cooked"
    } else if i == 5 {
        "Crunched"
    } else if i == 6 {
        "Sautéed"
    } else {
        "Worked"
    }
}

/// Draws a number below `n` with `random_range` of the generator of the thread. Which one comes is
/// a matter of chance.
#[verifier::external_body]
fn random_below(n: usize) -> (r: usize)
    requires
        n > 0,
    ensures
        r < n,
{
    rand::Rng::random_range(&mut rand::rng(), 0..n)
}

/// One of the verbs, by chance.
pub fn random_monitor_duration_verb() -> (r: &'static str)
    ensures
        exists|i: int| 0 <= i < VERB_COUNT && r@ == #[trigger] verb(i),
{
    let i: usize = random_below(VERB_COUNT);
    monitor_duration_verb(i)
}

/// The line between two turns.
#[derive(Debug, PartialEq, Eq)]
pub struct FinalMessageSeparator {
    elapsed_seconds: Option<u64>,
    runtime_metrics: Option<RuntimeMetricsSummary>,
    background_process_summary: Option<String>,
    monitor_count: usize,
    monitor_duration_verb: &'static str,
}

/// What a [`FinalMessageSeparator`] says.
pub struct SeparatorView {
    pub elapsed_seconds: Option<u64>,
    pub runtime_metrics: Option<RuntimeMetricsSummary>,
    pub background_process_summary: Option<Seq<char>>,
    pub monitor_count: nat,
    pub monitor_duration_verb: Seq<char>,
}

impl View for FinalMessageSeparator {
    type V = SeparatorView;

    closed spec fn view(&self) -> SeparatorView {
        SeparatorView {
            elapsed_seconds: self.elapsed_seconds,
            runtime_metrics: self.runtime_metrics,
            background_process_summary: opt_view(self.background_process_summary),
            monitor_count: self.monitor_count as nat,
            monitor_duration_verb: self.monitor_duration_verb@,
        }
    }
}

impl SeparatorView {
    /// What is said of how long the turn took, which is shown as `elapsed`: a monitored turn says
    /// it in any case, any other one only beyond a minute.
    pub open spec fn elapsed_part(self, elapsed: Seq<char>) -> Seq<Seq<char>> {
        match self.elapsed_seconds {
            Some(seconds) => if self.monitor_count > 0 {
                seq![self.monitor_duration_verb + " for "@ + elapsed]
            } else if seconds > 60 {
                seq!["Worked for "@ + elapsed]
            } else {
                Seq::empty()
            },
            None => Seq::empty(),
        }
    }

    /// What the line says.
    pub open spec fn label(self, elapsed: Seq<char>) -> Seq<char> {
        label_text(
            self.elapsed_part(elapsed) + (match self.runtime_metrics {
                Some(metrics) => match metrics_text(metrics) {
                    Some(text) => seq![text],
                    None => Seq::empty(),
                },
                None => Seq::empty(),
            }),
            self.background_process_summary,
        )
    }

    /// The line over the given number of columns.
    pub open spec fn display(self, elapsed: Seq<char>, width: nat) -> Seq<char> {
        let label = self.label(elapsed);
        if label.len() == 0 {
            dashes(width as int)
        } else {
            let text = "─ "@ + label + " ─"@;
            prefix_within(text, width) + dashes(width - columns(text, fitting(text, width, 0)))
        }
    }
}

/// A line of the given length.
pub open spec fn dashes(n: int) -> Seq<char> {
    Seq::new(
        if n < 0 {
            0
        } else {
            n as nat
        },
        |i: int| '─',
    )
}

fn push_dashes(text: &mut String, n: usize)
    ensures
        final(text)@ == old(text)@ + dashes(n as int),
{
    let ghost before = text@;
    let mut i: usize = 0;
    assert(before + dashes(0) =~= before);
    while i < n
        invariant
            i <= n,
            text@ == before + dashes(i as int),
        decreases n - i,
    {
        text.push('─');
        i = i + 1;
        assert(text@ =~= before + dashes(i as int));
    }
}

impl FinalMessageSeparator {
    /// A separator behind a turn that took so long, with a verb drawn by chance.
    pub fn new(elapsed_seconds: Option<u64>, runtime_metrics: Option<RuntimeMetricsSummary>) -> (r:
        Self)
        ensures
            exists|i: int|
                0 <= i < VERB_COUNT && r@ == (SeparatorView {
                    elapsed_seconds,
                    runtime_metrics,
                    background_process_summary: None,
                    monitor_count: 0,
                    monitor_duration_verb: #[trigger] verb(i),
                }),
    {
        let monitor_duration_verb = random_monitor_duration_verb();
        FinalMessageSeparator {
            elapsed_seconds,
            runtime_metrics,
            background_process_summary: None,
            monitor_count: 0,
            monitor_duration_verb,
        }
    }

    /// The same separator with the processes that still run.
    pub fn with_background_processes(self, shell_count: usize, monitor_count: usize) -> (r: Self)
        ensures
            r@ == (SeparatorView {
                background_process_summary: still_running_text(
                    shell_count as nat,
                    monitor_count as nat,
                ),
                monitor_count: monitor_count as nat,
                ..self@
            }),
    {
        let mut r = self;
        r.background_process_summary = background_process_summary(shell_count, monitor_count);
        r.monitor_count = monitor_count;
        r
    }

    /// The same separator with another verb.
    pub fn with_monitor_duration_verb(self, verb: &'static str) -> (r: Self)
        ensures
            r@ == (SeparatorView { monitor_duration_verb: verb@, ..self@ }),
    {
        let mut r = self;
        r.monitor_duration_verb = verb;
        r
    }

    /// What the line says; `elapsed` is how the time of the turn is shown.
    pub fn label(&self, elapsed: &str) -> (r: String)
        ensures
            r@ == self@.label(elapsed@),
    {
        let mut parts: Vec<String> = Vec::new();
        if let Some(seconds) = self.elapsed_seconds {
            if self.monitor_count > 0 {
                push_part(&mut parts, cat3(self.monitor_duration_verb, " for ", elapsed));
            } else if seconds > 60 {
                push_part(&mut parts, cat2("Worked for ", elapsed));
            }
        }
        if let Some(metrics) = &self.runtime_metrics {
            if let Some(text) = runtime_metrics_label(metrics) {
                push_part(&mut parts, text);
            }
        }
        assert(views(parts@) =~= self@.elapsed_part(elapsed@) + (match self@.runtime_metrics {
            Some(metrics) => match metrics_text(metrics) {
                Some(text) => seq![text],
                None => Seq::empty(),
            },
            None => Seq::empty(),
        }));
        footer_label(&parts, &self.background_process_summary)
    }

    /// The line over the given number of columns.
    pub fn display_line(&self, elapsed: &str, width: u16) -> (r: String)
        ensures
            r@ == self@.display(elapsed@, width as nat),
    {
        let label = self.label(elapsed);
        let width: usize = width as usize;
        if label.as_str().is_empty() {
            let mut line = String::new();
            push_dashes(&mut line, width);
            assert(line@ =~= dashes(width as int));
            return line;
        }
        let text = cat3("─ ", label.as_str(), " ─");
        let (line, label_width) = take_prefix_by_width(text.as_str(), width);
        let mut line = line;
        proof {
            crate::widths::law_prefix_is_longest(text@, width as nat);
        }
        let rest: usize = if label_width < width {
            width - label_width
        } else {
            0
        };
        push_dashes(&mut line, rest);
        line
    }

    /// What the line says, if anything.
    pub fn raw_line(&self, elapsed: &str) -> (r: Option<String>)
        ensures
            opt_view(r) == (if self@.label(elapsed@).len() == 0 {
                None
            } else {
                Some(self@.label(elapsed@))
            }),
    {
        let label = self.label(elapsed);
        if label.as_str().is_empty() {
            None
        } else {
            Some(label)
        }
    }
}

} // verus!
