//! Texts that are shown: monitors, separators, widths and documents.
use qunux::lines::trim;
use qunux::monitor::{
    format_monitor_timeout, monitor_completed_detail, new_monitor_completed, new_monitor_event,
    new_monitor_started, split_detail, CommandExecutionStatus, CommandMonitorTerminationReason,
};
use qunux::separators::{
    background_process_summary, footer_label, format_duration_ms, monitor_duration_verb, pluralize,
    random_monitor_duration_verb, runtime_metrics_label, FinalMessageSeparator, Measured,
    RuntimeMetricsSummary, VERB_COUNT,
};
use qunux::styled::{Color, Line, Span, Style};
use qunux::widths::take_prefix_by_width;
use qunux::{require_section, title_from_body};

fn measured(amount: u64, duration_ms: u64) -> Measured {
    Measured { amount, duration_ms, seconds: format!("{:.1}", duration_ms as f64 / 1_000.0) }
}

fn nothing_measured() -> RuntimeMetricsSummary {
    RuntimeMetricsSummary {
        tool_calls: measured(0, 0),
        api_calls: measured(0, 0),
        websocket_calls: measured(0, 0),
        streaming_events: measured(0, 0),
        websocket_events: measured(0, 0),
        responses_api_overhead: measured(0, 0),
        responses_api_inference_time: measured(0, 0),
        responses_api_engine_iapi_ttft: measured(0, 0),
        responses_api_engine_service_ttft: measured(0, 0),
        responses_api_engine_iapi_tbt: measured(0, 0),
        responses_api_engine_service_tbt: measured(0, 0),
    }
}

fn escape(text: &str) -> Line {
    Line { spans: vec![Span { text: text.to_string(), style: Style::plain() }] }
}

fn text_of(lines: &Vec<Line>) -> Vec<String> {
    lines
        .iter()
        .map(|line| line.spans.iter().map(|span| span.text.clone()).collect::<String>())
        .collect()
}

#[test]
fn timeouts_are_shown_in_seconds() {
    assert_eq!(format_monitor_timeout(300_000), "300s");
    assert_eq!(format_monitor_timeout(1_500), "1.5s");
    assert_eq!(format_monitor_timeout(1_050), "1.05s");
    assert_eq!(format_monitor_timeout(7), "0.007s");
    assert_eq!(format_monitor_timeout(0), "0s");
}

#[test]
fn monitors_say_that_they_started() {
    let cell = new_monitor_started("ready?".to_string(), "t1".to_string(), 1_500, false);
    assert_eq!(
        text_of(&cell.raw_lines(escape)),
        vec!["Monitor(ready?)", "Monitor started · task t1 · timeout 1.5s"]
    );
    let header = &cell.raw_lines(escape)[0].spans;
    assert_eq!((header[0].text.as_str(), header[0].style.bold), ("Monitor", Some(true)));
    assert!(header[1..].iter().all(|span| span.style == Style::plain()));
    let rows = cell.display_rows(40, escape);
    assert_eq!(rows.len(), 2);
    let mark = &rows[0].initial_indent;
    assert_eq!((mark.text.as_str(), mark.style.bold), ("⏺ ", Some(true)));
    assert_eq!(mark.style.color, Some(Color::Cyan));
    assert_eq!(rows[0].subsequent_indent.text, "  ");
    let branch = &rows[1].initial_indent;
    assert_eq!((branch.text.as_str(), branch.style.dim), ("  ⎿  ", Some(true)));
    assert_eq!(rows[1].subsequent_indent.text, "     ");
    assert_eq!(rows[1].line.spans[0].style.dim, Some(true));
    assert!(cell.display_rows(0, escape).is_empty());
    let cell = new_monitor_started("ready?".to_string(), "t1".to_string(), 1_500, true);
    assert_eq!(text_of(&cell.raw_lines(escape))[1], "Monitor started · task t1 · persistent");
}

#[test]
fn monitors_say_how_they_ended() {
    let ended = |reason| {
        monitor_completed_detail("t1", CommandExecutionStatus::Failed, Some(reason), Some(1))
    };
    assert_eq!(ended(CommandMonitorTerminationReason::TimedOut), "Monitor timed out · task t1");
    assert_eq!(ended(CommandMonitorTerminationReason::UserStopped), "Monitor stopped · task t1");
    assert_eq!(ended(CommandMonitorTerminationReason::Stopped), "Monitor stopped · task t1");
    assert_eq!(
        ended(CommandMonitorTerminationReason::SessionShutdown),
        "Monitor stopped · task t1 · session ended"
    );
    assert_eq!(
        ended(CommandMonitorTerminationReason::Capacity),
        "Monitor stopped · task t1 · capacity limit"
    );
    assert_eq!(
        monitor_completed_detail("t1", CommandExecutionStatus::Failed, None, Some(-9)),
        "Monitor failed · task t1 · exit -9"
    );
    assert_eq!(
        monitor_completed_detail("t1", CommandExecutionStatus::InProgress, None, None),
        "Monitor running · task t1"
    );
    assert_eq!(
        monitor_completed_detail("t1", CommandExecutionStatus::Completed, None, Some(0)),
        "Monitor completed · task t1 · exit 0"
    );
    assert_eq!(
        monitor_completed_detail("t1", CommandExecutionStatus::Declined, None, None),
        "Monitor declined · task t1"
    );
    let cell = new_monitor_completed(
        "ready?".to_string(),
        "t1".to_string(),
        CommandExecutionStatus::Completed,
        None,
        Some("a\nb\n".to_string()),
        Some(0),
    );
    assert_eq!(cell.raw_lines(escape).len(), 4);
    let span = Span {
        text: "a".to_string(),
        style: Style { dim: Some(true), ..Style::plain() },
    };
    let rows = cell.display_rows(40, vec![Line { spans: vec![span.clone()] }], escape);
    assert_eq!(rows.len(), 3);
    assert_eq!(rows[2].initial_indent.text, "     ");
    assert_eq!(rows[2].line.spans, vec![span]);
}

#[test]
fn events_keep_empty_rows_but_for_the_last() {
    let cell = new_monitor_event("ready?".to_string(), "one\n\ntwo\n".to_string());
    assert_eq!(
        text_of(&cell.raw_lines(escape)),
        vec!["Monitor event: \"ready?\"", "one", "", "two"]
    );
    assert_eq!(split_detail("one\n\ntwo\n"), vec!["one", "", "two"]);
    assert!(split_detail("").is_empty());
    assert_eq!(cell.display_rows(9, escape).len(), 4);
}

#[test]
fn separators_say_how_long_a_turn_took() {
    let short = FinalMessageSeparator::new(Some(60), None);
    assert_eq!(short.label("1m 00s"), "");
    assert_eq!(short.raw_line("1m 00s"), None);
    assert_eq!(short.display_line("1m 00s", 5), "─────");
    let long = FinalMessageSeparator::new(Some(61), None);
    assert_eq!(long.label("1m 01s"), "Worked for 1m 01s");
    assert_eq!(long.display_line("1m 01s", 24), "─ Worked for 1m 01s ────");
    assert_eq!(long.display_line("1m 01s", 8), "─ Worked");
    let untimed = FinalMessageSeparator::new(None, None);
    assert_eq!(untimed.label(""), "");
}

#[test]
fn monitored_turns_say_it_in_any_case() {
    let separator = FinalMessageSeparator::new(Some(3), None)
        .with_background_processes(1, 2)
        .with_monitor_duration_verb("Brewed");
    assert_eq!(
        separator.label("3s"),
        "Brewed for 3s · 1 shell, 2 monitors still running"
    );
    let shells = FinalMessageSeparator::new(Some(3), None).with_background_processes(2, 0);
    assert_eq!(shells.label("3s"), "2 shells still running");
    assert_eq!(background_process_summary(0, 1).as_deref(), Some("1 monitor still running"));
    assert_eq!(background_process_summary(0, 0), None);
}

#[test]
fn verbs_are_drawn_from_the_list() {
    let verbs: Vec<&str> = (0..VERB_COUNT).map(monitor_duration_verb).collect();
    assert_eq!(
        verbs,
        vec!["Baked", "Brewed", "Churned", "Cogitated", "Cooked", "Crunched", "Sautéed", "Worked"]
    );
    for _ in 0..50 {
        assert!(verbs.contains(&random_monitor_duration_verb()));
    }
}

#[test]
fn metrics_are_listed_as_far_as_there_are_any() {
    assert_eq!(runtime_metrics_label(&nothing_measured()), None);
    let mut metrics = nothing_measured();
    metrics.tool_calls = measured(1, 250);
    metrics.api_calls = measured(3, 1_200);
    metrics.websocket_calls = measured(2, 10);
    metrics.streaming_events = measured(1, 5);
    metrics.websocket_events = measured(4, 6);
    metrics.responses_api_overhead = measured(7, 7);
    metrics.responses_api_inference_time = measured(8, 8);
    metrics.responses_api_engine_iapi_ttft = measured(9, 9);
    metrics.responses_api_engine_service_ttft = measured(10, 10);
    metrics.responses_api_engine_service_tbt = measured(11, 11);
    assert_eq!(
        runtime_metrics_label(&metrics).as_deref(),
        Some(
            "Local tools: 1 call (250ms) • Inference: 3 calls (1.2s) • WebSocket: 2 events send \
             (10ms) • Stream: 1 event (5ms) • 4 events received (6ms) • Responses API overhead: \
             7ms • Responses API inference: 8ms • TTFT: 9ms (iapi) 10ms (service) • TBT: 11ms \
             (service)"
        )
    );
    let separator = FinalMessageSeparator::new(Some(61), Some(metrics.clone()));
    assert!(separator.label("1m").starts_with("Worked for 1m • Local tools: 1 call"));
    metrics.streaming_events = measured(2, 5);
    assert!(runtime_metrics_label(&metrics).expect("label").contains("Streams: 2 events (5ms)"));
    let mut short = nothing_measured();
    short.responses_api_engine_iapi_tbt = measured(1, 0);
    assert_eq!(runtime_metrics_label(&short).as_deref(), Some("TBT: 0ms (iapi)"));
    assert_eq!(format_duration_ms(999, "1.0"), "999ms");
    assert_eq!(format_duration_ms(1_000, "1.0"), "1.0s");
    assert_eq!(pluralize(1, "call", "calls"), "call");
    assert_eq!(pluralize(0, "call", "calls"), "calls");
    let parts = vec!["a".to_string(), "b".to_string()];
    assert_eq!(footer_label(&parts, &None), "a • b");
    assert_eq!(footer_label(&parts, &Some("c".to_string())), "a • b · c");
}

#[test]
fn wide_characters_take_two_columns() {
    assert_eq!(take_prefix_by_width("列a列", 3), ("列a".to_string(), 3));
    assert_eq!(take_prefix_by_width("列a列", 4), ("列a".to_string(), 3));
    assert_eq!(take_prefix_by_width("列a列", 5), ("列a列".to_string(), 5));
    assert_eq!(take_prefix_by_width("abc", 0), (String::new(), 0));
}

#[test]
fn titles_come_from_the_first_heading() {
    assert_eq!(title_from_body("# Title\n\nBody", "fallback"), "Title");
    assert_eq!(title_from_body("Body", "fallback"), "fallback");
    assert!(require_section("# Title\n\n## Problem\n\nx", "Problem").is_ok());
    assert!(require_section("# Title", "Problem").is_err());
}

#[test]
fn blanks_at_the_ends_are_trimmed() {
    assert_eq!(trim("\t\u{3000} a b\u{a0}\u{2029}\n"), "a b");
    assert_eq!(trim("\u{200b}a\u{200b}"), "\u{200b}a\u{200b}");
    assert_eq!(trim(" \u{85}\u{1680}\u{202f}\u{205f}\u{2000}\u{200a}"), "");
}

#[test]
fn what_a_monitor_says_is_escaped() {
    let bright = Style { color: Some(Color::Rgb(1, 2, 3)), dim: Some(false), ..Style::plain() };
    let escape = |text: &str| Line {
        spans: vec![Span { text: text.replace('\t', "    "), style: bright }],
    };
    let cell = new_monitor_event("a\tb".to_string(), "c\td\ne".to_string());
    let lines = cell.raw_lines(escape);
    assert_eq!(text_of(&lines), vec!["Monitor event: \"a    b\"", "c    d", "e"]);
    assert_eq!(lines[0].spans[2].style, bright);
    assert_eq!(lines[1].spans[0].style, bright);
    let rows = cell.display_rows(20, escape);
    assert_eq!(rows[1].line.spans[0].text, "c    d");
    assert_eq!(rows[1].line.spans[0].style, bright);
    assert_eq!(rows[2].line.spans[0].text, "e");
}
