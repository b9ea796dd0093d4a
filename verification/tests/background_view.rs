//! The list of background processes and one of them in detail.
use qunux::background::{
    background_process_items, list_hint, truncate_utf16_units, BackgroundCommand,
    BackgroundMonitorOutputRequest, BackgroundProcessItem, BackgroundProcessesView, KeyCode,
    KeyPress, MonitorPollLifecycle, StopState, ViewCompletion, MONITOR_OUTPUT_POLL_INTERVAL,
};
use qunux::exec_state::{CommandMonitorInfo, UnifiedExecProcessSummary};
use qunux::monitor_output::{
    byte_unit, detail_output_state_from_snapshot, format_bytes, DetailOutputContent,
    DetailOutputState, ThreadBackgroundTerminalOutput,
};
use qunux::pages::DetailBody;
use qunux::styled::{Color, Line, Span, Style};

const MILLIS: u64 = 1_000_000;
const SECS: u64 = 1_000_000_000;
const NOW: u64 = 100 * SECS;
const REQUEST_TIMEOUT: u64 = 10 * SECS;
const MAX_ROWS: u16 = 8;
const THREAD_ID: u128 = 0x11111111_1111_4111_8111_111111111111;

fn key(code: KeyCode) -> KeyPress {
    KeyPress {
        released: false,
        code,
        unmodified: true,
        moves_left: code == KeyCode::Left,
        cancels: code == KeyCode::Esc,
        moves_up: false,
        moves_down: false,
        accepts: code == KeyCode::Enter,
    }
}

fn down() -> KeyPress {
    KeyPress { moves_down: true, ..key(KeyCode::Other) }
}

fn up() -> KeyPress {
    KeyPress { moves_up: true, ..key(KeyCode::Other) }
}

fn monitor_item() -> BackgroundProcessItem {
    BackgroundProcessItem {
        process_id: "401".to_string(),
        command_display: "tail -f app.log".to_string(),
        recent_output: vec!["ready".to_string(), "healthy".to_string()],
        monitor: Some(CommandMonitorInfo {
            task_id: "task-a1".to_string(),
            description: "deployment readiness".to_string(),
            timeout_ms: 300_000,
            persistent: false,
        }),
        started_at: NOW - 12 * SECS,
    }
}

fn second_monitor() -> BackgroundProcessItem {
    let mut item = monitor_item();
    item.process_id = "403".to_string();
    item.command_display = "watch second.log".to_string();
    let monitor = item.monitor.as_mut().expect("monitor");
    monitor.task_id = "task-b2".to_string();
    monitor.description = "second monitor".to_string();
    item
}

fn shell_item() -> BackgroundProcessItem {
    BackgroundProcessItem {
        process_id: "402".to_string(),
        command_display: "npm run dev".to_string(),
        recent_output: Vec::new(),
        monitor: None,
        started_at: NOW - 4 * SECS,
    }
}

fn view_with_command(
    items: Vec<BackgroundProcessItem>,
) -> (BackgroundProcessesView, Option<BackgroundCommand>) {
    BackgroundProcessesView::new(items, Some(THREAD_ID), MAX_ROWS, REQUEST_TIMEOUT, NOW)
}

fn view(items: Vec<BackgroundProcessItem>) -> BackgroundProcessesView {
    view_with_command(items).0
}

fn fetched(command: Option<BackgroundCommand>) -> BackgroundMonitorOutputRequest {
    let Some(BackgroundCommand::FetchMonitorOutput(request)) = command else {
        panic!("expected monitor output request");
    };
    request
}

fn output(
    tail: &str,
    bytes_total: u64,
    truncated: bool,
) -> Result<Option<ThreadBackgroundTerminalOutput>, String> {
    Ok(Some(ThreadBackgroundTerminalOutput { tail: tail.to_string(), bytes_total, truncated }))
}

fn monitor_view_with_output(
    tail: &str,
    bytes_total: u64,
    truncated: bool,
) -> BackgroundProcessesView {
    let (mut view, command) = view_with_command(vec![monitor_item()]);
    let request = fetched(command);
    let (changed, more) = view.update_background_monitor_output(
        request,
        output(tail, bytes_total, truncated),
        NOW + 100 * MILLIS,
    );
    assert!(changed);
    assert_eq!(more, None);
    view
}

fn size_text(bytes: u64) -> String {
    let quotient = match byte_unit(bytes) {
        Some((_, size)) => format!("{:.1}", bytes as f64 / size as f64),
        None => String::new(),
    };
    format_bytes(bytes, &quotient)
}

fn text_of(lines: &Vec<Line>) -> Vec<String> {
    lines
        .iter()
        .map(|line| line.spans.iter().map(|span| span.text.clone()).collect::<String>())
        .collect()
}

fn escape(text: &str) -> Line {
    Line { spans: vec![Span { text: text.to_string(), style: Style::plain() }] }
}

fn fit(text: &str, _columns: usize) -> Line {
    escape(text)
}

fn size_of(view: &BackgroundProcessesView) -> String {
    match view.detail_output_state() {
        DetailOutputState::Content(content) | DetailOutputState::Suspended(Some(content)) => {
            size_text(content.bytes_total.unwrap_or_default())
        }
        _ => String::new(),
    }
}

fn rendered(view: &BackgroundProcessesView, width: u16) -> String {
    let mut rows: Vec<String> = Vec::new();
    if view.detail_idx().is_some() {
        let height = view.detail_heights().0.saturating_sub(2);
        let page = view.render_detail("12s", 60, height, &size_of(view), escape, fit);
        rows.extend(text_of(&page.metadata));
        match page.body {
            DetailBody::Note(text) => rows.push(text.to_string()),
            DetailBody::Frame { lines, footer } => {
                rows.extend(text_of(&lines));
                rows.push(footer);
            }
        }
    } else {
        let page = view.render_list(width, MAX_ROWS, width);
        assert_eq!(page.title, "Background");
        rows.extend(text_of(&vec![page.subtitle_line(escape)]));
        rows.extend(page.placeholder.map(str::to_string));
        for row in page.rows {
            rows.extend(text_of(&vec![row.line(Style::plain(), fit)]));
        }
        rows.push(page.hint.to_string());
    }
    rows.join("\n")
}

fn lines_of(view: &BackgroundProcessesView) -> Vec<String> {
    match view.detail_output_state() {
        DetailOutputState::Content(content) => content.lines,
        DetailOutputState::Suspended(Some(content)) => content.lines,
        _ => Vec::new(),
    }
}

#[test]
fn empty_snapshot() {
    let view = view(Vec::new());
    assert_eq!(view.subtitle(), ("No active processes".to_string(), false));
    assert_eq!(view.list_rows(66, 1), Vec::new());
    assert_eq!(view.desired_height(0), 7);
    assert_eq!(view.detail_idx(), None);
}

#[test]
fn list_snapshot() {
    let view = view(vec![monitor_item(), shell_item()]);
    assert_eq!(view.subtitle(), ("1 shell, 1 monitor active".to_string(), false));
    let rows = view.list_rows(76, 2);
    assert_eq!(rows.len(), 2);
    assert_eq!((rows[0].selected, rows[0].prefix, rows[0].suffix), (true, "› ", " (running)"));
    assert_eq!(rows[0].label, "deployment readiness");
    assert_eq!(rows[0].label_width, 64);
    assert_eq!((rows[1].selected, rows[1].prefix, rows[1].suffix), (false, "  ", " (running)"));
    assert_eq!(rows[1].label, "npm run dev");
    assert_eq!(view.desired_height(0), 8);
}

#[test]
fn one_monitor_opens_detail_snapshot() {
    let view = monitor_view_with_output("ready\r\nhealthy\r\n", 16, false);
    assert_eq!(
        rendered(&view, 70),
        "Monitor details\n\nStatus: Running\nRuntime: 12s\nScript: tail -f app.log\n\nOutput:\n\
         ready\nhealthy\nShowing 2 lines"
    );
    assert_eq!(view.detail_runtime(NOW), Some(12));
    assert_eq!(view.desired_height(7), 22);
}

#[test]
fn monitor_loading_output_snapshot() {
    let mut monitor = monitor_item();
    monitor.recent_output.clear();
    let view = view(vec![monitor]);
    assert_eq!(
        rendered(&view, 70),
        "Monitor details\n\nStatus: Running\nRuntime: 12s\nScript: tail -f app.log\n\nOutput:\n\
         Loading output…"
    );
    assert_eq!(view.desired_height(7), 10);
}

#[test]
fn monitor_no_output_after_loading_snapshot() {
    let view = monitor_view_with_output("\r\n\r\n", 4, false);
    assert_eq!(view.detail_output_state(), DetailOutputState::NoOutput);
    assert!(rendered(&view, 70).ends_with("Output:\nNo output available"));
}

#[test]
fn monitor_truncated_output_snapshot() {
    let view = monitor_view_with_output("first\nsecond\nthird\n", 1536, true);
    assert!(rendered(&view, 70)
        .ends_with("Output:\nfirst\nsecond\nthird\nShowing 3 lines of 1.5KB"));
}

#[test]
fn shell_no_output_detail_snapshot() {
    let view = view(vec![shell_item()]);
    assert_eq!(
        rendered(&view, 70),
        "Shell details\n\nStatus: Running\nRuntime: 12s\nCommand: npm run dev\n\nOutput:\n\
         No output available"
    );
    assert_eq!(view.detail_runtime(NOW), Some(4));
}

#[test]
fn x_waits_for_confirmed_stop_and_keeps_failures_actionable() {
    let mut view = view(vec![monitor_item(), shell_item()]);
    assert_eq!(view.handle_key_event(down(), NOW), None);
    let stop = key(KeyCode::Char('x'));
    let command = view.handle_key_event(stop, NOW);

    assert_eq!(view.completion(), None);
    assert_eq!(command, Some(BackgroundCommand::TerminateProcess("402".to_string())));
    assert_eq!(view.handle_key_event(stop, NOW), None, "duplicate stop must be suppressed");
    assert_eq!(view.list_rows(40, 2)[1].suffix, " (stopping…)");

    assert!(view.apply_stop_response("402", Ok(false), escape));
    assert!(!view.is_complete());
    let shown = rendered(&view, 44);
    assert!(shown.contains("still running"));
    assert!(shown.contains("retry"));

    assert_eq!(
        view.handle_key_event(stop, NOW),
        Some(BackgroundCommand::TerminateProcess("402".to_string()))
    );
    assert!(view.apply_stop_response("402", Err("connection lost".to_string()), escape));
    assert!(!view.is_complete());
    let shown = rendered(&view, 70);
    assert!(shown.contains("Stop failed: connection lost"));
    assert!(shown.contains("Press x to retry"));

    view.handle_key_event(stop, NOW);
    assert!(view.apply_stop_response("402", Ok(true), escape));
    assert_eq!(view.completion(), Some(ViewCompletion::Accepted));
}

#[test]
fn shell_local_line_truncation_is_explicit_in_footer() {
    let mut item = shell_item();
    item.recent_output =
        vec![(1..=12).map(|line| format!("line{line}")).collect::<Vec<_>>().join("\n")];
    let view = view(vec![item]);
    let DetailOutputState::Content(content) = view.detail_output_state() else {
        panic!("expected shell output");
    };
    assert_eq!(content.lines.first().map(String::as_str), Some("line3"));
    assert!(content.lines_omitted);
    let shown = rendered(&view, 70);

    assert!(shown.contains("line3"));
    assert!(shown.contains("line12"));
    assert!(shown.contains("Showing last 10 lines"));
    assert!(shown.contains("earlier lines hidden"));
}

#[test]
fn enter_opens_details_and_left_returns_to_list() {
    let mut view = view(vec![monitor_item(), shell_item()]);

    view.handle_key_event(key(KeyCode::Enter), NOW);
    assert_eq!(view.detail_idx(), Some(0));
    assert!(!view.is_complete());

    view.handle_key_event(key(KeyCode::Left), NOW);
    assert_eq!(view.detail_idx(), None);
    assert!(!view.is_complete());
}

#[test]
fn escape_closes_details() {
    let mut view = view(vec![monitor_item()]);

    view.handle_key_event(key(KeyCode::Esc), NOW);

    assert_eq!(view.completion(), Some(ViewCompletion::Cancelled));
}

#[test]
fn live_update_refreshes_detail_and_completion_closes_it() {
    let mut view = monitor_view_with_output("authoritative output", 20, false);
    let mut updated = monitor_item();
    updated.recent_output = vec!["framed-only delta".to_string()];

    assert!(view.update_background_processes(vec![updated], NOW + 200 * MILLIS).0);
    let shown = rendered(&view, 70);
    assert!(shown.contains("authoritative output"));
    assert!(!shown.contains("framed-only delta"));
    assert!(!view.is_complete());

    assert!(view.update_background_processes(Vec::new(), NOW + 300 * MILLIS).0);
    assert!(view.is_complete());
}

#[test]
fn monitor_poll_is_throttled_and_has_only_one_in_flight_request() {
    let (mut view, command) = view_with_command(vec![monitor_item()]);
    let first = fetched(command);

    assert_eq!(
        view.pre_draw_tick(NOW + 2 * SECS),
        (false, None),
        "in-flight request must suppress polling"
    );

    let (changed, more) = view.update_background_monitor_output(
        first,
        output("ready", 5, false),
        NOW + 500 * MILLIS,
    );
    assert!(changed);
    assert_eq!(more, None);
    assert_eq!(view.pre_draw_tick(NOW + 999 * MILLIS), (false, None));
    let (changed, second) = view.pre_draw_tick(NOW + MONITOR_OUTPUT_POLL_INTERVAL);
    assert!(changed);
    assert!(second.is_some());
    assert_eq!(view.pre_draw_tick(NOW + MONITOR_OUTPUT_POLL_INTERVAL), (false, None));
}

#[test]
fn hung_monitor_poll_suspends_automatic_retries() {
    let (mut view, command) = view_with_command(vec![monitor_item()]);
    let first = fetched(command);

    assert_eq!(view.pre_draw_tick(NOW + REQUEST_TIMEOUT - MILLIS), (false, None));

    assert_eq!(view.pre_draw_tick(NOW + REQUEST_TIMEOUT), (true, None));
    assert_eq!(*view.monitor_poll_lifecycle(), MonitorPollLifecycle::Suspended);
    let shown = rendered(&view, 70);
    assert!(shown.contains("Output unavailable"));
    assert!(shown.contains("refresh paused"));
    assert_eq!(view.pre_draw_tick(NOW + REQUEST_TIMEOUT + 30 * SECS), (false, None));

    assert_eq!(
        view.update_background_monitor_output(
            first,
            output("stale output", 12, false),
            NOW + REQUEST_TIMEOUT + MILLIS,
        ),
        (false, None)
    );
    assert_eq!(*view.monitor_poll_lifecycle(), MonitorPollLifecycle::Suspended);
    assert!(!rendered(&view, 70).contains("stale output"));
}

#[test]
fn monitor_poll_error_suspends_automatic_retries() {
    let (mut view, command) = view_with_command(vec![monitor_item()]);
    let request = fetched(command);

    assert_eq!(
        view.update_background_monitor_output(
            request,
            Err("request timed out".to_string()),
            NOW + REQUEST_TIMEOUT,
        ),
        (true, None)
    );
    assert_eq!(*view.monitor_poll_lifecycle(), MonitorPollLifecycle::Suspended);
    assert_eq!(view.pre_draw_tick(NOW + REQUEST_TIMEOUT + 30 * SECS), (false, None));
    let shown = rendered(&view, 70);
    assert!(shown.contains("Output unavailable"));
    assert!(shown.contains("refresh paused"));
}

#[test]
fn monitor_poll_error_preserves_last_output_but_marks_it_stale() {
    let mut view = monitor_view_with_output("ready\nsecret from stderr", 24, false);
    let (changed, second) = view.pre_draw_tick(NOW + MONITOR_OUTPUT_POLL_INTERVAL);
    assert!(changed);
    assert_eq!(
        view.update_background_monitor_output(
            second.expect("second request"),
            Err("transport closed".to_string()),
            NOW + MONITOR_OUTPUT_POLL_INTERVAL + 100 * MILLIS,
        ),
        (true, None)
    );

    assert_eq!(*view.monitor_poll_lifecycle(), MonitorPollLifecycle::Suspended);
    assert!(matches!(view.detail_output_state(), DetailOutputState::Suspended(Some(_))));
    let shown = rendered(&view, 70);
    assert!(shown.contains("ready"));
    assert!(shown.contains("secret from stderr"));
    assert!(shown.contains("stale"));
    assert!(shown.contains("refresh paused"));
}

#[test]
fn switching_targets_replaces_hung_request_and_rejects_stale_responses() {
    let (mut view, command) = view_with_command(vec![monitor_item(), second_monitor()]);
    assert_eq!(command, None, "list view must not poll");

    let first = fetched(view.handle_key_event(key(KeyCode::Enter), NOW));
    assert_eq!(view.handle_key_event(key(KeyCode::Left), NOW + 10 * MILLIS), None);
    view.handle_key_event(down(), NOW + 15 * MILLIS);
    let second = fetched(view.handle_key_event(key(KeyCode::Enter), NOW + 20 * MILLIS));
    assert_eq!(second.process_id, "403");
    assert_eq!(second.task_id, "task-b2");

    assert_eq!(
        view.update_background_monitor_output(
            first,
            output("stale output", 12, false),
            NOW + 30 * MILLIS,
        ),
        (false, None)
    );
    assert!(!rendered(&view, 70).contains("stale output"));

    let mut wrong_generation = second.clone();
    wrong_generation.generation = wrong_generation.generation.wrapping_add(1);
    assert_eq!(
        view.update_background_monitor_output(
            wrong_generation,
            output("wrong generation", 16, false),
            NOW + 40 * MILLIS,
        ),
        (false, None)
    );
    assert!(matches!(
        view.monitor_poll_lifecycle(),
        MonitorPollLifecycle::InFlight { request, .. } if *request == second
    ));

    let (changed, _) = view.update_background_monitor_output(
        second,
        output("current output", 14, false),
        NOW + 50 * MILLIS,
    );
    assert!(changed);
    let shown = rendered(&view, 70);
    assert!(shown.contains("current output"));
    assert!(!shown.contains("wrong generation"));
}

#[test]
fn leaving_and_reopening_details_replaces_hung_request() {
    let mut view = view(vec![monitor_item(), shell_item()]);

    let first = fetched(view.handle_key_event(key(KeyCode::Enter), NOW));
    view.handle_key_event(key(KeyCode::Left), NOW);
    assert_eq!(view.detail_idx(), None);
    assert_eq!(*view.monitor_poll_lifecycle(), MonitorPollLifecycle::Idle);

    let reopened = fetched(view.handle_key_event(key(KeyCode::Enter), NOW));
    assert_eq!(reopened.thread_id, first.thread_id);
    assert_eq!(reopened.process_id, first.process_id);
    assert_eq!(reopened.task_id, first.task_id);
    assert_ne!(reopened.generation, first.generation);

    assert_eq!(
        view.update_background_monitor_output(first, output("stale output", 12, false), NOW),
        (false, None)
    );
    assert!(matches!(
        view.monitor_poll_lifecycle(),
        MonitorPollLifecycle::InFlight { request, .. } if *request == reopened
    ));
}

#[test]
fn reopened_popup_rejects_response_from_closed_instance() {
    let (mut closed_view, command) = view_with_command(vec![monitor_item()]);
    let closed_request = fetched(command);
    closed_view.handle_key_event(key(KeyCode::Esc), NOW);
    assert_eq!(closed_view.completion(), Some(ViewCompletion::Cancelled));

    let (mut reopened_view, command) = view_with_command(vec![monitor_item()]);
    let reopened_request = fetched(command);
    assert_ne!(reopened_request.generation, closed_request.generation);

    assert_eq!(
        reopened_view.update_background_monitor_output(
            closed_request,
            output("stale output", 12, false),
            NOW + MILLIS,
        ),
        (false, None)
    );
    assert!(matches!(
        reopened_view.monitor_poll_lifecycle(),
        MonitorPollLifecycle::InFlight { request, .. } if *request == reopened_request
    ));
}

#[test]
fn shell_and_unselected_monitor_do_not_poll() {
    let (mut shell_view, command) = view_with_command(vec![shell_item()]);
    assert_eq!(command, None);
    assert_eq!(shell_view.pre_draw_tick(NOW + SECS), (false, None));

    let (mut list_view, command) = view_with_command(vec![monitor_item(), shell_item()]);
    assert_eq!(command, None);
    assert_eq!(list_view.pre_draw_tick(NOW + SECS), (false, None));
}

#[test]
fn output_uses_last_ten_nonempty_crlf_lines_and_preserves_spaces() {
    let tail = "line1\r\n\r\nline2\r\nline3\r\n  padded  \r\n   \r\nline5\r\nline6\r\nline7\r\n\
                line8\r\nline9\r\nline10\r\nline11\r\nline12\r\n";
    let DetailOutputState::Content(DetailOutputContent { lines, lines_omitted, .. }) =
        detail_output_state_from_snapshot(Some(ThreadBackgroundTerminalOutput {
            tail: tail.to_string(),
            bytes_total: tail.len() as u64,
            truncated: true,
        }))
    else {
        panic!("expected content");
    };

    assert_eq!(
        lines,
        vec![
            "line3",
            "  padded  ",
            "line5",
            "line6",
            "line7",
            "line8",
            "line9",
            "line10",
            "line11",
            "line12",
        ]
    );
    assert!(lines_omitted);
}

#[test]
fn absent_or_whitespace_only_snapshot_has_no_output() {
    assert_eq!(detail_output_state_from_snapshot(None), DetailOutputState::NoOutput);
    assert_eq!(
        detail_output_state_from_snapshot(Some(ThreadBackgroundTerminalOutput {
            tail: "  \r\n\t\r\n".to_string(),
            bytes_total: 7,
            truncated: false,
        })),
        DetailOutputState::NoOutput
    );
}

#[test]
fn human_bytes_uses_binary_units_without_unit_spacing() {
    assert_eq!(size_text(0), "0 bytes");
    assert_eq!(size_text(1023), "1023 bytes");
    assert_eq!(size_text(1024), "1KB");
    assert_eq!(size_text(1536), "1.5KB");
    assert_eq!(size_text(1024 * 1024), "1MB");
    assert_eq!(size_text(5 * 1024 * 1024 + 512 * 1024), "5.5MB");
    assert_eq!(size_text(1024 * 1024 * 1024), "1GB");
}

#[test]
fn selection_wraps_and_scrolls_into_view() {
    let items: Vec<BackgroundProcessItem> = (0..10)
        .map(|i| BackgroundProcessItem { process_id: format!("{i}"), ..shell_item() })
        .collect();
    let mut view = view(items);
    view.handle_key_event(up(), NOW);
    assert_eq!(view.scroll().selected_idx, Some(9));
    assert_eq!(view.scroll().scroll_top, 2);
    assert_eq!(view.list_rows(40, 8).len(), 8);
    view.handle_key_event(down(), NOW);
    assert_eq!(view.scroll().selected_idx, Some(0));
    assert_eq!(view.scroll().scroll_top, 0);
    assert_eq!(view.desired_height(0), 14);
}

#[test]
fn the_process_in_detail_is_followed() {
    let mut view = view(vec![monitor_item(), shell_item()]);
    view.handle_key_event(down(), NOW);
    view.handle_key_event(key(KeyCode::Enter), NOW);
    assert_eq!(view.detail_idx(), Some(1));
    view.update_background_processes(vec![shell_item(), monitor_item()], NOW);
    assert_eq!(view.detail_idx(), Some(0));
    assert_eq!(view.selected_index(), Some(0));
    assert!(!view.is_complete());
    view.update_background_processes(vec![monitor_item()], NOW);
    assert_eq!(view.completion(), Some(ViewCompletion::Cancelled));
}

#[test]
fn words_on_other_processes_are_ignored() {
    let mut view = view(vec![shell_item()]);
    assert!(!view.apply_stop_response("402", Ok(true), escape));
    view.handle_key_event(key(KeyCode::Char('x')), NOW);
    assert!(!view.apply_stop_response("999", Ok(true), escape));
    assert_eq!(*view.stop_state(), StopState::InFlight { process_id: "402".to_string() });
    assert!(view.apply_stop_response("402", Err("gone".to_string()), escape));
    let lines = view.detail_metadata_lines("4s", escape);
    assert_eq!(lines[3].spans[0].text, "Stop failed: gone. Press x to retry.");
    assert_eq!(lines[3].spans[0].style.color, Some(Color::Red));
}

#[test]
fn released_and_modified_keys_do_not_stop() {
    let mut view = view(vec![shell_item()]);
    let released = KeyPress { released: true, ..key(KeyCode::Char('x')) };
    assert_eq!(view.handle_key_event(released, NOW), None);
    let modified = KeyPress { unmodified: false, ..key(KeyCode::Char('x')) };
    assert_eq!(view.handle_key_event(modified, NOW), None);
    assert_eq!(*view.stop_state(), StopState::Idle);
}

#[test]
fn commands_are_cut_in_utf16_units() {
    assert_eq!(truncate_utf16_units("ab🚀c", 3), "ab");
    assert_eq!(truncate_utf16_units("ab🚀c", 4), "ab🚀");
    let mut item = shell_item();
    item.command_display = "é".repeat(300);
    let view = view(vec![item]);
    let lines = view.detail_metadata_lines("4s", escape);
    assert_eq!(lines[4].spans[1].text.chars().count(), 280);
}

#[test]
fn narrow_lists_give_a_short_hint() {
    assert_eq!(list_hint(44), "↑/↓ select · Enter view · x stop · Esc close");
    assert_eq!(list_hint(43), "↑/↓ · Enter · x stop · Esc");
}

#[test]
fn processes_are_listed_with_what_they_watch_for() {
    let mut process = UnifiedExecProcessSummary::new(
        "7".to_string(),
        "call".to_string(),
        "make".to_string(),
        None,
        5,
    );
    process.record_output("one\ntwo  \n\n");
    let items = background_process_items(&vec![process]);
    assert_eq!(items[0].process_id, "7");
    assert_eq!(items[0].recent_output, vec!["one", "two"]);
    assert_eq!(items[0].monitor, None);
    assert_eq!(items[0].started_at, 5);
    assert_eq!(lines_of(&view(items)), vec!["one", "two"]);
}

#[test]
fn requests_are_numbered_by_random_uuids() {
    let (_, command) = view_with_command(vec![monitor_item()]);
    let generation = fetched(command).generation;
    assert_eq!((generation >> 76) & 0xf, 4);
    assert_eq!((generation >> 62) & 0x3, 2);
}

#[test]
fn a_small_frame_shows_the_first_lines() {
    let view = monitor_view_with_output("one\ntwo\nthree", 13, true);
    let page = view.render_detail("12s", 60, 2, &size_of(&view), escape, fit);
    assert_eq!(
        page.body,
        DetailBody::Frame {
            lines: vec![escape("one"), escape("two")],
            footer: "Showing 2 lines of 13 bytes".to_string(),
        }
    );
    assert_eq!(view.detail_heights(), (12, 1));
}

#[test]
fn notes_stand_in_place_of_output() {
    let loading = view(vec![monitor_item()]);
    assert_eq!(loading.detail_heights(), (1, 0));
    assert_eq!(
        loading.render_detail("12s", 60, 10, "", escape, fit).body,
        DetailBody::Note("Loading output…")
    );
    let silent = view(vec![shell_item()]);
    assert_eq!(
        silent.render_detail("4s", 60, 10, "", escape, fit).body,
        DetailBody::Note("No output available")
    );
}

#[test]
fn an_empty_list_says_so() {
    let page = view(Vec::new()).render_list(40, MAX_ROWS, 40);
    assert_eq!(page.subtitle, "No active processes");
    assert_eq!(page.placeholder, Some("No tasks currently running"));
    assert!(page.rows.is_empty());
    assert!(!page.failed);
    let page = view(vec![monitor_item(), shell_item()]).render_list(40, 1, 80);
    assert_eq!(page.subtitle, "1 shell, 1 monitor active");
    assert_eq!(page.placeholder, None);
    assert_eq!(page.rows.len(), 1);
    assert_eq!(page.hint, "↑/↓ select · Enter view · x stop · Esc close");
}

fn marked(text: &str) -> Line {
    let style = Style { color: Some(Color::LightGreen), bold: Some(false), ..Style::plain() };
    let rest = text.replace('\t', "    ");
    Line {
        spans: vec![
            Span { text: "<".to_string(), style: Style::plain() },
            Span { text: format!("{rest}>"), style },
        ],
    }
}

fn marked_within(text: &str, columns: usize) -> Line {
    let mut line = marked(text);
    line.spans[1].text = format!("{}:{columns}", line.spans[1].text);
    line
}

#[test]
fn an_error_is_kept_as_its_escaped_text() {
    let mut view = view(vec![shell_item(), monitor_item()]);
    view.handle_key_event(key(KeyCode::Char('x')), NOW);
    let StopState::InFlight { process_id } = view.stop_state() else {
        panic!("expected a stop under way");
    };
    let process_id = process_id.clone();
    assert!(view.apply_stop_response(&process_id, Err("a\tb".to_string()), marked));
    assert_eq!(
        *view.stop_state(),
        StopState::Failed { message: "Stop failed: <a    b>. Press x to retry.".to_string() }
    );
    let page = view.render_list(60, MAX_ROWS, 60);
    assert!(page.failed);
    let subtitle = page.subtitle_line(marked);
    assert_eq!(subtitle.spans[0].style.color, Some(Color::Red));
    assert_eq!(subtitle.spans[1].style.color, Some(Color::LightGreen));
    assert_eq!(subtitle.spans[1].text, "Stop failed: <a    b>. Press x to retry.>");
}

#[test]
fn labels_are_escaped_and_fitted_below_the_accent() {
    let view = view(vec![shell_item(), monitor_item()]);
    let accent = Style { color: Some(Color::Cyan), bold: Some(true), ..Style::plain() };
    let rows = view.list_rows(40, 2);
    let line = rows[0].line(accent, marked_within);
    let columns = rows[0].label_width;
    assert_eq!(line.spans.len(), 4);
    assert_eq!(line.spans[0], Span { text: "› ".to_string(), style: accent });
    assert_eq!(line.spans[2].text, format!("{}>:{columns}", rows[0].label));
    assert_eq!(line.spans[2].style, accent);
    assert_eq!(line.spans[3].style, Style { dim: Some(true), ..accent });
    let line = rows[1].line(accent, marked_within);
    assert_eq!(line.spans[0].style, Style::plain());
    assert_eq!(line.spans[2].style.color, Some(Color::LightGreen));
    assert_eq!(line.spans[2].style.bold, Some(false));
}

#[test]
fn the_command_and_the_output_are_escaped() {
    let view = monitor_view_with_output("one\ntwo\nthree", 13, true);
    let page = view.render_detail("12s", 9, 2, &size_of(&view), marked, marked_within);
    assert_eq!(page.metadata[4].spans[0].text, "Script: ");
    assert_eq!(page.metadata[4].spans[1].text, "<");
    assert_eq!(page.metadata[4].spans[2].style.color, Some(Color::LightGreen));
    let DetailBody::Frame { lines, .. } = page.body else {
        panic!("expected a frame");
    };
    assert_eq!(text_of(&lines), vec!["<one>:9", "<two>:9"]);
}
