//! Processes left running: what they said, how they are counted and how they end.
use qunux::exec_state::{
    is_standard_tool_call, is_unified_exec_source, truncate_utf8_tail, CommandMonitorInfo,
    ExecCommandSource, ParsedCommand, UnifiedExecProcessKind, UnifiedExecProcessSummary,
    UnifiedExecWaitState, UnifiedExecWaitStreak, MAX_MONITOR_OUTPUT_BYTES,
};
use qunux::footer::UnifiedExecFooter;
use qunux::pty::{
    exit_code_from_status, output_complete, reader_step, received_exit_code, resize_route,
    unsupported_signal, CombinedOutput, OutputStream, ProcessSignal, ProcessState, ReaderEvent,
    ReaderStep, ResizeRoute, TerminalSize, TerminationError, TerminationStep,
};

fn monitor_summary() -> UnifiedExecProcessSummary {
    UnifiedExecProcessSummary::new(
        "401".to_string(),
        "monitor-call".to_string(),
        "tail -f app.log".to_string(),
        Some(CommandMonitorInfo {
            task_id: "task-a1".to_string(),
            description: "deployment readiness".to_string(),
            timeout_ms: 300_000,
            persistent: false,
        }),
        0,
    )
}

#[test]
fn monitor_batch_stays_single_event_and_detail_keeps_last_ten_lines() {
    let mut summary = monitor_summary();
    let output = (0..12).map(|idx| format!("line {idx}")).collect::<Vec<_>>().join("\n");

    let batch = summary.record_output(&output).expect("monitor batch");

    assert_eq!(batch.event, output);
    assert_eq!(batch.description, "deployment readiness");
    assert_eq!(summary.recent_chunks.len(), 10);
    assert_eq!(summary.recent_chunks.first().map(String::as_str), Some("line 2"));
    assert_eq!(summary.recent_chunks.last().map(String::as_str), Some("line 11"));
}

#[test]
fn monitor_output_tail_is_utf8_safe_and_bounded_to_eight_kib() {
    let mut summary = monitor_summary();
    summary.record_output(&"é".repeat(5_000));

    let UnifiedExecProcessKind::Monitor(monitor) = &summary.kind else {
        panic!("expected monitor state");
    };
    assert!(monitor.output_tail.len() <= MAX_MONITOR_OUTPUT_BYTES);
    assert!(monitor.output_tail.ends_with('é'));
}

#[test]
fn monitor_output_tail_separates_authoritative_batches() {
    let mut summary = monitor_summary();

    summary.record_output("ready");
    summary.record_output("healthy");

    let UnifiedExecProcessKind::Monitor(monitor) = &summary.kind else {
        panic!("expected monitor state");
    };
    assert_eq!(monitor.output_tail, "ready\nhealthy");
    assert_eq!(summary.recent_chunks, vec!["ready", "healthy"]);
}

#[test]
fn terminals_keep_three_lines_and_report_nothing() {
    let mut terminal = UnifiedExecProcessSummary::new(
        "1".to_string(),
        "call".to_string(),
        "make".to_string(),
        None,
        0,
    );
    assert_eq!(terminal.record_output("a\n  \nb \r\nc\n"), None);
    assert_eq!(terminal.record_output("d"), None);
    assert_eq!(terminal.recent_chunks, vec!["b", "c", "d"]);
    assert_eq!(terminal.monitor_info(), None);
    terminal.reset("again".to_string(), "make all".to_string(), None, 9);
    assert_eq!(terminal.key, "1");
    assert_eq!(terminal.call_id, "again");
    assert_eq!(terminal.started_at, 9);
    assert!(terminal.recent_chunks.is_empty());
}

#[test]
fn the_tail_is_cut_between_characters() {
    assert_eq!(truncate_utf8_tail("aéb", 4), "aéb");
    assert_eq!(truncate_utf8_tail("aéb", 3), "éb");
    assert_eq!(truncate_utf8_tail("aéb", 2), "b");
    assert_eq!(truncate_utf8_tail("a🚀", 4), "🚀");
    assert_eq!(truncate_utf8_tail("a列", 3), "列");
    assert_eq!(truncate_utf8_tail("a🚀", 0), "");
}

#[test]
fn carriage_returns_do_not_reach_events() {
    let mut summary = monitor_summary();
    let batch = summary.record_output("one\r\ntwo\r").expect("batch");
    assert_eq!(batch.event, "one\ntwo");
    assert_eq!(summary.recent_chunks, vec!["one", "two"]);
    assert_eq!(summary.record_output("\n"), None);
}

#[test]
fn waits_for_the_same_command_are_told_apart() {
    let state = UnifiedExecWaitState::new("make".to_string());
    assert!(state.is_duplicate("make"));
    assert!(!state.is_duplicate("make all"));
    let mut streak = UnifiedExecWaitStreak::new("7".to_string(), Some(String::new()));
    assert_eq!(streak.command_display, None);
    streak.update_command_display(Some(String::new()));
    assert_eq!(streak.command_display, None);
    streak.update_command_display(Some("make".to_string()));
    streak.update_command_display(Some("other".to_string()));
    assert_eq!(streak.command_display.as_deref(), Some("make"));
}

#[test]
fn sources_and_tool_calls_are_recognized() {
    assert!(is_unified_exec_source(ExecCommandSource::UnifiedExecStartup));
    assert!(is_unified_exec_source(ExecCommandSource::UnifiedExecInteraction));
    assert!(!is_unified_exec_source(ExecCommandSource::Agent));
    assert!(!is_unified_exec_source(ExecCommandSource::UserShell));
    assert!(is_standard_tool_call(&vec![ParsedCommand::Known]));
    assert!(!is_standard_tool_call(&vec![ParsedCommand::Known, ParsedCommand::Unknown]));
    assert!(!is_standard_tool_call(&Vec::new()));
}

#[test]
fn desired_height_empty() {
    let footer = UnifiedExecFooter::new();
    assert_eq!(footer.desired_height(40), 0);
}

#[test]
fn render_more_sessions() {
    let mut footer = UnifiedExecFooter::new();
    footer.set_process_counts(1, 0);
    assert_eq!(footer.desired_height(50), 1);
    assert_eq!(
        footer.render_line(50).as_deref(),
        Some("  1 background terminal running · /ps to view · /s")
    );
}

#[test]
fn render_many_sessions() {
    let mut footer = UnifiedExecFooter::new();
    footer.set_process_counts(123, 0);
    assert_eq!(footer.desired_height(50), 1);
    assert_eq!(
        footer.render_line(50).as_deref(),
        Some("  123 background terminals running · /ps to view ·")
    );
}

#[test]
fn render_one_monitor() {
    let mut footer = UnifiedExecFooter::new();
    footer.set_process_counts(0, 1);
    assert_eq!(footer.desired_height(50), 1);
    assert_eq!(footer.render_line(50).as_deref(), Some("  1 monitor · ↓ to manage"));
}

#[test]
fn render_mixed_processes() {
    let mut footer = UnifiedExecFooter::new();
    assert!(footer.set_process_counts(1, 2));
    assert!(!footer.set_process_counts(1, 2));
    assert_eq!(footer.desired_height(90), 1);
    assert_eq!(footer.render_line(90).as_deref(), Some("  1 shell, 2 monitors · ↓ to manage"));
    assert_eq!(footer.render_line(3), None);
}

#[test]
fn exit_codes_stand_for_codes_and_signals() {
    assert_eq!(exit_code_from_status(Some(3), Some(9)), 3);
    assert_eq!(exit_code_from_status(None, Some(9)), 137);
    assert_eq!(exit_code_from_status(None, None), -1);
    assert_eq!(received_exit_code(Some(0)), 0);
    assert_eq!(received_exit_code(None), -1);
    assert_eq!(TerminalSize::default(), TerminalSize { rows: 24, cols: 80 });
    assert_eq!(
        unsupported_signal(ProcessSignal::Interrupt),
        "process interrupt is not supported by this process backend"
    );
}

#[test]
fn a_process_is_killed_once_and_forced_until_it_is_over() {
    let running = ProcessState { exited: false, output_closed: false, has_terminator: true };
    let mut state = running;
    assert_eq!(state.request_terminate(false), TerminationStep::Kill);
    assert_eq!(state.request_terminate(false), TerminationStep::Nothing);
    assert_eq!(state.try_request_terminate(), Err(TerminationError::Unavailable));

    let left_behind = ProcessState { exited: true, output_closed: false, has_terminator: true };
    assert_eq!(
        left_behind.try_request_terminate(),
        Ok(TerminationStep::ForceKill { root_exited: true })
    );
    let mut kept = left_behind;
    assert_eq!(kept.request_terminate(true), TerminationStep::Nothing);
    assert!(kept.has_terminator);
    assert_eq!(kept.confirm_termination(), Err(TerminationError::StillRunning));
    assert_eq!(
        TerminationError::StillRunning.message(),
        "process root or output readers are still running"
    );
    assert_eq!(TerminationError::Unavailable.message(), "process terminator is unavailable");

    let mut over = ProcessState { exited: true, output_closed: true, has_terminator: true };
    assert_eq!(over.try_request_terminate(), Ok(TerminationStep::Nothing));
    assert_eq!(over.confirm_termination(), Ok(()));
    assert!(!over.has_terminator);
    assert_eq!(over.request_terminate(false), TerminationStep::Nothing);
}

#[test]
fn output_is_combined_until_both_streams_end() {
    let mut output = CombinedOutput::new();
    assert_eq!(output.received(OutputStream::Stdout, Some(vec![1, 2])), Some(vec![1, 2]));
    assert_eq!(output.received(OutputStream::Stdout, None), None);
    assert!(!output.finished());
    assert_eq!(output.received(OutputStream::Stderr, Some(vec![3])), Some(vec![3]));
    assert_eq!(output.received(OutputStream::Stderr, None), None);
    assert!(output.finished());
}

#[test]
fn readers_go_on_after_the_exit() {
    assert_eq!(reader_step(ReaderEvent::ExitSeen), ReaderStep::Wait);
    assert_eq!(reader_step(ReaderEvent::Lagged), ReaderStep::Wait);
    assert_eq!(reader_step(ReaderEvent::Chunk), ReaderStep::Forward);
    assert_eq!(reader_step(ReaderEvent::Closed), ReaderStep::End { complete: true });
    assert_eq!(reader_step(ReaderEvent::ReceiverGone), ReaderStep::End { complete: false });
    assert!(output_complete(Some(true), None));
    assert!(output_complete(Some(true), Some(Some(true))));
    assert!(!output_complete(Some(true), Some(Some(false))));
    assert!(!output_complete(Some(true), Some(None)));
    assert!(!output_complete(None, None));
}

#[test]
fn terminals_are_resized_where_they_are_held() {
    assert_eq!(resize_route(true, true), Ok(ResizeRoute::Terminal));
    assert_eq!(resize_route(false, true), Ok(ResizeRoute::Callback));
    assert_eq!(resize_route(false, false), Err("process is not attached to a PTY"));
}
