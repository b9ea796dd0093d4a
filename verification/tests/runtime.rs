//! Processes from their root problem to its end.
use qunux::{
    CheckStatus, ContextForkPolicy, EntityKind, EventKey, IoEventKind, IoHandleKind,
    IoHandleStatus, NextAction, NextDisposition, PassiveEventInput, PassiveEventKind,
    PassiveEventStatus, ProblemStatus, QunuxError, QunuxRuntime, RunnableThread, RuntimeContext,
    ThreadStatus, TicketChildMode, TicketClassification, TicketStatus, WaitCommand, WaitMode,
    WaitResult, WaitSpec, WaitSpecKind, WaitStatus, DEFAULT_PROCESS_ID,
    DEFAULT_ROOT_PROBLEM_BODY, DEFAULT_ROOT_PROBLEM_TITLE, DEFAULT_THREAD_ID,
    LEGACY_DEFAULT_ROOT_PROBLEM_TITLE,
};

fn runtime() -> QunuxRuntime {
    let context = RuntimeContext::new("/tmp/workspace");
    QunuxRuntime::load_or_init(context, None, "Root task", "# Root task\n\nBody").expect("init")
}

fn solve_one_go(runtime: &mut QunuxRuntime, problem_id: &str) -> (String, String, String) {
    let ticket_id = runtime
        .create_ticket(problem_id, "Ticket", "# Ticket\n\nBody")
        .expect("ticket");
    runtime
        .classify_ticket(&ticket_id, TicketClassification::OneGo, "bounded")
        .expect("classify");
    runtime
        .set_status(EntityKind::Problem, problem_id, "doing")
        .expect("problem doing");
    let result_id = runtime
        .record_result(&ticket_id, "Result", "# Result\n\nDone")
        .expect("result");
    let check_id = runtime
        .check(
            problem_id,
            CheckStatus::Success,
            vec![result_id.clone()],
            "Check",
            "# Check\n\nSuccess",
            None,
        )
        .expect("check");
    (ticket_id, result_id, check_id)
}

fn runtime_with_failed_check_followup() -> (QunuxRuntime, String, String) {
    let mut runtime = runtime();
    let ticket = runtime
        .create_ticket("P000", "Ticket", "# Ticket")
        .expect("ticket");
    runtime
        .classify_ticket(&ticket, TicketClassification::OneGo, "bounded")
        .expect("classify");
    runtime
        .set_status(EntityKind::Problem, "P000", "doing")
        .expect("doing");
    let result = runtime
        .record_result(&ticket, "Result", "# Result")
        .expect("result");
    let check = runtime
        .check(
            "P000",
            CheckStatus::NotSuccess,
            vec![result],
            "Check",
            "# Check",
            Some(("Follow up".to_string(), "# Follow up".to_string())),
        )
        .expect("not success");
    let followup = runtime.state().checks.get(&check).expect("entry")
        .followup_problem_id
        .clone()
        .expect("follow-up");
    (runtime, check, followup)
}

fn runtime_with_user_task_child() -> QunuxRuntime {
    let mut runtime = runtime();
    runtime
        .receive_passive_event(PassiveEventInput {
            kind: PassiveEventKind::UserInput,
            event_key: None,
            target_thread_id: Some(DEFAULT_THREAD_ID.to_string()),
            condition: Some("task".to_string()),
            source: Some("chat".to_string()),
            summary: "user gave a task".to_string(),
            payload_ref: Some("turn:task".to_string()),
            dedupe_key: Some("msg-task".to_string()),
        })
        .expect("receive passive event");
    runtime
        .create_user_task_from_inbox(
            "IN000",
            "User task",
            "# User task\n\n## Problem\n\nDo the task.\n\n## Success Criteria\n\n- Done.",
            "actionable user input converted to child problem",
        )
        .expect("create user task");
    runtime.validate().expect("valid user-task child");
    runtime
}

#[test]
fn runtime_persists_root_state() {
    let context = RuntimeContext::new("/tmp/workspace");
    let runtime =
        QunuxRuntime::load_or_init(context.clone(), None, "Root task", "# Root task\n\nBody")
            .expect("init");
    assert_eq!(runtime.state().root_problem_id, "P000");
    assert_eq!(
        context.state_path(),
        "/tmp/workspace/.qunux/processes/QP000/closure.json"
    );

    let loaded = QunuxRuntime::load(context, runtime.state().clone());
    assert_eq!(loaded.state().problems.get("P000").expect("entry").title, "Root task");
}

#[test]
fn default_root_problem_is_process_mission_without_precreated_work() {
    let context = RuntimeContext::new("/tmp/workspace");
    let runtime = QunuxRuntime::load_or_init(
        context,
        None,
        DEFAULT_ROOT_PROBLEM_TITLE,
        DEFAULT_ROOT_PROBLEM_BODY,
    )
    .expect("init");

    let state = runtime.state();
    assert_eq!(state.problems.len(), 1);
    assert_eq!(state.root_problem_id, "P000");
    let root = &state.problems.get("P000").expect("entry");
    assert_eq!(root.title, DEFAULT_ROOT_PROBLEM_TITLE);
    assert!(root.body.contains("## Problem"));
    assert!(root.body.contains("## Success Criteria"));
    assert!(root.body.contains("exactly this root problem"));
    assert!(root.body.contains("does not pre-create a ticket"));
    assert!(root.body.contains("headless-first Agent OS process"));
    assert!(
        root.body
            .contains("TUI cockpit, chat transcript, shell, files, tools, timers")
    );
    assert!(
        root.body
            .contains("lifecycle mission, not an initialization task")
    );
    assert!(root.body.contains("park the thread with `qunux.wait`"));
    assert!(
        root.body
            .contains("Keep visible user replies separate from Qunux state mutation")
    );
    assert!(
        root.body
            .contains("Close this root only for an explicit shutdown/end-of-process request")
    );
    assert!(root.ticket_id.is_none());
    assert!(root.child_problem_ids.is_empty());
    assert!(root.followup_problem_ids.is_empty());
    assert!(root.result_ids.is_empty());
    assert!(root.check_ids.is_empty());

    assert!(state.tickets.is_empty());
    assert!(state.results.is_empty());
    assert!(state.checks.is_empty());
    assert!(state.waits.is_empty());
    assert!(state.handles.is_empty());
    assert!(state.passive_events.is_empty());
    assert!(state.inbox.is_empty());
    assert!(state.io_events.is_empty());

    let next = runtime.next();
    assert_eq!(next.action, NextAction::CreateSolutionTicket);
    assert_eq!(next.disposition, NextDisposition::Runnable);
    assert_eq!(runtime.state().tickets.len(), 0);
    assert_eq!(runtime.state().waits.len(), 0);
}

#[test]
fn load_or_init_upgrades_legacy_pristine_root_problem() {
    let context = RuntimeContext::new("/tmp/workspace");
    let first = QunuxRuntime::load_or_init(
        context.clone(),
        None,
        LEGACY_DEFAULT_ROOT_PROBLEM_TITLE,
        "# Qunux root task\n\n## Problem\n\nOld placeholder.",
    )
    .expect("legacy init");
    assert_eq!(
        first.state().problems.get("P000").expect("entry").title,
        LEGACY_DEFAULT_ROOT_PROBLEM_TITLE
    );

    let upgraded = QunuxRuntime::load_or_init(
        context,
        Some(first.state().clone()),
        DEFAULT_ROOT_PROBLEM_TITLE,
        DEFAULT_ROOT_PROBLEM_BODY,
    )
    .expect("upgrade");

    let root = &upgraded.state().problems.get("P000").expect("entry");
    assert_eq!(root.title, DEFAULT_ROOT_PROBLEM_TITLE);
    assert!(root.body.contains("This Qunux process exists"));
    assert!(
        upgraded
            .state()
            .events
            .iter()
            .any(|event| event.kind == "root_problem_upgraded")
    );
}

#[test]
fn load_or_init_does_not_upgrade_non_pristine_legacy_root_problem() {
    let context = RuntimeContext::new("/tmp/workspace");
    let mut first = QunuxRuntime::load_or_init(
        context.clone(),
        None,
        LEGACY_DEFAULT_ROOT_PROBLEM_TITLE,
        "# Qunux root task\n\n## Problem\n\nOld placeholder.",
    )
    .expect("legacy init");
    first
        .create_ticket("P000", "Existing work", "# Existing work")
        .expect("ticket");

    let reloaded = QunuxRuntime::load_or_init(
        context,
        Some(first.state().clone()),
        DEFAULT_ROOT_PROBLEM_TITLE,
        DEFAULT_ROOT_PROBLEM_BODY,
    )
    .expect("reload");

    assert_eq!(
        reloaded.state().problems.get("P000").expect("entry").title,
        LEGACY_DEFAULT_ROOT_PROBLEM_TITLE
    );
}

#[test]
fn rejects_path_like_ids() {
    let err = RuntimeContext::with_ids("/tmp", "../escape", "QT000").expect_err("invalid");
    assert!(matches!(err, QunuxError::InvalidId(_)));
}

#[test]
fn rejects_invalid_session_ids_before_process_path_derivation() {
    for invalid in ["", ".", "..", "../escape", "bad/session", "bad\\session"] {
        let err = RuntimeContext::for_session("/tmp/workspace", invalid)
            .expect_err("invalid session id");
        assert!(
            matches!(err, QunuxError::InvalidId(_)),
            "expected InvalidId for {invalid:?}, got {err:?}"
        );
    }
}

#[test]
fn session_context_derives_stable_safe_process_id() {
    let context =
        RuntimeContext::for_session("/tmp/workspace", "codex-session-001").expect("context");
    assert_eq!(context.process_id, "QP-codex-session-001");
    assert_eq!(context.thread_id, DEFAULT_THREAD_ID);
    assert_eq!(
        context.actor_session_id.as_deref(),
        Some("codex-session-001")
    );

    let second =
        RuntimeContext::for_session("/tmp/workspace", "codex-session-001").expect("context");
    assert_eq!(context.process_id, second.process_id);

    let other =
        RuntimeContext::for_session("/tmp/workspace", "codex-session-002").expect("context");
    assert_ne!(context.process_id, other.process_id);
}

#[test]
fn session_bound_runtime_separates_sessions_in_same_workspace() {
    let first = QunuxRuntime::load_or_init_for_session(
        "/tmp/workspace",
        "codex-session-001",
        None,
        "First root",
        "# First root",
    )
    .expect("first init");
    let second = QunuxRuntime::load_or_init_for_session(
        "/tmp/workspace",
        "codex-session-002",
        None,
        "Second root",
        "# Second root",
    )
    .expect("second init");

    assert_ne!(first.context().process_id, second.context().process_id);
    assert_ne!(first.context().state_path(), second.context().state_path());
    assert_eq!(first.state().problems.get("P000").expect("entry").title, "First root");
    assert_eq!(second.state().problems.get("P000").expect("entry").title, "Second root");

    let reloaded_first = QunuxRuntime::load_or_init_for_session(
        "/tmp/workspace",
        "codex-session-001",
        Some(first.state().clone()),
        "Ignored root",
        "# Ignored root",
    )
    .expect("reload first");
    assert_eq!(reloaded_first.state().problems.get("P000").expect("entry").title, "First root");
    assert_eq!(
        reloaded_first.context().process_id,
        first.context().process_id
    );
}

#[test]
fn session_bound_runtime_persists_process_metadata() {
    let runtime = QunuxRuntime::load_or_init_for_session(
        "/tmp/workspace",
        "codex-session-001",
        None,
        "Root task",
        "# Root task",
    )
    .expect("init");

    assert_eq!(runtime.context().process_id, "QP-codex-session-001");
    assert_eq!(runtime.context().thread_id, DEFAULT_THREAD_ID);
    assert_eq!(runtime.state().process.id, runtime.state().process_id);
    assert_eq!(
        runtime.state().process.root_actor_session_id.as_deref(),
        Some("codex-session-001")
    );
    assert_eq!(
        runtime.state().threads.get(DEFAULT_THREAD_ID).expect("entry")
            .actor_session_id
            .as_deref(),
        Some("codex-session-001")
    );

    let reloaded = QunuxRuntime::load_or_init_for_session(
        "/tmp/workspace",
        "codex-session-001",
        Some(runtime.state().clone()),
        "Ignored",
        "# Ignored",
    )
    .expect("reload");
    assert_eq!(reloaded.state().root_problem_id, "P000");
    assert_eq!(
        reloaded.state().problems.get("P000").expect("entry").title,
        "Root task",
        "existing session-bound process should be loaded, not reinitialized"
    );
    reloaded.validate().expect("valid");
}

#[test]
fn validate_rejects_process_metadata_mismatch() {
    let mut runtime = runtime();
    runtime.state_mut().process.id = "QP-other".to_string();
    let err = runtime.validate().expect_err("metadata mismatch");
    assert!(err.message().contains("process metadata id"));
}

#[test]
fn validate_rejects_process_metadata_main_thread_mismatch() {
    let mut runtime = runtime();
    runtime.state_mut().process.main_thread_id = "QT999".to_string();
    let err = runtime.validate().expect_err("main thread mismatch");
    assert!(err.message().contains("process metadata main thread"));
}

#[test]
fn one_go_path_closes_root() {
    let mut runtime = runtime();
    let (_ticket_id, _result_id, _check_id) = solve_one_go(&mut runtime, "P000");

    assert_eq!(runtime.state().problems.get("P000").expect("entry").status, ProblemStatus::Done);
    assert_eq!(runtime.next().action, NextAction::NoAction);
    assert_eq!(runtime.next().disposition, NextDisposition::Terminal);
    runtime.validate().expect("valid");
}

#[test]
fn next_disposition_tracks_scheduler_state() {
    let mut runtime_under_test = runtime();
    let initial_next = runtime_under_test.next();
    assert_eq!(initial_next.action, NextAction::CreateSolutionTicket);
    assert_eq!(initial_next.disposition, NextDisposition::Runnable);

    let parent_ticket = runtime_under_test
        .create_ticket("P000", "Parent ticket", "# Parent ticket")
        .expect("ticket");
    runtime_under_test
        .classify_ticket(&parent_ticket, TicketClassification::Split, "needs child")
        .expect("classify");
    runtime_under_test
        .set_status(EntityKind::Ticket, &parent_ticket, "splitting")
        .expect("splitting");
    let child_id = runtime_under_test
        .create_problem_from_ticket("P000", &parent_ticket, "Child", "# Child")
        .expect("child");

    let spawn_next = runtime_under_test.next();
    assert_eq!(spawn_next.action, NextAction::SpawnThread);
    assert_eq!(spawn_next.disposition, NextDisposition::Runnable);
    assert_eq!(spawn_next.problem_id.as_deref(), Some(child_id.as_str()));

    let spawned = runtime_under_test
        .spawn_thread(
            &child_id,
            ContextForkPolicy::FullContext,
            "Solve child",
            None,
            None,
            Vec::new(),
        )
        .expect("spawn thread");
    let wait_next = runtime_under_test.next();
    assert_eq!(wait_next.action, NextAction::WaitThread);
    assert_eq!(wait_next.disposition, NextDisposition::IoWait);
    assert_eq!(
        wait_next.target_thread_id.as_deref(),
        Some(spawned.thread_id.as_str())
    );

    let mut terminal_runtime = runtime();
    solve_one_go(&mut terminal_runtime, "P000");
    let terminal_next = terminal_runtime.next();
    assert_eq!(terminal_next.action, NextAction::NoAction);
    assert_eq!(terminal_next.disposition, NextDisposition::Terminal);
}

#[test]
fn split_parent_waits_for_child_result() {
    let mut runtime = runtime();
    let parent_ticket = runtime
        .create_ticket("P000", "Parent ticket", "# Parent ticket")
        .expect("ticket");
    runtime
        .classify_ticket(&parent_ticket, TicketClassification::Split, "needs child")
        .expect("classify");
    runtime
        .set_status(EntityKind::Ticket, &parent_ticket, "splitting")
        .expect("splitting");
    let child_id = runtime
        .create_problem_from_ticket("P000", &parent_ticket, "Child", "# Child")
        .expect("child");

    runtime
        .set_status(EntityKind::Problem, "P000", "doing")
        .expect("parent doing");
    let early = runtime
        .record_result(&parent_ticket, "Parent result", "# Parent result")
        .expect_err("child still open");
    assert!(early.message().contains("child problems still open"));

    solve_one_go(&mut runtime, &child_id);
    let parent_result = runtime
        .record_result(&parent_ticket, "Parent result", "# Parent result")
        .expect("parent result");
    runtime
        .check(
            "P000",
            CheckStatus::Success,
            vec![parent_result],
            "Parent check",
            "# Parent check",
            None,
        )
        .expect("parent check");

    assert_eq!(runtime.state().problems.get("P000").expect("entry").status, ProblemStatus::Done);
    runtime.validate().expect("valid");
}

#[test]
fn runtime_spawn_child_from_executing_one_go_ticket() {
    let mut runtime = runtime();
    let parent_ticket = runtime
        .create_ticket("P000", "Parent ticket", "# Parent ticket")
        .expect("ticket");
    runtime
        .classify_ticket(&parent_ticket, TicketClassification::OneGo, "bounded")
        .expect("classify");
    runtime
        .set_status(EntityKind::Problem, "P000", "doing")
        .expect("parent doing");
    runtime
        .set_status(EntityKind::Ticket, &parent_ticket, "executing")
        .expect("executing");
    let child_id = runtime
        .create_problem_from_ticket_with_mode(
            "P000",
            &parent_ticket,
            TicketChildMode::Spawn,
            "Runtime child",
            "# Runtime child",
        )
        .expect("spawned child problem");

    let child = &runtime.state().problems.get(&child_id).expect("entry");
    assert_eq!(child.created_from_ticket_mode, Some(TicketChildMode::Spawn));
    let next = runtime.next();
    assert_eq!(next.action, NextAction::SpawnThread);
    assert_eq!(next.problem_id.as_deref(), Some(child_id.as_str()));

    let early = runtime
        .record_result(&parent_ticket, "Parent result", "# Parent result")
        .expect_err("spawned child still open");
    assert!(early.message().contains("child problems still open"));

    solve_one_go(&mut runtime, &child_id);
    let parent_result = runtime
        .record_result(&parent_ticket, "Parent result", "# Parent result")
        .expect("parent result");
    runtime
        .check(
            "P000",
            CheckStatus::Success,
            vec![parent_result],
            "Parent check",
            "# Parent check",
            None,
        )
        .expect("parent check");
    runtime.validate().expect("valid");
}

#[test]
fn split_and_spawn_child_modes_reject_wrong_ticket_state() {
    let mut one_go_runtime = runtime();
    let ticket = one_go_runtime
        .create_ticket("P000", "Parent ticket", "# Parent ticket")
        .expect("ticket");
    one_go_runtime
        .classify_ticket(&ticket, TicketClassification::OneGo, "bounded")
        .expect("classify");
    one_go_runtime
        .set_status(EntityKind::Problem, "P000", "doing")
        .expect("parent doing");
    one_go_runtime
        .set_status(EntityKind::Ticket, &ticket, "executing")
        .expect("executing");

    let wrong_split = one_go_runtime
        .create_problem_from_ticket_with_mode(
            "P000",
            &ticket,
            TicketChildMode::Split,
            "Wrong split",
            "# Wrong split",
        )
        .expect_err("one_go ticket cannot create split child");
    assert!(wrong_split.message().contains("not classified as split"));

    let mut split_runtime = runtime();
    let split_ticket = split_runtime
        .create_ticket("P000", "Split ticket", "# Split ticket")
        .expect("ticket");
    split_runtime
        .classify_ticket(&split_ticket, TicketClassification::Split, "needs split")
        .expect("classify");
    split_runtime
        .set_status(EntityKind::Problem, "P000", "doing")
        .expect("parent doing");
    split_runtime
        .set_status(EntityKind::Ticket, &split_ticket, "splitting")
        .expect("splitting");
    let wrong_spawn = split_runtime
        .create_problem_from_ticket_with_mode(
            "P000",
            &split_ticket,
            TicketChildMode::Spawn,
            "Wrong spawn",
            "# Wrong spawn",
        )
        .expect_err("split ticket cannot runtime-spawn child");
    assert!(wrong_spawn.message().contains("not classified as one_go"));

    let child_id = split_runtime
        .create_problem_from_ticket_with_mode(
            "P000",
            &split_ticket,
            TicketChildMode::Split,
            "Right split",
            "# Right split",
        )
        .expect("split child");
    assert_eq!(
        split_runtime.state().problems.get(&child_id).expect("entry").created_from_ticket_mode,
        Some(TicketChildMode::Split)
    );
    split_runtime.validate().expect("valid");
}

#[test]
fn ticket_child_creation_rejects_ticket_from_different_problem() {
    let mut runtime = runtime();
    let parent_ticket = runtime
        .create_ticket("P000", "Parent ticket", "# Parent ticket")
        .expect("parent ticket");
    runtime
        .classify_ticket(&parent_ticket, TicketClassification::Split, "needs child")
        .expect("classify parent ticket");
    runtime
        .set_status(EntityKind::Ticket, &parent_ticket, "splitting")
        .expect("parent splitting");
    let child_id = runtime
        .create_problem_from_ticket("P000", &parent_ticket, "Child", "# Child")
        .expect("child problem");

    let child_ticket = runtime
        .create_ticket(&child_id, "Child ticket", "# Child ticket")
        .expect("child ticket");
    runtime
        .classify_ticket(&child_ticket, TicketClassification::Split, "nested")
        .expect("classify child ticket");
    runtime
        .set_status(EntityKind::Ticket, &child_ticket, "splitting")
        .expect("child splitting");

    let wrong_parent = runtime
        .create_problem_from_ticket("P000", &child_ticket, "Wrong", "# Wrong")
        .expect_err("source ticket must belong to requested parent");
    assert!(
        wrong_parent
            .message()
            .contains("does not belong to problem P000")
    );
    runtime.validate().expect("valid after rejected mismatch");
}

#[test]
fn spawned_child_thread_gets_scoped_next_and_parent_joins() {
    let root_context = RuntimeContext::new("/tmp/workspace");
    let mut runtime =
        QunuxRuntime::load_or_init(root_context.clone(), None, "Root task", "# Root task")
            .expect("init");
    let parent_ticket = runtime
        .create_ticket("P000", "Parent ticket", "# Parent ticket")
        .expect("ticket");
    runtime
        .classify_ticket(
            &parent_ticket,
            TicketClassification::Split,
            "parallel child",
        )
        .expect("classify");
    runtime
        .set_status(EntityKind::Ticket, &parent_ticket, "splitting")
        .expect("splitting");
    let child_id = runtime
        .create_problem_from_ticket("P000", &parent_ticket, "Child", "# Child")
        .expect("child");

    let next = runtime.next();
    assert_eq!(next.action, NextAction::SpawnThread);
    assert_eq!(next.problem_id.as_deref(), Some(child_id.as_str()));

    let spawned = runtime
        .spawn_thread(
            &child_id,
            ContextForkPolicy::FullContext,
            "Solve child",
            None,
            None,
            Vec::new(),
        )
        .expect("spawn thread");
    assert_eq!(spawned.thread_id, "QT001");
    assert_eq!(spawned.handle_id, "H000");
    assert_eq!(spawned.wait_id, "W000");
    assert_eq!(
        runtime.state().handles.get(&spawned.handle_id).expect("entry").status,
        IoHandleStatus::Pending
    );
    assert_eq!(
        runtime.state().waits.get(&spawned.wait_id).expect("entry").status,
        WaitStatus::Waiting
    );
    assert_eq!(runtime.next().action, NextAction::WaitThread);

    let child_context =
        RuntimeContext::with_ids("/tmp/workspace", DEFAULT_PROCESS_ID, &spawned.thread_id)
            .expect("child context");
    let mut child_runtime = QunuxRuntime::load(child_context, runtime.state().clone());
    let child_next = child_runtime.next();
    assert_eq!(child_next.problem_id.as_deref(), Some(child_id.as_str()));
    assert_eq!(child_next.action, NextAction::CreateSolutionTicket);

    let parent_write = child_runtime
        .create_ticket("P000", "Wrong", "# Wrong")
        .expect_err("child cannot mutate parent");
    assert!(
        parent_write
            .message()
            .contains("cannot mutate problem P000")
    );

    let (_ticket, _result, _check) = solve_one_go(&mut child_runtime, &child_id);
    assert_eq!(
        child_runtime.state().handles.get(&spawned.handle_id).expect("entry").status,
        IoHandleStatus::Ready
    );
    assert_eq!(
        child_runtime.state().waits.get(&spawned.wait_id).expect("entry").status,
        WaitStatus::Ready
    );

    let mut parent_runtime = QunuxRuntime::load(root_context, child_runtime.state().clone());
    assert_eq!(parent_runtime.next().action, NextAction::JoinThread);
    parent_runtime
        .join_thread(&spawned.thread_id)
        .expect("join child");
    assert_eq!(
        parent_runtime.state().handles.get(&spawned.handle_id).expect("entry").status,
        IoHandleStatus::Consumed
    );
    assert_eq!(
        parent_runtime.state().waits.get(&spawned.wait_id).expect("entry").status,
        WaitStatus::Consumed
    );
    assert_eq!(parent_runtime.next().action, NextAction::RecordResult);
    parent_runtime.validate().expect("valid");
}

#[test]
fn parent_cannot_mutate_child_problem_after_spawn_transfer() {
    let mut runtime = runtime();
    let parent_ticket = runtime
        .create_ticket("P000", "Parent ticket", "# Parent ticket")
        .expect("ticket");
    runtime
        .classify_ticket(&parent_ticket, TicketClassification::Split, "child")
        .expect("classify");
    runtime
        .set_status(EntityKind::Ticket, &parent_ticket, "splitting")
        .expect("splitting");
    let child_id = runtime
        .create_problem_from_ticket("P000", &parent_ticket, "Child", "# Child")
        .expect("child");
    let spawned = runtime
        .spawn_thread(
            &child_id,
            ContextForkPolicy::FullContext,
            "Solve child",
            None,
            None,
            Vec::new(),
        )
        .expect("spawn thread");

    assert_eq!(
        runtime.state().problems.get(&child_id).expect("entry").owner_thread_id,
        spawned.thread_id
    );
    let parent_write = runtime
        .create_ticket(&child_id, "Parent write", "# Parent write")
        .expect_err("parent no longer owns child subtree");
    assert!(parent_write.message().contains("cannot mutate problem"));
    runtime
        .validate()
        .expect("valid after rejected parent write");
}

#[test]
fn auto_join_consumes_done_child_handle_and_wakes_parent() {
    let root_context = RuntimeContext::new("/tmp/workspace");
    let mut runtime =
        QunuxRuntime::load_or_init(root_context.clone(), None, "Root task", "# Root task")
            .expect("init");
    let parent_ticket = runtime
        .create_ticket("P000", "Parent ticket", "# Parent ticket")
        .expect("ticket");
    runtime
        .classify_ticket(
            &parent_ticket,
            TicketClassification::Split,
            "parallel child",
        )
        .expect("classify");
    runtime
        .set_status(EntityKind::Ticket, &parent_ticket, "splitting")
        .expect("splitting");
    let child_id = runtime
        .create_problem_from_ticket("P000", &parent_ticket, "Child", "# Child")
        .expect("child");
    let spawned = runtime
        .spawn_thread(
            &child_id,
            ContextForkPolicy::FullContext,
            "Solve child",
            None,
            None,
            Vec::new(),
        )
        .expect("spawn thread");
    let child_context =
        RuntimeContext::with_ids("/tmp/workspace", DEFAULT_PROCESS_ID, &spawned.thread_id)
            .expect("child context");
    let mut child_runtime = QunuxRuntime::load(child_context, runtime.state().clone());

    solve_one_go(&mut child_runtime, &child_id);
    child_runtime
        .auto_join_child_thread(&spawned.thread_id, "auto join done child")
        .expect("auto join");

    assert!(
        child_runtime.state().threads.get(&spawned.thread_id).expect("entry")
            .joined_at
            .is_some()
    );
    assert_eq!(
        child_runtime.state().handles.get(&spawned.handle_id).expect("entry").status,
        IoHandleStatus::Consumed
    );
    assert_eq!(
        child_runtime.state().waits.get(&spawned.wait_id).expect("entry").status,
        WaitStatus::Consumed
    );
    assert!(child_runtime.state().io_events.iter().any(|event| {
        event.kind == IoEventKind::ChildThreadJoined
            && event.thread_id.as_deref() == Some(spawned.thread_id.as_str())
    }));

    let parent_runtime = QunuxRuntime::load(root_context, child_runtime.state().clone());
    assert_eq!(parent_runtime.next().action, NextAction::RecordResult);
    parent_runtime.validate().expect("valid");
}

#[test]
fn actor_completion_without_qunux_done_marks_failed_and_wakes_parent() {
    let root_context = RuntimeContext::new("/tmp/workspace");
    let mut runtime =
        QunuxRuntime::load_or_init(root_context.clone(), None, "Root task", "# Root task")
            .expect("init");
    let parent_ticket = runtime
        .create_ticket("P000", "Parent ticket", "# Parent ticket")
        .expect("ticket");
    runtime
        .classify_ticket(
            &parent_ticket,
            TicketClassification::Split,
            "parallel child",
        )
        .expect("classify");
    runtime
        .set_status(EntityKind::Ticket, &parent_ticket, "splitting")
        .expect("splitting");
    let child_id = runtime
        .create_problem_from_ticket("P000", &parent_ticket, "Child", "# Child")
        .expect("child");
    let spawned = runtime
        .spawn_thread(
            &child_id,
            ContextForkPolicy::FullContext,
            "Solve child",
            None,
            None,
            Vec::new(),
        )
        .expect("spawn thread");

    let event_id = runtime
        .record_actor_completed_without_thread_done(&spawned.thread_id, "completed")
        .expect("record incomplete actor completion");

    assert_eq!(
        runtime.state().handles.get(&spawned.handle_id).expect("entry").status,
        IoHandleStatus::Failed
    );
    assert_eq!(
        runtime.state().threads.get(&spawned.thread_id).expect("entry").status,
        ThreadStatus::Failed
    );
    assert_eq!(
        runtime.state().waits.get(&spawned.wait_id).expect("entry").status,
        WaitStatus::Ready
    );
    assert!(
        runtime.state().threads.get(&spawned.thread_id).expect("entry")
            .joined_at
            .is_none()
    );
    assert_eq!(runtime.status().failed_threads, 1);
    assert_eq!(runtime.status().failed_handles, 1);
    let next = runtime.next();
    assert_eq!(next.action, NextAction::RecoverThread);
    assert_eq!(
        next.target_thread_id.as_deref(),
        Some(spawned.thread_id.as_str())
    );
    assert!(runtime.state().io_events.iter().any(|event| {
        event.id == event_id
            && event.kind == IoEventKind::ActorCompletedWithoutThreadDone
            && event.thread_id.as_deref() == Some(spawned.thread_id.as_str())
    }));
    assert!(runtime.state().io_events.iter().any(|event| {
        event.kind == IoEventKind::ChildThreadFailed
            && event.thread_id.as_deref() == Some(spawned.thread_id.as_str())
            && event.handle_id.as_deref() == Some(spawned.handle_id.as_str())
    }));
    runtime.validate().expect("valid");
}

#[test]
fn recover_failed_child_thread_returns_subtree_to_parent() {
    let root_context = RuntimeContext::new("/tmp/workspace");
    let mut runtime =
        QunuxRuntime::load_or_init(root_context.clone(), None, "Root task", "# Root task")
            .expect("init");
    let parent_ticket = runtime
        .create_ticket("P000", "Parent ticket", "# Parent ticket")
        .expect("ticket");
    runtime
        .classify_ticket(
            &parent_ticket,
            TicketClassification::Split,
            "parallel child",
        )
        .expect("classify");
    runtime
        .set_status(EntityKind::Ticket, &parent_ticket, "splitting")
        .expect("splitting");
    let child_id = runtime
        .create_problem_from_ticket("P000", &parent_ticket, "Child", "# Child")
        .expect("child");
    let spawned = runtime
        .spawn_thread(
            &child_id,
            ContextForkPolicy::FullContext,
            "Solve child",
            None,
            None,
            Vec::new(),
        )
        .expect("spawn thread");
    runtime
        .record_actor_completed_without_thread_done(&spawned.thread_id, "completed")
        .expect("record incomplete actor completion");
    assert_eq!(runtime.next().action, NextAction::RecoverThread);

    let recovered = runtime
        .recover_thread(&spawned.thread_id)
        .expect("recover failed child thread");

    assert_eq!(recovered.thread_id, spawned.thread_id);
    assert_eq!(recovered.root_problem_id, child_id);
    assert_eq!(
        runtime.state().threads.get(&spawned.thread_id).expect("entry").status,
        ThreadStatus::Recovered
    );
    assert_eq!(
        runtime.state().handles.get(&spawned.handle_id).expect("entry").status,
        IoHandleStatus::Cancelled
    );
    assert_eq!(
        runtime.state().waits.get(&spawned.wait_id).expect("entry").status,
        WaitStatus::Consumed
    );
    assert_eq!(
        runtime.state().problems.get(&recovered.root_problem_id).expect("entry").owner_thread_id,
        DEFAULT_THREAD_ID
    );
    let next = runtime.next();
    assert_eq!(next.action, NextAction::SpawnThread);
    assert_eq!(
        next.problem_id.as_deref(),
        Some(recovered.root_problem_id.as_str())
    );
    assert!(runtime.state().io_events.iter().any(|event| {
        event.kind == IoEventKind::ChildThreadRecovered
            && event.thread_id.as_deref() == Some(spawned.thread_id.as_str())
            && event.handle_id.as_deref() == Some(spawned.handle_id.as_str())
    }));
    runtime.validate().expect("valid");
}

#[test]
fn watcher_thread_uses_ordinary_child_thread_wait() {
    let mut runtime = runtime();
    let parent_ticket = runtime
        .create_ticket("P000", "Parent ticket", "# Parent ticket")
        .expect("ticket");
    runtime
        .classify_ticket(
            &parent_ticket,
            TicketClassification::Split,
            "watch condition",
        )
        .expect("classify");
    runtime
        .set_status(EntityKind::Ticket, &parent_ticket, "splitting")
        .expect("splitting");
    let child_id = runtime
        .create_problem_from_ticket(
            "P000",
            &parent_ticket,
            "Watch PR readiness",
            "# Watch PR readiness",
        )
        .expect("child");
    let watcher_bootstrap = "Watcher goal: inspect PR CI and comments every 30 minutes; close only with evidence when criteria are met.";

    let spawned = runtime
        .spawn_thread(
            &child_id,
            ContextForkPolicy::FullContext,
            watcher_bootstrap,
            None,
            None,
            Vec::new(),
        )
        .expect("spawn watcher thread");

    let child_thread = &runtime.state().threads.get(&spawned.thread_id).expect("entry");
    assert_eq!(child_thread.root_problem_id, child_id);
    assert_eq!(
        child_thread.context_fork.bootstrap_instruction,
        watcher_bootstrap
    );

    let handle = &runtime.state().handles.get(&spawned.handle_id).expect("entry");
    assert_eq!(handle.kind, IoHandleKind::ChildThread);
    assert_eq!(handle.owner_thread_id, DEFAULT_THREAD_ID);
    assert_eq!(
        handle.target_thread_id.as_deref(),
        Some(spawned.thread_id.as_str())
    );
    assert_eq!(handle.status, IoHandleStatus::Pending);

    let wait = &runtime.state().waits.get(&spawned.wait_id).expect("entry");
    assert_eq!(wait.thread_id, DEFAULT_THREAD_ID);
    assert_eq!(wait.handle_ids, vec![spawned.handle_id.clone()]);
    assert_eq!(wait.mode, WaitMode::All);
    assert_eq!(wait.status, WaitStatus::Waiting);

    let next = runtime.next();
    assert_eq!(next.action, NextAction::WaitThread);
    assert_eq!(next.disposition, NextDisposition::IoWait);
    assert_eq!(
        next.target_thread_id.as_deref(),
        Some(spawned.thread_id.as_str())
    );
    runtime.validate().expect("valid");
}

#[test]
fn child_spawn_failure_records_failed_terminal_state() {
    let root_context = RuntimeContext::new("/tmp/workspace");
    let mut runtime =
        QunuxRuntime::load_or_init(root_context.clone(), None, "Root task", "# Root task")
            .expect("init");
    let parent_ticket = runtime
        .create_ticket("P000", "Parent ticket", "# Parent ticket")
        .expect("ticket");
    runtime
        .classify_ticket(&parent_ticket, TicketClassification::Split, "spawn child")
        .expect("classify");
    runtime
        .set_status(EntityKind::Ticket, &parent_ticket, "splitting")
        .expect("splitting");
    let child_id = runtime
        .create_problem_from_ticket("P000", &parent_ticket, "Child", "# Child")
        .expect("child");
    let spawned = runtime
        .spawn_thread(
            &child_id,
            ContextForkPolicy::FullContext,
            "Solve child",
            None,
            None,
            Vec::new(),
        )
        .expect("spawn thread");

    let event_id = runtime
        .record_child_thread_spawn_failed(&spawned.thread_id, "Codex child spawn failed")
        .expect("record spawn failure");

    assert_eq!(
        runtime.state().threads.get(&spawned.thread_id).expect("entry").status,
        ThreadStatus::Failed
    );
    assert_eq!(
        runtime.state().handles.get(&spawned.handle_id).expect("entry").status,
        IoHandleStatus::Failed
    );
    assert_eq!(
        runtime.state().waits.get(&spawned.wait_id).expect("entry").status,
        WaitStatus::Ready
    );
    assert_eq!(runtime.next().action, NextAction::RecoverThread);
    assert!(runtime.state().io_events.iter().any(|event| {
        event.id == event_id
            && event.kind == IoEventKind::ChildThreadSpawnFailed
            && event.handle_id.as_deref() == Some(spawned.handle_id.as_str())
            && event.thread_id.as_deref() == Some(spawned.thread_id.as_str())
    }));
    runtime.validate().expect("valid");
}

#[test]
fn bound_child_actor_session_resolves_to_child_thread() {
    let root_context =
        RuntimeContext::for_session("/tmp/workspace", "parent-session").expect("root context");
    let mut runtime =
        QunuxRuntime::load_or_init(root_context.clone(), None, "Root task", "# Root task")
            .expect("init");
    let parent_ticket = runtime
        .create_ticket("P000", "Parent ticket", "# Parent ticket")
        .expect("ticket");
    runtime
        .classify_ticket(&parent_ticket, TicketClassification::Split, "child actor")
        .expect("classify");
    runtime
        .set_status(EntityKind::Ticket, &parent_ticket, "splitting")
        .expect("splitting");
    let child_id = runtime
        .create_problem_from_ticket("P000", &parent_ticket, "Child", "# Child")
        .expect("child");
    let spawned = runtime
        .spawn_thread(
            &child_id,
            ContextForkPolicy::FullContext,
            "Solve child",
            None,
            None,
            Vec::new(),
        )
        .expect("spawn thread");
    runtime
        .bind_thread_actor(&spawned.thread_id, "child-session")
        .expect("bind child actor");

    let child_context = RuntimeContext::with_ids(
        "/tmp/workspace",
        &root_context.process_id,
        DEFAULT_THREAD_ID,
    )
    .expect("child context")
    .with_actor_session_id("child-session")
    .expect("child actor")
    .with_parent_actor_session_id("parent-session")
    .expect("parent actor");
    let mut child_runtime = QunuxRuntime::load(child_context, runtime.state().clone());

    assert_eq!(child_runtime.context().thread_id, spawned.thread_id);
    assert_eq!(
        child_runtime.current().status.thread_root_problem_id,
        child_id
    );
    assert_eq!(
        child_runtime
            .state()
            .process
            .root_actor_session_id
            .as_deref(),
        Some("parent-session"),
        "loading as a child actor must not overwrite process root actor"
    );

    let parent_write = child_runtime
        .create_ticket("P000", "Wrong", "# Wrong")
        .expect_err("child cannot mutate parent root");
    assert!(
        parent_write
            .message()
            .contains("cannot mutate problem P000")
    );
}

#[test]
fn thread_actor_route_reports_current_and_bound_child_actor() {
    let root_context =
        RuntimeContext::for_session("/tmp/workspace", "parent-session").expect("root context");
    let mut runtime =
        QunuxRuntime::load_or_init(root_context.clone(), None, "Root task", "# Root task")
            .expect("init");

    let current_route = runtime
        .thread_actor_route(DEFAULT_THREAD_ID)
        .expect("current route");
    assert!(current_route.is_current_thread);
    assert_eq!(current_route.bound_actor_id(), Some("parent-session"));

    let parent_ticket = runtime
        .create_ticket("P000", "Parent ticket", "# Parent ticket")
        .expect("ticket");
    runtime
        .classify_ticket(&parent_ticket, TicketClassification::Split, "child actor")
        .expect("classify");
    runtime
        .set_status(EntityKind::Ticket, &parent_ticket, "splitting")
        .expect("splitting");
    let child_id = runtime
        .create_problem_from_ticket("P000", &parent_ticket, "Child", "# Child")
        .expect("child");
    let spawned = runtime
        .spawn_thread(
            &child_id,
            ContextForkPolicy::FullContext,
            "Solve child",
            None,
            None,
            Vec::new(),
        )
        .expect("spawn thread");

    let unbound_child_route = runtime
        .thread_actor_route(&spawned.thread_id)
        .expect("unbound child route");
    assert!(!unbound_child_route.is_current_thread);
    assert_eq!(unbound_child_route.bound_actor_id(), None);

    runtime
        .bind_thread_actor(&spawned.thread_id, "child-session")
        .expect("bind child actor");
    let child_route = runtime
        .thread_actor_route(&spawned.thread_id)
        .expect("bound child route");
    assert!(!child_route.is_current_thread);
    assert_eq!(
        child_route.actor_session_id.as_deref(),
        Some("child-session")
    );
    assert_eq!(
        child_route.codex_thread_id.as_deref(),
        Some("child-session")
    );
    assert_eq!(child_route.bound_actor_id(), Some("child-session"));

    let missing = runtime
        .thread_actor_route("QT999")
        .expect_err("missing thread");
    assert!(missing.message().contains("unknown thread QT999"));
}

#[test]
fn followup_must_close_before_parent_success() {
    let mut runtime = runtime();
    let (_ticket_id, root_result, _check_id) = {
        let ticket = runtime
            .create_ticket("P000", "Ticket", "# Ticket")
            .expect("ticket");
        runtime
            .classify_ticket(&ticket, TicketClassification::OneGo, "bounded")
            .expect("classify");
        runtime
            .set_status(EntityKind::Problem, "P000", "doing")
            .expect("doing");
        let result = runtime
            .record_result(&ticket, "Result", "# Result")
            .expect("result");
        let check = runtime
            .check(
                "P000",
                CheckStatus::NotSuccess,
                vec![result.clone()],
                "Check",
                "# Check",
                Some(("Follow up".to_string(), "# Follow up".to_string())),
            )
            .expect("not success");
        (ticket, result, check)
    };

    let second_followup = runtime
        .check(
            "P000",
            CheckStatus::NotSuccess,
            vec![root_result.clone()],
            "Check again",
            "# Check again",
            Some(("Another".to_string(), "# Another".to_string())),
        )
        .expect_err("open followup blocks fan-out");
    assert!(second_followup.message().contains("open follow-ups"));

    let followup_id = runtime.state().problems.get("P000").expect("entry").followup_problem_ids[0].clone();
    let (_fticket, followup_result, _fcheck) = solve_one_go(&mut runtime, &followup_id);
    runtime
        .check(
            "P000",
            CheckStatus::Success,
            vec![root_result, followup_result],
            "Final check",
            "# Final check",
            None,
        )
        .expect("final check");

    assert_eq!(runtime.state().problems.get("P000").expect("entry").status, ProblemStatus::Done);
    runtime.validate().expect("valid");
}

#[test]
fn check_status_enforces_followup_payload_rules() {
    let mut runtime = runtime();
    let ticket = runtime
        .create_ticket("P000", "Ticket", "# Ticket")
        .expect("ticket");
    runtime
        .classify_ticket(&ticket, TicketClassification::OneGo, "bounded")
        .expect("classify");
    runtime
        .set_status(EntityKind::Problem, "P000", "doing")
        .expect("doing");
    let result = runtime
        .record_result(&ticket, "Result", "# Result")
        .expect("result");

    let success_with_followup = runtime
        .check(
            "P000",
            CheckStatus::Success,
            vec![result.clone()],
            "Check",
            "# Check",
            Some((
                "Impossible follow-up".to_string(),
                "# Follow-up".to_string(),
            )),
        )
        .expect_err("success cannot create follow-up");
    assert!(
        success_with_followup
            .message()
            .contains("success check cannot include a follow-up")
    );

    let missing_followup = runtime
        .check(
            "P000",
            CheckStatus::NotSuccess,
            vec![result],
            "Check",
            "# Check",
            None,
        )
        .expect_err("not_success requires follow-up");
    assert!(
        missing_followup
            .message()
            .contains("not_success check requires a follow-up problem")
    );
    assert!(runtime.state().problems.get("P000").expect("entry").check_ids.is_empty());
    runtime.validate().expect("valid after rejected checks");
}

#[test]
fn validate_rejects_broken_followup_check_provenance() {
    let (runtime, _check, followup) = runtime_with_failed_check_followup();
    assert_eq!(
        runtime.state().problems.get(&followup).expect("entry")
            .created_from_check_id
            .as_deref(),
        Some("C000")
    );
    runtime.validate().expect("valid follow-up provenance");

    let (mut missing_backlink, _check, followup) = runtime_with_failed_check_followup();
    missing_backlink
        .state_mut()
        .problems
        .get_mut(&followup)
        .expect("followup")
        .created_from_check_id = None;
    let missing_backlink_error = missing_backlink
        .validate()
        .expect_err("missing follow-up backlink");
    assert!(
        missing_backlink_error
            .message()
            .contains("the follow-up does not point back")
    );

    let (mut missing_followup, check, _followup) = runtime_with_failed_check_followup();
    missing_followup
        .state_mut()
        .checks
        .get_mut(&check)
        .expect("check")
        .followup_problem_id = None;
    let missing_followup_error = missing_followup
        .validate()
        .expect_err("not_success must point to follow-up");
    assert!(
        missing_followup_error
            .message()
            .contains("has no follow-up problem")
    );

    let (mut wrong_status, check, _followup) = runtime_with_failed_check_followup();
    wrong_status
        .state_mut()
        .checks
        .get_mut(&check)
        .expect("check")
        .status = CheckStatus::Success;
    let wrong_status_error = wrong_status
        .validate()
        .expect_err("follow-up source check must be not_success");
    assert!(wrong_status_error.message().contains("success check"));
}

#[test]
fn guards_duplicate_ticket_and_done_reopen() {
    let mut runtime = runtime();
    let (ticket_id, _result_id, _check_id) = solve_one_go(&mut runtime, "P000");

    let duplicate = runtime
        .create_ticket("P000", "Another ticket", "# Another")
        .expect_err("duplicate or done ticket");
    assert!(duplicate.message().contains("done problem"));

    let reopen = runtime
        .set_status(EntityKind::Problem, "P000", "doing")
        .expect_err("done cannot reopen");
    assert!(reopen.message().contains("done problem"));

    let second_result = runtime
        .record_result(&ticket_id, "Again", "# Again")
        .expect_err("ticket already done");
    assert!(second_result.message().contains("done problem"));
}

#[test]
fn passive_unmatched_event_is_preserved_in_inbox() {
    let mut runtime = runtime();

    let receipt = runtime
        .receive_passive_event(PassiveEventInput {
            kind: PassiveEventKind::UserInput,
            event_key: None,
            target_thread_id: Some(DEFAULT_THREAD_ID.to_string()),
            condition: Some("reply".to_string()),
            source: Some("chat".to_string()),
            summary: "user replied".to_string(),
            payload_ref: Some("turn:1".to_string()),
            dedupe_key: Some("msg-1".to_string()),
        })
        .expect("receive passive event");

    assert_eq!(receipt.status, PassiveEventStatus::Inboxed);
    assert_eq!(receipt.wake_decision.status, PassiveEventStatus::Inboxed);
    assert!(receipt.wake_decision.runnable_threads.is_empty());
    assert_eq!(runtime.state().passive_events.len(), 1);
    assert_eq!(
        runtime.state().passive_events[0].event_key.as_ref(),
        Some(&EventKey::passive(
            PassiveEventKind::UserInput,
            Some("reply".to_string()),
            Some("chat".to_string()),
            Some(DEFAULT_THREAD_ID.to_string())
        ))
    );
    assert_eq!(runtime.state().inbox.len(), 1);
    assert_eq!(
        runtime.state().inbox[0].event_key,
        runtime.state().passive_events[0].event_key
    );
    assert_eq!(runtime.state().inbox[0].condition.as_deref(), Some("reply"));
    assert_eq!(runtime.state().inbox[0].source.as_deref(), Some("chat"));
    assert_eq!(
        runtime.state().inbox[0].payload_ref.as_deref(),
        Some("turn:1")
    );
    assert_eq!(
        runtime.state().inbox[0].dedupe_key.as_deref(),
        Some("msg-1")
    );
    assert_eq!(runtime.status().pending_inbox_items, 1);
    let next = runtime.next();
    assert_eq!(next.action, NextAction::HandleInbox);
    assert_eq!(next.disposition, NextDisposition::Runnable);
    assert!(next.instruction.contains("IN000"));
    assert!(next.instruction.contains("user replied"));
    assert!(next.instruction.contains("qunux.scaffold_user_task"));
    assert!(next.instruction.contains("qunux.ingest_user_task"));
    assert!(
        next.instruction
            .contains("ticket must be authored separately")
    );
    assert!(next.instruction.contains("actionable work"));
    assert!(next.instruction.contains("pure small talk"));
    assert!(next.instruction.contains("state-only"));
    assert!(next.instruction.contains("not visible to the user"));
    assert!(
        next.instruction
            .contains("emit any needed visible assistant reply")
    );
    runtime.validate().expect("valid");
}

#[test]
fn acknowledged_inbox_item_is_not_runnable_again() {
    let mut runtime = runtime();
    runtime
        .receive_passive_event(PassiveEventInput {
            kind: PassiveEventKind::UserInput,
            event_key: None,
            target_thread_id: Some(DEFAULT_THREAD_ID.to_string()),
            condition: None,
            source: None,
            summary: "user gave a new task".to_string(),
            payload_ref: Some("turn:1".to_string()),
            dedupe_key: Some("msg-1".to_string()),
        })
        .expect("receive passive event");
    assert_eq!(runtime.next().action, NextAction::HandleInbox);

    let item = runtime
        .acknowledge_inbox_item("IN000", "converted into current response")
        .expect("ack inbox");
    assert_eq!(item.status, PassiveEventStatus::Handled);
    assert_eq!(item.payload_ref.as_deref(), Some("turn:1"));
    assert_eq!(item.dedupe_key.as_deref(), Some("msg-1"));
    assert_eq!(
        runtime.state().passive_events[0].status,
        PassiveEventStatus::Handled
    );
    assert_eq!(runtime.status().pending_inbox_items, 0);
    assert_eq!(runtime.next().action, NextAction::CreateSolutionTicket);
    runtime.validate().expect("valid");
}

#[test]
fn create_user_task_from_inbox_creates_child_problem() {
    let mut runtime = runtime();
    runtime
        .receive_passive_event(PassiveEventInput {
            kind: PassiveEventKind::UserInput,
            event_key: None,
            target_thread_id: Some(DEFAULT_THREAD_ID.to_string()),
            condition: None,
            source: Some("chat".to_string()),
            summary: "user asked for code review".to_string(),
            payload_ref: Some("turn:review".to_string()),
            dedupe_key: Some("msg-review".to_string()),
        })
        .expect("receive passive event");

    let created = runtime
        .create_user_task_from_inbox(
            "IN000",
            "Review requested code",
            "# Review requested code\n\n## Problem\n\nReview the code.\n\n## Success Criteria\n\n- Findings are clear.",
            "actionable user input converted to a child problem",
        )
        .expect("create user task");

    assert_eq!(created.problem_id, "P001");
    assert_eq!(created.parent_problem_id, "P000");
    assert_eq!(created.inbox_item_id, "IN000");
    assert_eq!(created.passive_event_id, "PE000");
    assert_eq!(created.source_kind, PassiveEventKind::UserInput);
    let problem = &runtime.state().problems.get("P001").expect("entry");
    assert_eq!(problem.parent_id.as_deref(), Some("P000"));
    assert_eq!(problem.owner_thread_id, DEFAULT_THREAD_ID);
    assert_eq!(
        problem.created_from_passive_event_id.as_deref(),
        Some("PE000")
    );
    assert_eq!(problem.created_from_inbox_item_id.as_deref(), Some("IN000"));
    assert_eq!(
        problem.created_from_user_task_kind,
        Some(PassiveEventKind::UserInput)
    );
    assert!(
        runtime.state().problems.get("P000").expect("entry")
            .child_problem_ids
            .contains(&"P001".to_string())
    );
    assert_eq!(runtime.state().inbox[0].status, PassiveEventStatus::Handled);
    assert_eq!(
        runtime.state().passive_events[0].status,
        PassiveEventStatus::Handled
    );
    assert_eq!(runtime.next().action, NextAction::SpawnThread);
    assert_eq!(runtime.next().problem_id.as_deref(), Some("P001"));
}

#[test]
fn create_user_task_from_inbox_creates_valid_child_problem() {
    let mut runtime = runtime();
    runtime
        .receive_passive_event(PassiveEventInput {
            kind: PassiveEventKind::UserInput,
            event_key: None,
            target_thread_id: Some(DEFAULT_THREAD_ID.to_string()),
            condition: None,
            source: Some("chat".to_string()),
            summary: "user asked for implementation".to_string(),
            payload_ref: Some("turn:impl".to_string()),
            dedupe_key: Some("msg-impl".to_string()),
        })
        .expect("receive passive event");

    runtime
        .create_user_task_from_inbox(
            "IN000",
            "Implement requested change",
            "# Implement requested change\n\n## Problem\n\nImplement it.\n\n## Success Criteria\n\n- Change is done.",
            "actionable user input converted to child problem",
        )
        .expect("create user task");

    runtime.validate().expect("valid user-task provenance");
}

#[test]
fn scaffold_user_task_from_inbox_creates_problem_and_ticket() {
    let mut runtime = runtime();
    runtime
        .receive_passive_event(PassiveEventInput {
            kind: PassiveEventKind::UserInput,
            event_key: None,
            target_thread_id: Some(DEFAULT_THREAD_ID.to_string()),
            condition: None,
            source: Some("chat".to_string()),
            summary: "user asked for implementation".to_string(),
            payload_ref: Some("turn:impl".to_string()),
            dedupe_key: Some("msg-impl".to_string()),
        })
        .expect("receive passive event");

    let scaffold = runtime
        .scaffold_user_task_from_inbox(
            "IN000",
            "Implement requested change",
            "# Implement requested change\n\n## Problem\n\nImplement it.\n\n## Success Criteria\n\n- Change is done.",
            "Solve requested change",
            "# Solve requested change\n\n## Problem Definition\n\nImplement the requested change.\n\n## Proposed Solution\n\nInvestigate, edit, and verify.\n\n## Acceptance Criteria\n\n- Criteria are satisfied.\n\n## Verification Plan\n\nRun focused checks.\n\n## Risks\n\n- Hidden gaps.\n\n## Assumptions\n\n- Request is actionable.",
            "actionable user input scaffolded into ledger-backed task",
        )
        .expect("scaffold user task");

    assert_eq!(scaffold.problem_id, "P001");
    assert_eq!(scaffold.parent_problem_id, "P000");
    assert_eq!(scaffold.ticket_id, "T000");
    assert_eq!(scaffold.inbox_item_id.as_deref(), Some("IN000"));
    assert_eq!(scaffold.passive_event_id.as_deref(), Some("PE000"));
    assert_eq!(scaffold.source_kind, Some(PassiveEventKind::UserInput));

    let problem = &runtime.state().problems.get("P001").expect("entry");
    assert_eq!(problem.ticket_id.as_deref(), Some("T000"));
    assert_eq!(
        problem.created_from_passive_event_id.as_deref(),
        Some("PE000")
    );
    assert_eq!(problem.created_from_inbox_item_id.as_deref(), Some("IN000"));
    assert_eq!(
        problem.created_from_user_task_kind,
        Some(PassiveEventKind::UserInput)
    );

    let ticket = &runtime.state().tickets.get("T000").expect("entry");
    assert_eq!(ticket.problem_id, "P001");
    assert_eq!(ticket.status, TicketStatus::Defined);
    assert_eq!(ticket.classification, None);
    assert_eq!(ticket.result_id, None);
    assert_eq!(runtime.state().results.len(), 0);
    assert_eq!(runtime.state().checks.len(), 0);
    assert_eq!(runtime.state().inbox[0].status, PassiveEventStatus::Handled);
    assert_eq!(runtime.next().action, NextAction::SpawnThread);
    assert_eq!(runtime.next().problem_id.as_deref(), Some("P001"));
    runtime.validate().expect("valid scaffolded task");
}

#[test]
fn scaffold_user_task_from_inbox_rejects_already_handled_item() {
    let mut runtime = runtime();
    runtime
        .receive_passive_event(PassiveEventInput {
            kind: PassiveEventKind::UserInput,
            event_key: None,
            target_thread_id: Some(DEFAULT_THREAD_ID.to_string()),
            condition: None,
            source: None,
            summary: "user gave a task".to_string(),
            payload_ref: Some("turn:task".to_string()),
            dedupe_key: Some("msg-task".to_string()),
        })
        .expect("receive passive event");
    runtime
        .acknowledge_inbox_item("IN000", "handled conversationally")
        .expect("ack inbox");

    let err = runtime
        .scaffold_user_task_from_inbox(
            "IN000",
            "Duplicate task",
            "# Duplicate task",
            "Duplicate ticket",
            "# Duplicate ticket",
            "duplicate",
        )
        .expect_err("handled inbox item should not scaffold task");

    assert!(err.message().contains("not inboxed"));
    assert_eq!(runtime.state().problems.len(), 1);
    assert_eq!(runtime.state().tickets.len(), 0);
    runtime.validate().expect("valid after rejected scaffold");
}

#[test]
fn create_user_task_from_inbox_rejects_already_handled_item() {
    let mut runtime = runtime();
    runtime
        .receive_passive_event(PassiveEventInput {
            kind: PassiveEventKind::UserInput,
            event_key: None,
            target_thread_id: Some(DEFAULT_THREAD_ID.to_string()),
            condition: None,
            source: None,
            summary: "user gave a task".to_string(),
            payload_ref: Some("turn:task".to_string()),
            dedupe_key: Some("msg-task".to_string()),
        })
        .expect("receive passive event");
    runtime
        .acknowledge_inbox_item("IN000", "handled conversationally")
        .expect("ack inbox");
    let before_problem_count = runtime.state().problems.len();

    let err = runtime
        .create_user_task_from_inbox("IN000", "Duplicate task", "# Duplicate", "duplicate")
        .expect_err("handled inbox item should not create task");

    assert!(err.message().contains("not inboxed"));
    assert_eq!(runtime.state().problems.len(), before_problem_count);
    assert!(
        runtime.state().problems.get("P000").expect("entry")
            .child_problem_ids
            .is_empty()
    );
}

#[test]
fn create_user_task_from_inbox_rejects_unknown_inbox_item() {
    let mut runtime = runtime();
    let before_problem_count = runtime.state().problems.len();

    let err = runtime
        .create_user_task_from_inbox("IN404", "Unknown inbox task", "# Unknown", "unknown")
        .expect_err("unknown inbox item should not create task");

    assert!(err.message().contains("unknown inbox item IN404"));
    assert_eq!(runtime.state().problems.len(), before_problem_count);
    assert!(
        runtime.state().problems.get("P000").expect("entry")
            .child_problem_ids
            .is_empty()
    );
}

#[test]
fn create_user_task_from_inbox_rejects_mismatched_passive_event() {
    let mut runtime = runtime();
    runtime
        .receive_passive_event(PassiveEventInput {
            kind: PassiveEventKind::UserInput,
            event_key: None,
            target_thread_id: Some(DEFAULT_THREAD_ID.to_string()),
            condition: Some("task".to_string()),
            source: Some("chat".to_string()),
            summary: "user gave a task".to_string(),
            payload_ref: Some("turn:task".to_string()),
            dedupe_key: Some("msg-task".to_string()),
        })
        .expect("receive passive event");
    runtime.state_mut().inbox[0].source = Some("other-channel".to_string());
    let before_problem_count = runtime.state().problems.len();

    let err = runtime
        .create_user_task_from_inbox("IN000", "Mismatched task", "# Mismatched", "mismatch")
        .expect_err("mismatched inbox item should not create task");

    assert!(
        err.message()
            .contains("does not match passive event PE000")
    );
    assert_eq!(runtime.state().problems.len(), before_problem_count);
    assert!(
        runtime.state().problems.get("P000").expect("entry")
            .child_problem_ids
            .is_empty()
    );
}

#[test]
fn create_user_task_from_inbox_rejects_missing_passive_event() {
    let mut runtime = runtime();
    runtime
        .receive_passive_event(PassiveEventInput {
            kind: PassiveEventKind::UserInput,
            event_key: None,
            target_thread_id: Some(DEFAULT_THREAD_ID.to_string()),
            condition: None,
            source: None,
            summary: "user gave a task".to_string(),
            payload_ref: Some("turn:task".to_string()),
            dedupe_key: Some("msg-task".to_string()),
        })
        .expect("receive passive event");
    runtime.state_mut().inbox[0].passive_event_id = "PE999".to_string();
    let before_problem_count = runtime.state().problems.len();

    let err = runtime
        .create_user_task_from_inbox("IN000", "Missing event task", "# Missing", "missing")
        .expect_err("missing passive event should not create task");

    assert!(err.message().contains("unknown passive event PE999"));
    assert_eq!(runtime.state().problems.len(), before_problem_count);
    assert!(
        runtime.state().problems.get("P000").expect("entry")
            .child_problem_ids
            .is_empty()
    );
}

#[test]
fn validate_rejects_user_task_missing_passive_event_provenance() {
    let mut runtime = runtime_with_user_task_child();
    runtime
        .state_mut()
        .problems
        .get_mut("P001")
        .expect("child")
        .created_from_passive_event_id = None;

    let err = runtime.validate().expect_err("missing passive event");

    assert!(err.message().contains("missing passive event"));
}

#[test]
fn validate_rejects_user_task_missing_inbox_item_provenance() {
    let mut runtime = runtime_with_user_task_child();
    runtime
        .state_mut()
        .problems
        .get_mut("P001")
        .expect("child")
        .created_from_inbox_item_id = None;

    let err = runtime.validate().expect_err("missing inbox item");

    assert!(err.message().contains("missing inbox item"));
}

#[test]
fn validate_rejects_user_task_mismatched_source_kind() {
    let mut runtime = runtime_with_user_task_child();
    runtime
        .state_mut()
        .problems
        .get_mut("P001")
        .expect("child")
        .created_from_user_task_kind = Some(PassiveEventKind::Timer);

    let err = runtime.validate().expect_err("mismatched source kind");

    assert!(
        err.message()
            .contains("does not match passive event kind")
    );
}

#[test]
fn validate_rejects_user_task_mismatched_inbox_event_pair() {
    let mut runtime = runtime_with_user_task_child();
    runtime.state_mut().inbox[0].passive_event_id = "PE999".to_string();

    let err = runtime.validate().expect_err("mismatched inbox event");

    assert!(err.message().contains("points to PE999"));
}

#[test]
fn validate_rejects_unprovenanced_child_problem() {
    let mut runtime = runtime_with_user_task_child();
    let child = runtime.state_mut().problems.get_mut("P001").expect("child");
    child.created_from_passive_event_id = None;
    child.created_from_inbox_item_id = None;
    child.created_from_user_task_kind = None;

    let err = runtime.validate().expect_err("unprovenanced child");

    assert!(
        err.message()
            .contains("has no ticket, check, or user-task provenance")
    );
}

#[test]
fn terminal_thread_with_pending_inbox_is_not_reported_as_none() {
    let mut runtime = runtime();
    let ticket = runtime
        .create_ticket("P000", "Root ticket", "# Ticket")
        .expect("ticket");
    runtime
        .classify_ticket(&ticket, TicketClassification::OneGo, "small")
        .expect("classify");
    runtime
        .set_status(EntityKind::Problem, "P000", "doing")
        .expect("problem doing");
    runtime
        .set_status(EntityKind::Ticket, &ticket, "executing")
        .expect("ticket executing");
    let result = runtime
        .record_result(&ticket, "Root result", "# Result")
        .expect("result");
    runtime
        .check(
            "P000",
            CheckStatus::Success,
            vec![result],
            "Root check",
            "# Check",
            None,
        )
        .expect("check");
    assert_eq!(runtime.next().action, NextAction::NoAction);

    runtime
        .receive_passive_event(PassiveEventInput {
            kind: PassiveEventKind::UserInput,
            event_key: None,
            target_thread_id: Some(DEFAULT_THREAD_ID.to_string()),
            condition: None,
            source: None,
            summary: "user returned after terminal root".to_string(),
            payload_ref: Some("turn:terminal".to_string()),
            dedupe_key: Some("terminal-msg".to_string()),
        })
        .expect("receive passive event");

    let next = runtime.next();
    assert_eq!(next.action, NextAction::HandleInbox);
    assert_eq!(next.disposition, NextDisposition::Runnable);
    assert!(
        next.instruction
            .contains("user returned after terminal root")
    );
    runtime.validate().expect("valid");
}

#[test]
fn passive_duplicate_wake_is_idempotent() {
    let mut runtime = runtime();
    let input = PassiveEventInput {
        kind: PassiveEventKind::ExternalSignal,
        event_key: None,
        target_thread_id: Some(DEFAULT_THREAD_ID.to_string()),
        condition: Some("deploy".to_string()),
        source: Some("webhook".to_string()),
        summary: "deploy finished".to_string(),
        payload_ref: None,
        dedupe_key: Some("signal-1".to_string()),
    };

    let first = runtime
        .receive_passive_event(input.clone())
        .expect("first event");
    let second = runtime.receive_passive_event(input).expect("duplicate");

    assert_eq!(first.status, PassiveEventStatus::Inboxed);
    assert_eq!(second.status, PassiveEventStatus::Duplicate);
    assert_eq!(second.wake_decision.status, PassiveEventStatus::Duplicate);
    assert_eq!(
        second.wake_decision.duplicate_of_event_id.as_deref(),
        Some(first.event_id.as_str())
    );
    assert_eq!(
        second.duplicate_of_event_id.as_deref(),
        Some(first.event_id.as_str())
    );
    assert_eq!(runtime.state().passive_events.len(), 1);
    assert_eq!(runtime.state().inbox.len(), 1);
    runtime.validate().expect("valid");
}

#[test]
fn passive_matched_event_wakes_waiting_thread() {
    let mut runtime = runtime();
    let wait = runtime
        .wait_for_user_input(
            Some("reply".to_string()),
            Some("chat".to_string()),
            None,
            "need user reply",
        )
        .expect("wait for input");

    assert_eq!(wait.status, WaitStatus::Waiting);
    assert_eq!(
        wait.event_key,
        EventKey::passive(
            PassiveEventKind::UserInput,
            Some("reply".to_string()),
            Some("chat".to_string()),
            Some(DEFAULT_THREAD_ID.to_string())
        )
    );
    assert_eq!(runtime.next().action, NextAction::WaitIo);
    assert_eq!(
        runtime.state().threads.get(DEFAULT_THREAD_ID).expect("entry").status,
        ThreadStatus::WaitingIo
    );

    let receipt = runtime
        .receive_passive_event(PassiveEventInput {
            kind: PassiveEventKind::UserInput,
            event_key: None,
            target_thread_id: Some(DEFAULT_THREAD_ID.to_string()),
            condition: Some("reply".to_string()),
            source: Some("chat".to_string()),
            summary: "user replied".to_string(),
            payload_ref: Some("turn:2".to_string()),
            dedupe_key: Some("msg-2".to_string()),
        })
        .expect("receive matching event");

    assert_eq!(receipt.status, PassiveEventStatus::Matched);
    assert_eq!(receipt.matched_handle_ids, vec![wait.handle_id.clone()]);
    assert_eq!(receipt.wake_decision.status, PassiveEventStatus::Matched);
    assert_eq!(
        receipt.wake_decision.runnable_threads,
        vec![RunnableThread {
            thread_id: DEFAULT_THREAD_ID.to_string(),
            root_problem_id: "P000".to_string(),
            wake_reason: format!("handle {} ready", wait.handle_id),
        }]
    );
    assert_eq!(
        runtime.state().handles.get(&wait.handle_id).expect("entry").status,
        IoHandleStatus::Ready
    );
    assert_eq!(
        runtime.state().waits.get(&wait.wait_id).expect("entry").status,
        WaitStatus::Ready
    );
    assert_eq!(
        runtime.state().threads.get(DEFAULT_THREAD_ID).expect("entry").status,
        ThreadStatus::Running
    );
    assert_ne!(runtime.next().action, NextAction::WaitIo);
    runtime.validate().expect("valid");
}

#[test]
fn bare_lifecycle_root_can_wait_for_user_input() {
    let mut runtime = runtime();
    let wait = runtime
        .wait_for_user_input(None, Some("chat".to_string()), None, "idle for user input")
        .expect("bare lifecycle root should be allowed to park");

    assert_eq!(wait.status, WaitStatus::Waiting);
    assert_eq!(runtime.next().action, NextAction::WaitIo);
    assert_eq!(
        runtime.state().threads.get(DEFAULT_THREAD_ID).expect("entry").status,
        ThreadStatus::WaitingIo
    );
    runtime.validate().expect("valid");
}

#[test]
fn wait_rejects_when_ticket_is_defined() {
    let mut runtime = runtime();
    let ticket_id = runtime
        .create_ticket("P000", "Root ticket", "# Ticket\n\nBody")
        .expect("ticket");

    let err = runtime
        .wait_for_user_input(None, Some("chat".to_string()), None, "idle despite work")
        .expect_err("runnable ticket should block wait");

    assert!(
        err.message()
            .contains("cannot wait while runnable action")
            && err.message().contains("ClassifyTicket"),
        "unexpected error: {err:?}"
    );
    assert_eq!(
        runtime.state().threads.get(DEFAULT_THREAD_ID).expect("entry").status,
        ThreadStatus::Running
    );
    assert_eq!(runtime.next().action, NextAction::ClassifyTicket);
    assert_eq!(
        runtime.next().ticket_id.as_deref(),
        Some(ticket_id.as_str())
    );
    runtime.validate().expect("valid");
}

#[test]
fn next_surfaces_defined_ticket_before_stale_wait_io() {
    let mut runtime = runtime();
    let wait = runtime
        .wait_for_user_input(None, Some("chat".to_string()), None, "idle for user input")
        .expect("bare lifecycle root should be allowed to park");
    assert_eq!(runtime.next().action, NextAction::WaitIo);

    let ticket_id = runtime
        .create_ticket("P000", "Root ticket", "# Ticket\n\nBody")
        .expect("ticket");

    let next = runtime.next();
    assert_eq!(next.action, NextAction::ClassifyTicket);
    assert_eq!(next.ticket_id.as_deref(), Some(ticket_id.as_str()));
    assert_eq!(
        runtime.state().waits.get(&wait.wait_id).expect("entry").status,
        WaitStatus::Waiting
    );
    runtime.validate().expect("valid");
}

#[test]
fn unified_wait_parks_wakes_and_consumes_passive_handle() {
    let mut runtime = runtime();
    let parked = runtime
        .wait(WaitCommand::Park {
            mode: WaitMode::All,
            reason: "need chat reply".to_string(),
            specs: vec![WaitSpec {
                kind: WaitSpecKind::UserInput,
                event_key: None,
                target_thread_id: None,
                condition: Some("reply".to_string()),
                source: Some("chat".to_string()),
                dedupe_key: Some("wait-reply".to_string()),
            }],
        })
        .expect("park wait");
    let WaitResult::Parked { wait } = parked else {
        panic!("expected parked wait");
    };
    assert_eq!(wait.status, WaitStatus::Waiting);
    let handle_id = wait.handle_ids[0].clone();
    assert_eq!(runtime.next().action, NextAction::WaitIo);

    let woke = runtime
        .wait(WaitCommand::Wake {
            event: PassiveEventInput {
                kind: PassiveEventKind::UserInput,
                event_key: None,
                target_thread_id: Some(DEFAULT_THREAD_ID.to_string()),
                condition: Some("reply".to_string()),
                source: Some("chat".to_string()),
                summary: "user replied".to_string(),
                payload_ref: Some("turn:42".to_string()),
                dedupe_key: Some("wait-reply".to_string()),
            },
        })
        .expect("wake wait");
    let WaitResult::Woke { receipt } = woke else {
        panic!("expected wake receipt");
    };
    assert_eq!(receipt.status, PassiveEventStatus::Matched);
    assert_eq!(receipt.matched_handle_ids, vec![handle_id.clone()]);

    let consumed = runtime
        .wait(WaitCommand::Consume {
            handle_id: handle_id.clone(),
        })
        .expect("consume wait");
    let WaitResult::Consumed { consumed } = consumed else {
        panic!("expected consumed wait");
    };
    assert_eq!(consumed.handle_id, handle_id);
    assert_eq!(consumed.payload_ref.as_deref(), Some("turn:42"));
    assert_eq!(consumed.joined_thread, None);
    assert_eq!(
        runtime.state().handles.get(&consumed.handle_id).expect("entry").status,
        IoHandleStatus::Consumed
    );
    assert_eq!(
        runtime.state().waits.get(&consumed.wait_id).expect("entry").status,
        WaitStatus::Consumed
    );
    runtime.validate().expect("valid");
}

#[test]
fn unified_wait_cancels_pending_passive_handle() {
    let mut runtime = runtime();
    let parked = runtime
        .wait(WaitCommand::Park {
            mode: WaitMode::All,
            reason: "wait for timer".to_string(),
            specs: vec![WaitSpec {
                kind: WaitSpecKind::Timer,
                event_key: None,
                target_thread_id: None,
                condition: Some("poll-window".to_string()),
                source: Some("timer".to_string()),
                dedupe_key: None,
            }],
        })
        .expect("park wait");
    let WaitResult::Parked { wait } = parked else {
        panic!("expected parked wait");
    };
    let handle_id = wait.handle_ids[0].clone();

    let cancelled = runtime
        .wait(WaitCommand::Cancel {
            handle_id: handle_id.clone(),
            reason: "no longer needed".to_string(),
        })
        .expect("cancel wait");
    let WaitResult::Cancelled { cancelled } = cancelled else {
        panic!("expected cancelled wait");
    };
    assert_eq!(cancelled.handle_id, handle_id);
    assert_eq!(
        runtime.state().handles.get(&cancelled.handle_id).expect("entry").status,
        IoHandleStatus::Cancelled
    );
    assert_eq!(
        runtime.state().threads.get(DEFAULT_THREAD_ID).expect("entry").status,
        ThreadStatus::Running
    );
    runtime.validate().expect("valid");
}

#[test]
fn unified_wait_any_consume_cancels_sibling_handles() {
    let mut runtime = runtime();
    let parked = runtime
        .wait(WaitCommand::Park {
            mode: WaitMode::Any,
            reason: "wait for either signal".to_string(),
            specs: vec![
                WaitSpec {
                    kind: WaitSpecKind::Timer,
                    event_key: None,
                    target_thread_id: None,
                    condition: Some("timer-window".to_string()),
                    source: Some("timer".to_string()),
                    dedupe_key: None,
                },
                WaitSpec {
                    kind: WaitSpecKind::ExternalSignal,
                    event_key: None,
                    target_thread_id: None,
                    condition: Some("webhook-ready".to_string()),
                    source: Some("webhook".to_string()),
                    dedupe_key: None,
                },
            ],
        })
        .expect("park any wait");
    let WaitResult::Parked { wait } = parked else {
        panic!("expected parked wait");
    };
    let timer_handle = wait.handle_ids[0].clone();
    let webhook_handle = wait.handle_ids[1].clone();
    runtime
        .wait(WaitCommand::Wake {
            event: PassiveEventInput {
                kind: PassiveEventKind::Timer,
                event_key: None,
                target_thread_id: Some(DEFAULT_THREAD_ID.to_string()),
                condition: Some("timer-window".to_string()),
                source: Some("timer".to_string()),
                summary: "timer fired".to_string(),
                payload_ref: None,
                dedupe_key: None,
            },
        })
        .expect("wake timer handle");

    runtime
        .wait(WaitCommand::Consume {
            handle_id: timer_handle.clone(),
        })
        .expect("consume any winner");

    assert_eq!(
        runtime.state().handles.get(&timer_handle).expect("entry").status,
        IoHandleStatus::Consumed
    );
    assert_eq!(
        runtime.state().handles.get(&webhook_handle).expect("entry").status,
        IoHandleStatus::Cancelled
    );
    assert_eq!(
        runtime.state().waits.get(&wait.wait_id).expect("entry").status,
        WaitStatus::Consumed
    );
    runtime.validate().expect("valid");
}

#[test]
fn passive_generic_event_key_wait_matches_exact_key() {
    let mut runtime = runtime();
    let event_key = EventKey::new(
        "github.pr.checks",
        Some("123".to_string()),
        Some("webhook".to_string()),
        None,
    );
    let wait = runtime
        .wait_for_event_key(
            event_key.clone(),
            Some("github-pr-123-checks".to_string()),
            "wait for PR checks",
        )
        .expect("wait for event key");

    assert_eq!(
        runtime.state().handles.get(&wait.handle_id).expect("entry").event_key.as_ref(),
        Some(&event_key)
    );

    let receipt = runtime
        .receive_passive_event(PassiveEventInput {
            kind: PassiveEventKind::ExternalSignal,
            event_key: Some(event_key.clone()),
            target_thread_id: None,
            condition: None,
            source: None,
            summary: "PR checks passed".to_string(),
            payload_ref: Some("github:pr:123".to_string()),
            dedupe_key: Some("github-pr-123-checks".to_string()),
        })
        .expect("receive matching event key");

    assert_eq!(receipt.status, PassiveEventStatus::Matched);
    assert_eq!(receipt.matched_handle_ids, vec![wait.handle_id.clone()]);
    assert_eq!(receipt.wake_decision.event_key, event_key);
    assert_eq!(
        receipt.wake_decision.runnable_threads.get(0).expect("entry").thread_id,
        DEFAULT_THREAD_ID
    );
    assert_eq!(
        runtime.state().handles.get(&wait.handle_id).expect("entry").status,
        IoHandleStatus::Ready
    );
    runtime.validate().expect("valid");
}

#[test]
fn unified_wait_consumes_child_thread_handle() {
    let root_context = RuntimeContext::new("/tmp/workspace");
    let mut runtime =
        QunuxRuntime::load_or_init(root_context.clone(), None, "Root task", "# Root task")
            .expect("init");
    let parent_ticket = runtime
        .create_ticket("P000", "Parent ticket", "# Parent ticket")
        .expect("ticket");
    runtime
        .classify_ticket(&parent_ticket, TicketClassification::Split, "needs child")
        .expect("classify");
    runtime
        .set_status(EntityKind::Ticket, &parent_ticket, "splitting")
        .expect("splitting");
    let child_id = runtime
        .create_problem_from_ticket("P000", &parent_ticket, "Child", "# Child")
        .expect("child");
    let spawned = runtime
        .spawn_thread(
            &child_id,
            ContextForkPolicy::FullContext,
            "Solve child",
            None,
            None,
            Vec::new(),
        )
        .expect("spawn");

    let child_context =
        RuntimeContext::with_ids("/tmp/workspace", DEFAULT_PROCESS_ID, &spawned.thread_id)
            .expect("child context");
    let mut child_runtime = QunuxRuntime::load(child_context, runtime.state().clone());
    solve_one_go(&mut child_runtime, &child_id);

    let mut parent_runtime = QunuxRuntime::load(root_context, child_runtime.state().clone());
    let consumed = parent_runtime
        .wait(WaitCommand::Consume {
            handle_id: spawned.handle_id.clone(),
        })
        .expect("consume child wait");
    let WaitResult::Consumed { consumed } = consumed else {
        panic!("expected consumed child wait");
    };
    let joined = consumed.joined_thread.expect("joined child thread");
    assert_eq!(joined.thread_id, spawned.thread_id);
    assert_eq!(joined.handle_id, spawned.handle_id);
    assert_eq!(
        parent_runtime.state().threads.get(&spawned.thread_id).expect("entry")
            .joined_at
            .is_some(),
        true
    );
    assert_eq!(
        parent_runtime.state().handles.get(&spawned.handle_id).expect("entry").status,
        IoHandleStatus::Consumed
    );
    parent_runtime.validate().expect("valid");
}

#[test]
fn passive_broad_event_does_not_wake_child_scoped_wait() {
    let root_context = RuntimeContext::new("/tmp/workspace");
    let mut runtime =
        QunuxRuntime::load_or_init(root_context.clone(), None, "Root task", "# Root task")
            .expect("init");
    let parent_ticket = runtime
        .create_ticket("P000", "Parent ticket", "# Parent ticket")
        .expect("ticket");
    runtime
        .classify_ticket(&parent_ticket, TicketClassification::Split, "needs child")
        .expect("classify");
    runtime
        .set_status(EntityKind::Ticket, &parent_ticket, "splitting")
        .expect("splitting");
    let child_id = runtime
        .create_problem_from_ticket("P000", &parent_ticket, "Child", "# Child")
        .expect("child");
    let spawned = runtime
        .spawn_thread(
            &child_id,
            ContextForkPolicy::FullContext,
            "Solve child",
            None,
            None,
            Vec::new(),
        )
        .expect("spawn");
    let child_context =
        RuntimeContext::with_ids("/tmp/workspace", DEFAULT_PROCESS_ID, &spawned.thread_id)
            .expect("child context");
    let mut child_runtime = QunuxRuntime::load(child_context, runtime.state().clone());
    let child_ticket = child_runtime
        .create_ticket(&child_id, "Child ticket", "# Child ticket")
        .expect("child ticket");
    child_runtime
        .classify_ticket(&child_ticket, TicketClassification::OneGo, "wait for reply")
        .expect("child classify");
    child_runtime
        .set_status(EntityKind::Problem, &child_id, "doing")
        .expect("child doing");
    child_runtime
        .set_status(EntityKind::Ticket, &child_ticket, "executing")
        .expect("child executing");
    let wait = child_runtime
        .wait_for_user_input(
            Some("reply".to_string()),
            Some("chat".to_string()),
            None,
            "child needs addressed reply",
        )
        .expect("child wait");

    assert_eq!(
        wait.event_key.target_thread_id.as_deref(),
        Some(spawned.thread_id.as_str())
    );

    let mut root_runtime = QunuxRuntime::load(root_context, child_runtime.state().clone());
    let broad = root_runtime
        .receive_passive_event(PassiveEventInput {
            kind: PassiveEventKind::UserInput,
            event_key: None,
            target_thread_id: None,
            condition: Some("reply".to_string()),
            source: Some("chat".to_string()),
            summary: "broad user reply".to_string(),
            payload_ref: Some("turn:broad".to_string()),
            dedupe_key: Some("broad-reply".to_string()),
        })
        .expect("broad event");

    assert_eq!(broad.status, PassiveEventStatus::Inboxed);
    assert!(broad.matched_handle_ids.is_empty());
    assert!(broad.wake_decision.runnable_threads.is_empty());
    assert_eq!(
        root_runtime.state().handles.get(&wait.handle_id).expect("entry").status,
        IoHandleStatus::Pending
    );
    assert_eq!(
        root_runtime.state().threads.get(&spawned.thread_id).expect("entry").status,
        ThreadStatus::WaitingIo
    );

    let targeted = root_runtime
        .receive_passive_event(PassiveEventInput {
            kind: PassiveEventKind::UserInput,
            event_key: None,
            target_thread_id: Some(spawned.thread_id.clone()),
            condition: Some("reply".to_string()),
            source: Some("chat".to_string()),
            summary: "addressed child reply".to_string(),
            payload_ref: Some("turn:child".to_string()),
            dedupe_key: Some("child-reply".to_string()),
        })
        .expect("targeted event");

    assert_eq!(targeted.status, PassiveEventStatus::Matched);
    assert_eq!(targeted.matched_handle_ids, vec![wait.handle_id.clone()]);
    assert_eq!(
        targeted.wake_decision.runnable_threads,
        vec![RunnableThread {
            thread_id: spawned.thread_id.clone(),
            root_problem_id: child_id.clone(),
            wake_reason: format!("handle {} ready", wait.handle_id),
        }]
    );
    assert_eq!(
        root_runtime.state().handles.get(&wait.handle_id).expect("entry").status,
        IoHandleStatus::Ready
    );
    assert_eq!(
        root_runtime.state().threads.get(&spawned.thread_id).expect("entry").status,
        ThreadStatus::Running
    );
    root_runtime.validate().expect("valid");
}

#[test]
fn passive_lost_wake_matches_new_wait_from_inbox() {
    let mut runtime = runtime();
    runtime
        .receive_passive_event(PassiveEventInput {
            kind: PassiveEventKind::Timer,
            event_key: None,
            target_thread_id: Some(DEFAULT_THREAD_ID.to_string()),
            condition: Some("poll-window".to_string()),
            source: Some("timer".to_string()),
            summary: "poll window opened".to_string(),
            payload_ref: Some("timer:poll-window".to_string()),
            dedupe_key: Some("timer-1".to_string()),
        })
        .expect("early timer event");

    let wait = runtime
        .wait_for_timer(
            Some("poll-window".to_string()),
            Some("timer".to_string()),
            Some("timer-1".to_string()),
            "wait for poll window",
        )
        .expect("timer wait");

    assert_eq!(wait.status, WaitStatus::Ready);
    assert_eq!(
        runtime.state().passive_events[0].status,
        PassiveEventStatus::Matched
    );
    assert_eq!(runtime.state().inbox[0].status, PassiveEventStatus::Matched);
    assert_eq!(
        runtime.state().handles.get(&wait.handle_id).expect("entry").status,
        IoHandleStatus::Ready
    );
    assert_eq!(
        runtime.state().handles.get(&wait.handle_id).expect("entry")
            .payload_ref
            .as_deref(),
        Some("timer:poll-window")
    );
    assert_eq!(
        runtime.state().threads.get(DEFAULT_THREAD_ID).expect("entry").status,
        ThreadStatus::Running
    );
    runtime.validate().expect("valid");
}
