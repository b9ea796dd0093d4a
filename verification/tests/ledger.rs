//! What the operations keep, refuse and report.
use qunux::{
    process_id_for_session_id, CheckStatus, ContextForkPolicy, EntityKind, EventKey, EventRoutingAgent,
    IoHandleStatus, NextAction, PassiveEventInput, PassiveEventKind, PassiveEventStatus,
    ProblemStatus, QunuxError, QunuxRuntime, RuntimeContext, StrMap, ThreadStatus, TicketChildMode,
    TicketClassification, WaitCommand, WaitMode, WaitResult, WaitSpec, WaitSpecKind, WaitStatus,
    DEFAULT_THREAD_ID, SCHEMA_VERSION,
};

fn runtime() -> QunuxRuntime {
    let context = RuntimeContext::new("/tmp/workspace");
    QunuxRuntime::load_or_init(context, None, "Root task", "# Root task\n\nBody").expect("init")
}

fn event(summary: &str, dedupe_key: Option<&str>) -> PassiveEventInput {
    PassiveEventInput {
        kind: PassiveEventKind::UserInput,
        event_key: None,
        target_thread_id: Some(DEFAULT_THREAD_ID.to_string()),
        condition: None,
        source: Some("chat".to_string()),
        summary: summary.to_string(),
        payload_ref: None,
        dedupe_key: dedupe_key.map(str::to_string),
    }
}

fn split_child(runtime: &mut QunuxRuntime) -> (String, String) {
    let ticket = runtime.create_ticket("P000", "Ticket", "# Ticket").expect("ticket");
    runtime
        .classify_ticket(&ticket, TicketClassification::Split, "needs child")
        .expect("classify");
    runtime.set_status(EntityKind::Ticket, &ticket, "splitting").expect("splitting");
    let child = runtime
        .create_problem_from_ticket("P000", &ticket, "Child", "# Child")
        .expect("child");
    (ticket, child)
}

fn solve(runtime: &mut QunuxRuntime, problem_id: &str) {
    let ticket = runtime.create_ticket(problem_id, "Ticket", "# Ticket").expect("ticket");
    runtime
        .classify_ticket(&ticket, TicketClassification::OneGo, "bounded")
        .expect("classify");
    runtime.set_status(EntityKind::Problem, problem_id, "doing").expect("doing");
    let result = runtime.record_result(&ticket, "Result", "# Result").expect("result");
    runtime
        .check(problem_id, CheckStatus::Success, vec![result], "Check", "# Check", None)
        .expect("check");
}

fn wait_spec(kind: WaitSpecKind, condition: &str) -> WaitSpec {
    WaitSpec {
        kind,
        event_key: None,
        target_thread_id: None,
        condition: Some(condition.to_string()),
        source: None,
        dedupe_key: None,
    }
}

#[test]
fn maps_are_walked_in_ascending_order() {
    let mut map: StrMap<String> = StrMap::new();
    assert!(map.is_empty());
    map.insert("b".to_string(), "second".to_string());
    map.insert("a".to_string(), "first".to_string());
    map.insert("é".to_string(), "last".to_string());
    map.insert("b".to_string(), "again".to_string());
    assert_eq!(map.len(), 3);
    assert_eq!(map.key_at(0), "a");
    assert_eq!(map.key_at(1), "b");
    assert_eq!(map.key_at(2), "é");
    assert_eq!(map.value_at(1), "again");
    assert_eq!(map.get("c"), None);
    assert_eq!(map.place_of("é"), Some(2));
}

#[test]
fn errors_are_shown_as_text() {
    let err = RuntimeContext::with_ids("/tmp", "bad/id", "QT000").expect_err("invalid");
    assert_eq!(err, QunuxError::InvalidId("bad/id".to_string()));
    assert_eq!(err.message(), "invalid id `bad/id`");
    let err = runtime().create_ticket("P999", "T", "# T").expect_err("unknown");
    assert!(matches!(err, QunuxError::InvalidState(_)));
    assert!(err.message().starts_with("state error: "));
    assert!(err.message().contains("P999"));
}

#[test]
fn paths_lie_below_the_workspace() {
    let context = RuntimeContext::for_session("/tmp/workspace", "s1").expect("context");
    assert_eq!(context.qunux_dir(), "/tmp/workspace/.qunux");
    assert_eq!(context.process_dir(), "/tmp/workspace/.qunux/processes/QP-s1");
    assert_eq!(context.state_path(), "/tmp/workspace/.qunux/processes/QP-s1/closure.json");
    assert_eq!(process_id_for_session_id("s1").expect("id"), "QP-s1");
}

#[test]
fn events_and_their_keys_must_name_one_target() {
    let mut input = event("hello", None);
    input.event_key = Some(EventKey::new("user_input", None, None, Some("QT001".to_string())));
    let err = EventRoutingAgent::route_passive_event(input).expect_err("two targets");
    assert_eq!(
        err.message(),
        "state error: passive event target thread QT000 does not match event key target \
         Some(\"QT001\")"
    );
    let mut input = event("hello", None);
    input.event_key = Some(EventKey::new("user_input", None, None, None));
    let err = EventRoutingAgent::route_passive_event(input).expect_err("no target in the key");
    assert!(err.message().ends_with("does not match event key target None"));
}

#[test]
fn a_duplicate_changes_nothing() {
    let mut runtime = runtime();
    runtime.receive_passive_event(event("hello", Some("m1"))).expect("first");
    let before = runtime.state().clone();
    let receipt = runtime.receive_passive_event(event("hello", Some("m1"))).expect("second");
    assert_eq!(receipt.status, PassiveEventStatus::Duplicate);
    assert_eq!(*runtime.state(), before);
}

#[test]
fn an_item_is_acknowledged_once() {
    let mut runtime = runtime();
    runtime.receive_passive_event(event("hello", None)).expect("event");
    runtime.acknowledge_inbox_item("IN000", "seen").expect("first");
    let err = runtime.acknowledge_inbox_item("IN000", "seen").expect_err("second");
    assert!(matches!(err, QunuxError::InvalidState(_)));
}

#[test]
fn a_problem_has_one_ticket() {
    let mut runtime = runtime();
    runtime.create_ticket("P000", "Ticket", "# Ticket").expect("first");
    assert!(runtime.create_ticket("P000", "Ticket", "# Ticket").is_err());
    assert_eq!(runtime.state().tickets.len(), 1);
}

#[test]
fn a_spawned_subtree_changes_hands_and_comes_back() {
    let mut runtime = runtime();
    let (_, child) = split_child(&mut runtime);
    let spawned = runtime
        .spawn_thread(&child, ContextForkPolicy::FullContext, "Solve", None, None, Vec::new())
        .expect("spawn");
    let owner = |runtime: &QunuxRuntime| {
        runtime.state().problems.get(&child).expect("child").owner_thread_id.clone()
    };
    assert_eq!(owner(&runtime), spawned.thread_id);
    assert!(runtime.state().is_sound());
    runtime.mark_child_thread_failed(&spawned.thread_id, "gone").expect("failed");
    let recovered = runtime.recover_thread(&spawned.thread_id).expect("recover");
    assert_eq!(recovered.root_problem_id, child);
    assert_eq!(owner(&runtime), DEFAULT_THREAD_ID);
    assert!(runtime.recover_thread(&spawned.thread_id).is_err());
}

#[test]
fn a_thread_is_joined_once() {
    let mut parent = runtime();
    let (_, child) = split_child(&mut parent);
    let spawned = parent
        .spawn_thread(&child, ContextForkPolicy::FullContext, "Solve", None, None, Vec::new())
        .expect("spawn");
    let context = RuntimeContext::with_ids("/tmp/workspace", "QP000", &spawned.thread_id)
        .expect("context");
    let mut worker = QunuxRuntime::load(context, parent.state().clone());
    solve(&mut worker, &child);
    let mut parent = QunuxRuntime::load(
        RuntimeContext::new("/tmp/workspace"),
        worker.state().clone(),
    );
    parent.join_thread(&spawned.thread_id).expect("join");
    assert!(parent.join_thread(&spawned.thread_id).is_err());
    assert_eq!(
        parent.thread_status(&spawned.thread_id).expect("thread").status,
        ThreadStatus::Done
    );
}

#[test]
fn done_problems_stay_closed() {
    let mut runtime = runtime();
    solve(&mut runtime, "P000");
    let closed = |runtime: &QunuxRuntime| {
        runtime.state().problems.get("P000").expect("root").status == ProblemStatus::Done
    };
    assert!(closed(&runtime));
    assert!(runtime.set_status(EntityKind::Problem, "P000", "doing").is_err());
    assert!(runtime.create_ticket("P000", "T", "# T").is_err());
    assert!(closed(&runtime));
    assert_eq!(runtime.next().action, NextAction::NoAction);
}

#[test]
fn an_any_wait_wakes_with_one_handle() {
    let mut runtime = runtime();
    let command = WaitCommand::Park {
        mode: WaitMode::Any,
        reason: "either".to_string(),
        specs: vec![wait_spec(WaitSpecKind::Timer, "a"), wait_spec(WaitSpecKind::Timer, "b")],
    };
    assert_eq!(command.op_name(), "park");
    let WaitResult::Parked { wait } = runtime.wait(command).expect("park") else {
        panic!("expected parked wait");
    };
    let mut input = event("b", None);
    input.kind = PassiveEventKind::Timer;
    input.source = None;
    input.condition = Some("b".to_string());
    let receipt = runtime.receive_passive_event(input).expect("event");
    assert_eq!(receipt.matched_handle_ids, vec![wait.handle_ids[1].clone()]);
    let command = WaitCommand::Status { handle_id: wait.handle_ids[0].clone() };
    assert_eq!(command.op_name(), "status");
    let WaitResult::Status { snapshot } = runtime.wait(command).expect("status") else {
        panic!("expected snapshot");
    };
    assert_eq!(snapshot.handle.status, IoHandleStatus::Pending);
    assert_eq!(snapshot.wait.expect("wait").status, WaitStatus::Ready);
}

#[test]
fn an_all_wait_wakes_with_its_last_handle() {
    let mut runtime = runtime();
    let command = WaitCommand::Park {
        mode: WaitMode::All,
        reason: "both".to_string(),
        specs: vec![wait_spec(WaitSpecKind::Timer, "a"), wait_spec(WaitSpecKind::Timer, "b")],
    };
    let WaitResult::Parked { wait } = runtime.wait(command).expect("park") else {
        panic!("expected parked wait");
    };
    let fire = |runtime: &mut QunuxRuntime, condition: &str| {
        let mut input = event(condition, None);
        input.kind = PassiveEventKind::Timer;
        input.source = None;
        input.condition = Some(condition.to_string());
        runtime.receive_passive_event(input).expect("event")
    };
    let first = fire(&mut runtime, "a");
    assert_eq!(first.status, PassiveEventStatus::Matched);
    let status = |runtime: &QunuxRuntime| runtime.state().waits.get(&wait.wait_id).expect("wait").status;
    assert_eq!(status(&runtime), WaitStatus::Waiting);
    fire(&mut runtime, "b");
    assert_eq!(status(&runtime), WaitStatus::Ready);
}

#[test]
fn loops_among_problems_are_found() {
    let mut runtime = runtime();
    let (_, child) = split_child(&mut runtime);
    assert!(runtime.state().is_sound());
    let mut looping = runtime.state().clone();
    looping.problems.get_mut("P000").expect("root").parent_id = Some(child.clone());
    assert!(!looping.is_sound());
    let mut listed = runtime.state().clone();
    listed.problems.get_mut(&child).expect("child").followup_problem_ids.push("P000".to_string());
    assert!(!listed.is_sound());
    let mut taken = runtime.state().clone();
    taken.next_problem_seq = 1;
    assert!(!taken.is_sound());
}

#[test]
fn numbers_run_out() {
    let mut runtime = runtime();
    assert!(runtime.state().has_room(1000));
    runtime.state_mut().next_wait_seq = u32::MAX - 3;
    assert!(runtime.state().has_room(3));
    assert!(!runtime.state().has_room(4));
}

#[test]
fn older_states_are_brought_to_the_current_form() {
    let mut state = runtime().state().clone();
    state.schema_version = 1;
    let loaded = QunuxRuntime::load(RuntimeContext::new("/tmp/workspace"), state);
    assert_eq!(loaded.state().schema_version, SCHEMA_VERSION);
}

#[test]
fn operations_are_dated() {
    let mut runtime = runtime();
    let began = runtime.state().process.created_at;
    assert!(began.secs > 1_700_000_000);
    assert!(began.nanos < 2_000_000_000);
    runtime.create_ticket("P000", "T", "# T").expect("ticket");
    let ticket = runtime.state().tickets.get("T000").expect("ticket");
    assert!((ticket.created_at.secs, ticket.created_at.nanos) >= (began.secs, began.nanos));
}

#[test]
fn the_root_is_named_once() {
    let mut runtime = runtime();
    runtime
        .initialize_root_problem(Some("Named".to_string()), Some("# Named".to_string()))
        .expect("named");
    assert_eq!(runtime.state().problems.get("P000").expect("root").title, "Named");
    runtime.create_ticket("P000", "T", "# T").expect("ticket");
    let before = runtime.state().clone();
    runtime.initialize_root_problem(Some("Again".to_string()), None).expect("left alone");
    assert_eq!(*runtime.state(), before);
}

#[test]
fn an_outline_lists_what_is_below() {
    let mut runtime = runtime();
    let (ticket, child) = split_child(&mut runtime);
    let outline = runtime.render();
    assert!(outline.contains("P000"));
    assert!(outline.contains(&ticket));
    assert!(outline.find("P000").expect("root") < outline.find(&child).expect("child"));
    let current = runtime.current();
    assert_eq!(current.status.total_problems, 2);
    assert_eq!(current.status.open_problems, 2);
    assert_eq!(current.next.action, NextAction::SpawnThread);
    assert_eq!(runtime.list_threads().len(), 1);
    assert!(runtime.list_handles().is_empty());
}

#[test]
fn a_running_ticket_can_spawn_children() {
    let mut runtime = runtime();
    let ticket = runtime.create_ticket("P000", "T", "# T").expect("ticket");
    runtime.classify_ticket(&ticket, TicketClassification::OneGo, "bounded").expect("classify");
    let early = runtime
        .create_problem_from_ticket_with_mode("P000", &ticket, TicketChildMode::Spawn, "C", "# C");
    assert!(early.is_err());
    runtime.set_status(EntityKind::Problem, "P000", "doing").expect("doing");
    runtime.set_status(EntityKind::Ticket, &ticket, "executing").expect("executing");
    runtime
        .create_problem_from_ticket_with_mode("P000", &ticket, TicketChildMode::Spawn, "C", "# C")
        .expect("child");
    runtime.validate().expect("valid");
}

fn as_thread(runtime: &QunuxRuntime, thread_id: &str) -> QunuxRuntime {
    let context = RuntimeContext::with_ids("/tmp/workspace", "QP000", thread_id).expect("context");
    QunuxRuntime::load(context, runtime.state().clone())
}

fn timer(thread_id: &str, condition: &str) -> PassiveEventInput {
    PassiveEventInput {
        kind: PassiveEventKind::Timer,
        event_key: None,
        target_thread_id: Some(thread_id.to_string()),
        condition: Some(condition.to_string()),
        source: None,
        summary: condition.to_string(),
        payload_ref: None,
        dedupe_key: None,
    }
}

#[test]
fn each_step_leaves_the_state_valid() {
    let mut parent = runtime();
    parent.validate().expect("new root");
    parent.receive_passive_event(event("work", None)).expect("event");
    parent.validate().expect("received");
    let task = parent
        .scaffold_user_task_from_inbox("IN000", "Task", "# Task", "Ticket", "# Ticket", "taken")
        .expect("scaffold");
    parent.validate().expect("scaffolded");
    parent
        .classify_ticket(&task.ticket_id, TicketClassification::OneGo, "bounded")
        .expect("classify");
    parent.validate().expect("classified");
    parent.set_status(EntityKind::Problem, &task.problem_id, "doing").expect("doing");
    parent.validate().expect("taken up");
    let result = parent.record_result(&task.ticket_id, "Result", "# Result").expect("result");
    parent.validate().expect("recorded");
    parent
        .check(
            &task.problem_id,
            CheckStatus::NotSuccess,
            vec![result.clone()],
            "Check",
            "# Check",
            Some(("Follow-up".to_string(), "# Follow-up".to_string())),
        )
        .expect("not yet");
    parent.validate().expect("followed up");
    solve(&mut parent, "P002");
    parent.validate().expect("follow-up solved");
    parent
        .check(&task.problem_id, CheckStatus::Success, vec![result], "Check", "# Check", None)
        .expect("success");
    parent.validate().expect("checked");
    let (_, child) = split_child(&mut parent);
    parent.validate().expect("split");
    let spawned = parent
        .spawn_thread(&child, ContextForkPolicy::FullContext, "Solve", None, None, Vec::new())
        .expect("spawn");
    parent.validate().expect("spawned");
    parent.bind_thread_actor(&spawned.thread_id, "actor").expect("bind");
    parent.validate().expect("bound");
    parent.mark_child_thread_failed(&spawned.thread_id, "gone").expect("fail");
    parent.validate().expect("failed");
    parent.recover_thread(&spawned.thread_id).expect("recover");
    parent.validate().expect("recovered");
    let again = parent
        .spawn_thread(&child, ContextForkPolicy::FullContext, "Solve", None, None, Vec::new())
        .expect("spawn again");
    let mut worker = as_thread(&parent, &again.thread_id);
    worker.validate().expect("taken over");
    solve(&mut worker, &child);
    worker.validate().expect("child solved");
    let mut parent = as_thread(&worker, DEFAULT_THREAD_ID);
    parent.join_thread(&again.thread_id).expect("join");
    parent.validate().expect("joined");
}

#[test]
fn waiting_leaves_the_state_valid() {
    let mut runtime = runtime();
    runtime.receive_passive_event(timer(DEFAULT_THREAD_ID, "early")).expect("early");
    let command = WaitCommand::Park {
        mode: WaitMode::All,
        reason: "all".to_string(),
        specs: vec![
            wait_spec(WaitSpecKind::Timer, "early"),
            wait_spec(WaitSpecKind::Timer, "late"),
            wait_spec(WaitSpecKind::Timer, "never"),
        ],
    };
    let WaitResult::Parked { wait } = runtime.wait(command).expect("park") else {
        panic!("expected parked wait");
    };
    runtime.validate().expect("parked");
    runtime.receive_passive_event(timer(DEFAULT_THREAD_ID, "late")).expect("late");
    runtime.validate().expect("received");
    let cancel = WaitCommand::Cancel {
        handle_id: wait.handle_ids[2].clone(),
        reason: "enough".to_string(),
    };
    runtime.wait(cancel).expect("cancel");
    runtime.validate().expect("cancelled");
    for handle_id in &wait.handle_ids[..2] {
        runtime.wait(WaitCommand::Consume { handle_id: handle_id.clone() }).expect("consume");
        runtime.validate().expect("consumed");
    }
}

#[test]
fn a_task_below_a_closed_root_is_a_fault() {
    let mut runtime = runtime();
    solve(&mut runtime, "P000");
    runtime.receive_passive_event(event("late", None)).expect("event");
    runtime.validate().expect("closed");
    runtime.create_user_task_from_inbox("IN000", "Task", "# Task", "taken").expect("task");
    let err = runtime.validate().expect_err("open child of a done problem");
    assert_eq!(err.message(), "state error: child problems still open: P001");
}

#[test]
fn a_task_for_one_thread_in_the_hands_of_another_is_a_fault() {
    let mut runtime = runtime();
    runtime.receive_passive_event(event("work", None)).expect("event");
    runtime.create_user_task_from_inbox("IN000", "Task", "# Task", "taken").expect("task");
    runtime.validate().expect("created");
    let spawned = runtime
        .spawn_thread("P001", ContextForkPolicy::FullContext, "Solve", None, None, Vec::new())
        .expect("spawn");
    let err = runtime.validate().expect_err("another owner");
    assert_eq!(
        err.message(),
        format!(
            "state error: problem P001 source inbox item IN000 targets QT000, not owner {}",
            spawned.thread_id
        )
    );
}

#[test]
fn a_reported_thread_that_runs_again_is_a_fault() {
    let mut parent = runtime();
    let (_, child) = split_child(&mut parent);
    let spawned = parent
        .spawn_thread(&child, ContextForkPolicy::FullContext, "Solve", None, None, Vec::new())
        .expect("spawn");
    let mut worker = as_thread(&parent, &spawned.thread_id);
    let ticket = worker.create_ticket(&child, "Ticket", "# Ticket").expect("ticket");
    worker.classify_ticket(&ticket, TicketClassification::OneGo, "bounded").expect("classify");
    worker.set_status(EntityKind::Problem, &child, "doing").expect("doing");
    worker.set_status(EntityKind::Ticket, &ticket, "executing").expect("executing");
    let wait = worker
        .wait_for_timer(Some("tick".to_string()), None, None, "tick")
        .expect("wait");
    worker.receive_passive_event(timer(&spawned.thread_id, "tick")).expect("tick");
    let result = worker.record_result(&ticket, "Result", "# Result").expect("result");
    worker
        .check(&child, CheckStatus::Success, vec![result], "Check", "# Check", None)
        .expect("check");
    worker.validate().expect("reported");
    worker.wait(WaitCommand::Consume { handle_id: wait.handle_id }).expect("consume");
    let err = worker.validate().expect_err("runs again");
    assert_eq!(
        err.message(),
        format!(
            "state error: ready handle {} targets thread {} with status Running",
            spawned.handle_id, spawned.thread_id
        )
    );
}

fn parked(runtime: &mut QunuxRuntime, mode: WaitMode, conditions: &[&str]) -> Vec<String> {
    let command = WaitCommand::Park {
        mode,
        reason: "test".to_string(),
        specs: conditions.iter().map(|c| wait_spec(WaitSpecKind::Timer, c)).collect(),
    };
    match runtime.wait(command).expect("park") {
        WaitResult::Parked { wait } => wait.handle_ids,
        _ => panic!("expected parked wait"),
    }
}

fn handle_status(runtime: &QunuxRuntime, handle_id: &str) -> IoHandleStatus {
    runtime.state().handles.get(handle_id).expect("handle").status
}

fn thread_state(runtime: &QunuxRuntime, thread_id: &str) -> ThreadStatus {
    runtime.state().threads.get(thread_id).expect("thread").status
}

#[test]
fn an_event_for_nobody_does_not_wake_a_parked_thread() {
    let mut runtime = runtime();
    let handles = parked(&mut runtime, WaitMode::All, &["noon"]);
    let key = runtime.state().handles.get(&handles[0]).expect("handle").event_key.clone();
    assert_eq!(key.expect("key").target_thread_id.as_deref(), Some(DEFAULT_THREAD_ID));

    let mut unaddressed = timer(DEFAULT_THREAD_ID, "noon");
    unaddressed.target_thread_id = None;
    let receipt = runtime.receive_passive_event(unaddressed).expect("unaddressed");
    assert_eq!(receipt.status, PassiveEventStatus::Inboxed);
    assert!(receipt.matched_handle_ids.is_empty());
    assert!(receipt.wake_decision.runnable_threads.is_empty());
    assert_eq!(receipt.inbox_item_id.as_deref(), Some("IN000"));
    assert_eq!(handle_status(&runtime, &handles[0]), IoHandleStatus::Pending);
    assert_eq!(thread_state(&runtime, DEFAULT_THREAD_ID), ThreadStatus::WaitingIo);

    let receipt =
        runtime.receive_passive_event(timer(DEFAULT_THREAD_ID, "noon")).expect("addressed");
    assert_eq!(receipt.status, PassiveEventStatus::Matched);
    assert_eq!(receipt.matched_handle_ids, handles);
    assert_eq!(receipt.wake_decision.runnable_threads.len(), 1);
    assert_eq!(receipt.wake_decision.runnable_threads[0].thread_id, DEFAULT_THREAD_ID);
    assert_eq!(
        receipt.wake_decision.runnable_threads[0].wake_reason,
        format!("handle {} ready", handles[0])
    );
    assert_eq!(handle_status(&runtime, &handles[0]), IoHandleStatus::Ready);
    assert_eq!(thread_state(&runtime, DEFAULT_THREAD_ID), ThreadStatus::Running);
}

#[test]
fn an_any_wait_is_over_once_one_handle_is_consumed() {
    let mut runtime = runtime();
    let handles = parked(&mut runtime, WaitMode::Any, &["a", "b"]);
    runtime.receive_passive_event(timer(DEFAULT_THREAD_ID, "b")).expect("event");
    let consume = WaitCommand::Consume { handle_id: handles[1].clone() };
    runtime.wait(consume.clone()).expect("consume");
    assert_eq!(handle_status(&runtime, &handles[0]), IoHandleStatus::Cancelled);
    assert_eq!(handle_status(&runtime, &handles[1]), IoHandleStatus::Consumed);
    assert!(runtime.wait(consume).is_err());
    let other = WaitCommand::Consume { handle_id: handles[0].clone() };
    assert!(runtime.wait(other).is_err());
}

#[test]
fn a_duplicate_is_answered_with_what_came_of_the_first() {
    let mut runtime = runtime();
    let first = runtime.receive_passive_event(event("hello", Some("m1"))).expect("first");
    let second = runtime.receive_passive_event(event("again", Some("m1"))).expect("second");
    assert_eq!(second.status, PassiveEventStatus::Duplicate);
    assert_eq!(second.duplicate_of_event_id, Some(first.event_id));
    assert_eq!(second.inbox_item_id, first.inbox_item_id);
    assert!(second.wake_decision.runnable_threads.is_empty());
}

#[test]
fn an_acknowledged_item_and_its_event_are_handled() {
    let mut runtime = runtime();
    runtime.receive_passive_event(event("one", None)).expect("one");
    runtime.receive_passive_event(event("two", None)).expect("two");
    runtime.acknowledge_inbox_item("IN001", "seen").expect("acknowledge");
    let items = &runtime.state().inbox;
    assert_eq!(items[0].status, PassiveEventStatus::Inboxed);
    assert_eq!(items[1].status, PassiveEventStatus::Handled);
    let events = &runtime.state().passive_events;
    assert_eq!(events[0].status, PassiveEventStatus::Inboxed);
    assert_eq!(events[1].status, PassiveEventStatus::Handled);
}

#[test]
fn a_child_that_stopped_comes_back_and_can_be_spawned_anew() {
    let mut runtime = runtime();
    let (_, child) = split_child(&mut runtime);
    let spawned = runtime
        .spawn_thread(&child, ContextForkPolicy::FullContext, "Solve", None, None, Vec::new())
        .expect("spawn");
    runtime
        .record_actor_completed_without_thread_done(&spawned.thread_id, "stopped")
        .expect("stopped");
    assert_eq!(thread_state(&runtime, &spawned.thread_id), ThreadStatus::Failed);
    let recovered = runtime.recover_thread(&spawned.thread_id).expect("recover");
    assert_eq!(recovered.handle_id, spawned.handle_id);
    assert_eq!(recovered.wait_id, spawned.wait_id);
    assert_eq!(thread_state(&runtime, &spawned.thread_id), ThreadStatus::Recovered);
    assert_eq!(thread_state(&runtime, DEFAULT_THREAD_ID), ThreadStatus::Running);
    assert_eq!(handle_status(&runtime, &spawned.handle_id), IoHandleStatus::Cancelled);
    assert_eq!(
        runtime.state().waits.get(&spawned.wait_id).expect("wait").status,
        WaitStatus::Consumed
    );
    assert!(runtime.recover_thread(&spawned.thread_id).is_err());
    let again = runtime
        .spawn_thread(&child, ContextForkPolicy::FullContext, "Solve", None, None, Vec::new())
        .expect("spawn again");
    assert_ne!(again.thread_id, spawned.thread_id);
}

#[test]
fn a_joined_child_leaves_nothing_open() {
    let mut parent = runtime();
    let (_, child) = split_child(&mut parent);
    let spawned = parent
        .spawn_thread(&child, ContextForkPolicy::FullContext, "Solve", None, None, Vec::new())
        .expect("spawn");
    let mut worker = as_thread(&parent, &spawned.thread_id);
    solve(&mut worker, &child);
    let mut parent = as_thread(&worker, DEFAULT_THREAD_ID);
    parent.join_thread(&spawned.thread_id).expect("join");
    assert_eq!(handle_status(&parent, &spawned.handle_id), IoHandleStatus::Consumed);
    assert_eq!(
        parent.state().waits.get(&spawned.wait_id).expect("wait").status,
        WaitStatus::Consumed
    );
    assert_eq!(thread_state(&parent, DEFAULT_THREAD_ID), ThreadStatus::Running);
    assert!(parent.state().threads.get(&spawned.thread_id).expect("thread").joined_at.is_some());
}

#[test]
fn a_problem_that_lists_itself_is_a_fault() {
    let runtime = runtime();
    let mut state = runtime.state().clone();
    state
        .problems
        .get_mut("P000")
        .expect("root")
        .child_problem_ids
        .push("P000".to_string());
    assert!(!state.is_sound());
    let looping = QunuxRuntime::load(RuntimeContext::new("/tmp/workspace"), state);
    assert!(looping.validate().is_err());
}
