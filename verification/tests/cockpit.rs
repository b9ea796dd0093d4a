//! What the cockpit shows of processes.
use qunux::cockpit::{
    desired_height, lines_for_snapshot_or_workspace, load_processes, state_in, QunuxCockpitSnapshot,
    RawFile,
};
use qunux::json::Json;
use qunux::styled::{Color, Line};
use serde_json::Value;

fn value(text: &str) -> Value {
    serde_json::from_str(text).expect("json")
}

fn state_of(value: &Value) -> Json {
    state_in(String::new(), String::new(), &value.to_string()).expect("document").state
}

fn text_of(lines: &Vec<Line>) -> String {
    lines
        .iter()
        .map(|line| line.spans.iter().map(|span| span.text.clone()).collect::<String>())
        .collect::<Vec<String>>()
        .join("\n")
}

fn state_file(process_id: &str, state: Value) -> RawFile {
    raw_file(process_id, &state.to_string())
}

fn raw_file(process_id: &str, raw: &str) -> RawFile {
    RawFile {
        directory_name: process_id.to_string(),
        path: format!("/tmp/workspace/.qunux/processes/{process_id}/closure.json"),
        raw: raw.to_string(),
    }
}

fn workspace_text(files: Vec<RawFile>) -> String {
    text_of(&lines_for_snapshot_or_workspace("/tmp/workspace", None, &load_processes(files)))
}

fn render_snapshot_state(state: Value) -> String {
    let snapshot = QunuxCockpitSnapshot::new(
        "QP-test".to_string(),
        Some("QT000".to_string()),
        Some("runtime push".to_string()),
        state_of(&state),
    );
    assert!(snapshot.is_readable());
    text_of(&lines_for_snapshot_or_workspace("/tmp/workspace", Some(&snapshot), &Vec::new()))
}

fn minimal_state(problems: Value, tickets: Value) -> Value {
    let mut state = value(
        r#"{
            "process_id": "QP-test",
            "root_id": "P000",
            "process": {
                "id": "QP-test",
                "root_actor_session_id": "root-session",
                "main_thread_id": "QT000",
                "created_at": "2026-05-16T00:00:00Z",
                "updated_at": "2026-05-16T00:00:00Z"
            },
            "main_thread_id": "QT000",
            "results": {},
            "checks": {},
            "threads": {
                "QT000": {
                    "id": "QT000",
                    "status": "running",
                    "root_problem_id": "P000",
                    "actor_session_id": "root-session"
                }
            },
            "waits": {},
            "handles": {},
            "passive_events": [],
            "inbox": [],
            "events": [],
            "io_events": []
        }"#,
    );
    state["problems"] = problems;
    state["tickets"] = tickets;
    state
}

fn dated_state(process_id: &str, created_at: &str, root_title: &str) -> Value {
    let mut state = minimal_state(
        value(
            r#"{
                "P000": {
                    "id": "P000",
                    "status": "todo",
                    "owner_thread_id": "QT000"
                }
            }"#,
        ),
        value("{}"),
    );
    state["process_id"] = Value::from(process_id);
    state["process"]["id"] = Value::from(process_id);
    state["process"]["created_at"] = Value::from(created_at);
    state["process"]["updated_at"] = Value::from(created_at);
    state["problems"]["P000"]["title"] = Value::from(root_title);
    state
}

#[test]
fn missing_state_renders_placeholder() {
    let rendered = workspace_text(Vec::new());

    assert!(rendered.contains("Qunux Agent OS Cockpit"));
    assert!(rendered.contains("attachable runtime view"));
    assert!(rendered.contains("No Qunux process state found."));
}

#[test]
fn fixture_state_renders_core_cockpit_sections() {
    let files = vec![state_file("QP-demo", value(fixture_state()))];

    let rendered = workspace_text(files);

    assert!(rendered.contains("process QP-demo"));
    assert!(rendered.contains("main QT000  current QT000"));
    assert!(rendered.contains("tasks 4 (3 open)"));
    assert!(rendered.contains("threads 2 (1 running)"));
    assert!(rendered.contains("next runnable handle-inbox IN000"));
    assert!(rendered.contains("dispatch state"));
    assert!(rendered.contains("dispatch ready next handle-inbox IN000"));
    assert!(rendered.contains("* QT000 [running] runtime running"));
    assert!(rendered.contains("process mission"));
    assert!(rendered.contains("P000 [doing] owner QT000 ticket T000 :: Root task"));
    assert!(rendered.contains("active user tasks"));
    assert!(rendered.contains(
        "P002 [todo] owner QT000 ticket - :: Investigate OpenClaw source inbox IN000 event PE000"
    ));
    assert!(rendered.contains("open work tree"));
    assert!(rendered.contains("P003 [todo] owner QT000 ticket - :: Runtime follow-up"));
    assert!(rendered.contains("threads"));
    assert!(rendered.contains("waits / handles"));
    assert!(rendered.contains("passive events 2 | inbox 1 (1 pending)"));
    assert!(rendered.contains("passive inbox"));
    assert!(rendered.contains(
        "IN000 event PE000 thread QT000 source chat condition reply payload turn:1 dedupe msg-1 :: user replied"
    ));
    assert!(rendered.contains("PE001 [matched] timer thread QT000 :: timer fired"));
    assert!(rendered.contains("recent events"));
}

#[test]
fn pushed_snapshot_is_preferred_over_persisted_state() {
    let files = vec![state_file("QP-disk", value(fixture_state()))];
    let snapshot_state = value(r#"{
        "process_id": "QP-live",
        "root_id": "P900",
        "main_thread_id": "QT900",
        "problems": {},
        "tickets": {},
        "results": {},
        "checks": {},
        "threads": {},
        "waits": {},
        "handles": {}
    }"#);
    let snapshot = QunuxCockpitSnapshot::new(
        "QP-live".to_string(),
        Some("QT900".to_string()),
        Some("runtime push".to_string()),
        state_of(&snapshot_state),
    );

    let rendered = text_of(&lines_for_snapshot_or_workspace(
        "/tmp/workspace",
        Some(&snapshot),
        &load_processes(files),
    ));

    assert!(rendered.contains("process QP-live"));
    assert!(rendered.contains("current QT900"));
    assert!(rendered.contains("state runtime push"));
    assert!(!rendered.contains("process QP-demo"));
}

#[test]
fn persisted_processes_render_newest_first() {
    let files = vec![
        state_file("QP-old", dated_state("QP-old", "2026-05-14T00:00:00Z", "Old root")),
        state_file("QP-new", dated_state("QP-new", "2026-05-16T00:00:00Z", "New root")),
    ];

    let rendered = workspace_text(files);

    let new_index = rendered.find("process QP-new").expect("new process");
    let old_index = rendered.find("process QP-old").expect("old process");
    assert!(new_index < old_index);
}

#[test]
fn executing_ticket_renders_record_result_next() {
    let state = minimal_state(
        value(r#"{
            "P000": {
                "id": "P000",
                "title": "Root task",
                "status": "doing",
                "owner_thread_id": "QT000",
                "ticket_id": "T000"
            }
        }"#),
        value(r#"{
            "T000": {
                "id": "T000",
                "problem_id": "P000",
                "status": "executing",
                "classification": "one_go"
            }
        }"#),
    );

    let rendered = render_snapshot_state(state);

    assert!(rendered.contains("next runnable record-result P000/T000"));
    assert!(rendered.contains("dispatch ready next record-result P000/T000"));
}

#[test]
fn splitting_ticket_without_children_renders_split_ticket_next() {
    let state = minimal_state(
        value(r#"{
            "P000": {
                "id": "P000",
                "title": "Root task",
                "status": "doing",
                "owner_thread_id": "QT000",
                "ticket_id": "T000"
            }
        }"#),
        value(r#"{
            "T000": {
                "id": "T000",
                "problem_id": "P000",
                "status": "splitting",
                "classification": "split"
            }
        }"#),
    );

    let rendered = render_snapshot_state(state);

    assert!(rendered.contains("next runnable split-ticket P000/T000"));
    assert!(rendered.contains("dispatch ready next split-ticket P000/T000"));
}

#[test]
fn splitting_ticket_with_closed_child_renders_record_result_next() {
    let state = minimal_state(
        value(r#"{
            "P000": {
                "id": "P000",
                "title": "Root task",
                "status": "doing",
                "owner_thread_id": "QT000",
                "ticket_id": "T000",
                "child_problem_ids": ["P001"]
            },
            "P001": {
                "id": "P001",
                "title": "Closed child",
                "status": "done",
                "owner_thread_id": "QT000",
                "parent_id": "P000",
                "created_from_ticket_id": "T000"
            }
        }"#),
        value(r#"{
            "T000": {
                "id": "T000",
                "problem_id": "P000",
                "status": "splitting",
                "classification": "split"
            }
        }"#),
    );

    let rendered = render_snapshot_state(state);

    assert!(rendered.contains("next runnable record-result P000/T000"));
    assert!(rendered.contains("dispatch ready next record-result P000/T000"));
}

#[test]
fn open_child_problem_renders_spawn_thread_next() {
    let state = minimal_state(
        value(r#"{
            "P000": {
                "id": "P000",
                "title": "Root task",
                "status": "doing",
                "owner_thread_id": "QT000",
                "ticket_id": "T000",
                "child_problem_ids": ["P001"]
            },
            "P001": {
                "id": "P001",
                "title": "Open child",
                "status": "todo",
                "owner_thread_id": "QT000",
                "parent_id": "P000",
                "created_from_ticket_id": "T000"
            }
        }"#),
        value(r#"{
            "T000": {
                "id": "T000",
                "problem_id": "P000",
                "status": "splitting",
                "classification": "split"
            }
        }"#),
    );

    let rendered = render_snapshot_state(state);

    assert!(rendered.contains("next runnable spawn-thread P001"));
    assert!(rendered.contains("dispatch ready next spawn-thread P001"));
}

#[test]
fn waiting_io_thread_renders_parked_io_next_and_wait_rows() {
    let mut state = minimal_state(
        value(r#"{
            "P000": {
                "id": "P000",
                "title": "Root task",
                "status": "doing",
                "owner_thread_id": "QT000"
            }
        }"#),
        value(r#"{}"#),
    );
    state["threads"]["QT000"]["status"] = serde_json::Value::from("waiting_io");
    state["waits"] = value(r#"{
        "W000": {
            "id": "W000",
            "thread_id": "QT000",
            "status": "waiting",
            "handle_ids": ["H000"]
        }
    }"#);
    state["handles"] = value(r#"{
        "H000": {
            "id": "H000",
            "kind": "user_input",
            "status": "pending",
            "target_thread_id": "QT000"
        }
    }"#);

    let rendered = render_snapshot_state(state);

    assert!(rendered.contains("next io_wait wait_io W000"));
    assert!(rendered.contains("dispatch parked_io next wait_io W000"));
    assert!(rendered.contains(
        "* QT000 [waiting_io] runtime parked_io root P000 actor root-session wait W000 [waiting] handle H000 user_input/pending"
    ));
    assert!(rendered.contains("wait W000 [waiting] thread QT000"));
    assert!(rendered.contains("handle H000 [pending] kind user_input target QT000"));
}

fn fixture_state() -> &'static str {
    r#"{
  "process_id": "QP-demo",
  "root_id": "P000",
  "main_thread_id": "QT000",
  "problems": {
"P000": {
  "id": "P000",
  "title": "Root task",
  "status": "doing",
  "owner_thread_id": "QT000",
  "ticket_id": "T000"
},
"P001": {
  "id": "P001",
  "title": "Closed child",
  "status": "done",
  "owner_thread_id": "QT001"
},
"P002": {
  "id": "P002",
  "title": "Investigate OpenClaw",
  "status": "todo",
  "owner_thread_id": "QT000",
  "parent_id": "P000",
  "created_from_inbox_item_id": "IN000",
  "created_from_passive_event_id": "PE000",
  "created_from_user_task_kind": "user_input"
},
"P003": {
  "id": "P003",
  "title": "Runtime follow-up",
  "status": "todo",
  "owner_thread_id": "QT000",
  "parent_id": "P000",
  "created_from_ticket_id": "T000",
  "child_mode": "split"
}
  },
  "tickets": {
"T000": {
  "id": "T000",
  "problem_id": "P000",
  "status": "classified",
  "classification": "split"
}
  },
  "results": {},
  "checks": {},
  "threads": {
"QT000": {
  "id": "QT000",
  "status": "running",
  "root_problem_id": "P000",
  "actor_session_id": "root-session"
},
"QT001": {
  "id": "QT001",
  "status": "done",
  "root_problem_id": "P001",
  "actor_session_id": "child-session"
}
  },
  "waits": {
"W000": {
  "id": "W000",
  "status": "consumed",
  "thread_id": "QT000"
}
  },
  "handles": {
"H000": {
  "id": "H000",
  "kind": "child_thread",
  "status": "consumed",
  "target_thread_id": "QT001"
}
  },
  "passive_events": [
{
  "id": "PE000",
  "kind": "user_input",
  "status": "inboxed",
  "target_thread_id": "QT000",
  "summary": "user replied",
  "created_at": "2026-05-14T00:00:02Z"
},
{
  "id": "PE001",
  "kind": "timer",
  "status": "matched",
  "target_thread_id": "QT000",
  "summary": "timer fired",
  "created_at": "2026-05-14T00:00:03Z"
}
  ],
  "inbox": [
{
  "id": "IN000",
  "passive_event_id": "PE000",
  "target_thread_id": "QT000",
  "condition": "reply",
  "source": "chat",
  "summary": "user replied",
  "payload_ref": "turn:1",
  "dedupe_key": "msg-1",
  "status": "inboxed",
  "created_at": "2026-05-14T00:00:02Z"
}
  ],
  "events": [
{"created_at": "2026-05-14T00:00:00Z", "kind": "problem_created", "entity_id": "P000", "message": "root"}
  ],
  "io_events": [
{"created_at": "2026-05-14T00:00:01Z", "kind": "child_thread_joined", "thread_id": "QT001", "message": "joined"}
  ]
}"#
}

#[test]
fn processes_that_began_together_go_by_their_identifier() {
    let files = vec![
        state_file("QP-a", dated_state("QP-a", "2026-05-14T00:00:00Z", "A root")),
        state_file("QP-b", dated_state("QP-b", "2026-05-14T00:00:00Z", "B root")),
    ];
    let processes = load_processes(files);
    assert_eq!(processes[0].process_id, "QP-b");
    assert_eq!(processes[1].process_id, "QP-a");
}

#[test]
fn an_unnamed_process_is_named_after_its_directory() {
    let processes = load_processes(vec![state_file("QP-unnamed", value("{}"))]);
    assert_eq!(processes[0].process_id, "QP-unnamed");
    assert_eq!(
        processes[0].state_path.as_deref(),
        Some("/tmp/workspace/.qunux/processes/QP-unnamed/closure.json")
    );
}

#[test]
fn follow_ups_that_lead_back_are_not_readable() {
    let state = minimal_state(
        value(
            r#"{
                "P000": {
                    "id": "P000",
                    "status": "followup",
                    "owner_thread_id": "QT000",
                    "followup_problem_ids": ["P001"]
                },
                "P001": {
                    "id": "P001",
                    "status": "followup",
                    "owner_thread_id": "QT000",
                    "followup_problem_ids": ["P001"]
                }
            }"#,
        ),
        value("{}"),
    );
    let snapshot = QunuxCockpitSnapshot::new(
        "QP-test".to_string(),
        Some("QT000".to_string()),
        None,
        state_of(&state),
    );
    assert!(!snapshot.is_readable());
}

#[test]
fn the_cockpit_is_at_least_eight_rows_high() {
    let lines = lines_for_snapshot_or_workspace("/tmp/workspace", None, &Vec::new());
    assert_eq!(lines.len(), 6);
    assert_eq!(desired_height(&lines), 8);
    assert_eq!(lines[3].spans[0].style.color, Some(Color::Yellow));
}

#[test]
fn a_file_that_is_no_document_is_passed_over() {
    let files = vec![
        raw_file("QP-broken", "{\"process_id\": "),
        raw_file("QP-empty", ""),
        state_file("QP-fine", dated_state("QP-fine", "2026-05-14T00:00:00Z", "Fine root")),
    ];
    let processes = load_processes(files);
    assert_eq!(processes.len(), 1);
    assert_eq!(processes[0].process_id, "QP-fine");
    assert!(state_in("QP-broken".to_string(), String::new(), "[1, 2").is_none());
}

#[test]
fn a_document_is_read_member_by_member() {
    let file = state_in(
        "QP-read".to_string(),
        "closure.json".to_string(),
        r#"{"name": "a\u0062", "list": ["x", 1, null], "inner": {"flag": true}}"#,
    )
    .expect("document");
    assert_eq!(file.directory_name, "QP-read");
    assert_eq!(file.path, "closure.json");
    assert_eq!(file.state.text_field("name"), Some("ab"));
    assert_eq!(file.state.items("list"), vec![&Json::Text("x".to_string()), &Json::Other, &Json::Other]);
    assert_eq!(file.state.get_in("inner", "flag"), Some(&Json::Other));
    assert_eq!(file.state.get("missing"), None);
}

#[test]
fn a_line_break_in_a_title_is_not_shown() {
    let rendered = workspace_text(vec![state_file(
        "QP-break",
        dated_state("QP-break", "2026-05-14T00:00:00Z", "left\nright"),
    )]);
    assert!(rendered.contains("leftright"));
}
