//! What the cockpit shows of a process: which records, in which order, and in which words.
use vstd::prelude::*;
use crate::cockpit::{all_lines, by_text, cockpit_lines, count_lines, created_at, disposition_color, event_section, event_text, item_text, first_rows, last_rows, loaded, loop_section, loop_word, newer, next_line, passive_section, problem_section, problem_text, process_lines, section, thread_row, thread_section, thread_word, title_lines, wait_handle_rows, work_rows, RawFile, SnapshotView};
use crate::dispatch::{active_wait, next_summary, NextSummaryView};
use crate::ids::decimal;
use crate::json::{document, entries, get_in, items, text_field, text_or, texts, Json};
use crate::order::{lemma_lex_irreflexive, lemma_lex_total, lemma_lex_transitive, lex_lt};
use crate::search::{find_from, lemma_find_from, lemma_kept, select};
use crate::sorting::{is_order, law_sorted, sorted};
use crate::styled::{bold_view, colored_view, plain_view, raw_view, Color, SpanView};
use crate::text::joined;

verus! {

proof fn lemma_by_text_is_order(name: Seq<char>)
    ensures
        is_order(by_text(name)),
{
    let f = by_text(name);
    assert forall|x: Json| !#[trigger] f(x, x) by {
        lemma_lex_irreflexive(text_or(x, name, ""@));
    }
    assert forall|x: Json, y: Json, z: Json| #[trigger] f(x, y) && #[trigger] f(y, z) implies f(
        x,
        z,
    ) by {
        lemma_lex_transitive(text_or(x, name, ""@), text_or(y, name, ""@), text_or(z, name, ""@));
    }
    assert forall|x: Json, y: Json, z: Json| #[trigger] f(x, z) implies f(x, y) || #[trigger] f(
        y,
        z,
    ) by {
        let (a, b, c) = (text_or(x, name, ""@), text_or(y, name, ""@), text_or(z, name, ""@));
        lemma_lex_total(a, b);
        if !lex_lt(a, b) && a != b {
            lemma_lex_transitive(b, a, c);
        }
    }
}

proof fn lemma_lex_chain(a: Seq<char>, b: Seq<char>, c: Seq<char>)
    ensures
        lex_lt(a, b) && lex_lt(b, c) ==> lex_lt(a, c),
{
    if lex_lt(a, b) && lex_lt(b, c) {
        lemma_lex_transitive(a, b, c);
    }
}

proof fn lemma_newer_is_order()
    ensures
        is_order(newer()),
{
    let f = newer();
    assert forall|x: SnapshotView| !#[trigger] f(x, x) by {
        lemma_lex_irreflexive(created_at(x.state));
        lemma_lex_irreflexive(x.process_id);
    }
    assert forall|x: SnapshotView, y: SnapshotView, z: SnapshotView| #[trigger]
        f(x, y) && #[trigger] f(y, z) implies f(x, z) by {
        lemma_lex_chain(created_at(z.state), created_at(y.state), created_at(x.state));
        lemma_lex_chain(z.process_id, y.process_id, x.process_id);
    }
    assert forall|x: SnapshotView, y: SnapshotView, z: SnapshotView| #[trigger]
        f(x, z) implies f(x, y) || #[trigger] f(y, z) by {
        let (a, b, c) = (created_at(x.state), created_at(y.state), created_at(z.state));
        lemma_lex_total(a, b);
        lemma_lex_total(b, c);
        lemma_lex_total(x.process_id, y.process_id);
        lemma_lex_chain(a, b, c);
        lemma_lex_chain(c, a, b);
        lemma_lex_chain(z.process_id, x.process_id, y.process_id);
        if lex_lt(c, a) {
            lemma_lex_chain(c, b, a);
            lemma_lex_irreflexive(c);
        }
    }
}

/// The processes are shown newest first; of those that began at once, the one with the later name comes
/// first. None is left out and none is added.
pub proof fn law_newest_process_comes_first(found: Seq<SnapshotView>, i: int, j: int)
    requires
        0 <= i < j < sorted(found, newer()).len(),
    ensures
        ({
            let list = sorted(found, newer());
            let (a, b) = (created_at(list[i].state), created_at(list[j].state));
            &&& a == b || lex_lt(b, a)
            &&& a == b ==> list[i].process_id == list[j].process_id || lex_lt(
                list[j].process_id,
                list[i].process_id,
            )
            &&& list.to_multiset() == found.to_multiset()
        }),
{
    lemma_newer_is_order();
    law_sorted(found, newer());
    let list = sorted(found, newer());
    assert(!(newer())(list[j], list[i]));
    lemma_lex_total(created_at(list[i].state), created_at(list[j].state));
    lemma_lex_total(list[i].process_id, list[j].process_id);
}

/// Every file that holds a document stands for a process: it goes by the name that the document gives,
/// else by that of its directory, and the path of the file is told with it. Other files are passed over.
pub proof fn law_documents_stand_for_processes(files: Seq<RawFile>, n: int)
    requires
        0 <= n <= files.len(),
    ensures
        forall|k: int|
            0 <= k < n && document((#[trigger] files[k]).raw@) is Some ==> loaded(
                files,
                n,
            ).contains(
                SnapshotView {
                    process_id: text_or(
                        document(files[k].raw@)->0,
                        "process_id"@,
                        files[k].directory_name@,
                    ),
                    qunux_thread_id: None,
                    state_path: Some(files[k].path@),
                    state: document(files[k].raw@)->0,
                },
            ),
        loaded(files, n).len() <= n,
        (forall|k: int| 0 <= k < n ==> document((#[trigger] files[k]).raw@) is None) ==> loaded(
            files,
            n,
        ).len() == 0,
    decreases n,
{
    if n > 0 {
        law_documents_stand_for_processes(files, n - 1);
        let before = loaded(files, n - 1);
        let after = loaded(files, n);
        assert forall|k: int| 0 <= k < n && document((#[trigger] files[k]).raw@) is Some implies
            after.contains(
            SnapshotView {
                process_id: text_or(
                    document(files[k].raw@)->0,
                    "process_id"@,
                    files[k].directory_name@,
                ),
                qunux_thread_id: None,
                state_path: Some(files[k].path@),
                state: document(files[k].raw@)->0,
            },
        ) by {
            let p = SnapshotView {
                process_id: text_or(
                    document(files[k].raw@)->0,
                    "process_id"@,
                    files[k].directory_name@,
                ),
                qunux_thread_id: None,
                state_path: Some(files[k].path@),
                state: document(files[k].raw@)->0,
            };
            if k < n - 1 {
                assert(before.contains(p));
                let i = before.index_of(p);
                assert(before[i] == p);
                assert(after[i] == p);
            } else {
                assert(after.last() == p);
                assert(after[after.len() - 1] == p);
            }
        }
    }
}

/// Records are shown in the order of a text of theirs, and each that fits has its row.
proof fn lemma_first_rows(
    list: Seq<Json>,
    name: Seq<char>,
    row: spec_fn(Json) -> Seq<char>,
    limit: nat,
    x: Json,
)
    requires
        list.contains(x),
        list.len() <= limit,
    ensures
        first_rows(sorted(list, by_text(name)), row, limit).contains(plain_view(row(x))),
        first_rows(sorted(list, by_text(name)), row, limit).len() == list.len(),
{
    lemma_by_text_is_order(name);
    law_sorted(list, by_text(name));
    let done = sorted(list, by_text(name));
    broadcast use vstd::seq_lib::group_to_multiset_ensures;

    assert(done.to_multiset().len() == list.to_multiset().len());
    assert(list.to_multiset().contains(x));
    assert(done.contains(x));
    let i = done.index_of(x);
    assert(done[i] == x);
    assert(first_rows(done, row, limit)[i] == plain_view(row(x)));
}

proof fn lemma_in_section(title: Seq<char>, rows: Seq<Seq<SpanView>>, row: Seq<SpanView>)
    requires
        rows.contains(row),
    ensures
        section(title, rows).contains(row),
{
    let i = rows.index_of(row);
    assert(rows[i] == row);
    assert(section(title, rows)[i + 1] == row);
}

/// While they fit, all threads of a document are shown. The row of a thread marks the current one, and
/// says its status, the word for what it does, the problem it works on, its actor and what it waits
/// for.
pub proof fn law_every_thread_is_shown(doc: Json, current: Seq<char>, thread: Json)
    requires
        entries(doc, "threads"@).contains(thread),
        entries(doc, "threads"@).len() <= 8,
    ensures
        ({
            let id = text_or(thread, "id"@, "?"@);
            let status = text_or(thread, "status"@, "unknown"@);
            let mark = if id == current {
                "*"@
            } else {
                " "@
            };
            let waits = match crate::cockpit::wait_words(doc, id) {
                Some(words) => words,
                None => "wait -"@,
            };
            thread_section(doc, current).contains(
                plain_view(
                    mark + " "@ + id + " ["@ + status + "] runtime "@ + thread_word(status)
                        + " root "@ + text_or(thread, "root_problem_id"@, "?"@) + " actor "@
                        + text_or(thread, "actor_session_id"@, "no-actor"@) + " "@ + waits,
                ),
            )
        }),
{
    let rows = first_rows(
        sorted(entries(doc, "threads"@), by_text("id"@)),
        thread_row(doc, current),
        8,
    );
    lemma_first_rows(entries(doc, "threads"@), "id"@, thread_row(doc, current), 8, thread);
    lemma_in_section("threads"@, rows, plain_view((thread_row(doc, current))(thread)));
}

/// A problem of a document came from something outside.
pub open spec fn came_from_outside(problem: Json) -> bool {
    text_field(problem, "created_from_inbox_item_id"@) is Some || text_field(
        problem,
        "created_from_passive_event_id"@,
    ) is Some
}

/// The row of a problem: name, status, owner, ticket and title, and where it came from.
pub open spec fn is_problem_row(problem: Json, text: Seq<char>) -> bool {
    let inbox = text_field(problem, "created_from_inbox_item_id"@);
    let event = text_field(problem, "created_from_passive_event_id"@);
    let old_list = texts(problem, "ticket_ids"@);
    let ticket = match text_field(problem, "ticket_id"@) {
        Some(id) => id,
        None => if old_list.len() > 0 {
            old_list[0]
        } else {
            "-"@
        },
    };
    let source = if inbox is Some && event is Some {
        " source inbox "@ + inbox->0 + " event "@ + event->0
    } else if inbox is Some {
        " source inbox "@ + inbox->0
    } else if event is Some {
        " source event "@ + event->0
    } else {
        ""@
    };
    text == "  "@ + text_or(problem, "id"@, "?"@) + " ["@ + text_or(problem, "status"@, "unknown"@)
        + "] owner "@ + text_or(problem, "owner_thread_id"@, "?"@) + " ticket "@ + ticket + " :: "@
        + text_or(problem, "title"@, "untitled"@) + source
}

proof fn lemma_in_work(doc: Json, root_id: Seq<char>, user_task: bool, problem: Json)
    requires
        entries(doc, "problems"@).contains(problem),
        entries(doc, "problems"@).len() <= 8,
        text_field(problem, "id"@) != Some(root_id),
        text_field(problem, "status"@) != Some("done"@),
        came_from_outside(problem) == user_task,
    ensures
        work_rows(doc, root_id, user_task).contains(plain_view(problem_text(problem))),
{
    let all = entries(doc, "problems"@);
    let f = crate::cockpit::open_work(root_id, user_task);
    let list = select(all, f);
    lemma_kept(all, f, all.len() as int);
    let i = all.index_of(problem);
    assert(all[i] == problem);
    assert(f(all[i]));
    assert(list.contains(problem));
    lemma_first_rows(list, "id"@, crate::cockpit::problem_rows(), 8, problem);
}

/// The first thing said of the work is the mission, the problem at the root. While they fit, every other
/// problem that is not done has its row, among the tasks of the user if it came from outside and in the
/// tree of work if not.
pub proof fn law_open_work_is_shown(doc: Json, problem: Json)
    requires
        entries(doc, "problems"@).contains(problem),
        entries(doc, "problems"@).len() <= 8,
        text_field(problem, "id"@) != Some(text_or(doc, "root_id"@, "P000"@)),
        text_field(problem, "status"@) != Some("done"@),
    ensures
        is_problem_row(problem, problem_text(problem)),
        problem_section(doc).contains(plain_view(problem_text(problem))),
        section(
            if came_from_outside(problem) {
                "active user tasks"@
            } else {
                "open work tree"@
            },
            work_rows(doc, text_or(doc, "root_id"@, "P000"@), came_from_outside(problem)),
        ).contains(plain_view(problem_text(problem))),
{
    let root_id = text_or(doc, "root_id"@, "P000"@);
    let outside = came_from_outside(problem);
    let row = plain_view(problem_text(problem));
    let a = section("active user tasks"@, work_rows(doc, root_id, true));
    let b = section("open work tree"@, work_rows(doc, root_id, false));
    let whole = problem_section(doc);
    lemma_in_work(doc, root_id, outside, problem);
    lemma_in_section(
        if outside {
            "active user tasks"@
        } else {
            "open work tree"@
        },
        work_rows(doc, root_id, outside),
        row,
    );
    if outside {
        let i = a.index_of(row);
        assert(a[i] == row);
        assert(whole[i + 2] == row);
    } else {
        let i = b.index_of(row);
        assert(b[i] == row);
        assert(whole[i + 2 + a.len()] == row);
    }
}

/// The mission line is that of the root problem, or says that there is none.
pub proof fn law_mission_is_the_root(doc: Json)
    ensures
        ({
            let root_id = text_or(doc, "root_id"@, "P000"@);
            &&& problem_section(doc)[0] == seq![bold_view("process mission"@, Color::Blue)]
            &&& get_in(doc, "problems"@, root_id) matches Some(root) ==> problem_section(doc)[1]
                == plain_view(problem_text(root)) && is_problem_row(root, problem_text(root))
            &&& get_in(doc, "problems"@, root_id) is None ==> problem_section(doc)[1] == plain_view(
                "  "@ + root_id + " [missing]"@,
            )
        }),
{
}

/// The newest of what came from outside and of what happened is shown first.
pub proof fn law_newest_rows_come_first(
    list: Seq<Json>,
    row: spec_fn(Json) -> Seq<char>,
    limit: nat,
    k: int,
)
    requires
        0 <= k < last_rows(list, row, limit).len(),
    ensures
        last_rows(list, row, limit)[k] == plain_view(row(list[list.len() - 1 - k])),
        last_rows(list, row, limit).len() == if list.len() < limit {
            list.len()
        } else {
            limit
        },
{
}

/// What the words and the colors for how a process stands mean.
pub proof fn law_words_for_how_a_process_stands()
    ensures
        loop_word("runnable"@) == "ready"@ && disposition_color("runnable"@) == Color::Green,
        loop_word("io_wait"@) == "parked_io"@ && disposition_color("io_wait"@) == Color::Yellow,
        loop_word("terminal"@) == "terminal"@ && disposition_color("terminal"@) == Color::DarkGray,
        forall|w: Seq<char>| #[trigger]
            loop_word(w) == "unknown"@ <==> w != "runnable"@ && w != "io_wait"@ && w != "terminal"@,
        forall|w: Seq<char>| #[trigger]
            disposition_color(w) == Color::White <==> w != "runnable"@ && w != "io_wait"@ && w
                != "terminal"@,
{
    reveal_strlit("runnable");
    reveal_strlit("io_wait");
    reveal_strlit("terminal");
    reveal_strlit("ready");
    reveal_strlit("parked_io");
    reveal_strlit("unknown");
    assert("runnable"@.len() == 8 && "io_wait"@.len() == 7 && "terminal"@.len() == 8);
    assert("runnable"@[0] == 'r' && "terminal"@[0] == 't');
    assert("ready"@.len() == 5 && "parked_io"@.len() == 9 && "unknown"@.len() == 7);
}

/// What a thread does, by its status.
pub proof fn law_words_for_what_a_thread_does()
    ensures
        thread_word("running"@) == "running"@,
        thread_word("waiting_io"@) == "parked_io"@,
        thread_word("waiting_children"@) == "waiting_child"@,
        thread_word("done"@) == "terminal"@,
        thread_word("failed"@) == "failed"@,
        thread_word("cancelled"@) == "cancelled"@,
        forall|w: Seq<char>|
            w != "running"@ && w != "waiting_io"@ && w != "waiting_children"@ && w != "done"@ && w
                != "failed"@ && w != "cancelled"@ ==> #[trigger] thread_word(w) == "unknown"@,
{
    reveal_strlit("running");
    reveal_strlit("waiting_io");
    reveal_strlit("waiting_children");
    reveal_strlit("done");
    reveal_strlit("failed");
    reveal_strlit("cancelled");
    assert("running"@.len() == 7 && "waiting_io"@.len() == 10 && "waiting_children"@.len() == 16);
    assert("done"@.len() == 4 && "failed"@.len() == 6 && "cancelled"@.len() == 9);
}

proof fn lemma_moved<T>(a: Seq<T>, b: Seq<T>, c: Seq<T>)
    ensures
        a + b + c == a + (b + c),
{
    assert(a + b + c =~= a + (b + c));
}

proof fn lemma_process_lines(process: SnapshotView)
    ensures
        ({
            let doc = process.state;
            let current = process.current();
            let next = next_summary(doc, current);
            process_lines(process) == (title_lines(process) + count_lines(doc) + seq![
                next_line(next),
            ]) + (loop_section(doc, current, next) + problem_section(doc) + thread_section(
                doc,
                current,
            ) + section("waits / handles"@, wait_handle_rows(doc)) + passive_section(doc)
                + event_section(doc))
        }),
{
    let doc = process.state;
    let current = process.current();
    let next = next_summary(doc, current);
    let head = title_lines(process) + count_lines(doc) + seq![next_line(next)];
    let a = loop_section(doc, current, next);
    let b = problem_section(doc);
    let c = thread_section(doc, current);
    let d = section("waits / handles"@, wait_handle_rows(doc));
    let e = passive_section(doc);
    let f = event_section(doc);
    reveal(process_lines);
    lemma_moved(head, a, b);
    lemma_moved(head, a + b, c);
    lemma_moved(head, a + b + c, d);
    lemma_moved(head, a + b + c + d, e);
    lemma_moved(head, a + b + c + d + e, f);
}

/// The lines for a process begin with its name, the file it was read from, three lines of counts, and
/// what comes next; after them come the sections for the dispatch, the work, the threads, the waits and
/// handles, what came from outside, and what happened.
pub proof fn law_process_is_shown_in_order(process: SnapshotView)
    ensures
        ({
            let doc = process.state;
            let current = match process.qunux_thread_id {
                Some(id) => id,
                None => text_or(doc, "main_thread_id"@, "QT000"@),
            };
            let next = next_summary(doc, current);
            let lines = process_lines(process);
            let rest = loop_section(doc, current, next) + problem_section(doc) + thread_section(
                doc,
                current,
            ) + section("waits / handles"@, wait_handle_rows(doc)) + passive_section(doc)
                + event_section(doc);
            &&& lines.len() == 6 + rest.len()
            &&& lines.skip(6) == rest
            &&& lines[0] == seq![
                bold_view("process "@ + process.process_id, Color::Green),
                raw_view(
                    "  root "@ + text_or(doc, "root_id"@, "P000"@) + "  main "@ + text_or(
                        doc,
                        "main_thread_id"@,
                        "QT000"@,
                    ) + "  current "@ + current,
                ),
            ]
            &&& lines[1] == plain_view(
                "state "@ + match process.state_path {
                    Some(path) => path,
                    None => "pushed snapshot"@,
                },
            )
            &&& lines[2] == count_lines(doc)[0] && lines[3] == count_lines(doc)[1] && lines[4]
                == count_lines(doc)[2]
            &&& lines[5] == seq![
                colored_view("next "@, Color::DarkGray),
                colored_view(next.disposition, disposition_color(next.disposition)),
                raw_view(
                    " "@ + next.action + " "@ + match next.target {
                        Some(target) => target,
                        None => ""@,
                    },
                ),
            ]
        }),
{
    let doc = process.state;
    let current = process.current();
    let next = next_summary(doc, current);
    let lines = process_lines(process);
    let rest = loop_section(doc, current, next) + problem_section(doc) + thread_section(
        doc,
        current,
    ) + section("waits / handles"@, wait_handle_rows(doc)) + passive_section(doc) + event_section(
        doc,
    );
    let head = title_lines(process) + count_lines(doc) + seq![next_line(next)];
    lemma_process_lines(process);
    assert(lines == head + rest);
    assert(head.len() == 6);
    assert((head + rest).skip(6) =~= rest);
    assert(lines[0] == head[0] && lines[1] == head[1] && lines[2] == head[2] && lines[3] == head[3]
        && lines[4] == head[4] && lines[5] == head[5]);
}

/// The counts of a document, each of its own list.
pub proof fn law_counts_are_shown(doc: Json)
    ensures
        ({
            let open = select(
                entries(doc, "problems"@),
                |p: Json| text_field(p, "status"@) != Some("done"@),
            );
            let running = select(
                entries(doc, "threads"@),
                |t: Json| text_field(t, "status"@) == Some("running"@),
            );
            let pending = select(
                items(doc, "inbox"@),
                |i: Json| text_field(i, "status"@) == Some("inboxed"@),
            );
            &&& count_lines(doc).len() == 3
            &&& count_lines(doc)[0] == plain_view(
                "tasks "@ + decimal(entries(doc, "problems"@).len()) + " ("@ + decimal(open.len())
                    + " open) | tickets "@ + decimal(entries(doc, "tickets"@).len())
                    + " | results "@ + decimal(entries(doc, "results"@).len()) + " | checks "@
                    + decimal(entries(doc, "checks"@).len()),
            )
            &&& count_lines(doc)[1] == plain_view(
                "threads "@ + decimal(entries(doc, "threads"@).len()) + " ("@ + decimal(
                    running.len(),
                ) + " running) | waits "@ + decimal(entries(doc, "waits"@).len())
                    + " | handles "@ + decimal(entries(doc, "handles"@).len()),
            )
            &&& count_lines(doc)[2] == plain_view(
                "passive events "@ + decimal(items(doc, "passive_events"@).len()) + " | inbox "@
                    + decimal(items(doc, "inbox"@).len()) + " ("@ + decimal(pending.len())
                    + " pending)"@,
            )
        }),
{
    assert(crate::cockpit::not_done() =~= |p: Json| text_field(p, "status"@) != Some("done"@));
    assert(crate::cockpit::with_text("status"@, "running"@) =~= |t: Json|
        text_field(t, "status"@) == Some("running"@));
    assert(crate::cockpit::with_text("status"@, "inboxed"@) =~= |i: Json|
        text_field(i, "status"@) == Some("inboxed"@));
}

/// Every process has its lines in the cockpit, each with an empty line behind, in order and after the
/// three lines at the head; without a process it says so and where one was looked for.
pub proof fn law_every_process_is_shown(workspace: Seq<char>, processes: Seq<SnapshotView>, n: int)
    requires
        0 < n <= processes.len(),
    ensures
        all_lines(processes, n) == all_lines(processes, n - 1) + process_lines(processes[n - 1])
            + seq![plain_view(""@)],
        all_lines(processes, 0).len() == 0,
        cockpit_lines(workspace, processes).len() == 3 + all_lines(
            processes,
            processes.len() as int,
        ).len(),
        cockpit_lines(workspace, processes).skip(3) == all_lines(
            processes,
            processes.len() as int,
        ),
        cockpit_lines(workspace, processes)[1] == seq![
            colored_view("workspace "@, Color::DarkGray),
            raw_view(workspace),
        ],
{
    let all = all_lines(processes, processes.len() as int);
    assert(cockpit_lines(workspace, processes).skip(3) =~= all);
}

/// The row of a wait, of a handle and of an event, each by its own fields.
pub proof fn law_rows_name_their_records(record: Json)
    ensures
        crate::cockpit::wait_text(record) == "  wait "@ + text_or(record, "id"@, "?"@) + " ["@
            + text_or(record, "status"@, "unknown"@) + "] thread "@ + text_or(
            record,
            "thread_id"@,
            "?"@,
        ),
        crate::cockpit::handle_text(record) == "  handle "@ + text_or(record, "id"@, "?"@) + " ["@
            + text_or(record, "status"@, "unknown"@) + "] kind "@ + text_or(
            record,
            "kind"@,
            "unknown"@,
        ) + " target "@ + text_or(record, "target_thread_id"@, "-"@),
        crate::cockpit::passive_event_text(record) == "  "@ + text_or(record, "id"@, "?"@) + " ["@
            + text_or(record, "status"@, "unknown"@) + "] "@ + text_or(record, "kind"@, "?"@)
            + " thread "@ + text_or(record, "target_thread_id"@, "-"@) + " :: "@ + text_or(
            record,
            "summary"@,
            ""@,
        ),
        event_text(record) == "  "@ + text_or(record, "kind"@, "event"@) + " "@ + (if text_field(
            record,
            "entity_id"@,
        ) is Some {
            text_field(record, "entity_id"@)->0
        } else if text_field(record, "thread_id"@) is Some {
            text_field(record, "thread_id"@)->0
        } else if text_field(record, "handle_id"@) is Some {
            text_field(record, "handle_id"@)->0
        } else {
            "-"@
        }) + " "@ + text_or(record, "message"@, ""@),
{
}

/// The row of an item of the inbox names the item, its event, the thread it is for and what it says;
/// where it came from is told as far as it is known, each part with its word, in a fixed order.
pub proof fn law_item_row_tells_its_source(item: Json)
    ensures
        ({
            let head = "  "@ + text_or(item, "id"@, "?"@) + " event "@ + text_or(
                item,
                "passive_event_id"@,
                "?"@,
            ) + " thread "@ + text_or(item, "target_thread_id"@, "-"@);
            let tail = " :: "@ + text_or(item, "summary"@, ""@);
            let parts = crate::cockpit::item_metadata(item);
            &&& parts.len() == 0 ==> item_text(item) == head + tail
            &&& parts.len() > 0 ==> item_text(item) == head + " "@ + joined(parts, " "@) + tail
            &&& text_field(item, "source"@) matches Some(text) ==> parts.contains(
                "source "@ + text,
            )
            &&& text_field(item, "condition"@) matches Some(text) ==> parts.contains(
                "condition "@ + text,
            )
            &&& text_field(item, "payload_ref"@) matches Some(text) ==> parts.contains(
                "payload "@ + text,
            )
            &&& text_field(item, "dedupe_key"@) matches Some(text) ==> parts.contains(
                "dedupe "@ + text,
            )
        }),
{
    let head = "  "@ + text_or(item, "id"@, "?"@) + " event "@ + text_or(
        item,
        "passive_event_id"@,
        "?"@,
    ) + " thread "@ + text_or(item, "target_thread_id"@, "-"@);
    let summary = text_or(item, "summary"@, ""@);
    let parts = crate::cockpit::item_metadata(item);
    reveal_strlit("");
    assert(head + ""@ + " :: "@ + summary =~= head + (" :: "@ + summary));
    let rest = " "@ + joined(parts, " "@);
    assert(head + rest + " :: "@ + summary =~= head + " "@ + joined(parts, " "@) + (" :: "@
        + summary));
    let a = crate::cockpit::labelled(item, "source"@, "source "@);
    let b = crate::cockpit::labelled(item, "condition"@, "condition "@);
    let c = crate::cockpit::labelled(item, "payload_ref"@, "payload "@);
    let d = crate::cockpit::labelled(item, "dedupe_key"@, "dedupe "@);
    assert(parts == a + b + c + d);
    if a.len() > 0 {
        assert(parts[0] == a[0]);
    }
    if b.len() > 0 {
        assert(parts[a.len() as int] == b[0]);
    }
    if c.len() > 0 {
        assert(parts[(a.len() + b.len()) as int] == c[0]);
    }
    if d.len() > 0 {
        assert(parts[(a.len() + b.len() + c.len()) as int] == d[0]);
    }
}

/// The dispatch of a process: its thread with its status and its problem, what comes next in the word
/// and the color for how it stands, and what it waits for.
pub proof fn law_dispatch_is_shown(doc: Json, current: Seq<char>, next: NextSummaryView)
    ensures
        ({
            let lines = loop_section(doc, current, next);
            let thread = get_in(doc, "threads"@, current);
            let status = if thread is Some {
                text_or(thread->0, "status"@, "unknown"@)
            } else {
                "unknown"@
            };
            let root = if thread is Some {
                text_or(thread->0, "root_problem_id"@, "-"@)
            } else {
                "-"@
            };
            &&& lines.len() == 4
            &&& lines[0] == seq![bold_view("dispatch state"@, Color::Blue)]
            &&& lines[1] == plain_view("  thread "@ + current + " ["@ + status + "] root "@ + root)
            &&& lines[2] == seq![
                raw_view("  dispatch "@),
                colored_view(loop_word(next.disposition), disposition_color(next.disposition)),
                raw_view(
                    " next "@ + next.action + " "@ + if next.target is Some {
                        next.target->0
                    } else {
                        "-"@
                    },
                ),
            ]
            &&& active_wait(doc, current) is None ==> lines[3] == plain_view(
                "  "@ + "wait none"@,
            )
            &&& active_wait(doc, current) matches Some(wait) ==> lines[3] == plain_view(
                "  "@ + ("wait "@ + text_or(wait, "id"@, "?"@) + " ["@ + text_or(
                    wait,
                    "status"@,
                    "unknown"@,
                ) + "] "@ + crate::cockpit::handle_words(doc, wait)),
            )
        }),
{
}

/// Waits come before handles, and no more than a few of them are shown.
pub proof fn law_waits_come_before_handles(doc: Json)
    ensures
        ({
            let waits = entries(doc, "waits"@);
            let handles = entries(doc, "handles"@);
            let rows = wait_handle_rows(doc);
            &&& rows.len() == if waits.len() + handles.len() > 8 {
                8
            } else {
                waits.len() + handles.len()
            }
            &&& forall|i: int|
                0 <= i < rows.len() && i < waits.len() ==> #[trigger] rows[i] == plain_view(
                    crate::cockpit::wait_text(waits[i]),
                )
            &&& forall|i: int|
                waits.len() <= i < rows.len() ==> #[trigger] rows[i] == plain_view(
                    crate::cockpit::handle_text(handles[i - waits.len()]),
                )
        }),
{
}

/// A section without rows says so.
pub proof fn law_empty_section_says_so(title: Seq<char>, rows: Seq<Seq<SpanView>>)
    ensures
        section(title, rows)[0] == seq![bold_view(title, Color::Blue)],
        rows.len() == 0 ==> section(title, rows).len() == 2 && section(title, rows)[1] == plain_view(
            "  none"@,
        ),
        rows.len() > 0 ==> section(title, rows).len() == rows.len() + 1 && section(title, rows).skip(
            1,
        ) == rows,
{
    if rows.len() > 0 {
        assert(section(title, rows).skip(1) =~= rows);
    }
}

/// Of the handles of a wait, the first one that is there is told with its kind and its status.
pub proof fn law_wait_tells_its_first_handle(doc: Json, wait: Json, at: int)
    requires
        ({
            let ids = texts(wait, "handle_ids"@);
            &&& 0 <= at <= ids.len()
            &&& at < ids.len() ==> get_in(doc, "handles"@, ids[at]) is Some
            &&& forall|i: int| 0 <= i < at ==> get_in(doc, "handles"@, #[trigger] ids[i]) is None
        }),
    ensures
        ({
            let ids = texts(wait, "handle_ids"@);
            &&& at == ids.len() ==> crate::cockpit::handle_words(doc, wait) == "handle -"@
            &&& at < ids.len() ==> crate::cockpit::handle_words(doc, wait) == "handle "@ + ids[at]
                + " "@ + text_or(get_in(doc, "handles"@, ids[at])->0, "kind"@, "unknown"@) + "/"@
                + text_or(get_in(doc, "handles"@, ids[at])->0, "status"@, "unknown"@)
        }),
{
    let ids = texts(wait, "handle_ids"@);
    let f = crate::cockpit::names_handle(doc);
    lemma_find_from(ids, f, 0);
    if at < ids.len() {
        assert(f(ids[at]));
    }
    if let Some(i) = find_from(ids, f, 0) {
        assert(f(ids[i]));
    }
}

/// A list holds the same records as another, ordered by a text of theirs.
pub open spec fn is_ordered_by(list: Seq<Json>, records: Seq<Json>, name: Seq<char>) -> bool {
    &&& list.to_multiset() == records.to_multiset()
    &&& forall|i: int, j: int|
        0 <= i < j < list.len() ==> {
            let (a, b) = (
                text_or(#[trigger] list[i], name, ""@),
                text_or(#[trigger] list[j], name, ""@),
            );
            a == b || lex_lt(a, b)
        }
}

proof fn lemma_ordered_by(records: Seq<Json>, name: Seq<char>)
    ensures
        is_ordered_by(sorted(records, by_text(name)), records, name),
{
    let list = sorted(records, by_text(name));
    lemma_by_text_is_order(name);
    law_sorted(records, by_text(name));
    assert forall|i: int, j: int| 0 <= i < j < list.len() implies {
        let (a, b) = (text_or(#[trigger] list[i], name, ""@), text_or(#[trigger] list[j], name, ""@));
        a == b || lex_lt(a, b)
    } by {
        assert(!(by_text(name))(list[j], list[i]));
        lemma_lex_total(text_or(list[i], name, ""@), text_or(list[j], name, ""@));
    }
}

/// Threads are shown in the order of their names, at most eight of them.
pub proof fn law_threads_are_shown_by_name(doc: Json, current: Seq<char>)
    ensures
        exists|list: Seq<Json>| #[trigger]
            is_ordered_by(list, entries(doc, "threads"@), "id"@) && thread_section(doc, current)
                == section("threads"@, first_rows(list, thread_row(doc, current), 8)),
{
    lemma_ordered_by(entries(doc, "threads"@), "id"@);
}

/// Work is shown in the order of its names, at most eight problems of each sort.
pub proof fn law_work_is_shown_by_name(doc: Json, root_id: Seq<char>, user_task: bool)
    ensures
        ({
            let open = select(
                entries(doc, "problems"@),
                |p: Json|
                    text_field(p, "id"@) != Some(root_id) && text_field(p, "status"@) != Some(
                        "done"@,
                    ) && came_from_outside(p) == user_task,
            );
            exists|list: Seq<Json>| #[trigger]
                is_ordered_by(list, open, "id"@) && work_rows(doc, root_id, user_task)
                    == first_rows(list, crate::cockpit::problem_rows(), 8)
        }),
{
    let f = |p: Json|
        text_field(p, "id"@) != Some(root_id) && text_field(p, "status"@) != Some("done"@)
            && came_from_outside(p) == user_task;
    assert(crate::cockpit::open_work(root_id, user_task) =~= f);
    lemma_ordered_by(select(entries(doc, "problems"@), f), "id"@);
}

/// Of what came from outside, the newest four items that wait in the inbox and the newest four events
/// are shown, the newest first.
pub proof fn law_newest_mail_is_shown(doc: Json)
    ensures
        ({
            let pending = select(
                items(doc, "inbox"@),
                |i: Json| text_field(i, "status"@) == Some("inboxed"@),
            );
            let events = items(doc, "passive_events"@);
            exists|waiting: Seq<Json>, came: Seq<Json>| #[trigger]
                is_ordered_by(waiting, pending, "created_at"@) && #[trigger] is_ordered_by(
                    came,
                    events,
                    "created_at"@,
                ) && passive_section(doc) == section(
                    "passive inbox"@,
                    last_rows(waiting, crate::cockpit::item_rows(), 4),
                ) + section(
                    "passive events"@,
                    last_rows(came, crate::cockpit::passive_event_rows(), 4),
                )
        }),
{
    let f = |i: Json| text_field(i, "status"@) == Some("inboxed"@);
    assert(crate::cockpit::with_text("status"@, "inboxed"@) =~= f);
    lemma_ordered_by(select(items(doc, "inbox"@), f), "created_at"@);
    lemma_ordered_by(items(doc, "passive_events"@), "created_at"@);
}

/// Of what happened, the newest six entries of both logs together are shown, the newest first.
pub proof fn law_newest_events_are_shown(doc: Json)
    ensures
        exists|list: Seq<Json>| #[trigger]
            is_ordered_by(
                list,
                items(doc, "events"@) + items(doc, "io_events"@),
                "created_at"@,
            ) && event_section(doc) == section(
                "recent events"@,
                last_rows(list, crate::cockpit::event_rows(), 6),
            ),
{
    lemma_ordered_by(items(doc, "events"@) + items(doc, "io_events"@), "created_at"@);
}

/// A snapshot that was handed in is shown alone; without one, all processes that were found are.
pub proof fn law_snapshot_is_shown_alone(snapshot: Option<SnapshotView>, found: Seq<SnapshotView>)
    ensures
        snapshot matches Some(one) ==> crate::cockpit::shown(snapshot, found).len() == 1
            && crate::cockpit::shown(snapshot, found)[0] == one,
        snapshot is None ==> crate::cockpit::shown(snapshot, found) == found,
{
}

} // verus!
