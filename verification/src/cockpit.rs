//! The cockpit: what is shown of the processes of a workspace.
use vstd::prelude::*;
use crate::context::{join_path, path_join};
use crate::dispatch::{active_wait, active_wait_of, derive_next, next_is_clear, next_summary, ticket_id_of, ticket_of, NextSummary, NextSummaryView};
use crate::followups::is_next_clear;
use crate::ids::{decimal, decimal_text};
use crate::json::{document, entries, filter_values, get, get_in, items, parse_document, text_field, text_or, texts, Json};
use crate::order::{lex_lt, str_lt};
use crate::search::{find_from, find_index, select};
use crate::sorting::{sort, sorted};
use crate::styled::{bold, bold_view, colored, colored_view, extend, line1, line2, line3, plain, plain_view, raw, raw_view, Color, Line, SpanView};
use crate::text::{cat2, cat3, cat4, cat5, cat6, cat7, cat8, cat9, group_views, join, joined, opt_view, str_eq, views};

verus! {

broadcast use group_views;

/// The recorded state of a process, and what is known of where it came from.
#[derive(Debug, PartialEq, Eq)]
pub struct QunuxCockpitSnapshot {
    pub process_id: String,
    pub qunux_thread_id: Option<String>,
    pub state_path: Option<String>,
    pub state: Json,
}

/// What a [`QunuxCockpitSnapshot`] says.
#[verifier::ext_equal]
pub struct SnapshotView {
    pub process_id: Seq<char>,
    pub qunux_thread_id: Option<Seq<char>>,
    pub state_path: Option<Seq<char>>,
    pub state: Json,
}

impl View for QunuxCockpitSnapshot {
    type V = SnapshotView;

    open spec fn view(&self) -> SnapshotView {
        SnapshotView {
            process_id: self.process_id@,
            qunux_thread_id: opt_view(self.qunux_thread_id),
            state_path: opt_view(self.state_path),
            state: self.state,
        }
    }
}

impl SnapshotView {
    /// The thread that the process is shown from.
    pub open spec fn current(self) -> Seq<char> {
        match self.qunux_thread_id {
            Some(id) => id,
            None => text_or(self.state, "main_thread_id"@, "QT000"@),
        }
    }

    /// It can be said what the thread of the process does next.
    pub open spec fn readable(self) -> bool {
        next_is_clear(self.state, self.current())
    }
}

impl QunuxCockpitSnapshot {
    pub fn new(
        process_id: String,
        qunux_thread_id: Option<String>,
        state_path: Option<String>,
        state: Json,
    ) -> (r: Self)
        ensures
            r@ == (SnapshotView {
                process_id: process_id@,
                qunux_thread_id: opt_view(qunux_thread_id),
                state_path: opt_view(state_path),
                state,
            }),
    {
        QunuxCockpitSnapshot { process_id, qunux_thread_id, state_path, state }
    }

    fn current_thread_id(&self) -> (r: &str)
        ensures
            r@ == self@.current(),
    {
        match &self.qunux_thread_id {
            Some(id) => id.as_str(),
            None => self.state.text_or("main_thread_id", "QT000"),
        }
    }

    /// Whether it can be said what the thread of the process does next; it cannot where its follow-ups
    /// lead back to one another.
    pub fn is_readable(&self) -> (r: bool)
        ensures
            r == self@.readable(),
    {
        is_next_clear(&self.state, self.current_thread_id())
    }
}

/// A file that holds the state of a process.
#[derive(Debug, PartialEq, Eq)]
pub struct StateFile {
    pub directory_name: String,
    pub path: String,
    pub state: Json,
}

/// When a process began.
pub open spec fn created_at(state: Json) -> Seq<char> {
    match get(state, "process"@) {
        Some(process) => text_or(process, "created_at"@, ""@),
        None => ""@,
    }
}

/// When a process began.
pub fn process_created_at(state: &Json) -> (r: &str)
    ensures
        r@ == created_at(*state),
{
    match state.get("process") {
        Some(process) => process.text_or("created_at", ""),
        None => "",
    }
}

/// Newer processes come first; of two that began together the one with the greater identifier.
pub open spec fn newer() -> spec_fn(SnapshotView, SnapshotView) -> bool {
    |a: SnapshotView, b: SnapshotView|
        lex_lt(created_at(b.state), created_at(a.state)) || (created_at(a.state) == created_at(
            b.state,
        ) && lex_lt(b.process_id, a.process_id))
}

/// The process that a state is of; it is named after its directory where the state does not say.
pub open spec fn process_of(
    directory_name: Seq<char>,
    path: Seq<char>,
    state: Json,
) -> SnapshotView {
    SnapshotView {
        process_id: text_or(state, "process_id"@, directory_name),
        qunux_thread_id: None,
        state_path: Some(path),
        state,
    }
}

/// The process that a file holds the state of.
pub open spec fn in_file(file: StateFile) -> SnapshotView {
    process_of(file.directory_name@, file.path@, file.state)
}

/// The state that a file holds; nothing where its text is not a document.
pub fn state_in(directory_name: String, path: String, raw: &str) -> (r: Option<StateFile>)
    ensures
        match r {
            Some(file) => document(raw@) == Some(file.state) && file.directory_name
                == directory_name && file.path == path,
            None => document(raw@) is None,
        },
{
    match parse_document(raw) {
        Some(state) => Some(StateFile { directory_name, path, state }),
        None => None,
    }
}

/// The processes that files hold the states of, newest first.
pub fn processes_in(files: Vec<StateFile>) -> (r: Vec<QunuxCockpitSnapshot>)
    ensures
        views(r@) == sorted(Seq::new(files@.len(), |i: int| in_file(files@[i])), newer()),
{
    let ghost all = files@;
    let ghost found = Seq::new(all.len(), |i: int| in_file(all[i]));
    let mut processes: Vec<QunuxCockpitSnapshot> = Vec::new();
    let mut rest = files;
    let ghost mut n: int = 0;
    while rest.len() > 0
        invariant
            0 <= n <= all.len(),
            rest@ == all.skip(n),
            found == Seq::new(all.len(), |i: int| in_file(all[i])),
            views(processes@) == found.take(n),
        decreases rest@.len(),
    {
        let file = rest.remove(0);
        let process_id = file.state.text_or("process_id", file.directory_name.as_str()).to_owned();
        proof {
            assert(file == all[n]);
            assert(rest@ =~= all.skip(n + 1));
        }
        let process = QunuxCockpitSnapshot {
            process_id,
            qunux_thread_id: None,
            state_path: Some(file.path),
            state: file.state,
        };
        processes.push(process);
        proof {
            assert(process@ =~= in_file(all[n]));
            n = n + 1;
            assert(views(processes@) =~= found.take(n));
        }
    }
    assert(found.take(n) =~= found);
    let goes_first = |a: &QunuxCockpitSnapshot, b: &QunuxCockpitSnapshot| -> (r: bool)
        ensures
            r == (newer())(a@, b@),
    {
        let at_a = process_created_at(&a.state);
        let at_b = process_created_at(&b.state);
        str_lt(at_b, at_a) || (str_eq(at_a, at_b) && str_lt(
            b.process_id.as_str(),
            a.process_id.as_str(),
        ))
    };
    sort(processes, goes_first, Ghost(newer()))
}

/// The text of a file in the directory of a process.
#[derive(Debug, PartialEq, Eq)]
pub struct RawFile {
    pub directory_name: String,
    pub path: String,
    pub raw: String,
}

/// The processes that the first `n` files hold the states of; a file whose text is not a document
/// is passed over.
pub open spec fn loaded(files: Seq<RawFile>, n: int) -> Seq<SnapshotView>
    decreases n,
{
    if n <= 0 {
        Seq::empty()
    } else {
        let before = loaded(files, n - 1);
        let file = files[n - 1];
        match document(file.raw@) {
            Some(state) => before.push(process_of(file.directory_name@, file.path@, state)),
            None => before,
        }
    }
}

/// The processes whose states the files hold, newest first. A file whose text is not a document is
/// passed over.
pub fn load_processes(files: Vec<RawFile>) -> (r: Vec<QunuxCockpitSnapshot>)
    ensures
        views(r@) == sorted(loaded(files@, files@.len() as int), newer()),
{
    let ghost all = files@;
    let mut found: Vec<StateFile> = Vec::new();
    let mut rest = files;
    let ghost mut n: int = 0;
    assert(rest@ =~= all.skip(0));
    assert(Seq::new(found@.len(), |i: int| in_file(found@[i])) =~= loaded(all, 0));
    while rest.len() > 0
        invariant
            0 <= n <= all.len(),
            rest@ == all.skip(n),
            Seq::new(found@.len(), |i: int| in_file(found@[i])) == loaded(all, n),
        decreases rest@.len(),
    {
        let file = rest.remove(0);
        let ghost before = found@;
        let read = state_in(file.directory_name, file.path, file.raw.as_str());
        if let Some(state) = read {
            found.push(state);
        }
        proof {
            assert(file == all[n]);
            assert(rest@ =~= all.skip(n + 1));
            n = n + 1;
            let seen = Seq::new(before.len(), |i: int| in_file(before[i]));
            assert(Seq::new(found@.len(), |i: int| in_file(found@[i])) =~= match read {
                Some(state) => seen.push(in_file(state)),
                None => seen,
            });
        }
    }
    processes_in(found)
}

/// Values in the order of one of their texts.
pub open spec fn by_text(name: Seq<char>) -> spec_fn(Json, Json) -> bool {
    |a: Json, b: Json| lex_lt(text_or(a, name, ""@), text_or(b, name, ""@))
}

fn sorted_by_text<'a>(list: Vec<&'a Json>, name: &str) -> (r: Vec<&'a Json>)
    ensures
        views(r@) == sorted(views(list@), by_text(name@)),
{
    let goes_first = |a: &&'a Json, b: &&'a Json| -> (r: bool)
        ensures
            r == (by_text(name@))(**a, **b),
    {
        str_lt(a.text_or(name, ""), b.text_or(name, ""))
    };
    sort(list, goes_first, Ghost(by_text(name@)))
}

/// The rows for the first values, no more than `limit`.
pub open spec fn first_rows(
    list: Seq<Json>,
    row: spec_fn(Json) -> Seq<char>,
    limit: nat,
) -> Seq<Seq<SpanView>> {
    Seq::new(
        if list.len() < limit {
            list.len()
        } else {
            limit
        },
        |i: int| plain_view(row(list[i])),
    )
}

fn rows_of_first<F: Fn(&Json) -> String>(
    list: &Vec<&Json>,
    f: F,
    limit: usize,
    Ghost(row): Ghost<spec_fn(Json) -> Seq<char>>,
) -> (r: Vec<Line>)
    requires
        forall|x: &Json| #[trigger] call_requires(f, (x,)),
        forall|x: &Json, s: String| #[trigger] call_ensures(f, (x,), s) ==> s@ == row(*x),
    ensures
        views(r@) == first_rows(views(list@), row, limit as nat),
{
    let ghost all = first_rows(views(list@), row, limit as nat);
    let mut r: Vec<Line> = Vec::new();
    let mut i: usize = 0;
    while i < list.len() && i < limit
        invariant
            i <= list@.len(),
            i <= limit,
            all == first_rows(views(list@), row, limit as nat),
            forall|x: &Json| #[trigger] call_requires(f, (x,)),
            forall|x: &Json, s: String| #[trigger] call_ensures(f, (x,), s) ==> s@ == row(*x),
            views(r@) == all.take(i as int),
        decreases list@.len() - i,
    {
        let text = f(list[i]);
        r.push(plain(text.as_str()));
        i = i + 1;
        assert(views(r@) =~= all.take(i as int));
    }
    assert(all.take(i as int) =~= all);
    r
}

/// The rows for the last values, the last one first, no more than `limit`.
pub open spec fn last_rows(
    list: Seq<Json>,
    row: spec_fn(Json) -> Seq<char>,
    limit: nat,
) -> Seq<Seq<SpanView>> {
    first_rows(list.reverse(), row, limit)
}

fn rows_of_last<F: Fn(&Json) -> String>(
    list: &Vec<&Json>,
    f: F,
    limit: usize,
    Ghost(row): Ghost<spec_fn(Json) -> Seq<char>>,
) -> (r: Vec<Line>)
    requires
        forall|x: &Json| #[trigger] call_requires(f, (x,)),
        forall|x: &Json, s: String| #[trigger] call_ensures(f, (x,), s) ==> s@ == row(*x),
    ensures
        views(r@) == last_rows(views(list@), row, limit as nat),
{
    let mut reversed: Vec<&Json> = Vec::new();
    let n: usize = list.len();
    let mut i: usize = 0;
    while i < n
        invariant
            n == list@.len(),
            i <= n,
            views(reversed@) == views(list@).reverse().take(i as int),
        decreases n - i,
    {
        reversed.push(list[n - 1 - i]);
        i = i + 1;
        assert(views(reversed@) =~= views(list@).reverse().take(i as int));
    }
    assert(views(list@).reverse().take(i as int) =~= views(list@).reverse());
    rows_of_first(&reversed, f, limit, Ghost(row))
}

/// The rows of a section, or a word where there are none.
pub open spec fn or_none(rows: Seq<Seq<SpanView>>) -> Seq<Seq<SpanView>> {
    if rows.len() == 0 {
        seq![plain_view("  none"@)]
    } else {
        rows
    }
}

fn rows_or_none(rows: Vec<Line>) -> (r: Vec<Line>)
    ensures
        views(r@) == or_none(views(rows@)),
{
    if rows.is_empty() {
        let mut r: Vec<Line> = Vec::new();
        r.push(plain("  none"));
        assert(views(r@) =~= seq![plain_view("  none"@)]);
        r
    } else {
        rows
    }
}

/// The heading of a section.
pub open spec fn header_view(title: Seq<char>) -> Seq<SpanView> {
    seq![bold_view(title, Color::Blue)]
}

fn section_header(title: &str) -> (r: Line)
    ensures
        r@ == header_view(title@),
{
    line1(bold(title, Color::Blue))
}

/// The heading of a section and its rows.
pub open spec fn section(title: Seq<char>, rows: Seq<Seq<SpanView>>) -> Seq<Seq<SpanView>> {
    seq![header_view(title)] + or_none(rows)
}

fn push_section(lines: &mut Vec<Line>, title: &str, rows: Vec<Line>)
    ensures
        views(final(lines)@) == views(old(lines)@) + section(title@, views(rows@)),
{
    lines.push(section_header(title));
    let rows = rows_or_none(rows);
    extend(lines, rows);
    assert(views(lines@) =~= views(old(lines)@) + section(title@, views(rows@)));
}

/// How many members an object has.
pub fn object_len(value: &Json, field: &str) -> (r: usize)
    ensures
        r == entries(*value, field@).len(),
{
    value.entries(field).len()
}

/// How many items a list has.
pub fn array_len(value: &Json, field: &str) -> (r: usize)
    ensures
        r == items(*value, field@).len(),
{
    value.items(field).len()
}

/// Values with a text that is the given one.
pub open spec fn with_text(name: Seq<char>, text: Seq<char>) -> spec_fn(Json) -> bool {
    |value: Json| text_field(value, name) == Some(text)
}

fn keep_with_text<'a>(list: &Vec<&'a Json>, name: &str, text: &str) -> (r: Vec<&'a Json>)
    ensures
        views(r@) == select(views(list@), with_text(name@, text@)),
{
    let keeps = |value: &Json| -> (b: bool)
        ensures
            b == (with_text(name@, text@))(*value),
    {
        value.field_is(name, text)
    };
    filter_values(list, keeps, Ghost(with_text(name@, text@)))
}

/// Problems that are not done.
pub open spec fn not_done() -> spec_fn(Json) -> bool {
    |value: Json| text_field(value, "status"@) != Some("done"@)
}

fn keep_not_done<'a>(list: &Vec<&'a Json>) -> (r: Vec<&'a Json>)
    ensures
        views(r@) == select(views(list@), not_done()),
{
    let keeps = |value: &Json| -> (b: bool)
        ensures
            b == (not_done())(*value),
    {
        !value.field_is("status", "done")
    };
    filter_values(list, keeps, Ghost(not_done()))
}

/// The problem was made from an inbox item.
pub open spec fn is_user_task(problem: Json) -> bool {
    text_field(problem, "created_from_inbox_item_id"@) is Some || text_field(
        problem,
        "created_from_passive_event_id"@,
    ) is Some
}

/// Whether the problem was made from an inbox item.
pub fn is_user_task_problem(problem: &Json) -> (r: bool)
    ensures
        r == is_user_task(*problem),
{
    problem.text_field("created_from_inbox_item_id").is_some() || problem.text_field(
        "created_from_passive_event_id",
    ).is_some()
}

/// Open problems other than the root, that were made from inbox items or not.
pub open spec fn open_work(root_id: Seq<char>, user_task: bool) -> spec_fn(Json) -> bool {
    |problem: Json|
        text_field(problem, "id"@) != Some(root_id) && text_field(problem, "status"@) != Some(
            "done"@,
        ) && is_user_task(problem) == user_task
}

/// What a problem made from an inbox item says of its source.
pub open spec fn source_suffix(problem: Json) -> Seq<char> {
    match (
        text_field(problem, "created_from_inbox_item_id"@),
        text_field(problem, "created_from_passive_event_id"@),
    ) {
        (Some(inbox), Some(event)) => " source inbox "@ + inbox + " event "@ + event,
        (Some(inbox), None) => " source inbox "@ + inbox,
        (None, Some(event)) => " source event "@ + event,
        (None, None) => ""@,
    }
}

/// What a problem made from an inbox item says of its source.
pub fn user_task_source_suffix(problem: &Json) -> (r: String)
    ensures
        r@ == source_suffix(*problem),
{
    match (
        problem.text_field("created_from_inbox_item_id"),
        problem.text_field("created_from_passive_event_id"),
    ) {
        (Some(inbox), Some(event)) => cat4(" source inbox ", inbox, " event ", event),
        (Some(inbox), None) => cat2(" source inbox ", inbox),
        (None, Some(event)) => cat2(" source event ", event),
        (None, None) => "".to_owned(),
    }
}

/// A problem in one row.
pub open spec fn problem_text(problem: Json) -> Seq<char> {
    let id = text_or(problem, "id"@, "?"@);
    let title = text_or(problem, "title"@, "untitled"@);
    let status = text_or(problem, "status"@, "unknown"@);
    let owner = text_or(problem, "owner_thread_id"@, "?"@);
    let ticket = match ticket_of(problem) {
        Some(ticket) => ticket,
        None => "-"@,
    };
    let source = source_suffix(problem);
    "  "@ + id + " ["@ + status + "] owner "@ + owner + " ticket "@ + ticket + " :: "@ + title + source
}

/// A problem in one row.
pub fn problem_row(problem: &Json) -> (r: String)
    ensures
        r@ == problem_text(*problem),
{
    let id = problem.text_or("id", "?");
    let title = problem.text_or("title", "untitled");
    let status = problem.text_or("status", "unknown");
    let owner = problem.text_or("owner_thread_id", "?");
    let ticket = match ticket_id_of(problem) {
        Some(ticket) => ticket,
        None => "-",
    };
    let source = user_task_source_suffix(problem);
    cat3(cat9("  ", id, " [", status, "] owner ", owner, " ticket ", ticket, " :: ").as_str(), title, source.as_str())
}

/// A wait in one row.
pub open spec fn wait_text(wait: Json) -> Seq<char> {
    let id = text_or(wait, "id"@, "?"@);
    let status = text_or(wait, "status"@, "unknown"@);
    let thread = text_or(wait, "thread_id"@, "?"@);
    "  wait "@ + id + " ["@ + status + "] thread "@ + thread
}

/// A wait in one row.
fn wait_row(wait: &Json) -> (r: String)
    ensures
        r@ == wait_text(*wait),
{
    let id = wait.text_or("id", "?");
    let status = wait.text_or("status", "unknown");
    let thread = wait.text_or("thread_id", "?");
    cat6("  wait ", id, " [", status, "] thread ", thread)
}

/// A handle in one row.
pub open spec fn handle_text(handle: Json) -> Seq<char> {
    let id = text_or(handle, "id"@, "?"@);
    let status = text_or(handle, "status"@, "unknown"@);
    let kind = text_or(handle, "kind"@, "unknown"@);
    let target = text_or(handle, "target_thread_id"@, "-"@);
    "  handle "@ + id + " ["@ + status + "] kind "@ + kind + " target "@ + target
}

/// A handle in one row.
fn handle_row(handle: &Json) -> (r: String)
    ensures
        r@ == handle_text(*handle),
{
    let id = handle.text_or("id", "?");
    let status = handle.text_or("status", "unknown");
    let kind = handle.text_or("kind", "unknown");
    let target = handle.text_or("target_thread_id", "-");
    cat8("  handle ", id, " [", status, "] kind ", kind, " target ", target)
}

/// A text of a value behind a word, if the value has it.
pub open spec fn labelled(value: Json, name: Seq<char>, label: Seq<char>) -> Seq<Seq<char>> {
    match text_field(value, name) {
        Some(text) => seq![label + text],
        None => Seq::empty(),
    }
}

fn push_labelled(parts: &mut Vec<String>, value: &Json, name: &str, label: &str)
    ensures
        views(final(parts)@) == views(old(parts)@) + labelled(*value, name@, label@),
{
    if let Some(text) = value.text_field(name) {
        parts.push(cat2(label, text));
    }
    assert(views(parts@) =~= views(old(parts)@) + labelled(*value, name@, label@));
}

/// What an inbox item says of its event.
pub open spec fn item_metadata(item: Json) -> Seq<Seq<char>> {
    labelled(item, "source"@, "source "@) + labelled(item, "condition"@, "condition "@) + labelled(
        item,
        "payload_ref"@,
        "payload "@,
    ) + labelled(item, "dedupe_key"@, "dedupe "@)
}

fn metadata_of(item: &Json) -> (r: String)
    ensures
        r@ == (if item_metadata(*item).len() == 0 {
            ""@
        } else {
            " "@ + joined(item_metadata(*item), " "@)
        }),
{
    let mut parts: Vec<String> = Vec::new();
    push_labelled(&mut parts, item, "source", "source ");
    push_labelled(&mut parts, item, "condition", "condition ");
    push_labelled(&mut parts, item, "payload_ref", "payload ");
    push_labelled(&mut parts, item, "dedupe_key", "dedupe ");
    assert(views(parts@) =~= item_metadata(*item));
    if parts.is_empty() {
        "".to_owned()
    } else {
        cat2(" ", join(&parts, " ").as_str())
    }
}

/// An inbox item in one row.
pub open spec fn item_text(item: Json) -> Seq<char> {
    let id = text_or(item, "id"@, "?"@);
    let event = text_or(item, "passive_event_id"@, "?"@);
    let thread = text_or(item, "target_thread_id"@, "-"@);
    let summary = text_or(item, "summary"@, ""@);
    let metadata = if item_metadata(item).len() == 0 {
        ""@
    } else {
        " "@ + joined(item_metadata(item), " "@)
    };
    "  "@ + id + " event "@ + event + " thread "@ + thread + metadata + " :: "@ + summary
}

/// An inbox item in one row.
fn item_row(item: &Json) -> (r: String)
    ensures
        r@ == item_text(*item),
{
    let id = item.text_or("id", "?");
    let event = item.text_or("passive_event_id", "?");
    let thread = item.text_or("target_thread_id", "-");
    let summary = item.text_or("summary", "");
    let metadata = metadata_of(item);
    cat9("  ", id, " event ", event, " thread ", thread, metadata.as_str(), " :: ", summary)
}

/// A passive event in one row.
pub open spec fn passive_event_text(event: Json) -> Seq<char> {
    let id = text_or(event, "id"@, "?"@);
    let kind = text_or(event, "kind"@, "?"@);
    let status = text_or(event, "status"@, "unknown"@);
    let thread = text_or(event, "target_thread_id"@, "-"@);
    let summary = text_or(event, "summary"@, ""@);
    "  "@ + id + " ["@ + status + "] "@ + kind + " thread "@ + thread + " :: "@ + summary
}

/// A passive event in one row.
fn passive_event_row(event: &Json) -> (r: String)
    ensures
        r@ == passive_event_text(*event),
{
    let id = event.text_or("id", "?");
    let kind = event.text_or("kind", "?");
    let status = event.text_or("status", "unknown");
    let thread = event.text_or("target_thread_id", "-");
    let summary = event.text_or("summary", "");
    cat2(cat9("  ", id, " [", status, "] ", kind, " thread ", thread, " :: ").as_str(), summary)
}

/// An event in one row.
pub open spec fn event_text(event: Json) -> Seq<char> {
    let kind = text_or(event, "kind"@, "event"@);
    let message = text_or(event, "message"@, ""@);
    let entity = entity_of(event);
    "  "@ + kind + " "@ + entity + " "@ + message
}

/// An event in one row.
fn event_row(event: &Json) -> (r: String)
    ensures
        r@ == event_text(*event),
{
    let kind = event.text_or("kind", "event");
    let message = event.text_or("message", "");
    let entity = event_entity(event);
    cat6("  ", kind, " ", entity, " ", message)
}

/// What an event is about.
pub open spec fn entity_of(event: Json) -> Seq<char> {
    match text_field(event, "entity_id"@) {
        Some(id) => id,
        None => match text_field(event, "thread_id"@) {
            Some(id) => id,
            None => text_or(event, "handle_id"@, "-"@),
        },
    }
}

fn event_entity(event: &Json) -> (r: &str)
    ensures
        r@ == entity_of(*event),
{
    match event.text_field("entity_id") {
        Some(id) => id,
        None => match event.text_field("thread_id") {
            Some(id) => id,
            None => event.text_or("handle_id", "-"),
        },
    }
}

/// The color of a disposition.
pub open spec fn disposition_color(disposition: Seq<char>) -> Color {
    if disposition == "runnable"@ {
        Color::Green
    } else if disposition == "io_wait"@ {
        Color::Yellow
    } else if disposition == "terminal"@ {
        Color::DarkGray
    } else {
        Color::White
    }
}

/// The color of a disposition.
pub fn color_for_disposition(disposition: &str) -> (r: Color)
    ensures
        r == disposition_color(disposition@),
{
    if str_eq(disposition, "runnable") {
        Color::Green
    } else if str_eq(disposition, "io_wait") {
        Color::Yellow
    } else if str_eq(disposition, "terminal") {
        Color::DarkGray
    } else {
        Color::White
    }
}

/// How the loop of a process stands, by what is to be done next.
pub open spec fn loop_word(disposition: Seq<char>) -> Seq<char> {
    if disposition == "runnable"@ {
        "ready"@
    } else if disposition == "io_wait"@ {
        "parked_io"@
    } else if disposition == "terminal"@ {
        "terminal"@
    } else {
        "unknown"@
    }
}

/// How the loop of a process stands, by what is to be done next.
pub fn loop_state_for_next(disposition: &str) -> (r: &'static str)
    ensures
        r@ == loop_word(disposition@),
{
    if str_eq(disposition, "runnable") {
        "ready"
    } else if str_eq(disposition, "io_wait") {
        "parked_io"
    } else if str_eq(disposition, "terminal") {
        "terminal"
    } else {
        "unknown"
    }
}

/// How the loop of a thread stands, by its status.
pub open spec fn thread_word(status: Seq<char>) -> Seq<char> {
    if status == "running"@ {
        "running"@
    } else if status == "waiting_io"@ {
        "parked_io"@
    } else if status == "waiting_children"@ {
        "waiting_child"@
    } else if status == "done"@ {
        "terminal"@
    } else if status == "failed"@ {
        "failed"@
    } else if status == "cancelled"@ {
        "cancelled"@
    } else {
        "unknown"@
    }
}

/// How the loop of a thread stands, by its status.
pub fn loop_state_for_thread_status(status: &str) -> (r: &'static str)
    ensures
        r@ == thread_word(status@),
{
    if str_eq(status, "running") {
        "running"
    } else if str_eq(status, "waiting_io") {
        "parked_io"
    } else if str_eq(status, "waiting_children") {
        "waiting_child"
    } else if str_eq(status, "done") {
        "terminal"
    } else if str_eq(status, "failed") {
        "failed"
    } else if str_eq(status, "cancelled") {
        "cancelled"
    } else {
        "unknown"
    }
}

/// Identifiers of handles that are there.
pub open spec fn names_handle(state: Json) -> spec_fn(Seq<char>) -> bool {
    |id: Seq<char>| get_in(state, "handles"@, id) is Some
}

/// The first handle of a wait that is there, in words.
pub open spec fn handle_words(state: Json, wait: Json) -> Seq<char> {
    let ids = texts(wait, "handle_ids"@);
    match find_index(ids, names_handle(state)) {
        Some(i) => {
            let handle = get_in(state, "handles"@, ids[i])->0;
            "handle "@ + ids[i] + " "@ + text_or(handle, "kind"@, "unknown"@) + "/"@ + text_or(
                handle,
                "status"@,
                "unknown"@,
            )
        },
        None => "handle -"@,
    }
}

fn handle_summary(state: &Json, wait: &Json) -> (r: String)
    ensures
        r@ == handle_words(*state, *wait),
{
    let ids = wait.texts("handle_ids");
    let ghost p = names_handle(*state);
    let mut i: usize = 0;
    while i < ids.len()
        invariant
            i <= ids@.len(),
            p == names_handle(*state),
            views(ids@) == texts(*wait, "handle_ids"@),
            find_from(views(ids@), p, 0) == find_from(views(ids@), p, i as int),
        decreases ids@.len() - i,
    {
        assert(views(ids@)[i as int] == ids@[i as int]@);
        if let Some(handle) = state.get_in("handles", ids[i]) {
            return cat6(
                "handle ",
                ids[i],
                " ",
                handle.text_or("kind", "unknown"),
                "/",
                handle.text_or("status", "unknown"),
            );
        }
        i = i + 1;
    }
    "handle -".to_owned()
}

/// The wait that holds a thread up, in words.
pub open spec fn wait_words(state: Json, thread_id: Seq<char>) -> Option<Seq<char>> {
    match active_wait(state, thread_id) {
        Some(wait) => Some(
            "wait "@ + text_or(wait, "id"@, "?"@) + " ["@ + text_or(
                wait,
                "status"@,
                "unknown"@,
            ) + "] "@ + handle_words(state, wait),
        ),
        None => None,
    }
}

/// The wait that holds a thread up, in words.
pub fn active_wait_summary_for_thread(state: &Json, thread_id: &str) -> (r: Option<String>)
    ensures
        opt_view(r) == wait_words(*state, thread_id@),
{
    match active_wait_of(state, thread_id) {
        Some(wait) => Some(
            cat6(
                "wait ",
                wait.text_or("id", "?"),
                " [",
                wait.text_or("status", "unknown"),
                "] ",
                handle_summary(state, wait).as_str(),
            ),
        ),
        None => None,
    }
}

/// The words, or others where there are none.
pub open spec fn words_or(words: Option<Seq<char>>, other: Seq<char>) -> Seq<char> {
    match words {
        Some(words) => words,
        None => other,
    }
}

fn text_or_else(words: Option<String>, other: &str) -> (r: String)
    ensures
        r@ == words_or(opt_view(words), other@),
{
    match words {
        Some(words) => words,
        None => other.to_owned(),
    }
}

/// A thread in one row.
pub open spec fn thread_row(state: Json, current: Seq<char>) -> spec_fn(Json) -> Seq<char> {
    |thread: Json|
        {
            let id = text_or(thread, "id"@, "?"@);
            let status = text_or(thread, "status"@, "unknown"@);
            (if id == current {
                "*"@
            } else {
                " "@
            }) + " "@ + id + " ["@ + status + "] runtime "@ + thread_word(status) + " root "@
                + text_or(thread, "root_problem_id"@, "?"@) + " actor "@ + text_or(
                thread,
                "actor_session_id"@,
                "no-actor"@,
            ) + " "@ + words_or(wait_words(state, id), "wait -"@)
        }
}

fn push_thread_section(lines: &mut Vec<Line>, state: &Json, current_thread_id: &str)
    ensures
        views(final(lines)@) == views(old(lines)@) + thread_section(*state, current_thread_id@),
{
    let threads = sorted_by_text(state.entries("threads"), "id");
    let row = |thread: &Json| -> (r: String)
        ensures
            r@ == (thread_row(*state, current_thread_id@))(*thread),
    {
        let id = thread.text_or("id", "?");
        let status = thread.text_or("status", "unknown");
        let marker = if str_eq(id, current_thread_id) {
            "*"
        } else {
            " "
        };
        let wait = text_or_else(active_wait_summary_for_thread(state, id), "wait -");
        cat5(
            cat9(
                marker,
                " ",
                id,
                " [",
                status,
                "] runtime ",
                loop_state_for_thread_status(status),
                " root ",
                thread.text_or("root_problem_id", "?"),
            ).as_str(),
            " actor ",
            thread.text_or("actor_session_id", "no-actor"),
            " ",
            wait.as_str(),
        )
    };
    let rows = rows_of_first(&threads, row, 8, Ghost(thread_row(*state, current_thread_id@)));
    push_section(lines, "threads", rows);
}

/// The threads, by identifier.
pub open spec fn thread_section(state: Json, current: Seq<char>) -> Seq<Seq<SpanView>> {
    section(
        "threads"@,
        first_rows(
            sorted(entries(state, "threads"@), by_text("id"@)),
            thread_row(state, current),
            8,
        ),
    )
}

pub open spec fn problem_rows() -> spec_fn(Json) -> Seq<char> {
    |problem: Json| problem_text(problem)
}

pub open spec fn wait_rows() -> spec_fn(Json) -> Seq<char> {
    |wait: Json| wait_text(wait)
}

pub open spec fn handle_rows() -> spec_fn(Json) -> Seq<char> {
    |handle: Json| handle_text(handle)
}

pub open spec fn item_rows() -> spec_fn(Json) -> Seq<char> {
    |item: Json| item_text(item)
}

pub open spec fn passive_event_rows() -> spec_fn(Json) -> Seq<char> {
    |event: Json| passive_event_text(event)
}

pub open spec fn event_rows() -> spec_fn(Json) -> Seq<char> {
    |event: Json| event_text(event)
}

/// Open work by identifier.
pub open spec fn work_rows(state: Json, root_id: Seq<char>, user_task: bool) -> Seq<
    Seq<SpanView>,
> {
    first_rows(
        sorted(
            select(entries(state, "problems"@), open_work(root_id, user_task)),
            by_text("id"@),
        ),
        problem_rows(),
        8,
    )
}

fn rows_of_work(state: &Json, root_id: &str, user_task: bool) -> (r: Vec<Line>)
    ensures
        views(r@) == work_rows(*state, root_id@, user_task),
{
    let problems = state.entries("problems");
    let is_such = |problem: &Json| -> (b: bool)
        ensures
            b == (open_work(root_id@, user_task))(*problem),
    {
        !problem.field_is("id", root_id) && !problem.field_is("status", "done")
            && is_user_task_problem(problem) == user_task
    };
    let found = filter_values(&problems, is_such, Ghost(open_work(root_id@, user_task)));
    let found = sorted_by_text(found, "id");
    let row = |problem: &Json| -> (r: String)
        ensures
            r@ == (problem_rows())(*problem),
    {
        problem_row(problem)
    };
    rows_of_first(&found, row, 8, Ghost(problem_rows()))
}

/// The root problem, what users asked for and the rest of the open work.
pub open spec fn problem_section(state: Json) -> Seq<Seq<SpanView>> {
    let root_id = text_or(state, "root_id"@, "P000"@);
    let mission = match get_in(state, "problems"@, root_id) {
        Some(root) => problem_text(root),
        None => "  "@ + root_id + " [missing]"@,
    };
    seq![header_view("process mission"@), plain_view(mission)] + section(
        "active user tasks"@,
        work_rows(state, root_id, true),
    ) + section("open work tree"@, work_rows(state, root_id, false))
}

fn push_problem_section(lines: &mut Vec<Line>, state: &Json)
    ensures
        views(final(lines)@) == views(old(lines)@) + problem_section(*state),
{
    let root_id = state.text_or("root_id", "P000");
    let mission = match state.get_in("problems", root_id) {
        Some(root) => problem_row(root),
        None => cat3("  ", root_id, " [missing]"),
    };
    lines.push(section_header("process mission"));
    lines.push(plain(mission.as_str()));
    push_section(lines, "active user tasks", rows_of_work(state, root_id, true));
    push_section(lines, "open work tree", rows_of_work(state, root_id, false));
    assert(views(lines@) =~= views(old(lines)@) + problem_section(*state));
}

/// How the loop of the current thread stands.
pub open spec fn loop_section(state: Json, current: Seq<char>, next: NextSummaryView) -> Seq<
    Seq<SpanView>,
> {
    let thread = get_in(state, "threads"@, current);
    let status = match thread {
        Some(thread) => text_or(thread, "status"@, "unknown"@),
        None => "unknown"@,
    };
    let root = match thread {
        Some(thread) => text_or(thread, "root_problem_id"@, "-"@),
        None => "-"@,
    };
    seq![
        header_view("dispatch state"@),
        plain_view("  thread "@ + current + " ["@ + status + "] root "@ + root),
        seq![
            raw_view("  dispatch "@),
            colored_view(loop_word(next.disposition), disposition_color(next.disposition)),
            raw_view(" next "@ + next.action + " "@ + words_or(next.target, "-"@)),
        ],
        plain_view("  "@ + words_or(wait_words(state, current), "wait none"@)),
    ]
}

fn push_agent_loop_section(
    lines: &mut Vec<Line>,
    state: &Json,
    current_thread_id: &str,
    next: &NextSummary,
)
    ensures
        views(final(lines)@) == views(old(lines)@) + loop_section(
            *state,
            current_thread_id@,
            next@,
        ),
{
    let thread = state.get_in("threads", current_thread_id);
    let status = match thread {
        Some(thread) => thread.text_or("status", "unknown"),
        None => "unknown",
    };
    let root = match thread {
        Some(thread) => thread.text_or("root_problem_id", "-"),
        None => "-",
    };
    let wait = text_or_else(active_wait_summary_for_thread(state, current_thread_id), "wait none");
    let target = match &next.target {
        Some(target) => target.as_str(),
        None => "-",
    };
    lines.push(section_header("dispatch state"));
    lines.push(plain(cat6("  thread ", current_thread_id, " [", status, "] root ", root).as_str()));
    lines.push(
        line3(
            raw("  dispatch "),
            colored(
                loop_state_for_next(next.disposition),
                color_for_disposition(next.disposition),
            ),
            raw(cat4(" next ", next.action, " ", target).as_str()),
        ),
    );
    lines.push(plain(cat2("  ", wait.as_str()).as_str()));
    assert(views(lines@) =~= views(old(lines)@) + loop_section(*state, current_thread_id@, next@));
}

/// The first rows of two lists, one behind the other.
pub open spec fn wait_handle_rows(state: Json) -> Seq<Seq<SpanView>> {
    let waits = entries(state, "waits"@);
    let handles = entries(state, "handles"@);
    let rows = first_rows(waits, wait_rows(), waits.len()) + first_rows(
        handles,
        handle_rows(),
        handles.len(),
    );
    if rows.len() <= 8 {
        rows
    } else {
        rows.take(8)
    }
}

fn push_wait_handle_section(lines: &mut Vec<Line>, state: &Json)
    ensures
        views(final(lines)@) == views(old(lines)@) + section(
            "waits / handles"@,
            wait_handle_rows(*state),
        ),
{
    let waits = state.entries("waits");
    let wait_text_of = |wait: &Json| -> (r: String)
        ensures
            r@ == (wait_rows())(*wait),
    {
        wait_row(wait)
    };
    let handles = state.entries("handles");
    let handle_text_of = |handle: &Json| -> (r: String)
        ensures
            r@ == (handle_rows())(*handle),
    {
        handle_row(handle)
    };
    let mut rows = rows_of_first(&waits, wait_text_of, waits.len(), Ghost(wait_rows()));
    let more = rows_of_first(&handles, handle_text_of, handles.len(), Ghost(handle_rows()));
    extend(&mut rows, more);
    let ghost all = views(rows@);
    if rows.len() > 8 {
        rows.truncate(8);
    }
    assert(views(rows@) =~= wait_handle_rows(*state));
    push_section(lines, "waits / handles", rows);
}

/// The pending inbox items and the passive events, the newest first.
pub open spec fn passive_section(state: Json) -> Seq<Seq<SpanView>> {
    section(
        "passive inbox"@,
        last_rows(
            sorted(
                select(items(state, "inbox"@), with_text("status"@, "inboxed"@)),
                by_text("created_at"@),
            ),
            item_rows(),
            4,
        ),
    ) + section(
        "passive events"@,
        last_rows(
            sorted(items(state, "passive_events"@), by_text("created_at"@)),
            passive_event_rows(),
            4,
        ),
    )
}

fn push_passive_section(lines: &mut Vec<Line>, state: &Json)
    ensures
        views(final(lines)@) == views(old(lines)@) + passive_section(*state),
{
    let inbox = state.items("inbox");
    let inbox = keep_with_text(&inbox, "status", "inboxed");
    let inbox = sorted_by_text(inbox, "created_at");
    let item_text_of = |item: &Json| -> (r: String)
        ensures
            r@ == (item_rows())(*item),
    {
        item_row(item)
    };
    let rows = rows_of_last(&inbox, item_text_of, 4, Ghost(item_rows()));
    push_section(lines, "passive inbox", rows);
    let events = sorted_by_text(state.items("passive_events"), "created_at");
    let event_text_of = |event: &Json| -> (r: String)
        ensures
            r@ == (passive_event_rows())(*event),
    {
        passive_event_row(event)
    };
    let rows = rows_of_last(&events, event_text_of, 4, Ghost(passive_event_rows()));
    push_section(lines, "passive events", rows);
    assert(views(lines@) =~= views(old(lines)@) + passive_section(*state));
}

/// What was recorded last, the newest first.
pub open spec fn event_section(state: Json) -> Seq<Seq<SpanView>> {
    section(
        "recent events"@,
        last_rows(
            sorted(items(state, "events"@) + items(state, "io_events"@), by_text("created_at"@)),
            event_rows(),
            6,
        ),
    )
}

fn push_event_section(lines: &mut Vec<Line>, state: &Json)
    ensures
        views(final(lines)@) == views(old(lines)@) + event_section(*state),
{
    let mut events = state.items("events");
    let mut io_events = state.items("io_events");
    let ghost first = events@;
    let ghost second = io_events@;
    events.append(&mut io_events);
    assert(views(events@) =~= views(first) + views(second));
    let events = sorted_by_text(events, "created_at");
    let event_text_of = |event: &Json| -> (r: String)
        ensures
            r@ == (event_rows())(*event),
    {
        event_row(event)
    };
    let rows = rows_of_last(&events, event_text_of, 6, Ghost(event_rows()));
    push_section(lines, "recent events", rows);
}

/// The numbers of a process in three lines.
pub open spec fn count_lines(state: Json) -> Seq<Seq<SpanView>> {
    let problems = entries(state, "problems"@);
    let threads = entries(state, "threads"@);
    let inbox = items(state, "inbox"@);
    seq![
        plain_view(
            "tasks "@ + decimal(problems.len()) + " ("@ + decimal(select(problems, not_done()).len())
                + " open) | tickets "@ + decimal(entries(state, "tickets"@).len())
                + " | results "@ + decimal(entries(state, "results"@).len()) + " | checks "@
                + decimal(entries(state, "checks"@).len()),
        ),
        plain_view(
            "threads "@ + decimal(threads.len()) + " ("@ + decimal(
                select(threads, with_text("status"@, "running"@)).len(),
            ) + " running) | waits "@ + decimal(entries(state, "waits"@).len()) + " | handles "@
                + decimal(entries(state, "handles"@).len()),
        ),
        plain_view(
            "passive events "@ + decimal(items(state, "passive_events"@).len()) + " | inbox "@
                + decimal(inbox.len()) + " ("@ + decimal(
                select(inbox, with_text("status"@, "inboxed"@)).len(),
            ) + " pending)"@,
        ),
    ]
}

fn number(n: usize) -> (r: String)
    ensures
        r@ == decimal(n as nat),
{
    decimal_text(n as u64)
}

fn push_count_lines(lines: &mut Vec<Line>, state: &Json)
    ensures
        views(final(lines)@) == views(old(lines)@) + count_lines(*state),
{
    let problems = state.entries("problems");
    let open = keep_not_done(&problems);
    let tasks = cat9(
        "tasks ",
        number(problems.len()).as_str(),
        " (",
        number(open.len()).as_str(),
        " open) | tickets ",
        number(object_len(state, "tickets")).as_str(),
        " | results ",
        number(object_len(state, "results")).as_str(),
        " | checks ",
    );
    lines.push(
        plain(cat2(tasks.as_str(), number(object_len(state, "checks")).as_str()).as_str()),
    );
    let threads = state.entries("threads");
    let running = keep_with_text(&threads, "status", "running");
    lines.push(
        plain(
            cat8(
                "threads ",
                number(threads.len()).as_str(),
                " (",
                number(running.len()).as_str(),
                " running) | waits ",
                number(object_len(state, "waits")).as_str(),
                " | handles ",
                number(object_len(state, "handles")).as_str(),
            ).as_str(),
        ),
    );
    let inbox = state.items("inbox");
    let pending = keep_with_text(&inbox, "status", "inboxed");
    lines.push(
        plain(
            cat7(
                "passive events ",
                number(array_len(state, "passive_events")).as_str(),
                " | inbox ",
                number(inbox.len()).as_str(),
                " (",
                number(pending.len()).as_str(),
                " pending)",
            ).as_str(),
        ),
    );
    proof {
        assert(views(problems@).len() == problems@.len());
        assert(views(open@).len() == open@.len());
        assert(views(threads@).len() == threads@.len());
        assert(views(running@).len() == running@.len());
        assert(views(inbox@).len() == inbox@.len());
        assert(views(pending@).len() == pending@.len());
    }
    assert(views(lines@) =~= views(old(lines)@) + count_lines(*state));
}

/// What a process is and where its state is from.
pub open spec fn title_lines(process: SnapshotView) -> Seq<Seq<SpanView>> {
    seq![
        seq![
            bold_view("process "@ + process.process_id, Color::Green),
            raw_view(
                "  root "@ + text_or(process.state, "root_id"@, "P000"@) + "  main "@ + text_or(
                    process.state,
                    "main_thread_id"@,
                    "QT000"@,
                ) + "  current "@ + process.current(),
            ),
        ],
        plain_view("state "@ + words_or(process.state_path, "pushed snapshot"@)),
    ]
}

fn push_title_lines(lines: &mut Vec<Line>, process: &QunuxCockpitSnapshot)
    ensures
        views(final(lines)@) == views(old(lines)@) + title_lines(process@),
{
    let state = &process.state;
    lines.push(
        line2(
            bold(cat2("process ", process.process_id.as_str()).as_str(), Color::Green),
            raw(
                cat6(
                    "  root ",
                    state.text_or("root_id", "P000"),
                    "  main ",
                    state.text_or("main_thread_id", "QT000"),
                    "  current ",
                    process.current_thread_id(),
                ).as_str(),
            ),
        ),
    );
    let path = match &process.state_path {
        Some(path) => path.as_str(),
        None => "pushed snapshot",
    };
    lines.push(plain(cat2("state ", path).as_str()));
    assert(views(lines@) =~= views(old(lines)@) + title_lines(process@));
}

/// What is to be done next.
pub open spec fn next_line(next: NextSummaryView) -> Seq<SpanView> {
    seq![
        colored_view("next "@, Color::DarkGray),
        colored_view(next.disposition, disposition_color(next.disposition)),
        raw_view(" "@ + next.action + " "@ + words_or(next.target, ""@)),
    ]
}

fn push_next_line(lines: &mut Vec<Line>, next: &NextSummary)
    ensures
        views(final(lines)@) == views(old(lines)@) + seq![next_line(next@)],
{
    let target = match &next.target {
        Some(target) => target.as_str(),
        None => "",
    };
    lines.push(
        line3(
            colored("next ", Color::DarkGray),
            colored(next.disposition, color_for_disposition(next.disposition)),
            raw(cat4(" ", next.action, " ", target).as_str()),
        ),
    );
    assert(views(lines@) =~= views(old(lines)@) + seq![next_line(next@)]);
}

/// Everything that is shown of a process.
#[verifier::opaque]
pub open spec fn process_lines(process: SnapshotView) -> Seq<Seq<SpanView>> {
    let state = process.state;
    let current = process.current();
    let next = next_summary(state, current);
    title_lines(process) + count_lines(state) + seq![next_line(next)] + loop_section(
        state,
        current,
        next,
    ) + problem_section(state) + thread_section(state, current) + section(
        "waits / handles"@,
        wait_handle_rows(state),
    ) + passive_section(state) + event_section(state)
}

/// Adds everything that is shown of a process.
pub fn append_process_lines(lines: &mut Vec<Line>, process: &QunuxCockpitSnapshot)
    requires
        process@.readable(),
    ensures
        views(final(lines)@) == views(old(lines)@) + process_lines(process@),
{
    let state = &process.state;
    let current_thread_id = process.current_thread_id();
    let next = derive_next(state, current_thread_id);
    push_title_lines(lines, process);
    push_count_lines(lines, state);
    push_next_line(lines, &next);
    push_agent_loop_section(lines, state, current_thread_id, &next);
    push_problem_section(lines, state);
    push_thread_section(lines, state, current_thread_id);
    push_wait_handle_section(lines, state);
    push_passive_section(lines, state);
    push_event_section(lines, state);
    proof {
        reveal(process_lines);
        lemma_parts_added(
            views(old(lines)@),
            title_lines(process@),
            count_lines(*state),
            seq![next_line(next@)],
            loop_section(*state, current_thread_id@, next@),
            problem_section(*state),
            thread_section(*state, current_thread_id@),
            section("waits / handles"@, wait_handle_rows(*state)),
            passive_section(*state),
            event_section(*state),
        );
    }
}

/// Parts that are added one by one are added together.
proof fn lemma_parts_added<T>(
    s: Seq<T>,
    a: Seq<T>,
    b: Seq<T>,
    c: Seq<T>,
    d: Seq<T>,
    e: Seq<T>,
    f: Seq<T>,
    g: Seq<T>,
    h: Seq<T>,
    i: Seq<T>,
)
    ensures
        s + a + b + c + d + e + f + g + h + i == s + (a + b + c + d + e + f + g + h + i),
{
    assert(s + a + b + c + d + e + f + g + h + i =~= s + (a + b + c + d + e + f + g + h + i));
}

/// The lines of the first `n` processes, with an empty line behind each.
pub open spec fn all_lines(processes: Seq<SnapshotView>, n: int) -> Seq<Seq<SpanView>>
    decreases n,
{
    if n <= 0 {
        Seq::empty()
    } else {
        all_lines(processes, n - 1) + process_lines(processes[n - 1]) + seq![plain_view(""@)]
    }
}

/// What is shown of a workspace with the given processes.
pub open spec fn cockpit_lines(workspace: Seq<char>, processes: Seq<SnapshotView>) -> Seq<
    Seq<SpanView>,
> {
    let head = seq![
        seq![
            bold_view("Qunux Agent OS Cockpit"@, Color::Cyan),
            raw_view("  "@),
            colored_view("attachable runtime view"@, Color::DarkGray),
        ],
        seq![colored_view("workspace "@, Color::DarkGray), raw_view(workspace)],
        plain_view(""@),
    ];
    if processes.len() == 0 {
        head + seq![
            seq![colored_view("No Qunux process state found."@, Color::Yellow)],
            plain_view(
                "Expected persisted state under "@ + path_join(workspace, ".qunux/processes"@),
            ),
            plain_view(
                "Start a Qunux-enabled session or call qunux.current to initialize the process."@,
            ),
        ]
    } else {
        head + all_lines(processes, processes.len() as int)
    }
}

fn push_head(lines: &mut Vec<Line>, workspace: &str)
    ensures
        views(final(lines)@) == views(old(lines)@) + seq![
            seq![
                bold_view("Qunux Agent OS Cockpit"@, Color::Cyan),
                raw_view("  "@),
                colored_view("attachable runtime view"@, Color::DarkGray),
            ],
            seq![colored_view("workspace "@, Color::DarkGray), raw_view(workspace@)],
            plain_view(""@),
        ],
{
    let ghost before = views(lines@);
    lines.push(
        line3(
            bold("Qunux Agent OS Cockpit", Color::Cyan),
            raw("  "),
            colored("attachable runtime view", Color::DarkGray),
        ),
    );
    lines.push(line2(colored("workspace ", Color::DarkGray), raw(workspace)));
    lines.push(plain(""));
    assert(views(lines@) =~= before + seq![
        seq![
            bold_view("Qunux Agent OS Cockpit"@, Color::Cyan),
            raw_view("  "@),
            colored_view("attachable runtime view"@, Color::DarkGray),
        ],
        seq![colored_view("workspace "@, Color::DarkGray), raw_view(workspace@)],
        plain_view(""@),
    ]);
}

fn push_missing(lines: &mut Vec<Line>, workspace: &str)
    ensures
        views(final(lines)@) == views(old(lines)@) + seq![
            seq![colored_view("No Qunux process state found."@, Color::Yellow)],
            plain_view(
                "Expected persisted state under "@ + path_join(workspace@, ".qunux/processes"@),
            ),
            plain_view(
                "Start a Qunux-enabled session or call qunux.current to initialize the process."@,
            ),
        ],
{
    let ghost before = views(lines@);
    lines.push(line1(colored("No Qunux process state found.", Color::Yellow)));
    let path = join_path(workspace, ".qunux/processes");
    lines.push(plain(cat2("Expected persisted state under ", path.as_str()).as_str()));
    lines.push(
        plain("Start a Qunux-enabled session or call qunux.current to initialize the process."),
    );
    assert(views(lines@) =~= before + seq![
        seq![colored_view("No Qunux process state found."@, Color::Yellow)],
        plain_view(
            "Expected persisted state under "@ + path_join(workspace@, ".qunux/processes"@),
        ),
        plain_view(
            "Start a Qunux-enabled session or call qunux.current to initialize the process."@,
        ),
    ]);
}

fn append_processes(lines: &mut Vec<Line>, processes: &Vec<QunuxCockpitSnapshot>)
    requires
        forall|i: int| 0 <= i < processes@.len() ==> (#[trigger] processes@[i])@.readable(),
    ensures
        views(final(lines)@) == views(old(lines)@) + all_lines(
            views(processes@),
            processes@.len() as int,
        ),
{
    let ghost before = views(lines@);
    let ghost all = views(processes@);
    let mut i: usize = 0;
    assert(before + all_lines(all, 0) =~= before);
    while i < processes.len()
        invariant
            i <= processes@.len(),
            all == views(processes@),
            forall|k: int| 0 <= k < processes@.len() ==> (#[trigger] processes@[k])@.readable(),
            views(lines@) == before + all_lines(all, i as int),
        decreases processes@.len() - i,
    {
        assert(all[i as int] == processes@[i as int]@);
        append_process_lines(lines, &processes[i]);
        lines.push(plain(""));
        i = i + 1;
        assert(views(lines@) =~= before + all_lines(all, i as int));
    }
}

/// The process that is shown: the one that was pushed, if there is one.
pub open spec fn shown(
    snapshot: Option<SnapshotView>,
    found: Seq<SnapshotView>,
) -> Seq<SnapshotView> {
    match snapshot {
        Some(snapshot) => seq![snapshot],
        None => found,
    }
}

/// What an optional snapshot says.
pub open spec fn opt_snapshot(o: Option<&QunuxCockpitSnapshot>) -> Option<SnapshotView> {
    match o {
        Some(snapshot) => Some(snapshot@),
        None => None,
    }
}

/// What is shown of a workspace: the process that was pushed, or else those that were found.
pub fn lines_for_snapshot_or_workspace(
    workspace: &str,
    snapshot: Option<&QunuxCockpitSnapshot>,
    found: &Vec<QunuxCockpitSnapshot>,
) -> (r: Vec<Line>)
    requires
        forall|i: int|
            0 <= i < shown(opt_snapshot(snapshot), views(found@)).len() ==> (#[trigger] shown(
                opt_snapshot(snapshot),
                views(found@),
            )[i]).readable(),
    ensures
        views(r@) == cockpit_lines(workspace@, shown(opt_snapshot(snapshot), views(found@))),
{
    let ghost processes = shown(opt_snapshot(snapshot), views(found@));
    let mut lines: Vec<Line> = Vec::new();
    push_head(&mut lines, workspace);
    let ghost head = views(lines@);
    assert(Seq::<Seq<SpanView>>::empty() + head =~= head);
    match snapshot {
        Some(process) => {
            assert(processes[0].readable());
            append_process_lines(&mut lines, process);
            lines.push(plain(""));
            proof {
                assert(all_lines(processes, 0) =~= Seq::empty());
                assert(all_lines(processes, 1) =~= process_lines(process@) + seq![
                    plain_view(""@),
                ]);
                assert(views(lines@) =~= cockpit_lines(workspace@, processes));
            }
            lines
        },
        None => {
            if found.is_empty() {
                push_missing(&mut lines, workspace);
                return lines;
            }
            assert forall|i: int| 0 <= i < found@.len() implies (
            #[trigger] found@[i])@.readable() by {
                assert(processes[i].readable());
            }
            append_processes(&mut lines, found);
            lines
        },
    }
}

/// How high the cockpit wants to be: one row for each line, but at least eight.
pub fn desired_height(lines: &Vec<Line>) -> (r: u16)
    ensures
        r == (if lines@.len() < 8 {
            8
        } else if lines@.len() > u16::MAX {
            u16::MAX as int
        } else {
            lines@.len() as int
        }),
{
    let n: usize = lines.len();
    if n < 8 {
        8
    } else if n > 65535 {
        65535
    } else {
        n as u16
    }
}

} // verus!
