//! The end of what a process said, as it is shown.
use vstd::prelude::*;
use crate::ids::{decimal, decimal_text};
use crate::lines::{keep_last, last_of, lines, lines_of, text_of, trim, trimmed};
use crate::search::{select, select_texts};
use crate::text::{cat2, cat3, chars_of, clone_texts, group_views, opt_view, views};

verus! {

broadcast use group_views;

/// How many lines are shown.
pub const MONITOR_OUTPUT_MAX_LINES: usize = 10;

/// How many rows the frame around the lines takes.
pub const MONITOR_OUTPUT_FRAME_HEIGHT: u16 = 12;

/// The lines that are shown, and what is known of the rest.
#[derive(Debug, PartialEq, Eq)]
pub struct DetailOutputContent {
    pub lines: Vec<String>,
    pub bytes_total: Option<u64>,
    pub truncated: bool,
    pub lines_omitted: bool,
}

/// What a [`DetailOutputContent`] says.
#[verifier::ext_equal]
pub struct DetailOutputContentView {
    pub lines: Seq<Seq<char>>,
    pub bytes_total: Option<u64>,
    pub truncated: bool,
    pub lines_omitted: bool,
}

impl View for DetailOutputContent {
    type V = DetailOutputContentView;

    open spec fn view(&self) -> DetailOutputContentView {
        DetailOutputContentView {
            lines: views(self.lines@),
            bytes_total: self.bytes_total,
            truncated: self.truncated,
            lines_omitted: self.lines_omitted,
        }
    }
}

impl Clone for DetailOutputContent {
    fn clone(&self) -> (r: Self)
        ensures
            r@ == self@,
    {
        DetailOutputContent {
            lines: clone_texts(&self.lines),
            bytes_total: self.bytes_total,
            truncated: self.truncated,
            lines_omitted: self.lines_omitted,
        }
    }
}

/// What is known of the output of a process. A suspended one is no longer refreshed; what was
/// known before is kept and shown as stale.
#[derive(Debug, PartialEq, Eq)]
pub enum DetailOutputState {
    Loading,
    NoOutput,
    Content(DetailOutputContent),
    Suspended(Option<DetailOutputContent>),
}

/// What a [`DetailOutputState`] says.
#[verifier::ext_equal]
pub enum DetailOutputStateView {
    Loading,
    NoOutput,
    Content(DetailOutputContentView),
    Suspended(Option<DetailOutputContentView>),
}

impl View for DetailOutputState {
    type V = DetailOutputStateView;

    open spec fn view(&self) -> DetailOutputStateView {
        match self {
            DetailOutputState::Loading => DetailOutputStateView::Loading,
            DetailOutputState::NoOutput => DetailOutputStateView::NoOutput,
            DetailOutputState::Content(content) => DetailOutputStateView::Content(content@),
            DetailOutputState::Suspended(content) => DetailOutputStateView::Suspended(
                opt_view(*content),
            ),
        }
    }
}

impl Clone for DetailOutputState {
    fn clone(&self) -> (r: Self)
        ensures
            r@ == self@,
    {
        match self {
            DetailOutputState::Loading => DetailOutputState::Loading,
            DetailOutputState::NoOutput => DetailOutputState::NoOutput,
            DetailOutputState::Content(content) => DetailOutputState::Content(content.clone()),
            DetailOutputState::Suspended(None) => DetailOutputState::Suspended(None),
            DetailOutputState::Suspended(Some(content)) => DetailOutputState::Suspended(
                Some(content.clone()),
            ),
        }
    }
}

impl DetailOutputStateView {
    /// The state once refreshing stopped.
    pub open spec fn suspended(self) -> Self {
        match self {
            DetailOutputStateView::Content(content) => DetailOutputStateView::Suspended(
                Some(content),
            ),
            DetailOutputStateView::Suspended(_) => self,
            _ => DetailOutputStateView::Suspended(None),
        }
    }

    /// The lines that are known, fresh or stale.
    pub open spec fn content(self) -> Option<DetailOutputContentView> {
        match self {
            DetailOutputStateView::Content(content) => Some(content),
            DetailOutputStateView::Suspended(content) => content,
            _ => None,
        }
    }
}

impl DetailOutputState {
    /// Stops refreshing; says whether that changed anything.
    pub fn suspend(&mut self) -> (r: bool)
        ensures
            final(self)@ == old(self)@.suspended(),
            r == (old(self)@ !is Suspended),
    {
        let content = match self {
            DetailOutputState::Content(content) => Some(content.clone()),
            DetailOutputState::Suspended(_) => {
                return false;
            },
            _ => None,
        };
        *self = DetailOutputState::Suspended(content);
        true
    }

    /// Whether there are lines to show.
    pub fn has_content(&self) -> (r: bool)
        ensures
            r == (self@.content() is Some),
    {
        match self {
            DetailOutputState::Content(_) => true,
            DetailOutputState::Suspended(content) => content.is_some(),
            _ => false,
        }
    }
}

fn same_texts(a: &Vec<String>, b: &Vec<String>) -> (r: bool)
    ensures
        r == (views(a@) == views(b@)),
{
    if a.len() != b.len() {
        assert(views(a@).len() != views(b@).len());
        return false;
    }
    let mut i: usize = 0;
    while i < a.len()
        invariant
            i <= a@.len() == b@.len(),
            forall|j: int| 0 <= j < i ==> views(a@)[j] == #[trigger] views(b@)[j],
        decreases a@.len() - i,
    {
        if a[i] != b[i] {
            assert(views(a@)[i as int] != views(b@)[i as int]);
            return false;
        }
        i = i + 1;
    }
    assert(views(a@) =~= views(b@));
    true
}

fn same_content(a: &DetailOutputContent, b: &DetailOutputContent) -> (r: bool)
    ensures
        r == (a@ == b@),
{
    let same_bytes = match (a.bytes_total, b.bytes_total) {
        (Some(x), Some(y)) => x == y,
        (None, None) => true,
        _ => false,
    };
    same_bytes && a.truncated == b.truncated && a.lines_omitted == b.lines_omitted && same_texts(
        &a.lines,
        &b.lines,
    )
}

/// Whether two states are the same.
pub(crate) fn same_output(a: &DetailOutputState, b: &DetailOutputState) -> (r: bool)
    ensures
        r == (a@ == b@),
{
    match (a, b) {
        (DetailOutputState::Loading, DetailOutputState::Loading) => true,
        (DetailOutputState::NoOutput, DetailOutputState::NoOutput) => true,
        (DetailOutputState::Content(x), DetailOutputState::Content(y)) => same_content(x, y),
        (
            DetailOutputState::Suspended(Some(x)),
            DetailOutputState::Suspended(Some(y)),
        ) => same_content(x, y),
        (DetailOutputState::Suspended(None), DetailOutputState::Suspended(None)) => true,
        _ => false,
    }
}

/// What a process said so far, as far as it is kept.
#[derive(Clone, Debug, PartialEq, Eq)]
pub struct ThreadBackgroundTerminalOutput {
    pub tail: String,
    pub bytes_total: u64,
    pub truncated: bool,
}

/// What a [`ThreadBackgroundTerminalOutput`] says.
#[verifier::ext_equal]
pub struct ThreadBackgroundTerminalOutputView {
    pub tail: Seq<char>,
    pub bytes_total: u64,
    pub truncated: bool,
}

impl View for ThreadBackgroundTerminalOutput {
    type V = ThreadBackgroundTerminalOutputView;

    open spec fn view(&self) -> ThreadBackgroundTerminalOutputView {
        ThreadBackgroundTerminalOutputView {
            tail: self.tail@,
            bytes_total: self.bytes_total,
            truncated: self.truncated,
        }
    }
}

/// Whether a line holds more than blanks.
pub open spec fn is_spoken() -> spec_fn(Seq<char>) -> bool {
    |line: Seq<char>| trimmed(line).len() > 0
}

/// The last lines that hold more than blanks, and whether there were more of them.
pub open spec fn last_spoken(lines: Seq<Seq<char>>) -> (Seq<Seq<char>>, bool) {
    let spoken = select(lines, is_spoken());
    (
        last_of(spoken, MONITOR_OUTPUT_MAX_LINES as nat),
        spoken.len() > MONITOR_OUTPUT_MAX_LINES,
    )
}

/// The last lines that hold more than blanks, and whether there were more of them.
pub fn last_nonempty_lines(lines: &Vec<String>) -> (r: (Vec<String>, bool))
    ensures
        (views(r.0@), r.1) == last_spoken(views(lines@)),
{
    let speaks = |line: &String| -> (b: bool)
        ensures
            b == (is_spoken())(line@),
    {
        !trim(line.as_str()).as_str().is_empty()
    };
    let spoken = select_texts(lines, speaks, Ghost(is_spoken()));
    assert(views(spoken@).len() == spoken@.len());
    (keep_last(&spoken, MONITOR_OUTPUT_MAX_LINES), spoken.len() > MONITOR_OUTPUT_MAX_LINES)
}

/// What is shown of these lines.
pub open spec fn shown_of(
    lines: Seq<Seq<char>>,
    bytes_total: Option<u64>,
    truncated: bool,
) -> DetailOutputStateView {
    let (last, lines_omitted) = last_spoken(lines);
    if last.len() == 0 {
        DetailOutputStateView::NoOutput
    } else {
        DetailOutputStateView::Content(
            DetailOutputContentView { lines: last, bytes_total, truncated, lines_omitted },
        )
    }
}

fn state_of(lines: &Vec<String>, bytes_total: Option<u64>, truncated: bool) -> (r:
    DetailOutputState)
    ensures
        r@ == shown_of(views(lines@), bytes_total, truncated),
{
    let (last, lines_omitted) = last_nonempty_lines(lines);
    assert(views(last@).len() == last@.len());
    if last.is_empty() {
        DetailOutputState::NoOutput
    } else {
        DetailOutputState::Content(
            DetailOutputContent { lines: last, bytes_total, truncated, lines_omitted },
        )
    }
}

/// What is shown of a snapshot of the output.
pub open spec fn of_snapshot(output: Option<ThreadBackgroundTerminalOutputView>) ->
    DetailOutputStateView {
    match output {
        None => DetailOutputStateView::NoOutput,
        Some(output) => shown_of(lines(output.tail), Some(output.bytes_total), output.truncated),
    }
}

/// What is shown of a snapshot of the output.
pub fn detail_output_state_from_snapshot(output: Option<ThreadBackgroundTerminalOutput>) -> (r:
    DetailOutputState)
    ensures
        r@ == of_snapshot(opt_view(output)),
{
    match output {
        None => DetailOutputState::NoOutput,
        Some(output) => state_of(
            &lines_of(output.tail.as_str()),
            Some(output.bytes_total),
            output.truncated,
        ),
    }
}

/// The lines of the first `n` chunks.
pub open spec fn chunk_lines(chunks: Seq<Seq<char>>, n: int) -> Seq<Seq<char>>
    decreases n,
{
    if n <= 0 {
        Seq::empty()
    } else {
        chunk_lines(chunks, n - 1) + lines(chunks[n - 1])
    }
}

/// What is shown of the chunks that are kept here.
pub open spec fn of_chunks(chunks: Seq<Seq<char>>) -> DetailOutputStateView {
    shown_of(chunk_lines(chunks, chunks.len() as int), None, false)
}

/// What is shown of the chunks that are kept here.
pub fn detail_output_state_from_chunks(chunks: &Vec<String>) -> (r: DetailOutputState)
    ensures
        r@ == of_chunks(views(chunks@)),
{
    let mut all: Vec<String> = Vec::new();
    let mut i: usize = 0;
    while i < chunks.len()
        invariant
            i <= chunks@.len(),
            views(all@) == chunk_lines(views(chunks@), i as int),
        decreases chunks@.len() - i,
    {
        let ghost before = all@;
        let mut more = lines_of(chunks[i].as_str());
        let ghost added = more@;
        all.append(&mut more);
        i = i + 1;
        assert(views(all@) =~= views(before) + views(added));
    }
    state_of(&all, None, false)
}

/// No more than the lines that fit are shown, and each of them says something.
pub proof fn law_shown_lines_are_few(lines: Seq<Seq<char>>, bytes_total: Option<u64>, truncated: bool)
    ensures
        match shown_of(lines, bytes_total, truncated) {
            DetailOutputStateView::Content(content) => {
                &&& 0 < content.lines.len() <= MONITOR_OUTPUT_MAX_LINES
                &&& forall|i: int|
                    0 <= i < content.lines.len() ==> trimmed(
                        #[trigger] content.lines[i],
                    ).len() > 0
            },
            state => state == DetailOutputStateView::NoOutput,
        },
{
    let spoken = select(lines, is_spoken());
    crate::search::lemma_kept(lines, is_spoken(), lines.len() as int);
    let last = last_of(spoken, MONITOR_OUTPUT_MAX_LINES as nat);
    assert forall|i: int| 0 <= i < last.len() implies trimmed(#[trigger] last[i]).len() > 0 by {
        let k = i + spoken.len() - last.len();
        assert(last[i] == spoken[k]);
        assert(spoken.contains(last[i]));
        assert((is_spoken())(last[i]));
    }
}

/// The unit that a number of bytes is shown in, and how many bytes it stands for; few bytes are
/// shown as they are.
pub open spec fn unit_of(bytes: nat) -> Option<(Seq<char>, nat)> {
    if bytes >= 1073741824 {
        Some(("GB"@, 1073741824))
    } else if bytes >= 1048576 {
        Some(("MB"@, 1048576))
    } else if bytes >= 1024 {
        Some(("KB"@, 1024))
    } else {
        None
    }
}

/// The unit that a number of bytes is shown in, and how many bytes it stands for.
pub fn byte_unit(bytes: u64) -> (r: Option<(&'static str, u64)>)
    ensures
        match r {
            Some((unit, size)) => unit_of(bytes as nat) == Some((unit@, size as nat)),
            None => unit_of(bytes as nat) is None,
        },
{
    if bytes >= 1073741824 {
        Some(("GB", 1073741824))
    } else if bytes >= 1048576 {
        Some(("MB", 1048576))
    } else if bytes >= 1024 {
        Some(("KB", 1024))
    } else {
        None
    }
}

/// A number with one decimal, without the decimal where it is a zero.
pub open spec fn without_zero_decimal(value: Seq<char>) -> Seq<char> {
    if value.len() >= 2 && value[value.len() - 2] == '.' && value[value.len() - 1] == '0' {
        value.take(value.len() - 2)
    } else {
        value
    }
}

/// A number of bytes in its unit; `quotient` is how many units it is, with one decimal.
pub open spec fn bytes_text(bytes: nat, quotient: Seq<char>) -> Seq<char> {
    match unit_of(bytes) {
        None => decimal(bytes) + " bytes"@,
        Some((unit, _)) => without_zero_decimal(quotient) + unit,
    }
}

/// A number of bytes in its unit; `quotient` is how many units it is, with one decimal.
pub fn format_bytes(bytes: u64, quotient: &str) -> (r: String)
    ensures
        r@ == bytes_text(bytes as nat, quotient@),
{
    match byte_unit(bytes) {
        None => cat2(decimal_text(bytes).as_str(), " bytes"),
        Some((unit, _)) => {
            let chars = chars_of(quotient);
            let n: usize = chars.len();
            let to: usize = if n >= 2 && chars[n - 2] == '.' && chars[n - 1] == '0' {
                n - 2
            } else {
                n
            };
            assert(quotient@.subrange(0, to as int) =~= without_zero_decimal(quotient@));
            cat2(text_of(&chars, 0, to).as_str(), unit)
        },
    }
}

impl DetailOutputStateView {
    /// What stands below the lines, of which `shown` are shown; `size` is the number of bytes in
    /// its unit.
    pub open spec fn footer(self, shown: nat, size: Seq<char>) -> Option<Seq<char>> {
        match self.content() {
            None => None,
            Some(content) => {
                let text = if content.truncated {
                    "Showing "@ + decimal(shown) + " lines of "@ + size
                } else if content.lines_omitted {
                    "Showing last "@ + decimal(shown) + " lines · earlier lines hidden"@
                } else {
                    "Showing "@ + decimal(shown) + " lines"@
                };
                Some(
                    if self is Suspended {
                        text + " · stale; refresh paused; reopen to retry"@
                    } else {
                        text
                    },
                )
            },
        }
    }
}

fn content_footer(content: &DetailOutputContent, line_count: usize, size: &str) -> (r: String)
    ensures
        DetailOutputStateView::Content(content@).footer(line_count as nat, size@) == Some(r@),
{
    let shown = decimal_text(line_count as u64);
    if content.truncated {
        cat2(cat3("Showing ", shown.as_str(), " lines of ").as_str(), size)
    } else if content.lines_omitted {
        cat3("Showing last ", shown.as_str(), " lines · earlier lines hidden")
    } else {
        cat3("Showing ", shown.as_str(), " lines")
    }
}

impl DetailOutputState {
    /// What stands below the lines, of which `line_count` are shown; `size` is the number of
    /// bytes in its unit.
    pub fn footer(&self, line_count: usize, size: &str) -> (r: Option<String>)
        ensures
            opt_view(r) == self@.footer(line_count as nat, size@),
    {
        match self {
            DetailOutputState::Content(content) => Some(content_footer(content, line_count, size)),
            DetailOutputState::Suspended(Some(content)) => Some(
                cat2(
                    content_footer(content, line_count, size).as_str(),
                    " · stale; refresh paused; reopen to retry",
                ),
            ),
            _ => None,
        }
    }
}

} // verus!
