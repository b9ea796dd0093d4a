//! What the list of background processes and the detail of one of them show.
use vstd::prelude::*;
use crate::background::{hint_view, list_hint, BackgroundProcessesModel, BackgroundProcessesView, ListRow, ListRowView};
use crate::monitor_output::{DetailOutputContent, DetailOutputState, DetailOutputStateView, MONITOR_OUTPUT_FRAME_HEIGHT};
use crate::styled::{dimmed, escapes, fits, line_below, plain, plain_view, reddened, styled_below, Color, Line, SpanView, Style};
use crate::text::{group_views, views};

verus! {

broadcast use group_views;

/// The list of background processes.
#[derive(Debug, PartialEq, Eq)]
pub struct ListPage {
    pub title: &'static str,
    pub subtitle: String,
    /// Whether the subtitle tells of a failure.
    pub failed: bool,
    pub rows: Vec<ListRow>,
    /// What stands in place of rows where there is no process.
    pub placeholder: Option<&'static str>,
    pub hint: &'static str,
}

/// What a [`ListPage`] says.
#[verifier::ext_equal]
pub struct ListPageView {
    pub title: Seq<char>,
    pub subtitle: Seq<char>,
    pub failed: bool,
    pub rows: Seq<ListRowView>,
    pub placeholder: Option<Seq<char>>,
    pub hint: Seq<char>,
}

impl View for ListPage {
    type V = ListPageView;

    open spec fn view(&self) -> ListPageView {
        ListPageView {
            title: self.title@,
            subtitle: self.subtitle@,
            failed: self.failed,
            rows: views(self.rows@),
            placeholder: match self.placeholder {
                Some(text) => Some(text@),
                None => None,
            },
            hint: self.hint@,
        }
    }
}

/// What is shown of the output of a process.
#[derive(Debug, PartialEq, Eq)]
pub enum DetailBody {
    /// A note in place of output.
    Note(&'static str),
    /// Lines in a frame, and what stands below it.
    Frame { lines: Vec<Line>, footer: String },
}

/// What a [`DetailBody`] says.
#[verifier::ext_equal]
pub enum DetailBodyView {
    Note(Seq<char>),
    Frame { lines: Seq<Seq<SpanView>>, footer: Seq<char> },
}

impl View for DetailBody {
    type V = DetailBodyView;

    open spec fn view(&self) -> DetailBodyView {
        match self {
            DetailBody::Note(text) => DetailBodyView::Note(text@),
            DetailBody::Frame { lines, footer } => DetailBodyView::Frame {
                lines: views(lines@),
                footer: footer@,
            },
        }
    }
}

/// The detail of a background process.
#[derive(Debug, PartialEq, Eq)]
pub struct DetailPage {
    pub metadata: Vec<Line>,
    pub body: DetailBody,
}

/// What a [`DetailPage`] says.
#[verifier::ext_equal]
pub struct DetailPageView {
    pub metadata: Seq<Seq<SpanView>>,
    pub body: DetailBodyView,
}

impl View for DetailPage {
    type V = DetailPageView;

    open spec fn view(&self) -> DetailPageView {
        DetailPageView { metadata: views(self.metadata@), body: self.body@ }
    }
}

impl DetailOutputStateView {
    /// What is said where there are no lines to show.
    pub open spec fn note(self) -> Seq<char> {
        match self {
            DetailOutputStateView::Loading => "Loading output…"@,
            DetailOutputStateView::NoOutput => "No output available"@,
            _ => "Output unavailable · refresh paused; reopen to retry"@,
        }
    }

    /// The lines that are shown where there is room for `height`.
    pub open spec fn shown(self, height: nat) -> Seq<Seq<char>> {
        match self.content() {
            None => Seq::empty(),
            Some(content) => content.lines.take(
                if content.lines.len() < height {
                    content.lines.len() as int
                } else {
                    height as int
                },
            ),
        }
    }

    /// What is shown in a frame, whose lines come escaped and cut to its columns; `size` is the
    /// number of bytes in its unit.
    pub open spec fn body(self, lines: Seq<Seq<SpanView>>, size: Seq<char>) -> DetailBodyView {
        match self.content() {
            None => DetailBodyView::Note(self.note()),
            Some(content) => DetailBodyView::Frame {
                lines,
                footer: self.footer(lines.len(), size)->0,
            },
        }
    }

    /// The body may be what is shown in a frame with room for `height` lines of `width` columns.
    pub open spec fn frames<F: Fn(&str, usize) -> Line>(
        self,
        fit: F,
        width: nat,
        height: nat,
        size: Seq<char>,
        body: DetailBodyView,
    ) -> bool {
        exists|lines: Seq<Seq<SpanView>>| #[trigger]
            fits_all(fit, self.shown(height), width, lines) && body == self.body(lines, size)
    }
}

/// The lines may be what `fit` made of the texts for this many columns, one of each.
pub open spec fn fits_all<F: Fn(&str, usize) -> Line>(
    fit: F,
    texts: Seq<Seq<char>>,
    columns: nat,
    lines: Seq<Seq<SpanView>>,
) -> bool {
    &&& lines.len() == texts.len()
    &&& forall|i: int| 0 <= i < texts.len() ==> fits(fit, texts[i], columns, #[trigger] lines[i])
}

impl BackgroundProcessesModel {
    /// The list, in this much room for its rows and for the hint below them.
    pub open spec fn list_page(self, width: nat, height: nat, hint_width: u16) -> ListPageView {
        ListPageView {
            title: "Background"@,
            subtitle: self.subtitle().0,
            failed: self.subtitle().1,
            rows: self.rows(width, height),
            placeholder: if self.items.len() == 0 {
                Some("No tasks currently running"@)
            } else {
                None
            },
            hint: hint_view(hint_width),
        }
    }

    /// The page may be the detail of a process which runs for as long as `runtime` says, with room
    /// for `height` lines of `width` columns of its output.
    pub open spec fn details<E: Fn(&str) -> Line, F: Fn(&str, usize) -> Line>(
        self,
        escape: E,
        fit: F,
        runtime: Seq<char>,
        width: nat,
        height: nat,
        size: Seq<char>,
        page: DetailPageView,
    ) -> bool {
        &&& self.describes(escape, runtime, page.metadata)
        &&& self.detail_output().frames(fit, width, height, size, page.body)
    }
}

impl ListPage {
    /// What stands above the list as it is drawn. `escape` makes a line of a text: it takes control
    /// sequences for styles and expands tabs.
    pub fn subtitle_line<F: Fn(&str) -> Line + Copy>(&self, escape: F) -> (r: Line)
        requires
            forall|s: &str| #[trigger] call_requires(escape, (s,)),
        ensures
            self.failed ==> exists|line: Seq<SpanView>| #[trigger]
                escapes(escape, self.subtitle@, line) && r@ == styled_below(line, reddened()),
            !self.failed ==> r@ == styled_below(plain_view(self.subtitle@), dimmed()),
    {
        if self.failed {
            let line = escape(self.subtitle.as_str());
            assert(escapes(escape, self.subtitle@, line@));
            line_below(&line, Style { color: Some(Color::Red), ..Style::plain() })
        } else {
            let line = plain(self.subtitle.as_str());
            line_below(&line, Style { dim: Some(true), ..Style::plain() })
        }
    }
}

fn first_lines<F: Fn(&str, usize) -> Line + Copy>(
    content: &DetailOutputContent,
    width: usize,
    height: u16,
    fit: F,
) -> (r: Vec<Line>)
    requires
        forall|s: &str, n: usize| #[trigger] call_requires(fit, (s, n)),
    ensures
        fits_all(
            fit,
            content@.lines.take(
                if content@.lines.len() < height {
                    content@.lines.len() as int
                } else {
                    height as int
                },
            ),
            width as nat,
            views(r@),
        ),
{
    let n: usize = if content.lines.len() < height as usize {
        content.lines.len()
    } else {
        height as usize
    };
    let ghost all = content@.lines;
    assert(all.len() == content.lines@.len());
    let mut lines: Vec<Line> = Vec::new();
    let mut i: usize = 0;
    while i < n
        invariant
            forall|s: &str, n: usize| #[trigger] call_requires(fit, (s, n)),
            i <= n <= content.lines@.len(),
            all == content@.lines,
            all == views(content.lines@),
            lines@.len() == i,
            forall|k: int|
                0 <= k < i ==> fits(fit, all[k], width as nat, #[trigger] views(lines@)[k]),
        decreases n - i,
    {
        let ghost before = lines@;
        assert(all[i as int] == content.lines@[i as int]@);
        let line = fit(content.lines[i].as_str(), width);
        assert(fits(fit, content.lines@[i as int]@, width as nat, line@));
        lines.push(line);
        i = i + 1;
        assert forall|k: int| 0 <= k < i implies fits(
            fit,
            all[k],
            width as nat,
            #[trigger] views(lines@)[k],
        ) by {
            if k < i - 1 {
                assert(views(lines@)[k] == views(before)[k]);
            }
        }
    }
    lines
}

impl DetailOutputState {
    /// What is shown in a frame with room for `height` lines of `width` columns. `fit` makes a line
    /// of a text that fits into a number of columns.
    pub fn body<F: Fn(&str, usize) -> Line + Copy>(
        &self,
        width: usize,
        height: u16,
        size: &str,
        fit: F,
    ) -> (r: DetailBody)
        requires
            forall|s: &str, n: usize| #[trigger] call_requires(fit, (s, n)),
        ensures
            self@.frames(fit, width as nat, height as nat, size@, r@),
    {
        let content = match self {
            DetailOutputState::Content(content) => content,
            DetailOutputState::Suspended(Some(content)) => content,
            _ => {
                proof {
                    let nothing = Seq::<Seq<SpanView>>::empty();
                    assert(fits_all(fit, self@.shown(height as nat), width as nat, nothing));
                }
                return DetailBody::Note(
                    match self {
                        DetailOutputState::Loading => "Loading output…",
                        DetailOutputState::NoOutput => "No output available",
                        _ => "Output unavailable · refresh paused; reopen to retry",
                    },
                );
            },
        };
        let lines = first_lines(content, width, height, fit);
        assert(views(lines@).len() == lines@.len());
        let footer = match self.footer(lines.len(), size) {
            Some(footer) => footer,
            None => String::new(),
        };
        proof {
            assert(fits_all(fit, self@.shown(height as nat), width as nat, views(lines@)));
        }
        DetailBody::Frame { lines, footer }
    }
}

impl BackgroundProcessesView {
    /// The list, in this much room for its rows and for the hint below them.
    pub fn render_list(&self, width: u16, height: u16, hint_width: u16) -> (r: ListPage)
        ensures
            r@ == self@.list_page(width as nat, height as nat, hint_width),
    {
        let (subtitle, failed) = self.subtitle();
        let rows = self.list_rows(width, height);
        ListPage {
            title: "Background",
            subtitle,
            failed,
            rows,
            placeholder: if self.has_processes() {
                None
            } else {
                Some("No tasks currently running")
            },
            hint: list_hint(hint_width),
        }
    }

    /// How many rows the output of the process in detail takes with its frame, and how many what
    /// stands below it.
    pub fn detail_heights(&self) -> (r: (u16, u16))
        ensures
            r == (if self@.detail_output().content() is Some {
                (MONITOR_OUTPUT_FRAME_HEIGHT, 1u16)
            } else {
                (1u16, 0u16)
            }),
    {
        if self.detail_output_state().has_content() {
            (MONITOR_OUTPUT_FRAME_HEIGHT, 1)
        } else {
            (1, 0)
        }
    }

    /// The detail of a process which runs for as long as `runtime` says, with room for `height`
    /// lines of `width` columns of its output; `size` is the number of its bytes in their unit.
    /// `escape` makes a line of a text: it takes control sequences for styles and expands tabs; `fit`
    /// makes one that fits into a number of columns.
    pub fn render_detail<E: Fn(&str) -> Line + Copy, F: Fn(&str, usize) -> Line + Copy>(
        &self,
        runtime: &str,
        width: usize,
        height: u16,
        size: &str,
        escape: E,
        fit: F,
    ) -> (r: DetailPage)
        requires
            forall|s: &str| #[trigger] call_requires(escape, (s,)),
            forall|s: &str, n: usize| #[trigger] call_requires(fit, (s, n)),
        ensures
            self@.details(escape, fit, runtime@, width as nat, height as nat, size@, r@),
    {
        DetailPage {
            metadata: self.detail_metadata_lines(runtime, escape),
            body: self.detail_output_state().body(width, height, size, fit),
        }
    }
}

} // verus!
