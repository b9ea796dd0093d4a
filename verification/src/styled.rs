//! Lines of styled text.
use vstd::prelude::*;
use crate::lines::{lines, lines_of};
use crate::text::{cat2, group_views, views};

verus! {

broadcast use group_views;

/// A color.
#[derive(Clone, Copy, Debug, PartialEq, Eq, Structural)]
pub enum Color {
    Reset,
    Black,
    Red,
    Green,
    Yellow,
    Blue,
    Magenta,
    Cyan,
    Gray,
    DarkGray,
    LightRed,
    LightGreen,
    LightYellow,
    LightBlue,
    LightMagenta,
    LightCyan,
    White,
    Rgb(u8, u8, u8),
    Indexed(u8),
}

/// How text is drawn. What is not said is as it is around the text.
#[derive(Clone, Copy, Debug, PartialEq, Eq)]
pub struct Style {
    pub color: Option<Color>,
    pub background: Option<Color>,
    pub underline_color: Option<Color>,
    pub bold: Option<bool>,
    pub dim: Option<bool>,
    pub italic: Option<bool>,
    pub underlined: Option<bool>,
    pub slow_blink: Option<bool>,
    pub rapid_blink: Option<bool>,
    pub reversed: Option<bool>,
    pub hidden: Option<bool>,
    pub crossed_out: Option<bool>,
}

/// Nothing is said.
pub open spec fn unstyled() -> Style {
    Style {
        color: None,
        background: None,
        underline_color: None,
        bold: None,
        dim: None,
        italic: None,
        underlined: None,
        slow_blink: None,
        rapid_blink: None,
        reversed: None,
        hidden: None,
        crossed_out: None,
    }
}

/// Dim, and nothing else.
pub open spec fn dimmed() -> Style {
    Style { dim: Some(true), ..unstyled() }
}

/// Red, and nothing else.
pub open spec fn reddened() -> Style {
    Style { color: Some(Color::Red), ..unstyled() }
}

/// The first of two that is there.
pub open spec fn either<T>(a: Option<T>, b: Option<T>) -> Option<T> {
    match a {
        Some(x) => Some(x),
        None => b,
    }
}

fn first_of<T>(a: Option<T>, b: Option<T>) -> (r: Option<T>)
    ensures
        r == either(a, b),
{
    match a {
        Some(x) => Some(x),
        None => b,
    }
}

impl Style {
    /// This style on top of another.
    pub open spec fn over(self, below: Style) -> Style {
        Style {
            color: either(self.color, below.color),
            background: either(self.background, below.background),
            underline_color: either(self.underline_color, below.underline_color),
            bold: either(self.bold, below.bold),
            dim: either(self.dim, below.dim),
            italic: either(self.italic, below.italic),
            underlined: either(self.underlined, below.underlined),
            slow_blink: either(self.slow_blink, below.slow_blink),
            rapid_blink: either(self.rapid_blink, below.rapid_blink),
            reversed: either(self.reversed, below.reversed),
            hidden: either(self.hidden, below.hidden),
            crossed_out: either(self.crossed_out, below.crossed_out),
        }
    }

    /// Nothing is said.
    pub fn plain() -> (r: Style)
        ensures
            r == unstyled(),
    {
        Style {
            color: None,
            background: None,
            underline_color: None,
            bold: None,
            dim: None,
            italic: None,
            underlined: None,
            slow_blink: None,
            rapid_blink: None,
            reversed: None,
            hidden: None,
            crossed_out: None,
        }
    }

    /// This style on top of another.
    pub fn on_top_of(self, below: Style) -> (r: Style)
        ensures
            r == self.over(below),
    {
        Style {
            color: first_of(self.color, below.color),
            background: first_of(self.background, below.background),
            underline_color: first_of(self.underline_color, below.underline_color),
            bold: first_of(self.bold, below.bold),
            dim: first_of(self.dim, below.dim),
            italic: first_of(self.italic, below.italic),
            underlined: first_of(self.underlined, below.underlined),
            slow_blink: first_of(self.slow_blink, below.slow_blink),
            rapid_blink: first_of(self.rapid_blink, below.rapid_blink),
            reversed: first_of(self.reversed, below.reversed),
            hidden: first_of(self.hidden, below.hidden),
            crossed_out: first_of(self.crossed_out, below.crossed_out),
        }
    }
}

/// A piece of text in one style.
#[derive(Clone, Debug, PartialEq, Eq)]
pub struct Span {
    pub text: String,
    pub style: Style,
}

/// What a [`Span`] says.
#[verifier::ext_equal]
pub struct SpanView {
    pub text: Seq<char>,
    pub style: Style,
}

impl View for Span {
    type V = SpanView;

    open spec fn view(&self) -> SpanView {
        SpanView { text: self.text@, style: self.style }
    }
}

/// A line of pieces.
#[derive(Clone, Debug, PartialEq, Eq)]
pub struct Line {
    pub spans: Vec<Span>,
}

impl View for Line {
    type V = Seq<SpanView>;

    open spec fn view(&self) -> Seq<SpanView> {
        views(self.spans@)
    }
}

/// Text without a style.
pub open spec fn raw_view(text: Seq<char>) -> SpanView {
    SpanView { text, style: unstyled() }
}

/// Text in a color.
pub open spec fn colored_view(text: Seq<char>, color: Color) -> SpanView {
    SpanView { text, style: Style { color: Some(color), ..unstyled() } }
}

/// Bold text in a color.
pub open spec fn bold_view(text: Seq<char>, color: Color) -> SpanView {
    SpanView { text, style: Style { color: Some(color), bold: Some(true), ..unstyled() } }
}

/// Bold text.
pub open spec fn heading_view(text: Seq<char>) -> SpanView {
    SpanView { text, style: Style { bold: Some(true), ..unstyled() } }
}

/// Dim text.
pub open spec fn dim_view(text: Seq<char>) -> SpanView {
    SpanView { text, style: Style { dim: Some(true), ..unstyled() } }
}

/// A line of text without a style: the lines of the text side by side, a piece for each.
pub open spec fn plain_view(text: Seq<char>) -> Seq<SpanView> {
    Seq::new(lines(text).len(), |i: int| raw_view(lines(text)[i]))
}

pub(crate) fn raw(text: &str) -> (r: Span)
    ensures
        r@ == raw_view(text@),
{
    Span { text: text.to_owned(), style: Style::plain() }
}

pub(crate) fn colored(text: &str, color: Color) -> (r: Span)
    ensures
        r@ == colored_view(text@, color),
{
    Span { text: text.to_owned(), style: Style { color: Some(color), ..Style::plain() } }
}

pub(crate) fn bold(text: &str, color: Color) -> (r: Span)
    ensures
        r@ == bold_view(text@, color),
{
    Span {
        text: text.to_owned(),
        style: Style { color: Some(color), bold: Some(true), ..Style::plain() },
    }
}

pub(crate) fn heading(text: &str) -> (r: Span)
    ensures
        r@ == heading_view(text@),
{
    Span { text: text.to_owned(), style: Style { bold: Some(true), ..Style::plain() } }
}

pub(crate) fn dim(text: &str) -> (r: Span)
    ensures
        r@ == dim_view(text@),
{
    Span { text: text.to_owned(), style: Style { dim: Some(true), ..Style::plain() } }
}

pub(crate) fn line1(a: Span) -> (r: Line)
    ensures
        r@ == seq![a@],
{
    let mut spans: Vec<Span> = Vec::new();
    spans.push(a);
    let r = Line { spans };
    assert(r@ =~= seq![a@]);
    r
}

pub(crate) fn line2(a: Span, b: Span) -> (r: Line)
    ensures
        r@ == seq![a@, b@],
{
    let mut spans: Vec<Span> = Vec::new();
    spans.push(a);
    spans.push(b);
    let r = Line { spans };
    assert(r@ =~= seq![a@, b@]);
    r
}

pub(crate) fn line3(a: Span, b: Span, c: Span) -> (r: Line)
    ensures
        r@ == seq![a@, b@, c@],
{
    let mut spans: Vec<Span> = Vec::new();
    spans.push(a);
    spans.push(b);
    spans.push(c);
    let r = Line { spans };
    assert(r@ =~= seq![a@, b@, c@]);
    r
}

pub(crate) fn line4(a: Span, b: Span, c: Span, d: Span) -> (r: Line)
    ensures
        r@ == seq![a@, b@, c@, d@],
{
    let mut spans: Vec<Span> = Vec::new();
    spans.push(a);
    spans.push(b);
    spans.push(c);
    spans.push(d);
    let r = Line { spans };
    assert(r@ =~= seq![a@, b@, c@, d@]);
    r
}

pub(crate) fn plain(text: &str) -> (r: Line)
    ensures
        r@ == plain_view(text@),
{
    let pieces = lines_of(text);
    let ghost all = plain_view(text@);
    let mut spans: Vec<Span> = Vec::new();
    let mut i: usize = 0;
    while i < pieces.len()
        invariant
            i <= pieces@.len(),
            views(pieces@) == lines(text@),
            all == plain_view(text@),
            views(spans@) == all.take(i as int),
        decreases pieces@.len() - i,
    {
        assert(views(pieces@)[i as int] == pieces@[i as int]@);
        spans.push(raw(pieces[i].as_str()));
        i = i + 1;
        assert(views(spans@) =~= all.take(i as int));
    }
    assert(all.take(i as int) =~= all);
    Line { spans }
}

/// Adds lines at the end.
pub(crate) fn extend(lines: &mut Vec<Line>, more: Vec<Line>)
    ensures
        views(final(lines)@) == views(old(lines)@) + views(more@),
{
    let mut more = more;
    let ghost added = more@;
    lines.append(&mut more);
    assert(views(lines@) =~= views(old(lines)@) + views(added));
}

/// The line may be what `escape` made of the text.
pub open spec fn escapes<F: Fn(&str) -> Line>(escape: F, text: Seq<char>, line: Seq<SpanView>) -> bool {
    exists|s: &str, r: Line| s@ == text && r@ == line && #[trigger] call_ensures(escape, (s,), r)
}

/// The line may be what `fit` made of the text for this many columns.
pub open spec fn fits<F: Fn(&str, usize) -> Line>(
    fit: F,
    text: Seq<char>,
    columns: nat,
    line: Seq<SpanView>,
) -> bool {
    exists|s: &str, n: usize, r: Line|
        s@ == text && n == columns && r@ == line && #[trigger] call_ensures(fit, (s, n), r)
}

/// The text of a line.
pub open spec fn flat(line: Seq<SpanView>) -> Seq<char>
    decreases line.len(),
{
    if line.len() == 0 {
        Seq::empty()
    } else {
        flat(line.drop_last()) + line.last().text
    }
}

/// The text of a line.
pub(crate) fn flat_text(line: &Line) -> (r: String)
    ensures
        r@ == flat(line@),
{
    let mut text = String::new();
    let mut i: usize = 0;
    assert(line@.take(0) =~= Seq::<SpanView>::empty());
    while i < line.spans.len()
        invariant
            i <= line.spans@.len(),
            text@ == flat(line@.take(i as int)),
        decreases line.spans@.len() - i,
    {
        assert(line@[i as int] == line.spans@[i as int]@);
        assert(line@.take(i + 1).drop_last() =~= line@.take(i as int));
        text = cat2(text.as_str(), line.spans[i].text.as_str());
        i = i + 1;
    }
    assert(line@.take(i as int) =~= line@);
    text
}

/// Pieces with a style below theirs.
pub open spec fn styled_below(line: Seq<SpanView>, below: Style) -> Seq<SpanView> {
    Seq::new(line.len(), |i: int| SpanView { style: line[i].style.over(below), ..line[i] })
}

/// Pieces with a style on top of theirs.
pub open spec fn styled_above(line: Seq<SpanView>, above: Style) -> Seq<SpanView> {
    Seq::new(line.len(), |i: int| SpanView { style: above.over(line[i].style), ..line[i] })
}

/// Adds pieces at the end, with a style below theirs.
pub(crate) fn push_below(spans: &mut Vec<Span>, line: &Line, below: Style)
    ensures
        views(final(spans)@) == views(old(spans)@) + styled_below(line@, below),
{
    let ghost first = views(spans@);
    let ghost all = styled_below(line@, below);
    let mut i: usize = 0;
    assert(first + all.take(0) =~= first);
    while i < line.spans.len()
        invariant
            i <= line.spans@.len(),
            all == styled_below(line@, below),
            views(spans@) == first + all.take(i as int),
        decreases line.spans@.len() - i,
    {
        assert(line@[i as int] == line.spans@[i as int]@);
        let span = &line.spans[i];
        spans.push(Span { text: span.text.clone(), style: span.style.on_top_of(below) });
        i = i + 1;
        assert(views(spans@) =~= first + all.take(i as int));
    }
    assert(all.take(i as int) =~= all);
}

/// Adds pieces at the end, with a style on top of theirs.
pub(crate) fn push_above(spans: &mut Vec<Span>, line: &Line, above: Style)
    ensures
        views(final(spans)@) == views(old(spans)@) + styled_above(line@, above),
{
    let ghost first = views(spans@);
    let ghost all = styled_above(line@, above);
    let mut i: usize = 0;
    assert(first + all.take(0) =~= first);
    while i < line.spans.len()
        invariant
            i <= line.spans@.len(),
            all == styled_above(line@, above),
            views(spans@) == first + all.take(i as int),
        decreases line.spans@.len() - i,
    {
        assert(line@[i as int] == line.spans@[i as int]@);
        let span = &line.spans[i];
        spans.push(Span { text: span.text.clone(), style: above.on_top_of(span.style) });
        i = i + 1;
        assert(views(spans@) =~= first + all.take(i as int));
    }
    assert(all.take(i as int) =~= all);
}

/// A line with a style below that of its pieces.
pub(crate) fn line_below(line: &Line, below: Style) -> (r: Line)
    ensures
        r@ == styled_below(line@, below),
{
    let mut spans: Vec<Span> = Vec::new();
    push_below(&mut spans, line, below);
    assert(views(spans@) =~= styled_below(line@, below));
    Line { spans }
}

/// Nothing below pieces leaves them as they are.
pub proof fn lemma_below_nothing(line: Seq<SpanView>)
    ensures
        styled_below(line, unstyled()) == line,
{
    assert forall|i: int| 0 <= i < line.len() implies styled_below(line, unstyled())[i]
        == line[i] by {
        let a = line[i].style;
        assert(a.over(unstyled()) == a);
    }
    assert(styled_below(line, unstyled()) =~= line);
}

} // verus!
