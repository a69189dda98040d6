//! Styled text: what a screen shows, before a terminal draws it.

use vstd::prelude::*;

use crate::text;

verus! {

/// A colour of the terminal.
#[derive(Debug, Clone, Copy, PartialEq, Eq, Structural)]
pub enum Color {
    Reset,
    Black,
    Red,
    Green,
    Yellow,
    Blue,
    Magenta,
    Cyan,
    Gray,
    DarkGray,
    White,
    Rgb(u8, u8, u8),
}

/// How a piece of text looks. A colour that is `None` is left as it is.
#[derive(Debug, Clone, Copy, PartialEq, Eq)]
pub struct Style {
    pub fg: Option<Color>,
    pub bg: Option<Color>,
    pub bold: bool,
    pub italic: bool,
    pub crossed_out: bool,
}

impl Style {
    /// No colour and no emphasis.
    #[verifier::allow_in_spec]
    pub fn plain() -> Style
        returns
            (Style { fg: None, bg: None, bold: false, italic: false, crossed_out: false }),
    {
        Style { fg: None, bg: None, bold: false, italic: false, crossed_out: false }
    }

    /// The same style with this text colour.
    #[verifier::allow_in_spec]
    pub fn fg(self, color: Color) -> Style
        returns
            (Style { fg: Some(color), ..self }),
    {
        Style { fg: Some(color), ..self }
    }

    /// The same style with this background.
    #[verifier::allow_in_spec]
    pub fn bg(self, color: Color) -> Style
        returns
            (Style { bg: Some(color), ..self }),
    {
        Style { bg: Some(color), ..self }
    }

    /// The same style in bold.
    #[verifier::allow_in_spec]
    pub fn bold(self) -> Style
        returns
            (Style { bold: true, ..self }),
    {
        Style { bold: true, ..self }
    }

    /// The same style in italics.
    #[verifier::allow_in_spec]
    pub fn italic(self) -> Style
        returns
            (Style { italic: true, ..self }),
    {
        Style { italic: true, ..self }
    }

    /// The same style struck through.
    #[verifier::allow_in_spec]
    pub fn crossed_out(self) -> Style
        returns
            (Style { crossed_out: true, ..self }),
    {
        Style { crossed_out: true, ..self }
    }
}

/// The style that has this text colour and nothing else.
#[verifier::allow_in_spec]
pub fn ink(color: Color) -> Style
    returns
        Style::plain().fg(color),
{
    Style::plain().fg(color)
}

/// A piece of text in one style.
#[derive(Debug)]
pub struct Span {
    pub text: String,
    pub style: Style,
}

/// A line of pieces, with a style below theirs.
#[derive(Debug)]
pub struct Line {
    pub spans: Vec<Span>,
    pub style: Style,
}

/// The model of a [`Span`].
pub struct SpanModel {
    pub text: Seq<char>,
    pub style: Style,
}

/// The model of a [`Line`].
pub struct LineModel {
    pub spans: Seq<SpanModel>,
    pub style: Style,
}

impl DeepView for Span {
    type V = SpanModel;

    open spec fn deep_view(&self) -> SpanModel {
        SpanModel { text: self.text@, style: self.style }
    }
}

impl DeepView for Line {
    type V = LineModel;

    open spec fn deep_view(&self) -> LineModel {
        LineModel { spans: self.spans.deep_view(), style: self.style }
    }
}

/// A piece of text in one style.
pub open spec fn span(text: Seq<char>, style: Style) -> SpanModel {
    SpanModel { text, style }
}

/// A line that is one plain piece in a line style.
pub open spec fn line(text: Seq<char>, style: Style) -> LineModel {
    LineModel { spans: seq![span(text, Style::plain())], style }
}

/// A line of pieces.
pub open spec fn line_of(spans: Seq<SpanModel>) -> LineModel {
    LineModel { spans, style: Style::plain() }
}

/// A line without text.
pub open spec fn blank() -> LineModel {
    LineModel { spans: Seq::empty(), style: Style::plain() }
}

impl Span {
    /// A piece of text in one style.
    pub fn styled(text: &str, style: Style) -> (r: Span)
        ensures
            r.deep_view() == span(text@, style),
    {
        Span { text: text.to_owned(), style }
    }

    /// A piece of text as it is.
    pub fn raw(text: &str) -> (r: Span)
        ensures
            r.deep_view() == span(text@, Style::plain()),
    {
        Span { text: text.to_owned(), style: Style::plain() }
    }
}

impl Line {
    /// A line of one plain piece in a line style.
    pub fn styled(text: &str, style: Style) -> (r: Line)
        ensures
            r.deep_view() == line(text@, style),
    {
        let mut spans: Vec<Span> = nothing();
        put(&mut spans, Span::raw(text));
        Line { spans, style }
    }

    /// A line of one plain piece.
    pub fn raw(text: &str) -> (r: Line)
        ensures
            r.deep_view() == line(text@, Style::plain()),
    {
        Line::styled(text, Style::plain())
    }

    /// A line of pieces.
    pub fn of(spans: Vec<Span>) -> (r: Line)
        ensures
            r.deep_view() == line_of(spans.deep_view()),
    {
        Line { spans, style: Style::plain() }
    }

    /// A line of one piece in its own style.
    pub fn one(text: &str, style: Style) -> (r: Line)
        ensures
            r.deep_view() == line_of(seq![span(text@, style)]),
    {
        let mut spans: Vec<Span> = nothing();
        put(&mut spans, Span::styled(text, style));
        Line::of(spans)
    }

    /// A line without text.
    pub fn blank() -> (r: Line)
        ensures
            r.deep_view() == blank(),
    {
        Line { spans: nothing(), style: Style::plain() }
    }
}

/// A list of 2 items.
pub open spec fn list2<T>(a: T, b: T) -> Seq<T> {
    seq![a].push(b)
}

/// A list of 3 items.
pub open spec fn list3<T>(a: T, b: T, c: T) -> Seq<T> {
    list2(a, b).push(c)
}

/// A list of 4 items.
pub open spec fn list4<T>(a: T, b: T, c: T, d: T) -> Seq<T> {
    list3(a, b, c).push(d)
}

/// A list of 5 items.
pub open spec fn list5<T>(a: T, b: T, c: T, d: T, e: T) -> Seq<T> {
    list4(a, b, c, d).push(e)
}

/// A list of 6 items.
pub open spec fn list6<T>(a: T, b: T, c: T, d: T, e: T, f: T) -> Seq<T> {
    list5(a, b, c, d, e).push(f)
}

/// A list of 7 items.
pub open spec fn list7<T>(a: T, b: T, c: T, d: T, e: T, f: T, g: T) -> Seq<T> {
    list6(a, b, c, d, e, f).push(g)
}

/// A list of 8 items.
pub open spec fn list8<T>(a: T, b: T, c: T, d: T, e: T, f: T, g: T, h: T) -> Seq<T> {
    list7(a, b, c, d, e, f, g).push(h)
}

/// A list of 9 items.
pub open spec fn list9<T>(a: T, b: T, c: T, d: T, e: T, f: T, g: T, h: T, i: T) -> Seq<T> {
    list8(a, b, c, d, e, f, g, h).push(i)
}

/// A list of 10 items.
pub open spec fn list10<T>(a: T, b: T, c: T, d: T, e: T, f: T, g: T, h: T, i: T, j: T) -> Seq<T> {
    list9(a, b, c, d, e, f, g, h, i).push(j)
}

/// A list of 11 items.
pub open spec fn list11<T>(a: T, b: T, c: T, d: T, e: T, f: T, g: T, h: T, i: T, j: T, k: T) -> Seq<T> {
    list10(a, b, c, d, e, f, g, h, i, j).push(k)
}

/// A list of 12 items.
pub open spec fn list12<T>(a: T, b: T, c: T, d: T, e: T, f: T, g: T, h: T, i: T, j: T, k: T, l: T) -> Seq<T> {
    list11(a, b, c, d, e, f, g, h, i, j, k).push(l)
}

/// A list of 13 items.
pub open spec fn list13<T>(a: T, b: T, c: T, d: T, e: T, f: T, g: T, h: T, i: T, j: T, k: T, l: T, m: T) -> Seq<T> {
    list12(a, b, c, d, e, f, g, h, i, j, k, l).push(m)
}

/// A list that holds nothing yet.
pub fn nothing<T: DeepView>() -> (r: Vec<T>)
    ensures
        r.deep_view() == Seq::<T::V>::empty(),
        r@ == Seq::<T>::empty(),
{
    let v: Vec<T> = Vec::new();
    proof {
        assert(v.deep_view() =~= Seq::<T::V>::empty());
    }
    v
}

/// Adds an item at the end of a list.
pub fn put<T: DeepView>(v: &mut Vec<T>, x: T)
    ensures
        final(v).deep_view() == old(v).deep_view().push(x.deep_view()),
        final(v)@ == old(v)@.push(x),
{
    let ghost before = v.deep_view();
    v.push(x);
    proof {
        assert(v.deep_view() =~= before.push(x.deep_view()));
    }
}

/// Adds items at the end of a list.
pub fn put_all<T: DeepView>(v: &mut Vec<T>, more: Vec<T>)
    ensures
        final(v).deep_view() == old(v).deep_view() + more.deep_view(),
        final(v)@ == old(v)@ + more@,
{
    let ghost before = v.deep_view();
    let mut more = more;
    let ghost extra = more.deep_view();
    v.append(&mut more);
    proof {
        assert(v.deep_view() =~= before + extra);
    }
}

/// The part of a list that a window shows: some items skipped, then at most
/// the window's height.
pub open spec fn window<T>(s: Seq<T>, skipped: nat, height: nat) -> Seq<T> {
    if skipped >= s.len() {
        Seq::empty()
    } else if s.len() - skipped <= height {
        s.skip(skipped as int)
    } else {
        s.subrange(skipped as int, skipped as int + height)
    }
}

/// Keeps the part of some lines that a window shows.
pub fn visible(lines: Vec<Line>, skipped: usize, height: usize) -> (r: Vec<Line>)
    ensures
        r.deep_view() == window(lines.deep_view(), skipped as nat, height as nat),
{
    let ghost all = lines.deep_view();
    let mut lines = lines;
    if skipped >= lines.len() {
        return nothing();
    }
    let mut tail: Vec<Line> = lines.split_off(skipped);
    let ghost after = tail.deep_view();
    proof {
        assert(after =~= all.skip(skipped as int));
    }
    tail.truncate(height);
    proof {
        if height < after.len() {
            assert(tail.deep_view() =~= after.take(height as int));
            assert(tail.deep_view() =~= all.subrange(skipped as int, skipped + height));
        }
    }
    tail
}

/// One number less another, or nothing.
pub open spec fn less(a: int, b: int) -> nat {
    if a > b {
        (a - b) as nat
    } else {
        0
    }
}

/// A framed pane: a title, the lines inside, and the style of the frame.
#[derive(Debug)]
pub struct Pane {
    pub title: String,
    pub lines: Vec<Line>,
    pub border: Style,
}

/// The model of a [`Pane`].
pub struct PaneModel {
    pub title: Seq<char>,
    pub lines: Seq<LineModel>,
    pub border: Style,
}

impl DeepView for Pane {
    type V = PaneModel;

    open spec fn deep_view(&self) -> PaneModel {
        PaneModel { title: self.title@, lines: self.lines.deep_view(), border: self.border }
    }
}

/// A framed pane whose title has a style of its own.
#[derive(Debug)]
pub struct TitledPane {
    pub title: Line,
    pub lines: Vec<Line>,
    pub border: Style,
}

/// The model of a [`TitledPane`].
pub struct TitledPaneModel {
    pub title: LineModel,
    pub lines: Seq<LineModel>,
    pub border: Style,
}

impl DeepView for TitledPane {
    type V = TitledPaneModel;

    open spec fn deep_view(&self) -> TitledPaneModel {
        TitledPaneModel {
            title: self.title.deep_view(),
            lines: self.lines.deep_view(),
            border: self.border,
        }
    }
}

/// The note of a window that does not show all lines: the first line shown, out
/// of the first lines that it can have.
pub open spec fn scroll_note(total: nat, offset: nat, height: nat) -> Seq<char> {
    if total > height {
        " ["@ + text::decimal(offset + 1) + "/"@ + text::decimal((total - height + 1) as nat) + "]"@
    } else {
        Seq::empty()
    }
}

/// Writes the note of a window that does not show all lines.
pub fn scroll_indicator(total: usize, offset: usize, height: usize) -> (r: String)
    ensures
        r@ == scroll_note(total as nat, offset as nat, height as nat),
{
    if total > height {
        text::cat5(
            " [",
            text::place(offset).as_str(),
            "/",
            text::place(total - height).as_str(),
            "]",
        )
    } else {
        String::new()
    }
}

/// The cells of a pane's height that its frame leaves for lines.
#[verifier::allow_in_spec]
pub fn inner_height(height: u16) -> usize
    returns
        (if height < 2 {
            0usize
        } else {
            (height - 2) as usize
        }),
{
    if height < 2 {
        0usize
    } else {
        (height - 2) as usize
    }
}

/// A rectangle of the terminal, in cells.
#[derive(Debug, Clone, Copy, PartialEq, Eq, Structural)]
pub struct Rect {
    pub x: u16,
    pub y: u16,
    pub width: u16,
    pub height: u16,
}

impl Rect {
    /// Whether a cell lies inside the rectangle.
    pub open spec fn covers(self, x: u16, y: u16) -> bool {
        self.x <= x < self.x + self.width && self.y <= y < self.y + self.height
    }

    /// Whether a cell lies inside the rectangle.
    pub fn contains(&self, x: u16, y: u16) -> (r: bool)
        ensures
            r == self.covers(x, y),
    {
        x >= self.x && x - self.x < self.width && y >= self.y && y - self.y < self.height
    }
}

/// What a window shows is the lines from where it is scrolled to, as many as fit
/// and as there are.
pub proof fn law_window_shows_from_there<T>(s: Seq<T>, skipped: nat, height: nat)
    ensures
        skipped + height <= s.len() ==> window(s, skipped, height).len() == height,
        skipped <= s.len() < skipped + height ==> window(s, skipped, height).len() == s.len()
            - skipped,
        skipped > s.len() ==> window(s, skipped, height).len() == 0,
        forall|i: int|
            0 <= i < window(s, skipped, height).len() ==> window(s, skipped, height)[i] == s[skipped
                + i],
{
}

} // verus!
