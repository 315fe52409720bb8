//! What is drawn on the screen.

use crate::client_impls::geometry::Rect;
use vstd::prelude::*;

verus! {

/// A color.
#[derive(Debug, Clone, Copy, PartialEq, Eq, Structural)]
pub enum Color {
    Black,
    White,
    Red,
    Cyan,
    Green,
    Gray,
    Magenta,
    LightRed,
    LightGreen,
    LightBlue,
    LightMagenta,
}

/// How something is drawn. What is left open stays as it is.
#[derive(Debug, Clone, Copy, PartialEq, Eq, Structural)]
pub struct Style {
    pub fg: Option<Color>,
    pub bg: Option<Color>,
}

/// A style that leaves everything as it is.
pub open spec fn plain() -> Style {
    Style { fg: None, bg: None }
}

/// A style that sets the color of the text.
pub open spec fn fg(color: Color) -> Style {
    Style { fg: Some(color), bg: None }
}

/// A style that sets the color behind the text.
pub open spec fn on(color: Color) -> Style {
    Style { fg: None, bg: Some(color) }
}

/// A style of black text on a color.
pub open spec fn black_on(color: Color) -> Style {
    Style { fg: Some(Color::Black), bg: Some(color) }
}

impl Style {
    /// A style that leaves everything as it is.
    pub fn new() -> (r: Style)
        ensures
            r == plain(),
    {
        Style { fg: None, bg: None }
    }

    /// A style that sets the color of the text.
    pub fn with_fg(color: Color) -> (r: Style)
        ensures
            r == fg(color),
    {
        Style { fg: Some(color), bg: None }
    }

    /// A style that sets the color behind the text.
    pub fn with_bg(color: Color) -> (r: Style)
        ensures
            r == on(color),
    {
        Style { fg: None, bg: Some(color) }
    }

    /// A style of black text on a color.
    pub fn black_with_bg(color: Color) -> (r: Style)
        ensures
            r == black_on(color),
    {
        Style { fg: Some(Color::Black), bg: Some(color) }
    }
}

/// A piece of text in one style.
#[derive(Debug)]
pub struct Span {
    pub text: String,
    pub style: Style,
}

/// A [`Span`] with its text as a sequence.
pub struct SpanView {
    pub text: Seq<char>,
    pub style: Style,
}

impl View for Span {
    type V = SpanView;

    open spec fn view(&self) -> SpanView {
        SpanView { text: self.text@, style: self.style }
    }
}

/// A line of text.
#[derive(Debug)]
pub struct Line {
    pub spans: Vec<Span>,
    pub style: Style,
}

/// A [`Line`] with its texts as sequences.
pub struct LineView {
    pub spans: Seq<SpanView>,
    pub style: Style,
}

impl View for Line {
    type V = LineView;

    open spec fn view(&self) -> LineView {
        LineView { spans: self.spans@.map_values(|s: Span| s@), style: self.style }
    }
}

/// What surrounds something.
#[derive(Debug)]
pub struct Block {
    pub bordered: bool,
    pub title: Option<String>,
    pub border_style: Style,
    pub style: Style,
}

/// A [`Block`] with its title as a sequence.
pub struct BlockView {
    pub bordered: bool,
    pub title: Option<Seq<char>>,
    pub border_style: Style,
    pub style: Style,
}

impl View for Block {
    type V = BlockView;

    open spec fn view(&self) -> BlockView {
        BlockView {
            bordered: self.bordered,
            title: match self.title {
                Some(s) => Some(s@),
                None => None,
            },
            border_style: self.border_style,
            style: self.style,
        }
    }
}

/// Text, and what surrounds it.
#[derive(Debug)]
pub struct Paragraph {
    pub lines: Vec<Line>,
    pub style: Style,
    pub centered: bool,
    pub wrapped: bool,
    pub block: Option<Block>,
}

/// A [`Paragraph`] with its texts as sequences.
pub struct ParagraphView {
    pub lines: Seq<LineView>,
    pub style: Style,
    pub centered: bool,
    pub wrapped: bool,
    pub block: Option<BlockView>,
}

impl View for Paragraph {
    type V = ParagraphView;

    open spec fn view(&self) -> ParagraphView {
        ParagraphView {
            lines: self.lines@.map_values(|l: Line| l@),
            style: self.style,
            centered: self.centered,
            wrapped: self.wrapped,
            block: match self.block {
                Some(b) => Some(b@),
                None => None,
            },
        }
    }
}

/// Something that is drawn on a part of the screen.
#[derive(Debug)]
pub enum Draw {
    Block(Rect, Block),
    Paragraph(Rect, Paragraph),
}

/// A [`Draw`] with its texts as sequences.
pub enum DrawView {
    Block(Rect, BlockView),
    Paragraph(Rect, ParagraphView),
}

impl View for Draw {
    type V = DrawView;

    open spec fn view(&self) -> DrawView {
        match *self {
            Draw::Block(area, b) => DrawView::Block(area, b@),
            Draw::Paragraph(area, p) => DrawView::Paragraph(area, p@),
        }
    }
}

/// What is drawn, in this order.
pub open spec fn draws(plan: Seq<Draw>) -> Seq<DrawView> {
    plan.map_values(|d: Draw| d@)
}

/// Draws one thing more.
pub fn put(plan: &mut Vec<Draw>, d: Draw)
    ensures
        draws(final(plan)@) == draws(old(plan)@).push(d@),
{
    plan.push(d);
    assert(draws(plan@) =~= draws(old(plan)@).push(d@));
}

/// Draws more things.
pub fn put_all(plan: &mut Vec<Draw>, more: Vec<Draw>)
    ensures
        draws(final(plan)@) == draws(old(plan)@) + draws(more@),
{
    let mut more = more;
    let ghost before = plan@;
    let ghost all = more@;
    plan.append(&mut more);
    assert(draws(plan@) =~= draws(before) + draws(all));
}

/// A border without a title.
pub open spec fn border() -> BlockView {
    BlockView { bordered: true, title: None, border_style: plain(), style: plain() }
}

/// No border, only a style.
pub open spec fn tint(style: Style) -> BlockView {
    BlockView { bordered: false, title: None, border_style: plain(), style }
}

/// A border with a title.
pub open spec fn titled(title: Seq<char>) -> BlockView {
    BlockView { title: Some(title), ..border() }
}

impl Block {
    /// A border without a title.
    pub fn bordered() -> (r: Block)
        ensures
            r@ == border(),
    {
        Block { bordered: true, title: None, border_style: Style::new(), style: Style::new() }
    }

    /// No border, only a style.
    pub fn tinted(style: Style) -> (r: Block)
        ensures
            r@ == tint(style),
    {
        Block { bordered: false, title: None, border_style: Style::new(), style }
    }

    /// A border with a title.
    pub fn with_title(title: &str) -> (r: Block)
        ensures
            r@ == titled(title@),
    {
        Block {
            bordered: true,
            title: Some(title.to_owned()),
            border_style: Style::new(),
            style: Style::new(),
        }
    }
}

/// A piece of text in one style.
pub open spec fn span(text: Seq<char>, style: Style) -> SpanView {
    SpanView { text, style }
}

/// A line of these pieces.
pub open spec fn line(spans: Seq<SpanView>) -> LineView {
    LineView { spans, style: plain() }
}

/// One line of plain text.
pub open spec fn raw(text: Seq<char>) -> LineView {
    line(seq![span(text, plain())])
}

/// Lines without anything else.
pub open spec fn paragraph(lines: Seq<LineView>) -> ParagraphView {
    ParagraphView { lines, style: plain(), centered: false, wrapped: false, block: None }
}

/// One line of plain text without anything else.
pub open spec fn label(text: Seq<char>) -> ParagraphView {
    paragraph(seq![raw(text)])
}

impl Span {
    /// A piece of text in one style.
    pub fn styled(text: &str, style: Style) -> (r: Span)
        ensures
            r@ == span(text@, style),
    {
        Span { text: text.to_owned(), style }
    }
}

impl Line {
    /// A line of these pieces.
    pub fn of(spans: Vec<Span>) -> (r: Line)
        ensures
            r@ == line(spans@.map_values(|s: Span| s@)),
    {
        Line { spans, style: Style::new() }
    }

    /// One line of plain text.
    pub fn raw(text: &str) -> (r: Line)
        ensures
            r@ == raw(text@),
    {
        let mut spans: Vec<Span> = Vec::new();
        spans.push(Span::styled(text, Style::new()));
        assert(spans@.map_values(|s: Span| s@) =~= seq![span(text@, plain())]);
        Line::of(spans)
    }
}

impl Paragraph {
    /// Lines without anything else.
    pub fn of(lines: Vec<Line>) -> (r: Paragraph)
        ensures
            r@ == paragraph(lines@.map_values(|l: Line| l@)),
    {
        Paragraph {
            lines,
            style: Style::new(),
            centered: false,
            wrapped: false,
            block: None,
        }
    }

    /// One line without anything else.
    pub fn of_line(l: Line) -> (r: Paragraph)
        ensures
            r@ == paragraph(seq![l@]),
    {
        let mut lines: Vec<Line> = Vec::new();
        lines.push(l);
        assert(lines@.map_values(|l: Line| l@) =~= seq![l@]);
        Paragraph::of(lines)
    }

    /// One line of plain text without anything else.
    pub fn new(text: &str) -> (r: Paragraph)
        ensures
            r@ == label(text@),
    {
        Paragraph::of_line(Line::raw(text))
    }

    /// The text in the middle.
    pub fn centered(self) -> (r: Paragraph)
        ensures
            r@ == (ParagraphView { centered: true, ..self@ }),
    {
        Paragraph { centered: true, ..self }
    }

    /// The text in several lines where it is too long for one.
    pub fn wrapped(self) -> (r: Paragraph)
        ensures
            r@ == (ParagraphView { wrapped: true, ..self@ }),
    {
        Paragraph { wrapped: true, ..self }
    }

    /// The text in this style.
    pub fn styled(self, style: Style) -> (r: Paragraph)
        ensures
            r@ == (ParagraphView { style, ..self@ }),
    {
        Paragraph { style, ..self }
    }

    /// The text surrounded by this.
    pub fn in_block(self, block: Block) -> (r: Paragraph)
        ensures
            r@ == (ParagraphView { block: Some(block@), ..self@ }),
    {
        Paragraph { block: Some(block), ..self }
    }
}

} // verus!
