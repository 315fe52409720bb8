//! What the screens show.

use crate::client_impls::consts::{ADVANCED, CANCEL, START};
use crate::client_impls::draw;
use crate::client_impls::draw::{
    put, put_all, Block, BlockView, Color, Draw, DrawView, Line, LineView, Paragraph,
    ParagraphView, Span, Style,
};
use crate::client_impls::geometry::{Position, Rect};
use crate::client_impls::layout;
use crate::client_impls::layout::{
    FailedLayout, LoadingLayout, LogRow, MenuLayout, PlayerRow, RunningLayout,
};
use crate::client_impls::tui_events;
use crate::client_impls::types;
use crate::client_impls::types::{
    Cursor, EditableTextBox, FailedState, FailedView, LoadingState, MainMenuBoundingBoxes,
    MainMenuPermanentState, MainMenuTemporaryState, PermView, RenderResult, RunningBoundingBoxes,
    RunningState, RunningView, SelectedBlock, ServerView, TempView, TuiApp, TuiAppState,
};
use crate::net::SocketAddr;
use crate::search;
use crate::text::concat3;
use vstd::prelude::*;
use vstd::utf8;

verus! {

/// The help of most screens.
pub const HELP: &'static str =
    "Next: Tab, Previous: Shift+Tab, Exit: q, Select: Enter; (Can use mouse too!)";

/// The help of the screen of a shared server.
pub const RUNNING_HELP: &'static str =
    "Main Menu: q, Exit: Ctrl+C; (Some controls currently only available through mouse)";

/// The cell that the mouse points at.
pub open spec fn mouse_at(mouse: (u16, u16)) -> Position {
    Position { x: mouse.0, y: mouse.1 }
}

/// What stands under a cursor: the character that starts at this byte, where it
/// is one of a single byte, and else a space.
pub open spec fn under_cursor(content: Seq<char>, pos: usize) -> Seq<char> {
    let bytes = utf8::encode_utf8(content);
    if pos < bytes.len() && bytes[pos as int] < 0x80 {
        seq![bytes[pos as int] as char]
    } else {
        " "@
    }
}

fn cursor_text(content: &str, pos: usize) -> (r: String)
    ensures
        r@ == under_cursor(content@, pos),
{
    let bytes = content.as_bytes();
    if pos < bytes.len() && bytes[pos] < 0x80 {
        let mut s = String::new();
        s.push(bytes[pos] as char);
        assert(s@ =~= under_cursor(content@, pos));
        s
    } else {
        " ".to_owned()
    }
}

/// Whether the cell of a cursor can be counted, where one is drawn.
pub open spec fn cursor_fits(selected: bool, cursor: Cursor, rect: Rect) -> bool {
    selected ==> match cursor {
        Cursor::Position(pos) => pos < usize::MAX && rect.within().x + pos as u16 <= u16::MAX,
        Cursor::All => true,
    }
}

/// Whether the cell of a cursor can be counted, where one is drawn.
pub fn is_cursor_fitting(selected: bool, cursor: Cursor, rect: Rect) -> (r: bool)
    ensures
        r == cursor_fits(selected, cursor, rect),
{
    if !selected {
        return true;
    }
    match cursor {
        Cursor::Position(pos) => pos < usize::MAX && pos as u16 <= u16::MAX - rect.inner().x,
        Cursor::All => true,
    }
}

/// How a box with text that can be edited is drawn.
pub open spec fn text_box(
    title: Seq<char>,
    content: Seq<char>,
    selected: bool,
    cursor: Cursor,
    mouse: Position,
    rect: Rect,
) -> Seq<DrawView> {
    let inner = rect.within();
    let border_style = if selected {
        draw::fg(Color::LightGreen)
    } else if rect.has(mouse) {
        draw::fg(Color::LightMagenta)
    } else {
        draw::plain()
    };
    let base = seq![
        DrawView::Block(rect, BlockView { border_style, ..draw::titled(title) }),
        DrawView::Paragraph(inner, draw::label(content)),
    ];
    let style = draw::black_on(Color::Green);
    if !selected {
        base
    } else {
        match cursor {
            Cursor::Position(pos) => base.push(
                DrawView::Paragraph(
                    Rect::sized((inner.x + pos as u16) as u16, inner.y, 1, 1),
                    ParagraphView { style, ..draw::label(under_cursor(content, pos)) },
                ),
            ),
            Cursor::All => base.push(
                DrawView::Paragraph(
                    Rect::sized(
                        inner.x,
                        inner.y,
                        utf8::encode_utf8(content).len() as u16,
                        1,
                    ),
                    ParagraphView { style, ..draw::label(content) },
                ),
            ),
        }
    }
}

impl<'a> EditableTextBox<'a> {
    /// Draws the box.
    pub fn render(self) -> (r: Vec<Draw>)
        requires
            cursor_fits(self.selected, self.cursor, self.rect),
        ensures
            draw::draws(r@) == text_box(
                self.title@,
                self.content@,
                self.selected,
                self.cursor,
                self.mouse_position,
                self.rect,
            ),
    {
        let inner = self.rect.inner();
        let border_style = if self.selected {
            Style::with_fg(Color::LightGreen)
        } else if self.rect.contains(self.mouse_position) {
            Style::with_fg(Color::LightMagenta)
        } else {
            Style::new()
        };
        let mut plan: Vec<Draw> = Vec::new();
        assert(draw::draws(plan@) =~= Seq::<DrawView>::empty());
        let block = Block { border_style, ..Block::with_title(self.title) };
        put(&mut plan, Draw::Block(self.rect, block));
        put(&mut plan, Draw::Paragraph(inner, Paragraph::new(self.content)));
        if self.selected {
            let style = Style::black_with_bg(Color::Green);
            match self.cursor {
                Cursor::Position(pos) => {
                    let under = cursor_text(self.content, pos);
                    let area = Rect::new(inner.x + pos as u16, inner.y, 1, 1);
                    put(
                        &mut plan,
                        Draw::Paragraph(area, Paragraph::new(under.as_str()).styled(style)),
                    );
                },
                Cursor::All => {
                    let len: usize = self.content.as_bytes().len();
                    let area = Rect::new(inner.x, inner.y, len as u16, 1);
                    put(
                        &mut plan,
                        Draw::Paragraph(area, Paragraph::new(self.content).styled(style)),
                    );
                },
            }
        }
        assert(draw::draws(plan@) =~= text_box(
            self.title@,
            self.content@,
            self.selected,
            self.cursor,
            self.mouse_position,
            self.rect,
        ));
        plan
    }
}

/// The style of a button of the menu.
pub open spec fn button_style(active: bool) -> Style {
    if active {
        draw::black_on(Color::LightGreen)
    } else {
        draw::black_on(Color::LightBlue)
    }
}

fn style_of_button(active: bool) -> (r: Style)
    ensures
        r == button_style(active),
{
    if active {
        Style::black_with_bg(Color::LightGreen)
    } else {
        Style::black_with_bg(Color::LightBlue)
    }
}

/// The box of a text of the menu.
pub open spec fn menu_box(
    title: Seq<char>,
    perm: PermView,
    block: SelectedBlock,
    temp: TempView,
    mouse: Position,
    rect: Rect,
) -> Seq<DrawView> {
    text_box(
        title,
        perm.field(block).unwrap(),
        temp.selected == block,
        temp.cursor,
        mouse,
        rect,
    )
}

/// How a server that was found is drawn.
pub open spec fn server_draw(info: ServerView, chosen: bool, mouse: Position, rect: Rect) -> DrawView {
    let first = seq![
        draw::span("Lan Server"@, draw::fg(Color::LightBlue)),
        draw::span(" - "@, draw::plain()),
        draw::span(info.ip, draw::fg(Color::LightGreen)),
    ];
    let spans = if chosen {
        first.push(draw::span(" - Set as server IP!"@, draw::fg(Color::LightMagenta)))
    } else {
        first
    };
    let style = if rect.has(mouse) {
        draw::fg(Color::LightMagenta)
    } else {
        draw::plain()
    };
    DrawView::Paragraph(
        rect,
        ParagraphView {
            block: Some(BlockView { style, ..draw::border() }),
            ..draw::paragraph(
                seq![
                    draw::line(spans),
                    LineView {
                        spans: seq![draw::span(info.motd, draw::plain())],
                        style: draw::fg(Color::White),
                    },
                ],
            )
        },
    )
}

/// How the servers that were found are drawn.
pub open spec fn server_draws(temp: TempView, mouse: Position, rects: Seq<Rect>) -> Seq<DrawView> {
    Seq::new(
        rects.len(),
        |i: int|
            server_draw(
                temp.servers[i],
                temp.last_selected_server == Some(i as usize),
                mouse,
                rects[i],
            ),
    )
}

/// How the settings of the proxy are drawn.
pub open spec fn proxy_draws(
    perm: PermView,
    temp: TempView,
    mouse: Position,
    l: MenuLayout,
) -> Seq<DrawView> {
    match l.proxy {
        Some(b) => menu_box(
            " Proxy server IP "@,
            perm,
            SelectedBlock::ProxyIp,
            temp,
            mouse,
            b.proxy_ip,
        ) + menu_box(
            " Proxy server PLAY port "@,
            perm,
            SelectedBlock::PlayPort,
            temp,
            mouse,
            b.play_port,
        ) + menu_box(
            " Proxy server INIT port "@,
            perm,
            SelectedBlock::InitPort,
            temp,
            mouse,
            b.init_port,
        ),
        None => Seq::empty(),
    }
}

/// How what stands in the way of starting is drawn.
pub open spec fn error_draws(temp: TempView, l: MenuLayout) -> Seq<DrawView> {
    let area = if l.proxy is None {
        l.advanced_text.spanned(l.error_rem)
    } else {
        l.error_rem
    };
    if temp.errors.len() == 0 {
        Seq::empty()
    } else {
        seq![
            DrawView::Paragraph(
                area,
                ParagraphView {
                    style: draw::fg(Color::Red),
                    ..draw::paragraph(temp.errors.map_values(|e: Seq<char>| draw::raw(e)))
                },
            ),
        ]
    }
}

/// How the frame of the menu and its buttons are drawn.
pub open spec fn button_draws(temp: TempView, mouse: Position, l: MenuLayout) -> Seq<DrawView> {
    let advanced = temp.selected == SelectedBlock::AdvancedButton || l.advanced.has(mouse);
    let start = temp.selected == SelectedBlock::StartButton || l.start.has(mouse);
    seq![
        DrawView::Paragraph(
            l.advanced,
            ParagraphView {
                block: Some(draw::tint(button_style(advanced))),
                ..draw::label(ADVANCED@)
            },
        ),
        DrawView::Block(l.start, draw::tint(button_style(start))),
        DrawView::Paragraph(
            l.start_inner,
            ParagraphView {
                centered: true,
                block: Some(draw::tint(draw::fg(Color::Black))),
                ..draw::label(START@)
            },
        ),
        DrawView::Paragraph(
            l.loading,
            ParagraphView { centered: true, ..draw::label("Loading LAN servers..."@) },
        ),
    ]
}

/// How the menu is drawn.
pub open spec fn menu_draws(
    perm: PermView,
    temp: TempView,
    mouse: (u16, u16),
    l: MenuLayout,
) -> Seq<DrawView> {
    let pos = mouse_at(mouse);
    seq![
        DrawView::Paragraph(l.help, draw::label(HELP@)),
        DrawView::Block(l.left, draw::border()),
        DrawView::Block(l.right, draw::border()),
    ] + menu_box(
        " Minecraft Server IP "@,
        perm,
        SelectedBlock::ServerIp,
        temp,
        pos,
        l.server_ip,
    ) + menu_box(
        " Requested Domain (Optional) (Ex: test.mineshare.dev)"@,
        perm,
        SelectedBlock::RequestedDomain,
        temp,
        pos,
        l.request_domain,
    ) + button_draws(temp, pos, l) + server_draws(temp, pos, l.servers@) + proxy_draws(
        perm,
        temp,
        pos,
        l,
    ) + error_draws(temp, l)
}

/// Where the menu reacts to the mouse.
pub open spec fn menu_boxes(l: MenuLayout, boxes: MainMenuBoundingBoxes) -> bool {
    &&& boxes.ip_rect == l.server_ip
    &&& boxes.domain_rect == l.request_domain
    &&& boxes.advanced_rect == l.advanced
    &&& boxes.start_rect == l.start
    &&& boxes.advanced_rects == l.proxy
    &&& boxes.server_rects@ == l.servers@
}

/// Where the text of a part of the menu is drawn, if it is.
pub open spec fn field_rect(l: MenuLayout, block: SelectedBlock) -> Option<Rect> {
    match block {
        SelectedBlock::ServerIp => Some(l.server_ip),
        SelectedBlock::RequestedDomain => Some(l.request_domain),
        SelectedBlock::ProxyIp => match l.proxy {
            Some(b) => Some(b.proxy_ip),
            None => None,
        },
        SelectedBlock::PlayPort => match l.proxy {
            Some(b) => Some(b.play_port),
            None => None,
        },
        SelectedBlock::InitPort => match l.proxy {
            Some(b) => Some(b.init_port),
            None => None,
        },
        _ => None,
    }
}

/// Whether the cell of the cursor can be counted, if one is drawn.
pub open spec fn menu_cursor_fits(l: MenuLayout, temp: TempView) -> bool {
    field_rect(l, temp.selected) matches Some(rect) ==> cursor_fits(true, temp.cursor, rect)
}

/// Whether the cell of the cursor lies beyond what numbers of sixteen bits reach,
/// as seen from the right border of the screen.
pub open spec fn is_cursor_beyond(temp: TempView, advanced: bool, area: Rect) -> bool {
    &&& match temp.selected {
        SelectedBlock::ServerIp | SelectedBlock::RequestedDomain => true,
        SelectedBlock::ProxyIp | SelectedBlock::PlayPort | SelectedBlock::InitPort => advanced,
        _ => false,
    }
    &&& temp.cursor matches Cursor::Position(pos) && (pos == usize::MAX || area.right()
        + pos as u16 > u16::MAX)
}

/// The texts of the menu are drawn on the screen, so a cursor that cannot be
/// counted lies far right of it.
proof fn lemma_cursor_beyond(
    l: MenuLayout,
    temp: TempView,
    area: Rect,
    advanced: bool,
    servers: nat,
)
    requires
        l.fits(area, advanced, servers),
        !menu_cursor_fits(l, temp),
    ensures
        is_cursor_beyond(temp, advanced, area),
{
    let columns = seq![l.left, l.right];
    let fields = seq![
        l.server_ip,
        l.request_domain,
        l.advanced_row,
        l.advanced_text,
        l.error_rem,
        l.start,
    ];
    let body = seq![l.body, l.help];
    assert(layout::is_piece(area, layout::Direction::Vertical, body[0]));
    assert(layout::is_piece(l.body, layout::Direction::Horizontal, columns[0]));
    let left = l.left.within();
    assert(layout::is_piece(left, layout::Direction::Vertical, fields[0]));
    assert(layout::is_piece(left, layout::Direction::Vertical, fields[1]));
    assert(layout::is_piece(left, layout::Direction::Vertical, fields[3]));
    if let Some(b) = l.proxy {
        let boxes = seq![b.proxy_ip, b.play_port, b.init_port];
        assert(layout::is_piece(l.advanced_text, layout::Direction::Vertical, boxes[0]));
        assert(layout::is_piece(l.advanced_text, layout::Direction::Vertical, boxes[1]));
        assert(layout::is_piece(l.advanced_text, layout::Direction::Vertical, boxes[2]));
    }
}

fn is_menu_cursor_fitting(l: &MenuLayout, temp: &MainMenuTemporaryState) -> (r: bool)
    ensures
        r == menu_cursor_fits(*l, temp@),
{
    let rect = match temp.selected {
        SelectedBlock::ServerIp => l.server_ip,
        SelectedBlock::RequestedDomain => l.request_domain,
        SelectedBlock::ProxyIp => match &l.proxy {
            Some(b) => b.proxy_ip,
            None => return true,
        },
        SelectedBlock::PlayPort => match &l.proxy {
            Some(b) => b.play_port,
            None => return true,
        },
        SelectedBlock::InitPort => match &l.proxy {
            Some(b) => b.init_port,
            None => return true,
        },
        _ => return true,
    };
    is_cursor_fitting(true, temp.cursor, rect)
}

/// Draws a server that was found.
fn draw_server(info: &types::ServerInfo, chosen: bool, mouse: Position, rect: Rect) -> (r: Draw)
    ensures
        r@ == server_draw(info@, chosen, mouse, rect),
{
    let mut spans: Vec<Span> = Vec::new();
    spans.push(Span::styled("Lan Server", Style::with_fg(Color::LightBlue)));
    spans.push(Span::styled(" - ", Style::new()));
    spans.push(Span::styled(info.ip.as_str(), Style::with_fg(Color::LightGreen)));
    if chosen {
        spans.push(Span::styled(" - Set as server IP!", Style::with_fg(Color::LightMagenta)));
    }
    let ghost first = seq![
        draw::span("Lan Server"@, draw::fg(Color::LightBlue)),
        draw::span(" - "@, draw::plain()),
        draw::span(info.ip@, draw::fg(Color::LightGreen)),
    ];
    assert(spans@.map_values(|s: Span| s@) =~= if chosen {
        first.push(draw::span(" - Set as server IP!"@, draw::fg(Color::LightMagenta)))
    } else {
        first
    });
    let line1 = Line::of(spans);
    let line2 = Line { style: Style::with_fg(Color::White), ..Line::raw(info.motd.as_str()) };
    let style = if rect.contains(mouse) {
        Style::with_fg(Color::LightMagenta)
    } else {
        Style::new()
    };
    let ghost both = seq![line1@, line2@];
    let mut lines: Vec<Line> = Vec::new();
    lines.push(line1);
    lines.push(line2);
    assert(lines@.map_values(|l: Line| l@) =~= both);
    let block = Block { style, ..Block::bordered() };
    Draw::Paragraph(rect, Paragraph::of(lines).in_block(block))
}

/// Draws the servers that were found.
fn draw_servers(temp: &MainMenuTemporaryState, mouse: Position, rects: &Vec<Rect>) -> (r: Vec<Draw>)
    requires
        rects@.len() == temp.servers@.len(),
    ensures
        draw::draws(r@) == server_draws(temp@, mouse, rects@),
{
    let ghost want = server_draws(temp@, mouse, rects@);
    let mut plan: Vec<Draw> = Vec::new();
    let mut i: usize = 0;
    assert(draw::draws(plan@) =~= want.take(0));
    while i < rects.len()
        invariant
            i <= rects@.len(),
            rects@.len() == temp.servers@.len(),
            want == server_draws(temp@, mouse, rects@),
            draw::draws(plan@) == want.take(i as int),
        decreases rects@.len() - i,
    {
        let chosen = match temp.last_selected_server {
            Some(k) => k == i,
            None => false,
        };
        assert(temp@.servers[i as int] == temp.servers@[i as int]@);
        put(&mut plan, draw_server(&temp.servers[i], chosen, mouse, rects[i]));
        i = i + 1;
        assert(want.take(i as int) =~= want.take(i - 1).push(want[i - 1]));
    }
    assert(want.take(i as int) =~= want);
    plan
}

/// Draws what stands in the way of starting.
fn draw_errors(temp: &MainMenuTemporaryState, l: &MenuLayout) -> (r: Vec<Draw>)
    ensures
        draw::draws(r@) == error_draws(temp@, *l),
{
    let mut plan: Vec<Draw> = Vec::new();
    if temp.errors.len() == 0 {
        assert(draw::draws(plan@) =~= error_draws(temp@, *l));
        return plan;
    }
    let area = if l.proxy.is_none() {
        l.advanced_text.union(l.error_rem)
    } else {
        l.error_rem
    };
    let ghost want = temp@.errors.map_values(|e: Seq<char>| draw::raw(e));
    let mut lines: Vec<Line> = Vec::new();
    let mut i: usize = 0;
    assert(lines@.map_values(|l: Line| l@) =~= want.take(0));
    while i < temp.errors.len()
        invariant
            i <= temp.errors@.len(),
            want == temp@.errors.map_values(|e: Seq<char>| draw::raw(e)),
            lines@.map_values(|l: Line| l@) == want.take(i as int),
        decreases temp.errors@.len() - i,
    {
        let ghost before = lines@.map_values(|l: Line| l@);
        let added = Line::raw(temp.errors[i].as_str());
        assert(temp@.errors[i as int] == temp.errors@[i as int]@);
        lines.push(added);
        assert(lines@.map_values(|l: Line| l@) =~= before.push(added@));
        i = i + 1;
        assert(want.take(i as int) =~= want.take(i - 1).push(want[i - 1]));
    }
    assert(want.take(i as int) =~= want);
    put(
        &mut plan,
        Draw::Paragraph(area, Paragraph::of(lines).styled(Style::with_fg(Color::Red))),
    );
    assert(draw::draws(plan@) =~= error_draws(temp@, *l));
    plan
}

impl MainMenuTemporaryState {
    /// Draws the frame of the menu and its buttons.
    fn draw_buttons(&self, mouse: Position, l: &MenuLayout) -> (r: Vec<Draw>)
        ensures
            draw::draws(r@) == button_draws(self@, mouse, *l),
    {
        let mut plan: Vec<Draw> = Vec::new();
        assert(draw::draws(plan@) =~= Seq::<DrawView>::empty());
        let advanced = self.selected == SelectedBlock::AdvancedButton || l.advanced.contains(mouse);
        let start = self.selected == SelectedBlock::StartButton || l.start.contains(mouse);
        put(
            &mut plan,
            Draw::Paragraph(
                l.advanced,
                Paragraph::new(ADVANCED).in_block(Block::tinted(style_of_button(advanced))),
            ),
        );
        put(&mut plan, Draw::Block(l.start, Block::tinted(style_of_button(start))));
        put(
            &mut plan,
            Draw::Paragraph(
                l.start_inner,
                Paragraph::new(START).centered().in_block(
                    Block::tinted(Style::with_fg(Color::Black)),
                ),
            ),
        );
        put(
            &mut plan,
            Draw::Paragraph(l.loading, Paragraph::new("Loading LAN servers...").centered()),
        );
        assert(draw::draws(plan@) =~= button_draws(self@, mouse, *l));
        plan
    }

    /// Draws the box of a text of the menu.
    fn draw_box(
        &self,
        title: &str,
        content: &str,
        block: SelectedBlock,
        mouse: Position,
        rect: Rect,
    ) -> (r: Vec<Draw>)
        requires
            cursor_fits(self.selected == block, self.cursor, rect),
        ensures
            draw::draws(r@) == text_box(
                title@,
                content@,
                self.selected == block,
                self.cursor,
                mouse,
                rect,
            ),
    {
        EditableTextBox {
            title,
            content,
            selected: self.selected == block,
            cursor: self.cursor,
            mouse_position: mouse,
            rect,
            suffix: None,
        }.render()
    }

    /// Draws the settings of the proxy.
    fn draw_proxy(&self, perm: &MainMenuPermanentState, mouse: Position, l: &MenuLayout) -> (r: Vec<
        Draw,
    >)
        requires
            menu_cursor_fits(*l, self@),
        ensures
            draw::draws(r@) == proxy_draws(perm@, self@, mouse, *l),
    {
        let mut plan: Vec<Draw> = Vec::new();
        assert(draw::draws(plan@) =~= Seq::<DrawView>::empty());
        if let Some(b) = &l.proxy {
            put_all(
                &mut plan,
                self.draw_box(
                    " Proxy server IP ",
                    perm.proxy_server.as_str(),
                    SelectedBlock::ProxyIp,
                    mouse,
                    b.proxy_ip,
                ),
            );
            put_all(
                &mut plan,
                self.draw_box(
                    " Proxy server PLAY port ",
                    perm.proxy_server_play_port.as_str(),
                    SelectedBlock::PlayPort,
                    mouse,
                    b.play_port,
                ),
            );
            put_all(
                &mut plan,
                self.draw_box(
                    " Proxy server INIT port ",
                    perm.proxy_server_init_port.as_str(),
                    SelectedBlock::InitPort,
                    mouse,
                    b.init_port,
                ),
            );
        }
        assert(draw::draws(plan@) =~= proxy_draws(perm@, self@, mouse, *l));
        plan
    }

    /// Draws the menu on a screen that was divided. Beside it stands where it
    /// reacts to the mouse.
    pub fn plan(&self, perm: &MainMenuPermanentState, mouse: (u16, u16), l: MenuLayout) -> (r: (
        Vec<Draw>,
        MainMenuBoundingBoxes,
    ))
        requires
            l.servers@.len() == self.servers@.len(),
            menu_cursor_fits(l, self@),
        ensures
            draw::draws(r.0@) == menu_draws(perm@, self@, mouse, l),
            menu_boxes(l, r.1),
    {
        let pos = Position { x: mouse.0, y: mouse.1 };
        let mut plan: Vec<Draw> = Vec::new();
        assert(draw::draws(plan@) =~= Seq::<DrawView>::empty());
        put(&mut plan, Draw::Paragraph(l.help, Paragraph::new(HELP)));
        put(&mut plan, Draw::Block(l.left, Block::bordered()));
        put(&mut plan, Draw::Block(l.right, Block::bordered()));
        put_all(
            &mut plan,
            self.draw_box(
                " Minecraft Server IP ",
                perm.server_ip.as_str(),
                SelectedBlock::ServerIp,
                pos,
                l.server_ip,
            ),
        );
        put_all(
            &mut plan,
            self.draw_box(
                " Requested Domain (Optional) (Ex: test.mineshare.dev)",
                perm.request_domain.as_str(),
                SelectedBlock::RequestedDomain,
                pos,
                l.request_domain,
            ),
        );
        put_all(&mut plan, self.draw_buttons(pos, &l));
        put_all(&mut plan, draw_servers(self, pos, &l.servers));
        put_all(&mut plan, self.draw_proxy(perm, pos, &l));
        put_all(&mut plan, draw_errors(self, &l));
        assert(draw::draws(plan@) =~= menu_draws(perm@, self@, mouse, l));
        let boxes = MainMenuBoundingBoxes {
            ip_rect: l.server_ip,
            domain_rect: l.request_domain,
            advanced_rect: l.advanced,
            advanced_rects: l.proxy,
            start_rect: l.start,
            server_rects: l.servers,
        };
        (plan, boxes)
    }

    /// Draws the menu on a screen of this size, unless the cell of the cursor
    /// cannot be counted. Beside it stands where it reacts to the mouse.
    pub fn render(&self, perm: &MainMenuPermanentState, area: Rect, mouse: (u16, u16)) -> (r: Option<
        (Vec<Draw>, MainMenuBoundingBoxes),
    >)
        ensures
            match r {
                Some((plan, boxes)) => exists|l: MenuLayout|
                    {
                        &&& #[trigger] l.fits(area, perm@.advanced, self.servers@.len())
                        &&& menu_cursor_fits(l, self@)
                        &&& draw::draws(plan@) == menu_draws(perm@, self@, mouse, l)
                        &&& menu_boxes(l, boxes)
                        &&& boxes.server_rects@.len() == self.servers@.len()
                        &&& boxes.advanced_rects is Some <==> perm@.advanced
                    },
                None => is_cursor_beyond(self@, perm@.advanced, area) && exists|l: MenuLayout|
                    #[trigger] l.fits(area, perm@.advanced, self.servers@.len())
                        && !menu_cursor_fits(l, self@),
            },
    {
        let l = MenuLayout::new(area, perm.advanced, self.servers.len());
        assert(l.fits(area, perm@.advanced, self.servers@.len()));
        assert(l.servers@.len() == self.servers@.len()) by {
            assert(l.servers@.push(l.loading_row).len() == self.servers@.len() + 1);
        }
        if !is_menu_cursor_fitting(&l, self) {
            proof {
                lemma_cursor_beyond(l, self@, area, perm@.advanced, self.servers@.len());
            }
            return None;
        }
        Some(self.plan(perm, mouse, l))
    }
}

/// How the screen is drawn while the proxy is being connected to.
pub open spec fn loading_draws(
    s: LoadingState,
    mouse: (u16, u16),
    l: LoadingLayout,
) -> Seq<DrawView> {
    let style = if l.cancel.has(mouse_at(mouse)) || s.cancel_selected {
        draw::on(Color::Magenta)
    } else {
        draw::on(Color::LightRed)
    };
    seq![
        DrawView::Paragraph(l.help, draw::label(HELP@)),
        DrawView::Paragraph(
            l.loading,
            ParagraphView {
                centered: true,
                block: Some(draw::border()),
                ..draw::label(" Loading..."@)
            },
        ),
        DrawView::Paragraph(
            l.cancel,
            ParagraphView { centered: true, style, ..draw::label("Cancel"@) },
        ),
    ]
}

impl LoadingState {
    /// Draws the screen when it was divided.
    pub fn plan(&self, mouse: (u16, u16), l: LoadingLayout) -> (r: Vec<Draw>)
        ensures
            draw::draws(r@) == loading_draws(*self, mouse, l),
    {
        let pos = Position { x: mouse.0, y: mouse.1 };
        let mut plan: Vec<Draw> = Vec::new();
        assert(draw::draws(plan@) =~= Seq::<DrawView>::empty());
        put(&mut plan, Draw::Paragraph(l.help, Paragraph::new(HELP)));
        put(
            &mut plan,
            Draw::Paragraph(
                l.loading,
                Paragraph::new(" Loading...").centered().in_block(Block::bordered()),
            ),
        );
        let style = if l.cancel.contains(pos) || self.cancel_selected {
            Style::with_bg(Color::Magenta)
        } else {
            Style::with_bg(Color::LightRed)
        };
        put(
            &mut plan,
            Draw::Paragraph(l.cancel, Paragraph::new("Cancel").centered().styled(style)),
        );
        assert(draw::draws(plan@) =~= loading_draws(*self, mouse, l));
        plan
    }

    /// Draws the screen. Beside it stands where the button is.
    pub fn render(&self, area: Rect, mouse: (u16, u16)) -> (r: (Vec<Draw>, Rect))
        ensures
            exists|l: LoadingLayout|
                {
                    &&& #[trigger] l.fits(area)
                    &&& draw::draws(r.0@) == loading_draws(*self, mouse, l)
                    &&& r.1 == l.cancel
                },
    {
        let l = LoadingLayout::new(area);
        (self.plan(mouse, l), l.cancel)
    }
}

/// What is said of when it is tried again. The seconds are given as text.
pub open spec fn retry_text(retry_in: Seq<char>) -> Seq<char> {
    "Retrying in: "@ + retry_in + "s"@
}

/// How the buttons are drawn after a failure.
pub open spec fn failed_buttons(mouse: (u16, u16), l: FailedLayout) -> Seq<DrawView> {
    let pos = mouse_at(mouse);
    let cancel = seq![
        DrawView::Paragraph(
            l.cancel,
            ParagraphView {
                centered: true,
                style: if l.cancel.has(pos) {
                    draw::black_on(Color::Magenta)
                } else {
                    draw::black_on(Color::LightRed)
                },
                ..draw::label(CANCEL@)
            },
        ),
    ];
    match l.retry {
        Some(retry) => cancel.push(
            DrawView::Paragraph(
                retry,
                ParagraphView {
                    centered: true,
                    style: if retry.has(pos) {
                        draw::black_on(Color::Green)
                    } else {
                        draw::black_on(Color::Gray)
                    },
                    ..draw::label(" Retry now"@)
                },
            ),
        ),
        None => cancel,
    }
}

/// How the screen is drawn after a failure.
pub open spec fn failed_draws(
    s: FailedView,
    retry_in: Seq<char>,
    mouse: (u16, u16),
    l: FailedLayout,
) -> Seq<DrawView> {
    let help = seq![DrawView::Paragraph(l.help, draw::label(HELP@))];
    let retry = if s.permanent {
        Seq::empty()
    } else {
        seq![
            DrawView::Paragraph(
                l.retry_in,
                ParagraphView {
                    centered: true,
                    block: Some(draw::border()),
                    ..draw::label(retry_text(retry_in))
                },
            ),
        ]
    };
    let msg = seq![
        DrawView::Paragraph(
            l.msg,
            ParagraphView {
                centered: true,
                wrapped: true,
                block: Some(draw::titled(" Error "@)),
                ..draw::label(s.msg)
            },
        ),
    ];
    help + retry + msg + failed_buttons(mouse, l)
}

impl FailedState {
    /// Draws the screen when it was divided.
    pub fn plan(&self, retry_in: &str, mouse: (u16, u16), l: FailedLayout) -> (r: Vec<Draw>)
        ensures
            draw::draws(r@) == failed_draws(self@, retry_in@, mouse, l),
    {
        let pos = Position { x: mouse.0, y: mouse.1 };
        let mut plan: Vec<Draw> = Vec::new();
        assert(draw::draws(plan@) =~= Seq::<DrawView>::empty());
        put(&mut plan, Draw::Paragraph(l.help, Paragraph::new(HELP)));
        if !self.permanent {
            let text = concat3("Retrying in: ", retry_in, "s");
            put(
                &mut plan,
                Draw::Paragraph(
                    l.retry_in,
                    Paragraph::new(text.as_str()).in_block(Block::bordered()).centered(),
                ),
            );
        }
        put(
            &mut plan,
            Draw::Paragraph(
                l.msg,
                Paragraph::new(self.msg.as_str()).centered().in_block(
                    Block::with_title(" Error "),
                ).wrapped(),
            ),
        );
        let cancel_style = if l.cancel.contains(pos) {
            Style::black_with_bg(Color::Magenta)
        } else {
            Style::black_with_bg(Color::LightRed)
        };
        put(
            &mut plan,
            Draw::Paragraph(l.cancel, Paragraph::new(CANCEL).centered().styled(cancel_style)),
        );
        if let Some(retry) = l.retry {
            let style = if retry.contains(pos) {
                Style::black_with_bg(Color::Green)
            } else {
                Style::black_with_bg(Color::Gray)
            };
            put(
                &mut plan,
                Draw::Paragraph(retry, Paragraph::new(" Retry now").centered().styled(style)),
            );
        }
        assert(draw::draws(plan@) =~= failed_draws(self@, retry_in@, mouse, l));
        plan
    }

    /// Draws the screen. Beside it stands where the buttons are.
    pub fn render(&self, retry_in: &str, area: Rect, mouse: (u16, u16)) -> (r: (
        Vec<Draw>,
        Rect,
        Option<Rect>,
    ))
        ensures
            exists|l: FailedLayout|
                {
                    &&& #[trigger] l.fits(area, self.permanent)
                    &&& draw::draws(r.0@) == failed_draws(self@, retry_in@, mouse, l)
                    &&& r.1 == l.cancel
                    &&& r.2 == l.retry
                },
    {
        let l = FailedLayout::new(area, self.permanent);
        (self.plan(retry_in, mouse, l), l.cancel, l.retry)
    }
}

/// The button that cuts a player off.
pub const DISCONNECT: &'static str = " Disconnect ";

/// What stands in the column for the name of a player.
pub const PLAYER_NAME: &'static str = "TEST";

/// How the address of the server is drawn.
pub open spec fn ip_draw(s: RunningView, mouse: Position, l: RunningLayout) -> DrawView {
    let style = if l.ip.has(mouse) {
        draw::fg(Color::LightGreen)
    } else {
        draw::fg(Color::Cyan)
    };
    let ip = draw::span(s.ip, draw::plain());
    let spans = if s.copied {
        seq![ip, draw::span(" - Copied "@, draw::fg(Color::Cyan))]
    } else {
        seq![ip]
    };
    DrawView::Paragraph(
        l.ip,
        ParagraphView {
            block: Some(BlockView { style, ..draw::titled(" Server IP "@) }),
            ..draw::paragraph(seq![draw::line(spans)])
        },
    )
}

/// How a row with a player is drawn.
pub open spec fn player_draw(
    addr: SocketAddr,
    mouse: Position,
    row: PlayerRow,
) -> Seq<DrawView> {
    let style = if row.disconnect.has(mouse) {
        draw::on(Color::Magenta)
    } else {
        draw::on(Color::LightRed)
    };
    seq![
        DrawView::Paragraph(row.name, draw::label(PLAYER_NAME@)),
        DrawView::Paragraph(row.addr, draw::label(addr.text())),
        DrawView::Paragraph(
            row.disconnect,
            ParagraphView { style, ..draw::label(DISCONNECT@) },
        ),
    ]
}

/// How the first `n` rows with players are drawn.
pub open spec fn player_draws(
    s: RunningView,
    mouse: Position,
    rows: Seq<PlayerRow>,
    n: nat,
) -> Seq<DrawView>
    decreases n,
{
    if n == 0 {
        Seq::empty()
    } else {
        player_draws(s, mouse, rows, (n - 1) as nat) + player_draw(
            s.players[s.scroll_players + n - 1].addr,
            mouse,
            rows[n - 1],
        )
    }
}

/// How the first `n` rows with lines of the log are drawn.
pub open spec fn log_draws(s: RunningView, rows: Seq<LogRow>, n: nat) -> Seq<DrawView>
    decreases n,
{
    if n == 0 {
        Seq::empty()
    } else {
        log_draws(s, rows, (n - 1) as nat) + seq![
            DrawView::Paragraph(
                rows[n - 1].time,
                draw::label(s.logs[s.scroll_logs + n - 1].time),
            ),
            DrawView::Paragraph(
                rows[n - 1].text,
                draw::label(s.logs[s.scroll_logs + n - 1].text),
            ),
        ]
    }
}

/// How the screen of a shared server is drawn.
pub open spec fn running_draws(s: RunningView, mouse: (u16, u16), l: RunningLayout) -> Seq<
    DrawView,
> {
    let pos = mouse_at(mouse);
    seq![
        DrawView::Paragraph(l.help, draw::label(RUNNING_HELP@)),
        ip_draw(s, pos, l),
        DrawView::Block(l.players, draw::titled(" Players "@)),
        DrawView::Block(l.right, draw::titled(" Logs "@)),
    ] + player_draws(s, pos, l.player_rows@, l.player_rows@.len()) + log_draws(
        s,
        l.log_rows@,
        l.log_rows@.len(),
    )
}

/// Where the screen of a shared server reacts to the mouse: a player is cut off
/// by the button in the same row.
pub open spec fn running_boxes(s: RunningView, l: RunningLayout, boxes: RunningBoundingBoxes) -> bool {
    &&& boxes.ip_box == l.ip
    &&& boxes.players_box == l.players.within()
    &&& boxes.logs_box == l.right.within()
    &&& boxes.disconnects@ == Seq::new(
        l.player_rows@.len(),
        |i: int| (s.players[s.scroll_players + i].addr, l.player_rows@[i].disconnect),
    )
}

/// Whether every row that was made has something to show.
pub open spec fn rows_filled(s: RunningView, l: RunningLayout) -> bool {
    &&& s.scroll_players + l.player_rows@.len() <= s.players.len()
    &&& s.scroll_logs + l.log_rows@.len() <= s.logs.len()
}

impl RunningState {
    /// Draws the address of the server.
    fn draw_ip(&self, mouse: Position, l: &RunningLayout) -> (r: Draw)
        ensures
            r@ == ip_draw(self@, mouse, *l),
    {
        let style = if l.ip.contains(mouse) {
            Style::with_fg(Color::LightGreen)
        } else {
            Style::with_fg(Color::Cyan)
        };
        let mut spans: Vec<Span> = Vec::new();
        spans.push(Span::styled(self.ip.as_str(), Style::new()));
        if self.copied {
            spans.push(Span::styled(" - Copied ", Style::with_fg(Color::Cyan)));
        }
        let ghost ip = draw::span(self.ip@, draw::plain());
        assert(spans@.map_values(|s: Span| s@) =~= if self.copied {
            seq![ip, draw::span(" - Copied "@, draw::fg(Color::Cyan))]
        } else {
            seq![ip]
        });
        let block = Block { style, ..Block::with_title(" Server IP ") };
        Draw::Paragraph(l.ip, Paragraph::of_line(Line::of(spans)).in_block(block))
    }

    /// Draws the rows with players. Beside them stand the buttons.
    fn draw_players(&self, mouse: Position, l: &RunningLayout) -> (r: (
        Vec<Draw>,
        Vec<(SocketAddr, Rect)>,
    ))
        requires
            rows_filled(self@, *l),
        ensures
            draw::draws(r.0@) == player_draws(self@, mouse, l.player_rows@, l.player_rows@.len()),
            r.1@ == Seq::new(
                l.player_rows@.len(),
                |i: int|
                    (self@.players[self.scroll_players + i].addr, l.player_rows@[i].disconnect),
            ),
    {
        let mut plan: Vec<Draw> = Vec::new();
        let mut hits: Vec<(SocketAddr, Rect)> = Vec::new();
        assert(draw::draws(plan@) =~= Seq::<DrawView>::empty());
        let total: usize = self.players.len();
        let mut i: usize = 0;
        while i < l.player_rows.len()
            invariant
                i <= l.player_rows@.len(),
                total == self.players@.len(),
                rows_filled(self@, *l),
                draw::draws(plan@) == player_draws(self@, mouse, l.player_rows@, i as nat),
                hits@ == Seq::new(
                    i as nat,
                    |i: int|
                        (self@.players[self.scroll_players + i].addr, l.player_rows@[i].disconnect),
                ),
            decreases l.player_rows@.len() - i,
        {
            let ghost before = draw::draws(plan@);
            let row = l.player_rows[i];
            let at: usize = self.scroll_players + i;
            let addr = self.players[at].addr;
            assert(self@.players[at as int].addr == addr);
            let shown = addr.to_text();
            hits.push((addr, row.disconnect));
            let style = if row.disconnect.contains(mouse) {
                Style::with_bg(Color::Magenta)
            } else {
                Style::with_bg(Color::LightRed)
            };
            put(&mut plan, Draw::Paragraph(row.name, Paragraph::new(PLAYER_NAME)));
            put(&mut plan, Draw::Paragraph(row.addr, Paragraph::new(shown.as_str())));
            put(
                &mut plan,
                Draw::Paragraph(row.disconnect, Paragraph::new(DISCONNECT).styled(style)),
            );
            assert(draw::draws(plan@) =~= before + player_draw(addr, mouse, row));
            i = i + 1;
            assert(hits@ =~= Seq::new(
                i as nat,
                |i: int|
                    (self@.players[self.scroll_players + i].addr, l.player_rows@[i].disconnect),
            ));
        }
        (plan, hits)
    }

    /// Draws the rows with lines of the log.
    fn draw_logs(&self, l: &RunningLayout) -> (r: Vec<Draw>)
        requires
            rows_filled(self@, *l),
        ensures
            draw::draws(r@) == log_draws(self@, l.log_rows@, l.log_rows@.len()),
    {
        let mut plan: Vec<Draw> = Vec::new();
        assert(draw::draws(plan@) =~= Seq::<DrawView>::empty());
        let total: usize = self.logs.len();
        let mut i: usize = 0;
        while i < l.log_rows.len()
            invariant
                i <= l.log_rows@.len(),
                total == self.logs@.len(),
                rows_filled(self@, *l),
                draw::draws(plan@) == log_draws(self@, l.log_rows@, i as nat),
            decreases l.log_rows@.len() - i,
        {
            let ghost before = draw::draws(plan@);
            let row = l.log_rows[i];
            let at: usize = self.scroll_logs + i;
            let line = &self.logs[at];
            assert(self@.logs[at as int] == line@);
            put(&mut plan, Draw::Paragraph(row.time, Paragraph::new(line.time.as_str())));
            put(&mut plan, Draw::Paragraph(row.text, Paragraph::new(line.text.as_str())));
            assert(draw::draws(plan@) =~= before + seq![
                DrawView::Paragraph(row.time, draw::label(line.time@)),
                DrawView::Paragraph(row.text, draw::label(line.text@)),
            ]);
            i = i + 1;
        }
        plan
    }

    /// Draws the screen when it was divided. Beside it stands where it reacts to
    /// the mouse.
    pub fn plan(&self, mouse: (u16, u16), l: RunningLayout) -> (r: (Vec<Draw>, RunningBoundingBoxes))
        requires
            rows_filled(self@, l),
        ensures
            draw::draws(r.0@) == running_draws(self@, mouse, l),
            running_boxes(self@, l, r.1),
    {
        let pos = Position { x: mouse.0, y: mouse.1 };
        let mut plan: Vec<Draw> = Vec::new();
        assert(draw::draws(plan@) =~= Seq::<DrawView>::empty());
        put(&mut plan, Draw::Paragraph(l.help, Paragraph::new(RUNNING_HELP)));
        put(&mut plan, self.draw_ip(pos, &l));
        put(&mut plan, Draw::Block(l.players, Block::with_title(" Players ")));
        put(&mut plan, Draw::Block(l.right, Block::with_title(" Logs ")));
        let (players, disconnects) = self.draw_players(pos, &l);
        put_all(&mut plan, players);
        put_all(&mut plan, self.draw_logs(&l));
        assert(draw::draws(plan@) =~= running_draws(self@, mouse, l));
        let boxes = RunningBoundingBoxes {
            disconnects,
            ip_box: l.ip,
            players_box: l.players.inner(),
            logs_box: l.right.inner(),
        };
        (plan, boxes)
    }

    /// Draws the screen. Beside it stands where it reacts to the mouse.
    pub fn render(&self, area: Rect, mouse: (u16, u16)) -> (r: (Vec<Draw>, RunningBoundingBoxes))
        requires
            self.scroll_players <= self@.players.len(),
            self.scroll_logs <= self@.logs.len(),
        ensures
            exists|l: RunningLayout|
                {
                    &&& #[trigger] l.fits(
                        area,
                        (self@.players.len() - self.scroll_players) as nat,
                        (self@.logs.len() - self.scroll_logs) as nat,
                    )
                    &&& draw::draws(r.0@) == running_draws(self@, mouse, l)
                    &&& running_boxes(self@, l, r.1)
                },
    {
        let players: usize = self.players.len() - self.scroll_players;
        let logs: usize = self.logs.len() - self.scroll_logs;
        let l = RunningLayout::new(area, players, logs);
        assert(l.fits(
            area,
            (self@.players.len() - self.scroll_players) as nat,
            (self@.logs.len() - self.scroll_logs) as nat,
        ));
        self.plan(mouse, l)
    }
}

impl TuiApp {
    /// Draws the screen that is shown, unless the cell of a cursor cannot be
    /// counted. Beside it stands where it reacts to the mouse. How long it is
    /// until it is tried again is given as text.
    pub fn render(&self, area: Rect, retry_in: &str) -> (r: Option<(Vec<Draw>, RenderResult)>)
        requires
            self@.wf(),
        ensures
            r matches Some((_, boxes)) ==> self@.drawn(boxes),
            r is None ==> (self.app_state matches TuiAppState::MainMenu(s) && is_cursor_beyond(
                s@,
                self@.perm.advanced,
                area,
            ) && exists|l: MenuLayout|
                #[trigger] l.fits(area, self@.perm.advanced, s.servers@.len())
                    && !menu_cursor_fits(l, s@)),
            match (self.app_state, r) {
                (
                    TuiAppState::MainMenu(s),
                    Some((plan, RenderResult::MainMenu { bounding_boxes })),
                ) => exists|l: MenuLayout|
                    {
                        &&& #[trigger] l.fits(
                            area,
                            self@.perm.advanced,
                            s.servers@.len(),
                        )
                        &&& menu_cursor_fits(l, s@)
                        &&& draw::draws(plan@) == menu_draws(self@.perm, s@, self.mouse_pos, l)
                        &&& menu_boxes(l, bounding_boxes)
                    },
                (
                    TuiAppState::ServerLoading(s),
                    Some((plan, RenderResult::Loading { cancel_bounding_box })),
                ) => exists|l: LoadingLayout|
                    {
                        &&& #[trigger] l.fits(area)
                        &&& draw::draws(plan@) == loading_draws(s, self.mouse_pos, l)
                        &&& cancel_bounding_box == l.cancel
                    },
                (
                    TuiAppState::Failed(s),
                    Some((plan, RenderResult::FailScreen { main_menu, retry_now })),
                ) => exists|l: FailedLayout|
                    {
                        &&& #[trigger] l.fits(area, s.permanent)
                        &&& draw::draws(plan@) == failed_draws(s@, retry_in@, self.mouse_pos, l)
                        &&& main_menu == l.cancel
                        &&& retry_now == l.retry
                    },
                (
                    TuiAppState::Running(s),
                    Some((plan, RenderResult::RunningScreen { bounding_boxes })),
                ) => exists|l: RunningLayout|
                    {
                        &&& #[trigger] l.fits(
                            area,
                            (s@.players.len() - s.scroll_players) as nat,
                            (s@.logs.len() - s.scroll_logs) as nat,
                        )
                        &&& draw::draws(plan@) == running_draws(s@, self.mouse_pos, l)
                        &&& running_boxes(s@, l, bounding_boxes)
                    },
                _ => r is None,
            },
    {
        match &self.app_state {
            TuiAppState::MainMenu(state) => {
                match state.render(&self.permanent_state, area, self.mouse_pos) {
                    Some((plan, bounding_boxes)) => Some(
                        (plan, RenderResult::MainMenu { bounding_boxes }),
                    ),
                    None => None,
                }
            },
            TuiAppState::ServerLoading(state) => {
                let (plan, cancel_bounding_box) = state.render(area, self.mouse_pos);
                Some((plan, RenderResult::Loading { cancel_bounding_box }))
            },
            TuiAppState::Failed(state) => {
                let (plan, main_menu, retry_now) = state.render(retry_in, area, self.mouse_pos);
                Some((plan, RenderResult::FailScreen { main_menu, retry_now }))
            },
            TuiAppState::Running(state) => {
                let (plan, bounding_boxes) = state.render(area, self.mouse_pos);
                Some((plan, RenderResult::RunningScreen { bounding_boxes }))
            },
        }
    }
}

/// The button in the row of a player cuts off that player, and no other.
pub proof fn law_button_cuts_its_player(
    s: RunningView,
    l: RunningLayout,
    boxes: RunningBoundingBoxes,
    pos: Position,
)
    requires
        running_boxes(s, l, boxes),
        rows_filled(s, l),
    ensures
        match tui_events::kicked(boxes, pos) {
            Some(i) => 0 <= i < l.player_rows@.len() && l.player_rows@[i].disconnect.has(pos)
                && boxes.disconnects@[i].0 == s.players[s.scroll_players + i].addr,
            None => forall|i: int|
                0 <= i < l.player_rows@.len() ==> !(
                #[trigger] l.player_rows@[i]).disconnect.has(pos),
        },
{
    let hit = |d: (SocketAddr, Rect)| d.1.has(pos);
    search::law_first_where(boxes.disconnects@, hit);
    if tui_events::kicked(boxes, pos) is None {
        assert forall|i: int| 0 <= i < l.player_rows@.len() implies !(
        #[trigger] l.player_rows@[i]).disconnect.has(pos) by {
            assert(!hit(boxes.disconnects@[i]));
        }
    }
}

/// A button that is as wide as its text has room for all of it.
pub proof fn law_buttons_fit_their_texts()
    ensures
        ADVANCED@.len() == layout::ADVANCED_WIDTH,
        CANCEL@.len() == layout::CANCEL_WIDTH,
        " Retry now "@.len() == layout::RETRY_WIDTH,
        DISCONNECT@.len() == layout::DISCONNECT_WIDTH,
{
    reveal_strlit(" Advanced ");
    reveal_strlit(" Cancel ");
    reveal_strlit(" Retry now ");
    reveal_strlit(" Disconnect ");
}

} // verus!
