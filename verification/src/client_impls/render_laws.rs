//! What can be seen on the screens: every text, button, player and line of the
//! log in its place, and what answers to the mouse and the selection.

use crate::client_impls::draw;
use crate::client_impls::draw::{
    BlockView, Color, Draw, DrawView, LineView, ParagraphView, SpanView, Style,
};
use crate::client_impls::geometry::{Position, Rect};
use crate::client_impls::layout::{
    FailedLayout, LoadingLayout, LogRow, MenuLayout, PlayerRow, RunningLayout,
};
use crate::client_impls::tui_render;
use crate::client_impls::types::{
    Cursor, FailedState, FailedView, LoadingState, MainMenuBoundingBoxes, MainMenuPermanentState,
    MainMenuTemporaryState, PermView, RunningBoundingBoxes, RunningState, RunningView,
    SelectedBlock, TempView,
};
use crate::net::SocketAddr;
use vstd::prelude::*;
use vstd::utf8;

verus! {

/// The text of the pieces of a line.
pub open spec fn spans_text(spans: Seq<SpanView>) -> Seq<char>
    decreases spans.len(),
{
    if spans.len() == 0 {
        Seq::empty()
    } else {
        spans_text(spans.drop_last()) + spans.last().text
    }
}

/// Whether these lines are shown on this part of the screen.
pub open spec fn says(d: DrawView, rect: Rect, lines: Seq<Seq<char>>) -> bool {
    d matches DrawView::Paragraph(r, p) && {
        &&& r == rect
        &&& p.lines.len() == lines.len()
        &&& forall|i: int|
            0 <= i < lines.len() ==> spans_text((#[trigger] p.lines[i]).spans) == lines[i]
    }
}

/// Whether this text is shown on this part of the screen.
pub open spec fn shows(plan: Seq<DrawView>, rect: Rect, text: Seq<char>) -> bool {
    exists|i: int| 0 <= i < plan.len() && says(#[trigger] plan[i], rect, seq![text])
}

/// Whether a border with this title is drawn around this part of the screen.
pub open spec fn frames(plan: Seq<DrawView>, rect: Rect, title: Seq<char>) -> bool {
    exists|i: int|
        0 <= i < plan.len() && (#[trigger] plan[i] matches DrawView::Block(r, b) && r == rect
            && b.bordered && b.title == Some(title))
}

/// Whether this text is shown on this part of the screen in these colors.
pub open spec fn shows_colored(
    plan: Seq<DrawView>,
    rect: Rect,
    text: Seq<char>,
    style: Style,
) -> bool {
    exists|i: int|
        0 <= i < plan.len() && says(#[trigger] plan[i], rect, seq![text]) && (
        plan[i] matches DrawView::Paragraph(_, p) && p.style == style)
}

/// Whether this text is shown on a button on this part of the screen, in these
/// colors.
pub open spec fn shows_on_button(
    plan: Seq<DrawView>,
    rect: Rect,
    text: Seq<char>,
    style: Style,
) -> bool {
    exists|i: int|
        0 <= i < plan.len() && says(#[trigger] plan[i], rect, seq![text]) && (
        plan[i] matches DrawView::Paragraph(_, p) && p.block matches Some(b) && b.style == style
            && !b.bordered)
}

proof fn lemma_one_span(text: Seq<char>, style: Style)
    ensures
        spans_text(seq![SpanView { text, style }]) == text,
{
    let spans = seq![SpanView { text, style }];
    reveal_with_fuel(spans_text, 2);
    assert(spans.drop_last() =~= Seq::<SpanView>::empty());
    assert(spans_text(spans) =~= text);
}

/// A label says its text.
proof fn lemma_label(p: ParagraphView, rect: Rect, text: Seq<char>)
    requires
        p.lines.len() == 1,
        p.lines[0].spans.len() == 1,
        p.lines[0].spans[0].text == text,
    ensures
        says(DrawView::Paragraph(rect, p), rect, seq![text]),
{
    let spans = p.lines[0].spans;
    lemma_one_span(text, spans[0].style);
    assert(spans =~= seq![SpanView { text, style: spans[0].style }]);
}

/// A text that can be edited is shown in a box with its title: the whole text, and
/// where it is selected, the cursor over it, which covers the character that it
/// stands before, or all of the text. The border tells what is selected, and what
/// the mouse is on.
pub proof fn law_texts_are_shown_in_their_boxes(
    title: Seq<char>,
    content: Seq<char>,
    selected: bool,
    cursor: Cursor,
    mouse: Position,
    rect: Rect,
)
    ensures
        ({
            let plan = tui_render::text_box(title, content, selected, cursor, mouse, rect);
            let inner = rect.within();
            let marked = Style { fg: Some(Color::Black), bg: Some(Color::Green) };
            &&& plan.len() == if selected {
                3int
            } else {
                2
            }
            &&& plan[0] == DrawView::Block(
                rect,
                BlockView {
                    bordered: true,
                    title: Some(title),
                    border_style: Style {
                        fg: if selected {
                            Some(Color::LightGreen)
                        } else if rect.has(mouse) {
                            Some(Color::LightMagenta)
                        } else {
                            None
                        },
                        bg: None,
                    },
                    style: Style { fg: None, bg: None },
                },
            )
            &&& says(plan[1], inner, seq![content])
            &&& selected ==> match cursor {
                Cursor::All => says(
                    plan[2],
                    Rect::sized(inner.x, inner.y, utf8::encode_utf8(content).len() as u16, 1),
                    seq![content],
                ),
                Cursor::Position(pos) => {
                    let cell = Rect::sized((inner.x + pos as u16) as u16, inner.y, 1, 1);
                    &&& pos < content.len() && utf8::is_ascii_chars(content) ==> says(
                        plan[2],
                        cell,
                        seq![seq![content[pos as int]]],
                    )
                    &&& pos >= utf8::encode_utf8(content).len() ==> says(
                        plan[2],
                        cell,
                        seq![" "@],
                    )
                },
            }
            &&& selected ==> (plan[2] matches DrawView::Paragraph(_, p) && p.style == marked)
        }),
{
    let plan = tui_render::text_box(title, content, selected, cursor, mouse, rect);
    let inner = rect.within();
    if let DrawView::Paragraph(_, p) = plan[1] {
        lemma_label(p, inner, content);
    }
    if selected {
        if let DrawView::Paragraph(r, p) = plan[2] {
            lemma_label(p, r, p.lines[0].spans[0].text);
            if let Cursor::Position(pos) = cursor {
                if pos < content.len() && utf8::is_ascii_chars(content) {
                    utf8::is_ascii_chars_encode_utf8(content);
                    assert(tui_render::under_cursor(content, pos) =~= seq![content[pos as int]]);
                }
            }
        }
    }
}

// The menu.

/// Whether a text is shown in a box with this title.
pub open spec fn shows_field(
    plan: Seq<DrawView>,
    rect: Rect,
    title: Seq<char>,
    text: Seq<char>,
) -> bool {
    frames(plan, rect, title) && shows(plan, rect.within(), text)
}

/// A box that stands between other things is shown.
proof fn lemma_box(
    front: Seq<DrawView>,
    back: Seq<DrawView>,
    title: Seq<char>,
    perm: PermView,
    block: SelectedBlock,
    temp: TempView,
    mouse: Position,
    rect: Rect,
)
    ensures
        shows_field(
            front + tui_render::menu_box(title, perm, block, temp, mouse, rect) + back,
            rect,
            title,
            perm.field(block).unwrap(),
        ),
{
    let content = perm.field(block).unwrap();
    let boxed = tui_render::menu_box(title, perm, block, temp, mouse, rect);
    let plan = front + boxed + back;
    let at = front.len() as int;
    law_texts_are_shown_in_their_boxes(
        title,
        content,
        temp.selected == block,
        temp.cursor,
        mouse,
        rect,
    );
    assert(plan[at] == boxed[0] && plan[at + 1] == boxed[1]);
    assert(plan[at] matches DrawView::Block(r, b) && r == rect && b.bordered && b.title == Some(
        title,
    ));
    assert(says(plan[at + 1], rect.within(), seq![content]));
}

/// Things that are drawn one after the other, seen from some of them.
proof fn lemma_parts(
    a: Seq<DrawView>,
    b: Seq<DrawView>,
    c: Seq<DrawView>,
    d: Seq<DrawView>,
    e: Seq<DrawView>,
    f: Seq<DrawView>,
    g: Seq<DrawView>,
)
    ensures
        a + b + c + d + e + f + g == a + b + (c + d + e + f + g),
        a + b + c + d + e + f + g == (a + b) + c + (d + e + f + g),
        a + b + c + d + e + f + g == (a + b + c + d + e) + f + g,
{
    assert(a + b + c + d + e + f + g =~= a + b + (c + d + e + f + g));
    assert(a + b + c + d + e + f + g =~= (a + b) + c + (d + e + f + g));
}

proof fn lemma_three(
    a: Seq<DrawView>,
    b: Seq<DrawView>,
    c: Seq<DrawView>,
    d: Seq<DrawView>,
    e: Seq<DrawView>,
)
    ensures
        a + (b + c + d) + e == a + b + (c + d + e),
        a + (b + c + d) + e == (a + b) + c + (d + e),
        a + (b + c + d) + e == (a + b + c) + d + e,
{
    assert(a + (b + c + d) + e =~= a + b + (c + d + e));
    assert(a + (b + c + d) + e =~= (a + b) + c + (d + e));
    assert(a + (b + c + d) + e =~= (a + b + c) + d + e);
}

/// The settings of the proxy that stand between other things are shown.
proof fn lemma_proxy_boxes(
    front: Seq<DrawView>,
    back: Seq<DrawView>,
    perm: PermView,
    temp: TempView,
    mouse: Position,
    l: MenuLayout,
)
    requires
        l.proxy is Some,
    ensures
        ({
            let plan = front + tui_render::proxy_draws(perm, temp, mouse, l) + back;
            let b = l.proxy->0;
            &&& shows_field(plan, b.proxy_ip, " Proxy server IP "@, perm.proxy_server)
            &&& shows_field(
                plan,
                b.play_port,
                " Proxy server PLAY port "@,
                perm.proxy_server_play_port,
            )
            &&& shows_field(
                plan,
                b.init_port,
                " Proxy server INIT port "@,
                perm.proxy_server_init_port,
            )
        }),
{
    let rects = l.proxy->0;
    let ip = " Proxy server IP "@;
    let play = " Proxy server PLAY port "@;
    let init = " Proxy server INIT port "@;
    let a = tui_render::menu_box(ip, perm, SelectedBlock::ProxyIp, temp, mouse, rects.proxy_ip);
    let b = tui_render::menu_box(play, perm, SelectedBlock::PlayPort, temp, mouse, rects.play_port);
    let c = tui_render::menu_box(init, perm, SelectedBlock::InitPort, temp, mouse, rects.init_port);
    lemma_three(front, a, b, c, back);
    lemma_box(
        front,
        b + c + back,
        ip,
        perm,
        SelectedBlock::ProxyIp,
        temp,
        mouse,
        rects.proxy_ip,
    );
    lemma_box(
        front + a,
        c + back,
        play,
        perm,
        SelectedBlock::PlayPort,
        temp,
        mouse,
        rects.play_port,
    );
    lemma_box(
        front + a + b,
        back,
        init,
        perm,
        SelectedBlock::InitPort,
        temp,
        mouse,
        rects.init_port,
    );
}

/// The menu shows what was set: the address of the server and the requested
/// domain, and with the settings of the proxy open, those too.
pub proof fn law_the_menu_shows_the_settings(
    perm: PermView,
    temp: TempView,
    mouse: (u16, u16),
    l: MenuLayout,
)
    ensures
        ({
            let plan = tui_render::menu_draws(perm, temp, mouse, l);
            &&& shows_field(plan, l.server_ip, " Minecraft Server IP "@, perm.server_ip)
            &&& shows_field(
                plan,
                l.request_domain,
                " Requested Domain (Optional) (Ex: test.mineshare.dev)"@,
                perm.request_domain,
            )
            &&& l.proxy matches Some(b) ==> {
                &&& shows_field(plan, b.proxy_ip, " Proxy server IP "@, perm.proxy_server)
                &&& shows_field(
                    plan,
                    b.play_port,
                    " Proxy server PLAY port "@,
                    perm.proxy_server_play_port,
                )
                &&& shows_field(
                    plan,
                    b.init_port,
                    " Proxy server INIT port "@,
                    perm.proxy_server_init_port,
                )
            }
        }),
{
    let pos = Position { x: mouse.0, y: mouse.1 };
    let ip_title = " Minecraft Server IP "@;
    let domain_title = " Requested Domain (Optional) (Ex: test.mineshare.dev)"@;
    let plan = tui_render::menu_draws(perm, temp, mouse, l);
    let a = seq![plan[0], plan[1], plan[2]];
    let b = tui_render::menu_box(ip_title, perm, SelectedBlock::ServerIp, temp, pos, l.server_ip);
    let c = tui_render::menu_box(
        domain_title,
        perm,
        SelectedBlock::RequestedDomain,
        temp,
        pos,
        l.request_domain,
    );
    let d = tui_render::button_draws(temp, pos, l);
    let e = tui_render::server_draws(temp, pos, l.servers@);
    let f = tui_render::proxy_draws(perm, temp, pos, l);
    let g = tui_render::error_draws(temp, l);
    assert(plan =~= a + b + c + d + e + f + g);
    lemma_parts(a, b, c, d, e, f, g);
    lemma_box(
        a,
        c + d + e + f + g,
        ip_title,
        perm,
        SelectedBlock::ServerIp,
        temp,
        pos,
        l.server_ip,
    );
    lemma_box(
        a + b,
        d + e + f + g,
        domain_title,
        perm,
        SelectedBlock::RequestedDomain,
        temp,
        pos,
        l.request_domain,
    );
    if let Some(rects) = l.proxy {
        lemma_proxy_boxes(a + b + c + d + e, g, perm, temp, pos, l);
    }
}

/// The colors of a button of the menu, which tell whether it is selected or the
/// mouse is on it.
pub open spec fn button_colors(active: bool) -> Style {
    Style {
        fg: Some(Color::Black),
        bg: Some(
            if active {
                Color::LightGreen
            } else {
                Color::LightBlue
            },
        ),
    }
}

/// The menu shows its buttons, in the colors that tell whether they are selected,
/// or the mouse is on them, and the help.
pub proof fn law_the_menu_shows_the_buttons(
    perm: PermView,
    temp: TempView,
    mouse: (u16, u16),
    l: MenuLayout,
)
    ensures
        ({
            let plan = tui_render::menu_draws(perm, temp, mouse, l);
            let pos = Position { x: mouse.0, y: mouse.1 };
            &&& shows(
                plan,
                l.help,
                "Next: Tab, Previous: Shift+Tab, Exit: q, Select: Enter; (Can use mouse too!)"@,
            )
            &&& shows_on_button(
                plan,
                l.advanced,
                " Advanced "@,
                button_colors(temp.selected is AdvancedButton || l.advanced.has(pos)),
            )
            &&& exists|i: int|
                0 <= i < plan.len() && (#[trigger] plan[i] matches DrawView::Block(r, b) && r
                    == l.start && b.style == button_colors(
                    temp.selected is StartButton || l.start.has(pos),
                ))
            &&& shows(plan, l.start_inner, "Start"@)
            &&& shows(plan, l.loading, "Loading LAN servers..."@)
        }),
{
    let plan = tui_render::menu_draws(perm, temp, mouse, l);
    let pos = Position { x: mouse.0, y: mouse.1 };
    let one = tui_render::menu_box(
        " Minecraft Server IP "@,
        perm,
        SelectedBlock::ServerIp,
        temp,
        pos,
        l.server_ip,
    );
    let two = tui_render::menu_box(
        " Requested Domain (Optional) (Ex: test.mineshare.dev)"@,
        perm,
        SelectedBlock::RequestedDomain,
        temp,
        pos,
        l.request_domain,
    );
    let buttons = tui_render::button_draws(temp, pos, l);
    let at = (3 + one.len() + two.len()) as int;
    let help = "Next: Tab, Previous: Shift+Tab, Exit: q, Select: Enter; (Can use mouse too!)"@;
    if let DrawView::Paragraph(r, p) = plan[0] {
        lemma_label(p, r, help);
        assert(says(plan[0], l.help, seq![help]));
    }
    assert(plan[at] == buttons[0] && plan[at + 1] == buttons[1] && plan[at + 2] == buttons[2]
        && plan[at + 3] == buttons[3]);
    if let DrawView::Paragraph(r, p) = buttons[0] {
        lemma_label(p, r, " Advanced "@);
        assert(says(plan[at], l.advanced, seq![" Advanced "@]));
    }
    if let DrawView::Paragraph(r, p) = buttons[2] {
        lemma_label(p, r, "Start"@);
        assert(says(plan[at + 2], l.start_inner, seq!["Start"@]));
    }
    if let DrawView::Paragraph(r, p) = buttons[3] {
        lemma_label(p, r, "Loading LAN servers..."@);
        assert(says(plan[at + 3], l.loading, seq!["Loading LAN servers..."@]));
    }
}

/// The menu shows every server that was found, with its address and its message,
/// and tells which one was taken over.
pub proof fn law_the_menu_shows_the_servers(
    perm: PermView,
    temp: TempView,
    mouse: (u16, u16),
    l: MenuLayout,
    i: int,
)
    requires
        0 <= i < l.servers@.len(),
        i <= usize::MAX,
    ensures
        ({
            let plan = tui_render::menu_draws(perm, temp, mouse, l);
            let taken = temp.last_selected_server matches Some(j) && j == i;
            let first = "Lan Server"@ + " - "@ + temp.servers[i].ip + if taken {
                " - Set as server IP!"@
            } else {
                Seq::empty()
            };
            let colors = Style {
                fg: if l.servers@[i].has(Position { x: mouse.0, y: mouse.1 }) {
                    Some(Color::LightMagenta)
                } else {
                    None
                },
                bg: None,
            };
            exists|k: int|
                0 <= k < plan.len() && says(
                    #[trigger] plan[k],
                    l.servers@[i],
                    seq![first, temp.servers[i].motd],
                ) && (plan[k] matches DrawView::Paragraph(_, p) && p.block matches Some(b)
                    && b.bordered && b.style == colors)
        }),
{
    let plan = tui_render::menu_draws(perm, temp, mouse, l);
    let pos = Position { x: mouse.0, y: mouse.1 };
    let one = tui_render::menu_box(
        " Minecraft Server IP "@,
        perm,
        SelectedBlock::ServerIp,
        temp,
        pos,
        l.server_ip,
    );
    let two = tui_render::menu_box(
        " Requested Domain (Optional) (Ex: test.mineshare.dev)"@,
        perm,
        SelectedBlock::RequestedDomain,
        temp,
        pos,
        l.request_domain,
    );
    let k = 3 + one.len() + two.len() + 4 + i;
    let info = temp.servers[i];
    let taken = temp.last_selected_server matches Some(j) && j == i;
    let d = tui_render::server_draw(info, taken, pos, l.servers@[i]);
    assert(plan[k] == tui_render::server_draws(temp, pos, l.servers@)[i]);
    assert(plan[k] == d);
    let first = "Lan Server"@ + " - "@ + info.ip + if taken {
        " - Set as server IP!"@
    } else {
        Seq::empty()
    };
    if let DrawView::Paragraph(_, p) = d {
        let spans = p.lines[0].spans;
        reveal_with_fuel(spans_text, 5);
        let three = if taken {
            spans.drop_last()
        } else {
            spans
        };
        assert(three.drop_last().drop_last().drop_last() =~= Seq::<SpanView>::empty());
        assert(spans_text(three) =~= "Lan Server"@ + " - "@ + info.ip);
        assert(spans_text(spans) =~= first);
        lemma_one_span(info.motd, p.lines[1].spans[0].style);
        assert(p.lines[1].spans =~= seq![
            SpanView { text: info.motd, style: p.lines[1].spans[0].style },
        ]);
    }
    assert(says(plan[k], l.servers@[i], seq![first, info.motd]));
}

/// The menu shows everything that stands in the way of starting, a line for each,
/// in red, and nothing where nothing does.
pub proof fn law_the_menu_shows_the_mistakes(
    perm: PermView,
    temp: TempView,
    mouse: (u16, u16),
    l: MenuLayout,
)
    ensures
        ({
            let plan = tui_render::menu_draws(perm, temp, mouse, l);
            let area = if l.proxy is Some {
                l.error_rem
            } else {
                l.advanced_text.spanned(l.error_rem)
            };
            let red = Style { fg: Some(Color::Red), bg: None };
            &&& temp.errors.len() > 0 ==> says(plan.last(), area, temp.errors) && (
            plan.last() matches DrawView::Paragraph(_, p) && p.style == red)
            &&& temp.errors.len() == 0 ==> forall|i: int|
                0 <= i < plan.len() ==> (
                #[trigger] plan[i] matches DrawView::Paragraph(_, p) ==> p.style != red)
        }),
{
    let plan = tui_render::menu_draws(perm, temp, mouse, l);
    if temp.errors.len() > 0 {
        let d = tui_render::error_draws(temp, l)[0];
        assert(plan.last() == d);
        if let DrawView::Paragraph(_, p) = d {
            assert forall|i: int| 0 <= i < temp.errors.len() implies spans_text(
                (#[trigger] p.lines[i]).spans,
            ) == temp.errors[i] by {
                lemma_one_span(temp.errors[i], p.lines[i].spans[0].style);
                assert(p.lines[i].spans =~= seq![
                    SpanView { text: temp.errors[i], style: p.lines[i].spans[0].style },
                ]);
            }
        }
    }
}

// The screen while the proxy is connected to.

/// While the proxy is connected to, the screen says so, and shows the button that
/// cancels it, whose color tells whether it is selected, or the mouse is on it.
pub proof fn law_connecting_is_shown(s: LoadingState, mouse: (u16, u16), l: LoadingLayout)
    ensures
        ({
            let plan = tui_render::loading_draws(s, mouse, l);
            let active = s.cancel_selected || l.cancel.has(Position { x: mouse.0, y: mouse.1 });
            &&& plan.len() == 3
            &&& shows(
                plan,
                l.help,
                "Next: Tab, Previous: Shift+Tab, Exit: q, Select: Enter; (Can use mouse too!)"@,
            )
            &&& shows(plan, l.loading, " Loading..."@)
            &&& shows_colored(
                plan,
                l.cancel,
                "Cancel"@,
                Style {
                    fg: None,
                    bg: Some(
                        if active {
                            Color::Magenta
                        } else {
                            Color::LightRed
                        },
                    ),
                },
            )
        }),
{
    let plan = tui_render::loading_draws(s, mouse, l);
    let help = "Next: Tab, Previous: Shift+Tab, Exit: q, Select: Enter; (Can use mouse too!)"@;
    if let DrawView::Paragraph(r, p) = plan[0] {
        lemma_label(p, r, help);
        assert(says(plan[0], l.help, seq![help]));
    }
    if let DrawView::Paragraph(r, p) = plan[1] {
        lemma_label(p, r, " Loading..."@);
        assert(says(plan[1], l.loading, seq![" Loading..."@]));
    }
    if let DrawView::Paragraph(r, p) = plan[2] {
        lemma_label(p, r, "Cancel"@);
        assert(says(plan[2], l.cancel, seq!["Cancel"@]));
    }
}

// The screen after a failure.

/// After a failure, the screen shows why, and the button that leads back. Where
/// another attempt is made, it also shows when, and the button that makes it at
/// once. The colors of the buttons tell whether the mouse is on them.
pub proof fn law_failures_are_shown(
    s: FailedView,
    retry_in: Seq<char>,
    mouse: (u16, u16),
    l: FailedLayout,
)
    ensures
        ({
            let plan = tui_render::failed_draws(s, retry_in, mouse, l);
            let pos = Position { x: mouse.0, y: mouse.1 };
            let black_on = |color: Color| Style { fg: Some(Color::Black), bg: Some(color) };
            &&& plan.len() == 3 + (if s.permanent {
                0int
            } else {
                1
            }) + (if l.retry is Some {
                1int
            } else {
                0
            })
            &&& shows(plan, l.msg, s.msg)
            &&& shows_colored(
                plan,
                l.cancel,
                " Cancel "@,
                black_on(
                    if l.cancel.has(pos) {
                        Color::Magenta
                    } else {
                        Color::LightRed
                    },
                ),
            )
            &&& !s.permanent ==> shows(plan, l.retry_in, "Retrying in: "@ + retry_in + "s"@)
            &&& l.retry matches Some(retry) ==> shows_colored(
                plan,
                retry,
                " Retry now"@,
                black_on(
                    if retry.has(pos) {
                        Color::Green
                    } else {
                        Color::Gray
                    },
                ),
            )
        }),
{
    let plan = tui_render::failed_draws(s, retry_in, mouse, l);
    let at: int = if s.permanent {
        1
    } else {
        2
    };
    let buttons = tui_render::failed_buttons(mouse, l);
    assert(plan[at + 1] == buttons[0]);
    if let DrawView::Paragraph(r, p) = plan[at] {
        lemma_label(p, r, s.msg);
        assert(says(plan[at], l.msg, seq![s.msg]));
    }
    if let DrawView::Paragraph(r, p) = plan[at + 1] {
        lemma_label(p, r, " Cancel "@);
        assert(says(plan[at + 1], l.cancel, seq![" Cancel "@]));
    }
    if !s.permanent {
        let text = "Retrying in: "@ + retry_in + "s"@;
        if let DrawView::Paragraph(r, p) = plan[1] {
            lemma_label(p, r, text);
            assert(says(plan[1], l.retry_in, seq![text]));
        }
    }
    if let Some(retry) = l.retry {
        assert(plan[at + 2] == buttons[1]);
        if let DrawView::Paragraph(r, p) = plan[at + 2] {
            lemma_label(p, r, " Retry now"@);
            assert(says(plan[at + 2], retry, seq![" Retry now"@]));
        }
    }
}

// The screen of a shared server.

/// The screen of a shared server shows its address, and after it was copied, that
/// it was.
pub proof fn law_the_address_is_shown(s: RunningView, mouse: (u16, u16), l: RunningLayout)
    ensures
        ({
            let plan = tui_render::running_draws(s, mouse, l);
            let text = s.ip + if s.copied {
                " - Copied "@
            } else {
                Seq::empty()
            };
            let color = if l.ip.has(Position { x: mouse.0, y: mouse.1 }) {
                Color::LightGreen
            } else {
                Color::Cyan
            };
            &&& says(plan[1], l.ip, seq![text])
            &&& (plan[1] matches DrawView::Paragraph(_, p) && p.block matches Some(b) && b.bordered
                && b.title == Some(" Server IP "@) && b.style == (Style {
                fg: Some(color),
                bg: None,
            }))
            &&& frames(plan, l.players, " Players "@)
            &&& frames(plan, l.right, " Logs "@)
            &&& shows(
                plan,
                l.help,
                "Main Menu: q, Exit: Ctrl+C; (Some controls currently only available through mouse)"@,
            )
        }),
{
    let plan = tui_render::running_draws(s, mouse, l);
    let help =
        "Main Menu: q, Exit: Ctrl+C; (Some controls currently only available through mouse)"@;
    if let DrawView::Paragraph(r, p) = plan[0] {
        lemma_label(p, r, help);
        assert(says(plan[0], l.help, seq![help]));
    }
    let d = tui_render::ip_draw(s, Position { x: mouse.0, y: mouse.1 }, l);
    assert(plan[1] == d);
    if let DrawView::Paragraph(r, p) = d {
        reveal_with_fuel(spans_text, 3);
        let spans = p.lines[0].spans;
        if s.copied {
            assert(spans.drop_last().drop_last() =~= Seq::<SpanView>::empty());
            assert(spans_text(spans) =~= s.ip + " - Copied "@);
        } else {
            assert(spans.drop_last() =~= Seq::<SpanView>::empty());
            assert(spans_text(spans) =~= s.ip + Seq::<char>::empty());
        }
    }
    assert(plan[2] is Block && plan[3] is Block);
}

proof fn lemma_player_draws(
    s: RunningView,
    mouse: Position,
    rows: Seq<PlayerRow>,
    n: nat,
    i: int,
)
    requires
        0 <= i < n,
    ensures
        ({
            let plan = tui_render::player_draws(s, mouse, rows, n);
            let d = tui_render::player_draw(s.players[s.scroll_players + i].addr, mouse, rows[i]);
            plan.len() == 3 * n && plan[3 * i] == d[0] && plan[3 * i + 1] == d[1] && plan[3 * i
                + 2] == d[2]
        }),
    decreases n,
{
    if n > 1 {
        lemma_player_draws(
            s,
            mouse,
            rows,
            (n - 1) as nat,
            if i < n - 1 {
                i
            } else {
                0
            },
        );
    } else {
        assert(tui_render::player_draws(s, mouse, rows, 0).len() == 0);
    }
}

/// Every row with a player shows the address of that player, and the button that
/// cuts the player off, whose color tells whether the mouse is on it. The first
/// row shows the player up to which the list was scrolled.
pub proof fn law_players_are_shown(
    s: RunningView,
    mouse: (u16, u16),
    l: RunningLayout,
    i: int,
)
    requires
        0 <= i < l.player_rows@.len(),
    ensures
        ({
            let plan = tui_render::running_draws(s, mouse, l);
            let row = l.player_rows@[i];
            let color = if row.disconnect.has(Position { x: mouse.0, y: mouse.1 }) {
                Color::Magenta
            } else {
                Color::LightRed
            };
            &&& shows(plan, row.name, "TEST"@)
            &&& shows(plan, row.addr, s.players[s.scroll_players + i].addr.text())
            &&& shows_colored(
                plan,
                row.disconnect,
                " Disconnect "@,
                Style { fg: None, bg: Some(color) },
            )
        }),
{
    let plan = tui_render::running_draws(s, mouse, l);
    let pos = Position { x: mouse.0, y: mouse.1 };
    let n = l.player_rows@.len();
    let row = l.player_rows@[i];
    let players = tui_render::player_draws(s, pos, l.player_rows@, n);
    lemma_player_draws(s, pos, l.player_rows@, n, i);
    let at = 4 + 3 * i;
    assert(plan[at] == players[3 * i] && plan[at + 1] == players[3 * i + 1] && plan[at + 2]
        == players[3 * i + 2]);
    if let DrawView::Paragraph(r, p) = plan[at] {
        lemma_label(p, r, "TEST"@);
        assert(says(plan[at], row.name, seq!["TEST"@]));
    }
    let addr = s.players[s.scroll_players + i].addr.text();
    if let DrawView::Paragraph(r, p) = plan[at + 1] {
        lemma_label(p, r, addr);
        assert(says(plan[at + 1], row.addr, seq![addr]));
    }
    if let DrawView::Paragraph(r, p) = plan[at + 2] {
        lemma_label(p, r, " Disconnect "@);
        assert(says(plan[at + 2], row.disconnect, seq![" Disconnect "@]));
    }
}

proof fn lemma_log_draws(
    s: RunningView,
    rows: Seq<LogRow>,
    n: nat,
    i: int,
)
    requires
        0 <= i < n,
    ensures
        ({
            let plan = tui_render::log_draws(s, rows, n);
            let log = s.logs[s.scroll_logs + i];
            &&& plan.len() == 2 * n
            &&& says(plan[2 * i], rows[i].time, seq![log.time])
            &&& says(plan[2 * i + 1], rows[i].text, seq![log.text])
        }),
    decreases n,
{
    let plan = tui_render::log_draws(s, rows, n);
    if n > 1 {
        lemma_log_draws(
            s,
            rows,
            (n - 1) as nat,
            if i < n - 1 {
                i
            } else {
                0
            },
        );
    } else {
        assert(tui_render::log_draws(s, rows, 0).len() == 0);
    }
    if i == n - 1 {
        let log = s.logs[s.scroll_logs + i];
        if let DrawView::Paragraph(r, p) = plan[2 * i] {
            lemma_label(p, r, log.time);
        }
        if let DrawView::Paragraph(r, p) = plan[2 * i + 1] {
            lemma_label(p, r, log.text);
        }
    } else {
        let front = tui_render::log_draws(s, rows, (n - 1) as nat);
        assert(plan[2 * i] == front[2 * i] && plan[2 * i + 1] == front[2 * i + 1]);
    }
}

/// Every row with a line of the log shows when it happened, and what. The first
/// row shows the line up to which the log was scrolled.
pub proof fn law_the_log_is_shown(s: RunningView, mouse: (u16, u16), l: RunningLayout, i: int)
    requires
        0 <= i < l.log_rows@.len(),
    ensures
        ({
            let plan = tui_render::running_draws(s, mouse, l);
            let row = l.log_rows@[i];
            let log = s.logs[s.scroll_logs + i];
            shows(plan, row.time, log.time) && shows(plan, row.text, log.text)
        }),
{
    let plan = tui_render::running_draws(s, mouse, l);
    let pos = Position { x: mouse.0, y: mouse.1 };
    let n = l.log_rows@.len();
    let logs = tui_render::log_draws(s, l.log_rows@, n);
    let players = tui_render::player_draws(s, pos, l.player_rows@, l.player_rows@.len());
    lemma_log_draws(s, l.log_rows@, n, i);
    let at = 4 + players.len() + 2 * i;
    assert(plan[at] == logs[2 * i] && plan[at + 1] == logs[2 * i + 1]);
}

/// What the mouse can work is where it is drawn: the parts of the menu, and of the
/// screen of a shared server.
pub proof fn law_clicks_land_where_things_are_drawn(
    menu: MenuLayout,
    menu_boxes: MainMenuBoundingBoxes,
    s: RunningView,
    running: RunningLayout,
    boxes: RunningBoundingBoxes,
    i: int,
)
    requires
        tui_render::menu_boxes(menu, menu_boxes),
        tui_render::running_boxes(s, running, boxes),
    ensures
        menu_boxes.ip_rect == menu.server_ip,
        menu_boxes.domain_rect == menu.request_domain,
        menu_boxes.advanced_rect == menu.advanced,
        menu_boxes.start_rect == menu.start,
        menu_boxes.advanced_rects == menu.proxy,
        menu_boxes.server_rects@ == menu.servers@,
        boxes.ip_box == running.ip,
        boxes.players_box == running.players.within(),
        boxes.logs_box == running.right.within(),
        boxes.disconnects@.len() == running.player_rows@.len(),
        0 <= i < running.player_rows@.len() ==> boxes.disconnects@[i] == (
            s.players[s.scroll_players + i].addr,
            running.player_rows@[i].disconnect,
        ),
{
}

/// A cursor that lies no further right of the screen than can be counted, or that
/// covers a whole text, is never beyond.
pub proof fn law_cursors_on_the_screen_are_drawn(
    temp: TempView,
    advanced: bool,
    area: Rect,
    pos: usize,
)
    requires
        temp.cursor == Cursor::All || (temp.cursor == Cursor::Position(pos) && area.right() + pos
            <= u16::MAX),
    ensures
        !tui_render::is_cursor_beyond(temp, advanced, area),
{
}

// How it looks.

/// No colors of its own.
pub open spec fn bare() -> Style {
    Style { fg: None, bg: None }
}

/// One line of text, as it looks on this part of the screen.
pub open spec fn text_at(
    rect: Rect,
    text: Seq<char>,
    style: Style,
    centered: bool,
    block: Option<BlockView>,
) -> DrawView {
    DrawView::Paragraph(
        rect,
        ParagraphView {
            lines: seq![
                LineView { spans: seq![SpanView { text, style: bare() }], style: bare() },
            ],
            style,
            centered,
            wrapped: false,
            block,
        },
    )
}

/// A border in no color of its own.
pub open spec fn frame_of(title: Option<Seq<char>>) -> BlockView {
    BlockView { bordered: true, title, border_style: bare(), style: bare() }
}

/// A color behind something, and no border.
pub open spec fn ground(style: Style) -> BlockView {
    BlockView { bordered: false, title: None, border_style: bare(), style }
}

/// The text of a box stands at its left, in no color of its own, and what the
/// cursor covers black on green.
pub proof fn law_texts_look_plain(
    title: Seq<char>,
    content: Seq<char>,
    selected: bool,
    cursor: Cursor,
    mouse: Position,
    rect: Rect,
)
    ensures
        ({
            let plan = tui_render::text_box(title, content, selected, cursor, mouse, rect);
            let marked = Style { fg: Some(Color::Black), bg: Some(Color::Green) };
            &&& plan[1] == text_at(rect.within(), content, bare(), false, None)
            &&& selected ==> (plan[2] matches DrawView::Paragraph(r, p) && plan[2] == text_at(
                r,
                p.lines[0].spans[0].text,
                marked,
                false,
                None,
            ))
        }),
{
    let plan = tui_render::text_box(title, content, selected, cursor, mouse, rect);
    if selected {
        if let DrawView::Paragraph(_, p) = plan[2] {
            assert(p.lines =~~= seq![
                LineView {
                    spans: seq![SpanView { text: p.lines[0].spans[0].text, style: bare() }],
                    style: bare(),
                },
            ]);
        }
    }
}

/// The halves of the menu have a border each. The text on the start button stands
/// in its middle, in black, and so does what is said of the search for servers, in
/// no color of its own.
pub proof fn law_the_menu_looks_so(
    perm: PermView,
    temp: TempView,
    mouse: (u16, u16),
    l: MenuLayout,
)
    ensures
        ({
            let plan = tui_render::menu_draws(perm, temp, mouse, l);
            let pos = Position { x: mouse.0, y: mouse.1 };
            let buttons = tui_render::button_draws(temp, pos, l);
            let advanced = button_colors(temp.selected is AdvancedButton || l.advanced.has(pos));
            let start = button_colors(temp.selected is StartButton || l.start.has(pos));
            let black = Style { fg: Some(Color::Black), bg: None };
            &&& plan[0] == text_at(
                l.help,
                "Next: Tab, Previous: Shift+Tab, Exit: q, Select: Enter; (Can use mouse too!)"@,
                bare(),
                false,
                None,
            )
            &&& plan[1] == DrawView::Block(l.left, frame_of(None))
            &&& plan[2] == DrawView::Block(l.right, frame_of(None))
            &&& buttons.len() == 4
            &&& buttons[0] == text_at(
                l.advanced,
                " Advanced "@,
                bare(),
                false,
                Some(ground(advanced)),
            )
            &&& buttons[1] == DrawView::Block(l.start, ground(start))
            &&& buttons[2] == text_at(
                l.start_inner,
                "Start"@,
                bare(),
                true,
                Some(ground(black)),
            )
            &&& buttons[3] == text_at(l.loading, "Loading LAN servers..."@, bare(), true, None)
        }),
{
}

/// A server that was found is told by its colors: what it is in light blue, the
/// address in light green, that it was taken over in light magenta, and its
/// message in white.
pub proof fn law_servers_look_so(
    temp: TempView,
    mouse: Position,
    rects: Seq<Rect>,
    i: int,
)
    requires
        0 <= i < rects.len(),
        i <= usize::MAX,
    ensures
        ({
            let d = tui_render::server_draws(temp, mouse, rects)[i];
            let info = temp.servers[i];
            let colored = |text: Seq<char>, color: Color|
                SpanView { text, style: Style { fg: Some(color), bg: None } };
            let first = seq![
                colored("Lan Server"@, Color::LightBlue),
                SpanView { text: " - "@, style: bare() },
                colored(info.ip, Color::LightGreen),
            ];
            let spans = if temp.last_selected_server == Some(i as usize) {
                first.push(colored(" - Set as server IP!"@, Color::LightMagenta))
            } else {
                first
            };
            d matches DrawView::Paragraph(r, p) && {
                &&& r == rects[i] && p.lines.len() == 2
                &&& p.lines[0] == (LineView { spans, style: bare() })
                &&& p.lines[1] == (LineView {
                    spans: seq![SpanView { text: info.motd, style: bare() }],
                    style: Style { fg: Some(Color::White), bg: None },
                })
                &&& p.style == bare() && !p.centered && !p.wrapped
            }
        }),
{
}

/// While the proxy is connected to, everything but the help stands in the middle,
/// and what is waited for in a border.
pub proof fn law_the_connecting_screen_looks_so(
    s: LoadingState,
    mouse: (u16, u16),
    l: LoadingLayout,
)
    ensures
        ({
            let plan = tui_render::loading_draws(s, mouse, l);
            &&& plan[0] == text_at(
                l.help,
                "Next: Tab, Previous: Shift+Tab, Exit: q, Select: Enter; (Can use mouse too!)"@,
                bare(),
                false,
                None,
            )
            &&& plan[1] == text_at(
                l.loading,
                " Loading..."@,
                bare(),
                true,
                Some(frame_of(None)),
            )
            &&& plan[2] matches DrawView::Paragraph(_, p) && plan[2] == text_at(
                l.cancel,
                "Cancel"@,
                p.style,
                true,
                None,
            )
        }),
{
}

/// After a failure, everything but the help stands in the middle. What went wrong
/// is in a border that says so, and is broken into lines where it is long.
pub proof fn law_the_failure_screen_looks_so(
    s: FailedView,
    retry_in: Seq<char>,
    mouse: (u16, u16),
    l: FailedLayout,
)
    ensures
        ({
            let plan = tui_render::failed_draws(s, retry_in, mouse, l);
            let at: int = if s.permanent {
                1
            } else {
                2
            };
            &&& plan[0] == text_at(
                l.help,
                "Next: Tab, Previous: Shift+Tab, Exit: q, Select: Enter; (Can use mouse too!)"@,
                bare(),
                false,
                None,
            )
            &&& !s.permanent ==> plan[1] == text_at(
                l.retry_in,
                "Retrying in: "@ + retry_in + "s"@,
                bare(),
                true,
                Some(frame_of(None)),
            )
            &&& plan[at] == DrawView::Paragraph(
                l.msg,
                ParagraphView {
                    lines: seq![
                        LineView {
                            spans: seq![SpanView { text: s.msg, style: bare() }],
                            style: bare(),
                        },
                    ],
                    style: bare(),
                    centered: true,
                    wrapped: true,
                    block: Some(frame_of(Some(" Error "@))),
                },
            )
            &&& (plan[at + 1] matches DrawView::Paragraph(_, p) && plan[at + 1] == text_at(
                l.cancel,
                " Cancel "@,
                p.style,
                true,
                None,
            ))
            &&& l.retry matches Some(retry) ==> (plan[at + 2] matches DrawView::Paragraph(_, p)
                && plan[at + 2] == text_at(retry, " Retry now"@, p.style, true, None))
        }),
{
    let plan = tui_render::failed_draws(s, retry_in, mouse, l);
    let buttons = tui_render::failed_buttons(mouse, l);
    let at: int = if s.permanent {
        1
    } else {
        2
    };
    assert(plan[at + 1] == buttons[0]);
    if l.retry is Some {
        assert(plan[at + 2] == buttons[1]);
    }
}

/// On the screen of a shared server, everything stands at the left of its place,
/// the players and the log in borders that say so, and only that the address was
/// copied, and the buttons, are in a color of their own.
pub proof fn law_the_sharing_screen_looks_so(
    s: RunningView,
    mouse: (u16, u16),
    l: RunningLayout,
    row: PlayerRow,
    addr: SocketAddr,
)
    ensures
        ({
            let plan = tui_render::running_draws(s, mouse, l);
            let pos = Position { x: mouse.0, y: mouse.1 };
            let player = tui_render::player_draw(addr, pos, row);
            let ip = SpanView { text: s.ip, style: bare() };
            let copied = SpanView {
                text: " - Copied "@,
                style: Style { fg: Some(Color::Cyan), bg: None },
            };
            &&& plan[0] == text_at(
                l.help,
                "Main Menu: q, Exit: Ctrl+C; (Some controls currently only available through mouse)"@,
                bare(),
                false,
                None,
            )
            &&& (plan[1] matches DrawView::Paragraph(_, p) && p.lines == seq![
                LineView {
                    spans: if s.copied {
                        seq![ip, copied]
                    } else {
                        seq![ip]
                    },
                    style: bare(),
                },
            ] && p.style == bare() && !p.centered && !p.wrapped)
            &&& plan[2] == DrawView::Block(l.players, frame_of(Some(" Players "@)))
            &&& plan[3] == DrawView::Block(l.right, frame_of(Some(" Logs "@)))
            &&& player.len() == 3
            &&& player[0] == text_at(row.name, "TEST"@, bare(), false, None)
            &&& player[1] == text_at(row.addr, addr.text(), bare(), false, None)
            &&& (player[2] matches DrawView::Paragraph(_, p) && player[2] == text_at(
                row.disconnect,
                " Disconnect "@,
                p.style,
                false,
                None,
            ))
        }),
{
}

/// What is said here of the screens is said of what is drawn of them.
pub proof fn law_the_screens_are_drawn_so(
    mouse: (u16, u16),
    perm: MainMenuPermanentState,
    temp: MainMenuTemporaryState,
    menu: MenuLayout,
    menu_plan: (Vec<Draw>, MainMenuBoundingBoxes),
    loading: LoadingState,
    waiting: LoadingLayout,
    loading_plan: Vec<Draw>,
    failed: FailedState,
    retry_in: &str,
    failure: FailedLayout,
    failed_plan: Vec<Draw>,
    running: RunningState,
    server: RunningLayout,
    running_plan: (Vec<Draw>, RunningBoundingBoxes),
)
    requires
        call_ensures(MainMenuTemporaryState::plan, (&temp, &perm, mouse, menu), menu_plan),
        call_ensures(LoadingState::plan, (&loading, mouse, waiting), loading_plan),
        call_ensures(FailedState::plan, (&failed, retry_in, mouse, failure), failed_plan),
        call_ensures(RunningState::plan, (&running, mouse, server), running_plan),
    ensures
        draw::draws(menu_plan.0@) == tui_render::menu_draws(perm@, temp@, mouse, menu),
        tui_render::menu_boxes(menu, menu_plan.1),
        draw::draws(loading_plan@) == tui_render::loading_draws(loading, mouse, waiting),
        draw::draws(failed_plan@) == tui_render::failed_draws(failed@, retry_in@, mouse, failure),
        draw::draws(running_plan.0@) == tui_render::running_draws(running@, mouse, server),
        tui_render::running_boxes(running@, server, running_plan.1),
{
}

} // verus!
