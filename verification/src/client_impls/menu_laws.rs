//! What the menu is for: how what is typed, selected, clicked and pasted becomes
//! what is asked of the proxy.

use crate::client_impls::geometry::{Position, Rect};
use crate::client_impls::menu;
use crate::client_impls::menu::MenuView;
use crate::client_impls::types::{
    Cursor, KeyCode, KeyEvent, MainMenuBoundingBoxes, MainMenuEventResult, MouseEvent,
    MouseEventKind, PermView, SelectedBlock, TempView, TerminalEvent,
};
use crate::search;
use crate::text;
use vstd::prelude::*;
use vstd::utf8;

verus! {

/// A key that is pressed, alone or with Control.
pub open spec fn pressed(code: KeyCode, control: bool) -> TerminalEvent {
    TerminalEvent::Key(KeyEvent { code, control, release: false })
}

/// Whether a character may stand in an address: a letter or a digit of ASCII, a
/// dash, a dot or a colon.
pub open spec fn is_address_char(c: char) -> bool {
    let n = c as u32;
    ||| 48 <= n <= 57
    ||| 65 <= n <= 90
    ||| 97 <= n <= 122
    ||| n == 45
    ||| n == 46
    ||| n == 58
}

/// Whether the text of the selected part is edited, with this text in it.
pub open spec fn is_editing(m: MenuView, text: Seq<char>) -> bool {
    match m.temp.selected {
        SelectedBlock::ServerIp => m.perm.server_ip == text,
        SelectedBlock::RequestedDomain => m.perm.request_domain == text,
        SelectedBlock::ProxyIp => m.perm.proxy_server == text,
        SelectedBlock::PlayPort => m.perm.proxy_server_play_port == text,
        SelectedBlock::InitPort => m.perm.proxy_server_init_port == text,
        _ => false,
    }
}

/// Whether the menu is the same but for the text of the selected part and the
/// cursor.
pub open spec fn is_same_but_text(a: MenuView, b: MenuView) -> bool {
    let block = a.temp.selected;
    &&& a.mouse == b.mouse
    &&& a.temp.servers == b.temp.servers
    &&& a.temp.last_selected_server == b.temp.last_selected_server
    &&& a.temp.selected == b.temp.selected
    &&& a.temp.errors == b.temp.errors
    &&& a.perm.advanced == b.perm.advanced
    &&& block != SelectedBlock::ServerIp ==> a.perm.server_ip == b.perm.server_ip
    &&& block != SelectedBlock::RequestedDomain ==> a.perm.request_domain
        == b.perm.request_domain
    &&& block != SelectedBlock::ProxyIp ==> a.perm.proxy_server == b.perm.proxy_server
    &&& block != SelectedBlock::PlayPort ==> a.perm.proxy_server_play_port
        == b.perm.proxy_server_play_port
    &&& block != SelectedBlock::InitPort ==> a.perm.proxy_server_init_port
        == b.perm.proxy_server_init_port
}

/// Whether a key made this text and this cursor of the selected part, and changed
/// nothing else.
pub open spec fn makes(
    m: MenuView,
    e: TerminalEvent,
    boxes: MainMenuBoundingBoxes,
    text: Seq<char>,
    pos: int,
) -> bool {
    let (after, result) = m.event(e, boxes);
    &&& is_same_but_text(m, after)
    &&& is_editing(after, text)
    &&& after.temp.cursor == Cursor::Position(pos as usize)
    &&& result == MainMenuEventResult::Redraw
}

/// Whether an event changes nothing.
pub open spec fn is_ignored(m: MenuView, e: TerminalEvent, boxes: MainMenuBoundingBoxes) -> bool {
    m.event(e, boxes) == (m, MainMenuEventResult::Done)
}

/// What is typed stands at the cursor, which moves behind it. What cannot stand
/// in an address is not taken.
pub proof fn law_typing_inserts(
    m: MenuView,
    boxes: MainMenuBoundingBoxes,
    text: Seq<char>,
    pos: usize,
    c: char,
    control: bool,
)
    requires
        is_editing(m, text),
        m.temp.cursor == Cursor::Position(pos),
        pos <= text.len(),
        pos < usize::MAX,
        control ==> c != 'a' && c != 'c',
    ensures
        is_address_char(c) ==> makes(
            m,
            pressed(KeyCode::Char(c), control),
            boxes,
            text.take(pos as int).push(c) + text.skip(pos as int),
            pos + 1,
        ),
        !is_address_char(c) ==> is_ignored(m, pressed(KeyCode::Char(c), control), boxes),
{
    assert(text.insert(pos as int, c) =~= text.take(pos as int).push(c) + text.skip(pos as int));
}

/// Backspace takes away the character before the cursor, and Delete the one
/// behind it. Where there is none, nothing changes.
pub proof fn law_erasing_takes_one_character(
    m: MenuView,
    boxes: MainMenuBoundingBoxes,
    text: Seq<char>,
    pos: usize,
    control: bool,
)
    requires
        is_editing(m, text),
        m.temp.cursor == Cursor::Position(pos),
        pos <= text.len(),
    ensures
        pos > 0 ==> makes(
            m,
            pressed(KeyCode::Backspace, control),
            boxes,
            text.take(pos - 1) + text.skip(pos as int),
            pos - 1,
        ),
        pos == 0 ==> is_ignored(m, pressed(KeyCode::Backspace, control), boxes),
        pos < text.len() ==> makes(
            m,
            pressed(KeyCode::Delete, control),
            boxes,
            text.take(pos as int) + text.skip(pos + 1),
            pos as int,
        ),
        pos == text.len() ==> is_ignored(m, pressed(KeyCode::Delete, control), boxes),
{
    if pos > 0 {
        assert(text.remove(pos - 1) =~= text.take(pos - 1) + text.skip(pos as int));
    }
    if pos < text.len() {
        assert(text.remove(pos as int) =~= text.take(pos as int) + text.skip(pos + 1));
    }
}

/// The arrows move the cursor by one character, as far as the text reaches, and
/// Home and End to its ends. The text stays as it is.
pub proof fn law_arrows_move_the_cursor(
    m: MenuView,
    boxes: MainMenuBoundingBoxes,
    text: Seq<char>,
    pos: usize,
    control: bool,
)
    requires
        is_editing(m, text),
        m.temp.cursor == Cursor::Position(pos),
        pos <= text.len() <= usize::MAX,
    ensures
        pos > 0 ==> makes(m, pressed(KeyCode::Left, control), boxes, text, pos - 1),
        pos == 0 ==> is_ignored(m, pressed(KeyCode::Left, control), boxes),
        pos < text.len() ==> makes(m, pressed(KeyCode::Right, control), boxes, text, pos + 1),
        pos == text.len() ==> is_ignored(m, pressed(KeyCode::Right, control), boxes),
        makes(m, pressed(KeyCode::Home, control), boxes, text, 0),
        makes(m, pressed(KeyCode::End, control), boxes, text, text.len() as int),
{
}

/// Control and A select the whole text of a part. What is typed then takes its
/// place, erasing leaves nothing of it, and moving lets go of it at either end.
pub proof fn law_a_whole_text_is_replaced(
    m: MenuView,
    boxes: MainMenuBoundingBoxes,
    text: Seq<char>,
    c: char,
    control: bool,
)
    requires
        is_editing(m, text),
        text.len() <= usize::MAX,
        is_address_char(c),
        control ==> c != 'a' && c != 'c',
    ensures
        ({
            let (all, result) = m.event(pressed(KeyCode::Char('a'), true), boxes);
            &&& result == MainMenuEventResult::Redraw
            &&& all == (MenuView { temp: TempView { cursor: Cursor::All, ..m.temp }, ..m })
            &&& makes(all, pressed(KeyCode::Char(c), control), boxes, seq![c], 1)
            &&& makes(all, pressed(KeyCode::Backspace, control), boxes, Seq::empty(), 0)
            &&& makes(all, pressed(KeyCode::Delete, control), boxes, Seq::empty(), 0)
            &&& makes(all, pressed(KeyCode::Left, control), boxes, text, 0)
            &&& makes(all, pressed(KeyCode::Home, control), boxes, text, 0)
            &&& makes(all, pressed(KeyCode::Right, control), boxes, text, text.len() as int)
            &&& makes(all, pressed(KeyCode::End, control), boxes, text, text.len() as int)
        }),
{
}

/// Control and A select the whole text, whatever part is selected, and change
/// nothing else.
pub proof fn law_a_whole_text_is_selected(m: MenuView, boxes: MainMenuBoundingBoxes)
    ensures
        m.event(pressed(KeyCode::Char('a'), true), boxes) == (
            MenuView { temp: TempView { cursor: Cursor::All, ..m.temp }, ..m },
            MainMenuEventResult::Redraw,
        ),
{
}

/// What is pasted stands at the cursor, or in the place of a text that is
/// selected as a whole, but for what cannot stand in an address. Where no text is
/// edited, it is not taken.
pub proof fn law_pasting_inserts(
    m: MenuView,
    boxes: MainMenuBoundingBoxes,
    text: Seq<char>,
    pasted: String,
)
    requires
        m.temp.cursor matches Cursor::Position(pos) ==> pos <= text.len(),
    ensures
        ({
            let (after, result) = m.event(TerminalEvent::Paste(pasted), boxes);
            let taken = pasted@.filter(|c: char| is_address_char(c));
            &&& result == MainMenuEventResult::Done
            &&& is_same_but_text(m, after) && after.temp.cursor == m.temp.cursor
            &&& is_editing(m, text) ==> is_editing(
                after,
                match m.temp.cursor {
                    Cursor::Position(pos) => text.take(pos as int) + taken + text.skip(pos as int),
                    Cursor::All => taken,
                },
            )
            &&& (m.temp.selected is Nothing || m.temp.selected is AdvancedButton
                || m.temp.selected is StartButton) ==> after == m
        }),
{
    let a = |c: char| is_address_char(c);
    let b = |c: char| menu::typeable(c);
    assert forall|c: char| #[trigger] a(c) == b(c) by {
        lemma_address_char(c);
    }
    lemma_same_filter(pasted@, a, b);
}

proof fn lemma_address_char(c: char)
    ensures
        is_address_char(c) == menu::typeable(c),
{
}

proof fn lemma_same_filter(s: Seq<char>, a: spec_fn(char) -> bool, b: spec_fn(char) -> bool)
    requires
        forall|c: char| #[trigger] a(c) == b(c),
    ensures
        s.filter(a) == s.filter(b),
    decreases s.len(),
{
    reveal(Seq::filter);
    if s.len() > 0 {
        lemma_same_filter(s.drop_last(), a, b);
    }
}

/// The parts of the menu that are shown, from the top.
pub open spec fn parts(advanced: bool) -> Seq<SelectedBlock> {
    if advanced {
        seq![
            SelectedBlock::ServerIp,
            SelectedBlock::RequestedDomain,
            SelectedBlock::AdvancedButton,
            SelectedBlock::ProxyIp,
            SelectedBlock::PlayPort,
            SelectedBlock::InitPort,
            SelectedBlock::StartButton,
        ]
    } else {
        seq![
            SelectedBlock::ServerIp,
            SelectedBlock::RequestedDomain,
            SelectedBlock::AdvancedButton,
            SelectedBlock::StartButton,
        ]
    }
}

/// Whether an event selects a part, puts the cursor behind its text, if it has
/// one, and takes the mouse away.
pub open spec fn selects(
    m: MenuView,
    e: TerminalEvent,
    boxes: MainMenuBoundingBoxes,
    block: SelectedBlock,
) -> bool {
    let (after, result) = m.event(e, boxes);
    &&& result == MainMenuEventResult::Redraw
    &&& after.perm == m.perm
    &&& after.mouse == (u16::MAX, u16::MAX)
    &&& after.temp.selected == block
    &&& after.temp.servers == m.temp.servers && after.temp.errors == m.temp.errors
    &&& after.temp.last_selected_server == m.temp.last_selected_server
    &&& forall|text: Seq<char>|
        #[trigger] is_editing(after, text) && utf8::is_ascii_chars(text) ==> after.temp.cursor
            == Cursor::Position(text.len() as usize)
}

proof fn lemma_cursor_behind(m: MenuView, e: TerminalEvent, boxes: MainMenuBoundingBoxes)
    requires
        e matches TerminalEvent::Key(k) && (k.code is Tab || k.code is Down || k.code is BackTab
            || k.code is Up) && !k.release,
    ensures
        ({
            let after = m.event(e, boxes).0;
            forall|text: Seq<char>|
                #[trigger] is_editing(after, text) && utf8::is_ascii_chars(text)
                    ==> after.temp.cursor == Cursor::Position(text.len() as usize)
        }),
{
    let after = m.event(e, boxes).0;
    assert forall|text: Seq<char>|
        #[trigger] is_editing(after, text) && utf8::is_ascii_chars(text) implies after.temp.cursor
        == Cursor::Position(text.len() as usize) by {
        utf8::is_ascii_chars_encode_utf8(text);
    }
}

/// Down and Tab lead to the next part that is shown, and Up and Shift with Tab to
/// the one before, both round the end. From nowhere they lead to the first and to
/// the last part.
pub proof fn law_keys_lead_through_the_parts(
    m: MenuView,
    boxes: MainMenuBoundingBoxes,
    i: int,
    control: bool,
)
    requires
        0 <= i < parts(m.perm.advanced).len(),
    ensures
        ({
            let p = parts(m.perm.advanced);
            let n = p.len() as int;
            let next = p[if i + 1 < n { i + 1 } else { 0 }];
            let previous = p[if i > 0 { i - 1 } else { n - 1 }];
            &&& m.temp.selected == p[i] ==> {
                &&& selects(m, pressed(KeyCode::Down, control), boxes, next)
                &&& selects(m, pressed(KeyCode::Tab, control), boxes, next)
                &&& selects(m, pressed(KeyCode::Up, control), boxes, previous)
                &&& selects(m, pressed(KeyCode::BackTab, control), boxes, previous)
            }
            &&& m.temp.selected == SelectedBlock::Nothing ==> {
                &&& selects(m, pressed(KeyCode::Down, control), boxes, p[0])
                &&& selects(m, pressed(KeyCode::Tab, control), boxes, p[0])
                &&& selects(m, pressed(KeyCode::Up, control), boxes, p[n - 1])
                &&& selects(m, pressed(KeyCode::BackTab, control), boxes, p[n - 1])
            }
        }),
{
    lemma_cursor_behind(m, pressed(KeyCode::Down, control), boxes);
    lemma_cursor_behind(m, pressed(KeyCode::Tab, control), boxes);
    lemma_cursor_behind(m, pressed(KeyCode::Up, control), boxes);
    lemma_cursor_behind(m, pressed(KeyCode::BackTab, control), boxes);
}

/// Enter starts on the start button, shows or hides the settings of the proxy on
/// their button, and does nothing elsewhere.
pub proof fn law_enter_works_the_buttons(
    m: MenuView,
    boxes: MainMenuBoundingBoxes,
    control: bool,
)
    ensures
        ({
            let (after, result) = m.event(pressed(KeyCode::Enter, control), boxes);
            match m.temp.selected {
                SelectedBlock::StartButton => after == m && result == MainMenuEventResult::Start,
                SelectedBlock::AdvancedButton => result == MainMenuEventResult::Redraw && after
                    == (MenuView {
                    perm: PermView { advanced: !m.perm.advanced, ..m.perm },
                    ..m
                }),
                _ => after == m && result == MainMenuEventResult::Done,
            }
        }),
{
}

/// Escape lets go of what is selected, and changes nothing else.
pub proof fn law_escape_lets_go(m: MenuView, boxes: MainMenuBoundingBoxes, control: bool)
    ensures
        m.event(pressed(KeyCode::Esc, control), boxes) == (
            MenuView {
                temp: TempView {
                    selected: SelectedBlock::Nothing,
                    cursor: Cursor::Position(0),
                    ..m.temp
                },
                ..m
            },
            MainMenuEventResult::Redraw,
        ),
{
}

/// Control and C leave the app from anywhere. So does Q, but where a text is
/// edited it is typed. Keys that are let go of, keys that mean nothing, and what
/// else the terminal tells change nothing.
pub proof fn law_leaving_the_menu(
    m: MenuView,
    boxes: MainMenuBoundingBoxes,
    k: KeyEvent,
    text: Seq<char>,
)
    ensures
        m.event(pressed(KeyCode::Char('c'), true), boxes) == (m, MainMenuEventResult::Exit),
        (m.temp.selected is Nothing || m.temp.selected is AdvancedButton
            || m.temp.selected is StartButton) ==> m.event(
            pressed(KeyCode::Char('q'), false),
            boxes,
        ) == (m, MainMenuEventResult::Exit),
        is_editing(m, text) ==> m.event(pressed(KeyCode::Char('q'), false), boxes).1
            != MainMenuEventResult::Exit,
        k.release ==> is_ignored(m, TerminalEvent::Key(k), boxes),
        k.code is Other ==> is_ignored(m, TerminalEvent::Key(k), boxes),
        is_ignored(m, TerminalEvent::Other, boxes),
{
}

/// The mouse is where it was moved to. Nothing else changes.
pub proof fn law_the_mouse_is_followed(m: MenuView, boxes: MainMenuBoundingBoxes, e: MouseEvent)
    ensures
        e.kind is Moved ==> m.event(TerminalEvent::Mouse(e), boxes) == (
            MenuView { mouse: (e.column, e.row), ..m },
            MainMenuEventResult::Redraw,
        ),
        !(e.kind is Moved || e.kind is Up) ==> is_ignored(m, TerminalEvent::Mouse(e), boxes),
{
}

/// Whether a click selects a part that is edited, and puts the cursor behind its
/// text.
pub open spec fn clicks_into(
    m: MenuView,
    e: MouseEvent,
    boxes: MainMenuBoundingBoxes,
    block: SelectedBlock,
) -> bool {
    let (after, result) = m.event(TerminalEvent::Mouse(e), boxes);
    &&& result == MainMenuEventResult::Redraw
    &&& after.perm == m.perm
    &&& after.temp.selected == block
    &&& after.temp.last_selected_server is None
    &&& forall|text: Seq<char>|
        #[trigger] is_editing(after, text) && utf8::is_ascii_chars(text) ==> after.temp.cursor
            == Cursor::Position(text.len() as usize)
}

/// Whether a cell lies in one of the parts of the menu.
pub open spec fn is_on_a_part(boxes: MainMenuBoundingBoxes, pos: Position) -> bool {
    ||| boxes.ip_rect.has(pos)
    ||| boxes.domain_rect.has(pos)
    ||| boxes.advanced_rect.has(pos)
    ||| boxes.start_rect.has(pos)
    ||| boxes.advanced_rects matches Some(b) && (b.proxy_ip.has(pos) || b.play_port.has(pos)
        || b.init_port.has(pos))
}

/// Whether the parts of the menu lie apart at a cell.
pub open spec fn are_apart(boxes: MainMenuBoundingBoxes, pos: Position) -> bool {
    let hits = |r: Rect|
        if r.has(pos) {
            1int
        } else {
            0
        };
    let proxy = match boxes.advanced_rects {
        Some(b) => hits(b.proxy_ip) + hits(b.play_port) + hits(b.init_port),
        None => 0,
    };
    hits(boxes.ip_rect) + hits(boxes.domain_rect) + hits(boxes.advanced_rect) + hits(
        boxes.start_rect,
    ) + proxy <= 1
}

/// A click on a text edits it, one on the button of the settings shows or hides
/// them, and one on the start button starts. After each the mouse is taken away,
/// and what is found and reported stays.
pub proof fn law_clicks_work_the_parts(m: MenuView, boxes: MainMenuBoundingBoxes, e: MouseEvent)
    requires
        e.kind is Up,
        are_apart(boxes, e.at()),
    ensures
        ({
            let pos = e.at();
            let (after, result) = m.event(TerminalEvent::Mouse(e), boxes);
            &&& after.mouse == (u16::MAX, u16::MAX)
            &&& after.temp.servers == m.temp.servers && after.temp.errors == m.temp.errors
            &&& is_on_a_part(boxes, pos) ==> after.temp.last_selected_server is None
            &&& boxes.ip_rect.has(pos) ==> clicks_into(m, e, boxes, SelectedBlock::ServerIp)
            &&& boxes.domain_rect.has(pos) ==> clicks_into(
                m,
                e,
                boxes,
                SelectedBlock::RequestedDomain,
            )
            &&& boxes.advanced_rects matches Some(b) ==> {
                &&& b.proxy_ip.has(pos) ==> clicks_into(m, e, boxes, SelectedBlock::ProxyIp)
                &&& b.play_port.has(pos) ==> clicks_into(m, e, boxes, SelectedBlock::PlayPort)
                &&& b.init_port.has(pos) ==> clicks_into(m, e, boxes, SelectedBlock::InitPort)
            }
            &&& boxes.advanced_rect.has(pos) ==> result == MainMenuEventResult::Redraw
                && after.perm == (PermView { advanced: !m.perm.advanced, ..m.perm })
                && after.temp.selected == SelectedBlock::Nothing && after.temp.cursor
                == m.temp.cursor
            &&& boxes.start_rect.has(pos) ==> result == MainMenuEventResult::Start && after.perm
                == m.perm && after.temp.selected == m.temp.selected && after.temp.cursor
                == m.temp.cursor
        }),
{
    lemma_click_cursor(m, boxes, e);
}

proof fn lemma_click_cursor(m: MenuView, boxes: MainMenuBoundingBoxes, e: MouseEvent)
    requires
        e.kind is Up,
        is_on_a_part(boxes, e.at()) ==> !boxes.advanced_rect.has(e.at()) && !boxes.start_rect.has(
            e.at(),
        ) || are_apart(boxes, e.at()),
    ensures
        ({
            let pos = e.at();
            let after = m.event(TerminalEvent::Mouse(e), boxes).0;
            is_on_a_part(boxes, pos) && !boxes.advanced_rect.has(pos) && !boxes.start_rect.has(pos)
                ==> forall|text: Seq<char>|
                #[trigger] is_editing(after, text) && utf8::is_ascii_chars(text)
                    ==> after.temp.cursor == Cursor::Position(text.len() as usize)
        }),
{
    let pos = e.at();
    let after = m.event(TerminalEvent::Mouse(e), boxes).0;
    if is_on_a_part(boxes, pos) && !boxes.advanced_rect.has(pos) && !boxes.start_rect.has(pos) {
        assert forall|text: Seq<char>|
            #[trigger] is_editing(after, text) && utf8::is_ascii_chars(
                text,
            ) implies after.temp.cursor == Cursor::Position(text.len() as usize) by {
            utf8::is_ascii_chars_encode_utf8(text);
        }
    }
}

/// A click on a server that was found takes its address over, selects it, and
/// marks the server. A click beside everything lets go of what is selected.
pub proof fn law_clicks_take_servers_over(
    m: MenuView,
    boxes: MainMenuBoundingBoxes,
    e: MouseEvent,
    i: int,
)
    requires
        e.kind is Up,
        !is_on_a_part(boxes, e.at()),
        boxes.server_rects@.len() <= m.temp.servers.len() <= usize::MAX,
    ensures
        ({
            let pos = e.at();
            let (after, result) = m.event(TerminalEvent::Mouse(e), boxes);
            let rects = boxes.server_rects@;
            let first = 0 <= i < rects.len() && rects[i].has(pos) && forall|j: int|
                0 <= j < i ==> !(#[trigger] rects[j]).has(pos);
            let none = forall|j: int| 0 <= j < rects.len() ==> !(#[trigger] rects[j]).has(pos);
            &&& after.mouse == (u16::MAX, u16::MAX)
            &&& after.temp.servers == m.temp.servers && after.temp.errors == m.temp.errors
            &&& first ==> {
                &&& after.perm == (PermView { server_ip: m.temp.servers[i].ip, ..m.perm })
                &&& after.temp.selected == SelectedBlock::ServerIp
                &&& after.temp.last_selected_server == Some(i as usize)
                &&& result == MainMenuEventResult::Redraw
                &&& utf8::is_ascii_chars(m.temp.servers[i].ip) ==> after.temp.cursor
                    == Cursor::Position(m.temp.servers[i].ip.len() as usize)
            }
            &&& none ==> {
                &&& after.perm == m.perm
                &&& after.temp.selected == SelectedBlock::Nothing
                &&& after.temp.last_selected_server is None
                &&& after.temp.cursor == m.temp.cursor
                &&& result == if m.temp.selected == SelectedBlock::Nothing {
                    MainMenuEventResult::Done
                } else {
                    MainMenuEventResult::Redraw
                }
            }
        }),
{
    let pos = e.at();
    let rects = boxes.server_rects@;
    let hit = |r: Rect| r.has(pos);
    search::law_first_where(rects, hit);
    if 0 <= i < rects.len() && utf8::is_ascii_chars(m.temp.servers[i].ip) {
        utf8::is_ascii_chars_encode_utf8(m.temp.servers[i].ip);
    }
    if 0 <= i < rects.len() && rects[i].has(pos) && (forall|j: int|
        0 <= j < i ==> !(#[trigger] rects[j]).has(pos)) {
        assert forall|j: int| 0 <= j < i implies !hit(#[trigger] rects[j]) by {}
        search::lemma_found(rects, hit, i);
    }
    if forall|j: int| 0 <= j < rects.len() ==> !(#[trigger] rects[j]).has(pos) {
        assert forall|j: int| 0 <= j < rects.len() implies !hit(#[trigger] rects[j]) by {}
        search::lemma_absent(rects, hit);
    }
}

/// Sharing can start exactly where there is an address and both ports are
/// numbers. What is asked of the proxy is then what stands in the menu, and no
/// domain where none stands there.
pub proof fn law_starting_asks_for_what_was_typed(perm: PermView)
    ensures
        ({
            let play = text::u16_text(perm.proxy_server_play_port);
            let init = text::u16_text(perm.proxy_server_init_port);
            let options = menu::connect_options(perm);
            &&& menu::startable(perm) <==> perm.server_ip.len() > 0 && play is Some && init is Some
            &&& menu::startable(perm) ==> {
                &&& options.server_ip == perm.server_ip
                &&& options.proxy_server == perm.proxy_server
                &&& Some(options.proxy_server_play_port) == play
                &&& Some(options.proxy_server_init_port) == init
                &&& perm.request_domain.len() == 0 <==> options.request_domain is None
                &&& options.request_domain is Some ==> options.request_domain == Some(
                    perm.request_domain,
                )
            }
        }),
{
}

/// Where sharing cannot start, every reason is given, and none where it can.
pub proof fn law_every_mistake_is_told(perm: PermView)
    ensures
        ({
            let errors = menu::start_errors(perm);
            let play = text::u16_text(perm.proxy_server_play_port) is None;
            let init = text::u16_text(perm.proxy_server_init_port) is None;
            let empty = perm.server_ip.len() == 0;
            &&& errors.len() == (if empty { 1int } else { 0 }) + (if play { 1int } else { 0 }) + (
            if init { 1int } else { 0 })
            &&& errors.len() == 0 <==> menu::startable(perm)
            &&& empty <==> errors.contains("Server IP should not be empty!"@)
            &&& play ==> errors.contains(
                "Failed to parse proxy server play port: "@ + perm.proxy_server_play_port,
            )
            &&& init ==> errors.contains(
                "Failed to parse proxy server init port: "@ + perm.proxy_server_init_port,
            )
        }),
{
    reveal_strlit("Server IP should not be empty!");
    reveal_strlit("Failed to parse proxy server play port: ");
    reveal_strlit("Failed to parse proxy server init port: ");
    let errors = menu::start_errors(perm);
    let a = "Server IP should not be empty!"@;
    let b = "Failed to parse proxy server play port: "@ + perm.proxy_server_play_port;
    let c = "Failed to parse proxy server init port: "@ + perm.proxy_server_init_port;
    assert(a[0] == 'S' && b[0] == 'F' && c[0] == 'F');
    if perm.server_ip.len() == 0 {
        assert(errors[0] == a);
    }
    if text::u16_text(perm.proxy_server_play_port) is None {
        assert(errors[if perm.server_ip.len() == 0 { 1 } else { 0 }] == b);
    }
    if text::u16_text(perm.proxy_server_init_port) is None {
        assert(errors[errors.len() - 1] == c);
    }
}

} // verus!
