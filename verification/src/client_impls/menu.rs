//! The menu: how it is worked on, and what it takes to start sharing.

use crate::client_impls::geometry::{Position, Rect};
use crate::client_impls::types;
use crate::client_impls::types::{
    ascii_len, ConnectOptions, ConnectView, Cursor, KeyCode, KeyEvent,
    MainMenuBoundingBoxes, MainMenuEventResult, MainMenuPermanentState, MainMenuTemporaryState,
    MouseEventKind, PermView, SelectedBlock, TempView, TerminalEvent, TuiApp,
};
use crate::search;
use crate::text;
use crate::text::{concat, parse_u16};
use vstd::prelude::*;
use vstd::utf8;

verus! {

/// The menu with the place of the mouse.
#[verifier::ext_equal]
pub struct MenuView {
    pub perm: PermView,
    pub temp: TempView,
    pub mouse: (u16, u16),
}

/// The place of a mouse that points nowhere.
pub open spec fn nowhere() -> (u16, u16) {
    (u16::MAX, u16::MAX)
}

/// Whether a character can be typed into a text of the menu.
pub open spec fn typeable(c: char) -> bool {
    ||| 'a' <= c <= 'z'
    ||| 'A' <= c <= 'Z'
    ||| '0' <= c <= '9'
    ||| c == '-'
    ||| c == '.'
    ||| c == ':'
}

/// Whether a character can be typed into a text of the menu.
pub fn is_typeable(c: char) -> (r: bool)
    ensures
        r == typeable(c),
{
    ('a' <= c && c <= 'z') || ('A' <= c && c <= 'Z') || ('0' <= c && c <= '9') || c == '-' || c
        == '.' || c == ':'
}

/// The part of the menu below another, round the end.
pub open spec fn next_block(block: SelectedBlock, advanced: bool) -> SelectedBlock {
    match block {
        SelectedBlock::ServerIp => SelectedBlock::RequestedDomain,
        SelectedBlock::RequestedDomain => SelectedBlock::AdvancedButton,
        SelectedBlock::ProxyIp => SelectedBlock::PlayPort,
        SelectedBlock::PlayPort => SelectedBlock::InitPort,
        SelectedBlock::InitPort => SelectedBlock::StartButton,
        SelectedBlock::AdvancedButton => if advanced {
            SelectedBlock::ProxyIp
        } else {
            SelectedBlock::StartButton
        },
        SelectedBlock::Nothing | SelectedBlock::StartButton => SelectedBlock::ServerIp,
    }
}

/// The part of the menu above another, round the end.
pub open spec fn previous_block(block: SelectedBlock, advanced: bool) -> SelectedBlock {
    match block {
        SelectedBlock::Nothing | SelectedBlock::ServerIp => SelectedBlock::StartButton,
        SelectedBlock::RequestedDomain => SelectedBlock::ServerIp,
        SelectedBlock::ProxyIp => SelectedBlock::AdvancedButton,
        SelectedBlock::PlayPort => SelectedBlock::ProxyIp,
        SelectedBlock::InitPort => SelectedBlock::PlayPort,
        SelectedBlock::AdvancedButton => SelectedBlock::RequestedDomain,
        SelectedBlock::StartButton => if advanced {
            SelectedBlock::InitPort
        } else {
            SelectedBlock::AdvancedButton
        },
    }
}

/// What a key makes of the text that is edited and of the cursor, or `None`
/// where it changes nothing.
pub open spec fn edited(text: Seq<char>, cursor: Cursor, code: KeyCode) -> Option<
    (Seq<char>, Cursor),
> {
    match (code, cursor) {
        (KeyCode::Backspace, Cursor::Position(pos)) => if pos > 0 && text.len() > 0 {
            Some((text.remove(pos - 1), Cursor::Position((pos - 1) as usize)))
        } else {
            None
        },
        (KeyCode::Delete, Cursor::Position(pos)) => if pos < text.len() {
            Some((text.remove(pos as int), cursor))
        } else {
            None
        },
        (KeyCode::Backspace | KeyCode::Delete, Cursor::All) => Some(
            (Seq::empty(), Cursor::Position(0)),
        ),
        (KeyCode::Left, Cursor::Position(pos)) => if pos > 0 {
            Some((text, Cursor::Position((pos - 1) as usize)))
        } else {
            None
        },
        (KeyCode::Right, Cursor::Position(pos)) => if pos < text.len() {
            Some((text, Cursor::Position((pos + 1) as usize)))
        } else {
            None
        },
        (KeyCode::Left, Cursor::All) | (KeyCode::Home, _) => Some((text, Cursor::Position(0))),
        (KeyCode::Right, Cursor::All) | (KeyCode::End, _) => Some(
            (text, Cursor::Position(text.len() as usize)),
        ),
        (KeyCode::Char(c), Cursor::Position(pos)) => if typeable(c) {
            Some((text.insert(pos as int, c), Cursor::Position((pos + 1) as usize)))
        } else {
            None
        },
        (KeyCode::Char(c), Cursor::All) => if typeable(c) {
            Some((seq![c], Cursor::Position(1)))
        } else {
            None
        },
        _ => None,
    }
}

impl MenuView {
    /// The menu with this part selected, and the cursor behind its text.
    pub open spec fn select(self, block: SelectedBlock) -> MenuView {
        MenuView {
            temp: TempView {
                selected: block,
                cursor: types::cursor_at(self.perm, block, self.temp.cursor),
                ..self.temp
            },
            ..self
        }
    }

    /// The menu with the settings of the proxy shown or hidden.
    pub open spec fn toggled(self) -> MenuView {
        MenuView { perm: PermView { advanced: !self.perm.advanced, ..self.perm }, ..self }
    }

    /// What a key does to the text of the selected part.
    pub open spec fn edit(self, code: KeyCode) -> (MenuView, MainMenuEventResult) {
        match self.perm.field(self.temp.selected) {
            Some(text) => match edited(text, self.temp.cursor, code) {
                Some((text, cursor)) => (
                    MenuView {
                        perm: self.perm.with_field(self.temp.selected, text),
                        temp: TempView { cursor, ..self.temp },
                        ..self
                    },
                    MainMenuEventResult::Redraw,
                ),
                None => (self, MainMenuEventResult::Done),
            },
            None => (self, MainMenuEventResult::Done),
        }
    }

    /// What a key does.
    pub open spec fn key(self, e: KeyEvent) -> (MenuView, MainMenuEventResult) {
        let selected = self.temp.selected;
        if e.release {
            (self, MainMenuEventResult::Done)
        } else {
            match e.code {
                KeyCode::Down | KeyCode::Tab => (
                    MenuView { mouse: nowhere(), ..self }.select(
                        next_block(selected, self.perm.advanced),
                    ),
                    MainMenuEventResult::Redraw,
                ),
                KeyCode::Up | KeyCode::BackTab => (
                    MenuView { mouse: nowhere(), ..self }.select(
                        previous_block(selected, self.perm.advanced),
                    ),
                    MainMenuEventResult::Redraw,
                ),
                KeyCode::Esc => (
                    self.select(SelectedBlock::Nothing),
                    MainMenuEventResult::Redraw,
                ),
                KeyCode::Enter => match selected {
                    SelectedBlock::AdvancedButton => (self.toggled(), MainMenuEventResult::Redraw),
                    SelectedBlock::StartButton => (self, MainMenuEventResult::Start),
                    _ => (self, MainMenuEventResult::Done),
                },
                KeyCode::Char(c) if e.control && c == 'c' => (self, MainMenuEventResult::Exit),
                KeyCode::Char(c) if e.control && c == 'a' => (
                    MenuView { temp: TempView { cursor: Cursor::All, ..self.temp }, ..self },
                    MainMenuEventResult::Redraw,
                ),
                KeyCode::Char(c) if c == 'q' && self.perm.field(selected) is None => (
                    self,
                    MainMenuEventResult::Exit,
                ),
                code => self.edit(code),
            }
        }
    }

    /// What it does to let go of the mouse at a cell.
    pub open spec fn click(self, pos: Position, boxes: MainMenuBoundingBoxes) -> (
        MenuView,
        MainMenuEventResult,
    ) {
        let m = MenuView {
            mouse: nowhere(),
            temp: TempView { last_selected_server: None, ..self.temp },
            ..self
        };
        if boxes.ip_rect.has(pos) {
            (m.select(SelectedBlock::ServerIp), MainMenuEventResult::Redraw)
        } else if boxes.domain_rect.has(pos) {
            (m.select(SelectedBlock::RequestedDomain), MainMenuEventResult::Redraw)
        } else if boxes.advanced_rect.has(pos) {
            let t = m.toggled();
            (
                MenuView { temp: TempView { selected: SelectedBlock::Nothing, ..t.temp }, ..t },
                MainMenuEventResult::Redraw,
            )
        } else if boxes.start_rect.has(pos) {
            (m, MainMenuEventResult::Start)
        } else if boxes.advanced_rects matches Some(b) && b.proxy_ip.has(pos) {
            (m.select(SelectedBlock::ProxyIp), MainMenuEventResult::Redraw)
        } else if boxes.advanced_rects matches Some(b) && b.play_port.has(pos) {
            (m.select(SelectedBlock::PlayPort), MainMenuEventResult::Redraw)
        } else if boxes.advanced_rects matches Some(b) && b.init_port.has(pos) {
            (m.select(SelectedBlock::InitPort), MainMenuEventResult::Redraw)
        } else {
            match first_hit(boxes.server_rects@, pos) {
                Some(i) => (
                    MenuView {
                        perm: PermView { server_ip: m.temp.servers[i].ip, ..m.perm },
                        temp: TempView { last_selected_server: Some(i as usize), ..m.temp },
                        ..m
                    }.select(SelectedBlock::ServerIp),
                    MainMenuEventResult::Redraw,
                ),
                None => (
                    MenuView { temp: TempView { selected: SelectedBlock::Nothing, ..m.temp }, ..m },
                    if m.temp.selected == SelectedBlock::Nothing {
                        MainMenuEventResult::Done
                    } else {
                        MainMenuEventResult::Redraw
                    },
                ),
            }
        }
    }

    /// What it does to paste text.
    pub open spec fn paste(self, s: Seq<char>) -> MenuView {
        let allowed = s.filter(|c: char| typeable(c));
        match self.perm.field(self.temp.selected) {
            Some(text) => MenuView {
                perm: self.perm.with_field(
                    self.temp.selected,
                    match self.temp.cursor {
                        Cursor::Position(pos) => text.take(pos as int) + allowed + text.skip(
                            pos as int,
                        ),
                        Cursor::All => allowed,
                    },
                ),
                ..self
            },
            None => self,
        }
    }

    /// What an event of the terminal does.
    pub open spec fn event(self, e: TerminalEvent, boxes: MainMenuBoundingBoxes) -> (
        MenuView,
        MainMenuEventResult,
    ) {
        match e {
            TerminalEvent::Key(e) => self.key(e),
            TerminalEvent::Mouse(e) => match e.kind {
                MouseEventKind::Up => self.click(e.at(), boxes),
                MouseEventKind::Moved => (
                    MenuView { mouse: (e.column, e.row), ..self },
                    MainMenuEventResult::Redraw,
                ),
                _ => (self, MainMenuEventResult::Done),
            },
            TerminalEvent::Paste(s) => (self.paste(s@), MainMenuEventResult::Done),
            TerminalEvent::Other => (self, MainMenuEventResult::Done),
        }
    }
}

/// The first of the parts that a cell lies in.
pub open spec fn first_hit(rects: Seq<Rect>, pos: Position) -> Option<int> {
    search::first_where(rects, |r: Rect| r.has(pos))
}

/// The first of the parts that a cell lies in.
pub fn find_hit(rects: &Vec<Rect>, pos: Position) -> (r: Option<usize>)
    ensures
        match r {
            Some(i) => first_hit(rects@, pos) == Some(i as int) && i < rects@.len(),
            None => first_hit(rects@, pos) is None,
        },
{
    let ghost hit = |r: Rect| r.has(pos);
    let mut i: usize = 0;
    while i < rects.len()
        invariant
            i <= rects@.len(),
            hit == (|r: Rect| r.has(pos)),
            forall|j: int| 0 <= j < i ==> !hit(#[trigger] rects@[j]),
        decreases rects@.len() - i,
    {
        if rects[i].contains(pos) {
            proof {
                search::lemma_found(rects@, hit, i as int);
            }
            return Some(i);
        }
        i = i + 1;
    }
    proof {
        search::lemma_absent(rects@, hit);
    }
    None
}

/// The characters of `s` that can be typed.
pub fn only_typeable(s: &str) -> (r: String)
    ensures
        r@ == s@.filter(|c: char| typeable(c)),
        utf8::is_ascii_chars(r@),
{
    let mut out = String::new();
    let ghost keep = |c: char| typeable(c);
    proof {
        assert(s@.take(0).filter(keep) =~= Seq::<char>::empty()) by {
            reveal(Seq::filter);
        }
    }
    for c in it: s.chars()
        invariant
            it.seq() == s@,
            keep == (|c: char| typeable(c)),
            out@ == s@.take(it.index() as int).filter(keep),
            utf8::is_ascii_chars(out@),
    {
        proof {
            let i = it.index() as int;
            assert(s@.take(i + 1).drop_last() =~= s@.take(i));
            reveal(Seq::filter);
        }
        if is_typeable(c) {
            out.push(c);
        }
    }
    assert(s@.take(s@.len() as int) =~= s@);
    out
}

/// Works a key into a text. The result is whether it changed anything.
pub fn edit_text(text: &mut String, cursor: &mut Cursor, code: KeyCode) -> (r: bool)
    requires
        utf8::is_ascii_chars(old(text)@),
        old(cursor).stands_in(old(text)@.len()),
    ensures
        match edited(old(text)@, *old(cursor), code) {
            Some((t, c)) => r && final(text)@ == t && *final(cursor) == c,
            None => !r && final(text)@ == old(text)@ && *final(cursor) == *old(cursor),
        },
        utf8::is_ascii_chars(final(text)@),
        final(cursor).stands_in(final(text)@.len()),
{
    match code {
        KeyCode::Backspace => match *cursor {
            Cursor::Position(pos) => {
                if pos > 0 && !text.as_str().is_empty() {
                    text.remove(pos - 1);
                    cursor.sub_assign(1);
                    true
                } else {
                    false
                }
            },
            Cursor::All => {
                text.clear();
                *cursor = Cursor::Position(0);
                true
            },
        },
        KeyCode::Delete => match *cursor {
            Cursor::Position(pos) => {
                if pos < ascii_len(text) {
                    text.remove(pos);
                    true
                } else {
                    false
                }
            },
            Cursor::All => {
                text.clear();
                *cursor = Cursor::Position(0);
                true
            },
        },
        KeyCode::Left => match *cursor {
            Cursor::Position(pos) => {
                if pos > 0 {
                    cursor.sub_assign(1);
                    true
                } else {
                    false
                }
            },
            Cursor::All => {
                *cursor = Cursor::Position(0);
                true
            },
        },
        KeyCode::Right => match *cursor {
            Cursor::Position(pos) => {
                if pos < ascii_len(text) {
                    cursor.add_assign(1);
                    true
                } else {
                    false
                }
            },
            Cursor::All => {
                *cursor = Cursor::Position(ascii_len(text));
                true
            },
        },
        KeyCode::Home => {
            *cursor = Cursor::Position(0);
            true
        },
        KeyCode::End => {
            *cursor = Cursor::Position(ascii_len(text));
            true
        },
        KeyCode::Char(c) => {
            if !is_typeable(c) {
                return false;
            }
            match *cursor {
                Cursor::Position(pos) => {
                    let behind: usize = ascii_len(text) - pos;
                    text.insert(pos, c);
                    assert(text@.len() == old(text)@.len() + 1);
                    *cursor = Cursor::Position(ascii_len(text) - behind);
                },
                Cursor::All => {
                    text.clear();
                    text.push(c);
                    assert(text@ =~= seq![c]);
                    *cursor = Cursor::Position(ascii_len(text));
                },
            }
            true
        },
        _ => false,
    }
}

/// Puts text at the cursor, or in the place of the whole text.
pub fn paste_text(text: &mut String, cursor: Cursor, pasted: &str)
    requires
        utf8::is_ascii_chars(old(text)@),
        cursor.stands_in(old(text)@.len()),
    ensures
        ({
            let allowed = pasted@.filter(|c: char| typeable(c));
            final(text)@ == match cursor {
                Cursor::Position(pos) => old(text)@.take(pos as int) + allowed + old(text)@.skip(
                    pos as int,
                ),
                Cursor::All => allowed,
            }
        }),
        utf8::is_ascii_chars(final(text)@),
        cursor.stands_in(final(text)@.len()),
{
    let allowed_only = only_typeable(pasted);
    match cursor {
        Cursor::Position(pos) => {
            text.insert_str(pos, allowed_only.as_str());
        },
        Cursor::All => {
            *text = allowed_only;
        },
    }
}

/// The part of the menu below another, round the end.
pub fn select_next(block: SelectedBlock, advanced: bool) -> (r: SelectedBlock)
    ensures
        r == next_block(block, advanced),
{
    match block {
        SelectedBlock::ServerIp => SelectedBlock::RequestedDomain,
        SelectedBlock::RequestedDomain => SelectedBlock::AdvancedButton,
        SelectedBlock::ProxyIp => SelectedBlock::PlayPort,
        SelectedBlock::PlayPort => SelectedBlock::InitPort,
        SelectedBlock::InitPort => SelectedBlock::StartButton,
        SelectedBlock::AdvancedButton => {
            if advanced {
                SelectedBlock::ProxyIp
            } else {
                SelectedBlock::StartButton
            }
        },
        SelectedBlock::Nothing | SelectedBlock::StartButton => SelectedBlock::ServerIp,
    }
}

/// The part of the menu above another, round the end.
pub fn select_previous(block: SelectedBlock, advanced: bool) -> (r: SelectedBlock)
    ensures
        r == previous_block(block, advanced),
{
    match block {
        SelectedBlock::Nothing | SelectedBlock::ServerIp => SelectedBlock::StartButton,
        SelectedBlock::RequestedDomain => SelectedBlock::ServerIp,
        SelectedBlock::ProxyIp => SelectedBlock::AdvancedButton,
        SelectedBlock::PlayPort => SelectedBlock::ProxyIp,
        SelectedBlock::InitPort => SelectedBlock::PlayPort,
        SelectedBlock::AdvancedButton => SelectedBlock::RequestedDomain,
        SelectedBlock::StartButton => {
            if advanced {
                SelectedBlock::InitPort
            } else {
                SelectedBlock::AdvancedButton
            }
        },
    }
}

impl MenuView {
    /// Whether the menu can be worked on, when its parts are drawn at `boxes`.
    pub open spec fn wf(self, boxes: MainMenuBoundingBoxes) -> bool {
        &&& types::menu_wf(self.perm, self.temp)
        &&& boxes.server_rects@.len() <= self.temp.servers.len()
    }
}

/// The menu with the place of the mouse.
pub open spec fn menu(
    perm: MainMenuPermanentState,
    temp: MainMenuTemporaryState,
    mouse: (u16, u16),
) -> MenuView {
    MenuView { perm: perm@, temp: temp@, mouse }
}

impl TuiApp {
    /// Works a key into the menu.
    fn handle_menu_key(
        e: KeyEvent,
        perm_state: &mut MainMenuPermanentState,
        mouse_pos: &mut (u16, u16),
        temp_state: &mut MainMenuTemporaryState,
    ) -> (r: MainMenuEventResult)
        requires
            types::menu_wf(old(perm_state)@, old(temp_state)@),
        ensures
            (menu(*final(perm_state), *final(temp_state), *final(mouse_pos)), r) == menu(
                *old(perm_state),
                *old(temp_state),
                *old(mouse_pos),
            ).key(e),
            types::menu_wf(final(perm_state)@, final(temp_state)@),
            final(temp_state).servers == old(temp_state).servers,
    {
        if e.release {
            return MainMenuEventResult::Done;
        }
        match e.code {
            KeyCode::Down | KeyCode::Tab => {
                *mouse_pos = (u16::MAX, u16::MAX);
                temp_state.selected = select_next(temp_state.selected, perm_state.advanced);
                temp_state.set_cursor(perm_state);
                MainMenuEventResult::Redraw
            },
            KeyCode::Up | KeyCode::BackTab => {
                *mouse_pos = (u16::MAX, u16::MAX);
                temp_state.selected = select_previous(temp_state.selected, perm_state.advanced);
                temp_state.set_cursor(perm_state);
                MainMenuEventResult::Redraw
            },
            KeyCode::Esc => {
                temp_state.selected = SelectedBlock::Nothing;
                temp_state.cursor = Cursor::Position(0);
                MainMenuEventResult::Redraw
            },
            KeyCode::Enter => match temp_state.selected {
                SelectedBlock::AdvancedButton => {
                    perm_state.advanced = !perm_state.advanced;
                    MainMenuEventResult::Redraw
                },
                SelectedBlock::StartButton => MainMenuEventResult::Start,
                _ => MainMenuEventResult::Done,
            },
            code => {
                if let KeyCode::Char(c) = code {
                    if c == 'c' && e.control {
                        return MainMenuEventResult::Exit;
                    }
                    if c == 'a' && e.control {
                        temp_state.cursor = Cursor::All;
                        return MainMenuEventResult::Redraw;
                    }
                }
                let changed = match temp_state.selected {
                    SelectedBlock::ServerIp => edit_text(
                        &mut perm_state.server_ip,
                        &mut temp_state.cursor,
                        code,
                    ),
                    SelectedBlock::RequestedDomain => edit_text(
                        &mut perm_state.request_domain,
                        &mut temp_state.cursor,
                        code,
                    ),
                    SelectedBlock::ProxyIp => edit_text(
                        &mut perm_state.proxy_server,
                        &mut temp_state.cursor,
                        code,
                    ),
                    SelectedBlock::PlayPort => edit_text(
                        &mut perm_state.proxy_server_play_port,
                        &mut temp_state.cursor,
                        code,
                    ),
                    SelectedBlock::InitPort => edit_text(
                        &mut perm_state.proxy_server_init_port,
                        &mut temp_state.cursor,
                        code,
                    ),
                    _ => {
                        if let KeyCode::Char(c) = code {
                            if c == 'q' {
                                return MainMenuEventResult::Exit;
                            }
                        }
                        false
                    },
                };
                if changed {
                    MainMenuEventResult::Redraw
                } else {
                    MainMenuEventResult::Done
                }
            },
        }
    }

    /// Works letting go of the mouse into the menu.
    fn handle_menu_click(
        pos: Position,
        perm_state: &mut MainMenuPermanentState,
        mouse_pos: &mut (u16, u16),
        temp_state: &mut MainMenuTemporaryState,
        bounding_boxes: &MainMenuBoundingBoxes,
    ) -> (r: MainMenuEventResult)
        requires
            menu(*old(perm_state), *old(temp_state), *old(mouse_pos)).wf(*bounding_boxes),
        ensures
            (menu(*final(perm_state), *final(temp_state), *final(mouse_pos)), r) == menu(
                *old(perm_state),
                *old(temp_state),
                *old(mouse_pos),
            ).click(pos, *bounding_boxes),
            types::menu_wf(final(perm_state)@, final(temp_state)@),
            final(temp_state).servers == old(temp_state).servers,
    {
        *mouse_pos = (u16::MAX, u16::MAX);
        temp_state.last_selected_server = None;
        if bounding_boxes.ip_rect.contains(pos) {
            temp_state.selected = SelectedBlock::ServerIp;
            temp_state.set_cursor(perm_state);
            return MainMenuEventResult::Redraw;
        }
        if bounding_boxes.domain_rect.contains(pos) {
            temp_state.selected = SelectedBlock::RequestedDomain;
            temp_state.set_cursor(perm_state);
            return MainMenuEventResult::Redraw;
        }
        if bounding_boxes.advanced_rect.contains(pos) {
            perm_state.advanced = !perm_state.advanced;
            temp_state.selected = SelectedBlock::Nothing;
            return MainMenuEventResult::Redraw;
        }
        if bounding_boxes.start_rect.contains(pos) {
            return MainMenuEventResult::Start;
        }
        if let Some(boxes) = &bounding_boxes.advanced_rects {
            if boxes.proxy_ip.contains(pos) {
                temp_state.selected = SelectedBlock::ProxyIp;
                temp_state.set_cursor(perm_state);
                return MainMenuEventResult::Redraw;
            }
            if boxes.play_port.contains(pos) {
                temp_state.selected = SelectedBlock::PlayPort;
                temp_state.set_cursor(perm_state);
                return MainMenuEventResult::Redraw;
            }
            if boxes.init_port.contains(pos) {
                temp_state.selected = SelectedBlock::InitPort;
                temp_state.set_cursor(perm_state);
                return MainMenuEventResult::Redraw;
            }
        }
        let redraw = temp_state.selected != SelectedBlock::Nothing;
        temp_state.selected = SelectedBlock::Nothing;
        if let Some(i) = find_hit(&bounding_boxes.server_rects, pos) {
            perm_state.server_ip = temp_state.servers[i].ip.clone();
            assert(types::server_views(temp_state.servers@)[i as int].ip == perm_state.server_ip@);
            temp_state.last_selected_server = Some(i);
            temp_state.selected = SelectedBlock::ServerIp;
            temp_state.set_cursor(perm_state);
            return MainMenuEventResult::Redraw;
        }
        if redraw {
            MainMenuEventResult::Redraw
        } else {
            MainMenuEventResult::Done
        }
    }

    /// Works an event of the terminal into the menu.
    pub fn handle_menu_event(
        e: TerminalEvent,
        perm_state: &mut MainMenuPermanentState,
        mouse_pos: &mut (u16, u16),
        temp_state: &mut MainMenuTemporaryState,
        bounding_boxes: &MainMenuBoundingBoxes,
    ) -> (r: MainMenuEventResult)
        requires
            menu(*old(perm_state), *old(temp_state), *old(mouse_pos)).wf(*bounding_boxes),
        ensures
            (menu(*final(perm_state), *final(temp_state), *final(mouse_pos)), r) == menu(
                *old(perm_state),
                *old(temp_state),
                *old(mouse_pos),
            ).event(e, *bounding_boxes),
            menu(*final(perm_state), *final(temp_state), *final(mouse_pos)).wf(*bounding_boxes),
            final(temp_state).servers == old(temp_state).servers,
    {
        match e {
            TerminalEvent::Key(e) => Self::handle_menu_key(e, perm_state, mouse_pos, temp_state),
            TerminalEvent::Mouse(e) => match e.kind {
                MouseEventKind::Up => Self::handle_menu_click(
                    e.position(),
                    perm_state,
                    mouse_pos,
                    temp_state,
                    bounding_boxes,
                ),
                MouseEventKind::Moved => {
                    *mouse_pos = (e.column, e.row);
                    MainMenuEventResult::Redraw
                },
                _ => MainMenuEventResult::Done,
            },
            TerminalEvent::Paste(s) => {
                let cursor = temp_state.cursor;
                let pasted = s.as_str();
                match temp_state.selected {
                    SelectedBlock::ServerIp => paste_text(
                        &mut perm_state.server_ip,
                        cursor,
                        pasted,
                    ),
                    SelectedBlock::RequestedDomain => paste_text(
                        &mut perm_state.request_domain,
                        cursor,
                        pasted,
                    ),
                    SelectedBlock::ProxyIp => paste_text(
                        &mut perm_state.proxy_server,
                        cursor,
                        pasted,
                    ),
                    SelectedBlock::PlayPort => paste_text(
                        &mut perm_state.proxy_server_play_port,
                        cursor,
                        pasted,
                    ),
                    SelectedBlock::InitPort => paste_text(
                        &mut perm_state.proxy_server_init_port,
                        cursor,
                        pasted,
                    ),
                    _ => {},
                }
                MainMenuEventResult::Done
            },
            TerminalEvent::Other => MainMenuEventResult::Done,
        }
    }
}

/// What stands in the way of starting.
pub open spec fn start_errors(perm: PermView) -> Seq<Seq<char>> {
    let ip = if perm.server_ip.len() == 0 {
        seq!["Server IP should not be empty!"@]
    } else {
        Seq::empty()
    };
    let play = if text::u16_text(perm.proxy_server_play_port) is None {
        seq!["Failed to parse proxy server play port: "@ + perm.proxy_server_play_port]
    } else {
        Seq::empty()
    };
    let init = if text::u16_text(perm.proxy_server_init_port) is None {
        seq!["Failed to parse proxy server init port: "@ + perm.proxy_server_init_port]
    } else {
        Seq::empty()
    };
    ip + play + init
}

/// Whether nothing stands in the way of starting.
pub open spec fn startable(perm: PermView) -> bool {
    &&& perm.server_ip.len() > 0
    &&& text::u16_text(perm.proxy_server_play_port) is Some
    &&& text::u16_text(perm.proxy_server_init_port) is Some
}

/// What the connection needs to know.
pub open spec fn connect_options(perm: PermView) -> ConnectView {
    ConnectView {
        proxy_server: perm.proxy_server,
        proxy_server_play_port: text::u16_text(perm.proxy_server_play_port).unwrap(),
        proxy_server_init_port: text::u16_text(perm.proxy_server_init_port).unwrap(),
        server_ip: perm.server_ip,
        request_domain: if perm.request_domain.len() == 0 {
            None
        } else {
            Some(perm.request_domain)
        },
    }
}

impl TuiApp {
    /// What the connection needs to know, or what stands in the way of it.
    pub fn handle_start(state: &MainMenuPermanentState, errors: &mut Vec<String>) -> (r: Result<
        ConnectOptions,
        (),
    >)
        ensures
            types::texts(final(errors)@) == start_errors(state@),
            match r {
                Ok(options) => startable(state@) && options@ == connect_options(state@),
                Err(()) => !startable(state@),
            },
            r is Ok <==> final(errors)@.len() == 0,
    {
        errors.clear();
        let ghost mut said: Seq<Seq<char>> = Seq::empty();
        assert(types::texts(errors@) =~= said);
        if state.server_ip.as_str().is_empty() {
            errors.push("Server IP should not be empty!".to_owned());
            proof {
                said = said.push("Server IP should not be empty!"@);
            }
            assert(types::texts(errors@) =~= said);
        }
        let play: u16 = match parse_u16(state.proxy_server_play_port.as_str()) {
            Some(p) => p,
            None => {
                errors.push(
                    concat(
                        "Failed to parse proxy server play port: ",
                        state.proxy_server_play_port.as_str(),
                    ),
                );
                proof {
                    said = said.push(
                        "Failed to parse proxy server play port: "@ + state@.proxy_server_play_port,
                    );
                }
                assert(types::texts(errors@) =~= said);
                0
            },
        };
        let init: u16 = match parse_u16(state.proxy_server_init_port.as_str()) {
            Some(p) => p,
            None => {
                errors.push(
                    concat(
                        "Failed to parse proxy server init port: ",
                        state.proxy_server_init_port.as_str(),
                    ),
                );
                proof {
                    said = said.push(
                        "Failed to parse proxy server init port: "@ + state@.proxy_server_init_port,
                    );
                }
                assert(types::texts(errors@) =~= said);
                0
            },
        };
        assert(said =~= start_errors(state@));
        if !errors.is_empty() {
            return Err(());
        }
        let request_domain = if state.request_domain.as_str().is_empty() {
            None
        } else {
            Some(state.request_domain.clone())
        };
        Ok(
            ConnectOptions {
                proxy_server: state.proxy_server.clone(),
                proxy_server_play_port: play,
                proxy_server_init_port: init,
                server_ip: state.server_ip.clone(),
                request_domain,
            },
        )
    }
}

/// Going to the next part and back leads to the same part, unless none was
/// selected, or the part is hidden.
pub proof fn law_previous_undoes_next(block: SelectedBlock, advanced: bool)
    requires
        block != SelectedBlock::Nothing,
        advanced || block != SelectedBlock::InitPort,
    ensures
        previous_block(next_block(block, advanced), advanced) == block,
{
}

/// Going to the previous part and on leads to the same part, unless none was
/// selected, or the part is hidden.
pub proof fn law_next_undoes_previous(block: SelectedBlock, advanced: bool)
    requires
        block != SelectedBlock::Nothing,
        advanced || block != SelectedBlock::ProxyIp,
    ensures
        next_block(previous_block(block, advanced), advanced) == block,
{
}

/// Going on and on leads through every part that is shown.
pub proof fn law_next_goes_round(advanced: bool)
    ensures
        ({
            let n = |b: SelectedBlock| next_block(b, advanced);
            let end = n(n(n(SelectedBlock::ServerIp)));
            if advanced {
                n(n(n(n(end)))) == SelectedBlock::ServerIp && n(n(n(end)))
                    == SelectedBlock::StartButton
            } else {
                n(end) == SelectedBlock::ServerIp && end == SelectedBlock::StartButton
            }
        }),
{
}

/// Backspace takes back what was typed at a position.
pub proof fn law_backspace_undoes_typing(text: Seq<char>, pos: usize, c: char)
    requires
        typeable(c),
        pos <= text.len(),
        pos < usize::MAX,
    ensures
        edited(text, Cursor::Position(pos), KeyCode::Char(c)) matches Some((t, cursor)) && edited(
            t,
            cursor,
            KeyCode::Backspace,
        ) == Some((text, Cursor::Position(pos))),
{
    assert(text.insert(pos as int, c).remove(pos as int) =~= text);
}

/// Delete takes back what was typed, after one step to the left.
pub proof fn law_delete_undoes_typing(text: Seq<char>, pos: usize, c: char)
    requires
        typeable(c),
        pos <= text.len(),
        pos < usize::MAX,
    ensures
        edited(text, Cursor::Position(pos), KeyCode::Char(c)) matches Some((t, cursor)) && edited(
            t,
            cursor,
            KeyCode::Left,
        ) matches Some((t, cursor)) && edited(t, cursor, KeyCode::Delete) == Some(
            (text, Cursor::Position(pos)),
        ),
{
    assert(text.insert(pos as int, c).remove(pos as int) =~= text);
}

/// Whether a text holds nothing that cannot be typed.
pub open spec fn clean(text: Seq<char>) -> bool {
    forall|i: int| 0 <= i < text.len() ==> typeable(#[trigger] text[i])
}

/// Whether no text of the menu, and no address that it can take over, holds
/// anything that cannot be typed.
pub open spec fn clean_menu(m: MenuView) -> bool {
    &&& clean(m.perm.proxy_server)
    &&& clean(m.perm.proxy_server_play_port)
    &&& clean(m.perm.proxy_server_init_port)
    &&& clean(m.perm.server_ip)
    &&& clean(m.perm.request_domain)
    &&& forall|i: int| 0 <= i < m.temp.servers.len() ==> clean((#[trigger] m.temp.servers[i]).ip)
}

/// A key leaves nothing in a text that cannot be typed.
proof fn lemma_edited_clean(text: Seq<char>, cursor: Cursor, code: KeyCode)
    requires
        clean(text),
        cursor.stands_in(text.len()),
    ensures
        edited(text, cursor, code) matches Some((t, _)) ==> clean(t),
{
}

/// However the menu is worked on, its texts hold nothing that cannot be typed.
pub proof fn law_menu_stays_clean(m: MenuView, e: TerminalEvent, boxes: MainMenuBoundingBoxes)
    requires
        m.wf(boxes),
        clean_menu(m),
    ensures
        clean_menu(m.event(e, boxes).0),
{
    match e {
        TerminalEvent::Paste(s) => {
            let keep = |c: char| typeable(c);
            let allowed = s@.filter(keep);
            assert forall|i: int| 0 <= i < allowed.len() implies typeable(#[trigger] allowed[i]) by {
                s@.lemma_filter_pred(keep, i);
            }
            assert(clean(allowed));
        },
        TerminalEvent::Key(k) => {
            if let Some(text) = m.perm.field(m.temp.selected) {
                lemma_edited_clean(text, m.temp.cursor, k.code);
            }
        },
        TerminalEvent::Mouse(k) => {
            search::law_first_where(boxes.server_rects@, |r: Rect| r.has(k.at()));
        },
        TerminalEvent::Other => {},
    }
}

} // verus!
