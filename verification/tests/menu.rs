//! The menu.

use mineshare::client_impls::geometry::{Position, Rect};
use mineshare::client_impls::menu::{
    edit_text, find_hit, is_typeable, only_typeable, paste_text, select_next, select_previous,
};
use mineshare::client_impls::types::{
    AdvancedBoxes, Cursor, KeyCode, KeyEvent, MainMenuBoundingBoxes, MainMenuEventResult,
    MainMenuPermanentState, MainMenuTemporaryState, MouseEvent, MouseEventKind, SelectedBlock,
    ServerInfo, TerminalEvent, TuiApp,
};

fn perm() -> MainMenuPermanentState {
    MainMenuPermanentState {
        proxy_server: "proxy".to_string(),
        proxy_server_play_port: "25564".to_string(),
        proxy_server_init_port: "25563".to_string(),
        server_ip: String::new(),
        advanced: false,
        request_domain: String::new(),
    }
}

fn row(y: u16) -> Rect {
    Rect { x: 0, y, width: 10, height: 1 }
}

fn boxes(servers: u16) -> MainMenuBoundingBoxes {
    MainMenuBoundingBoxes {
        ip_rect: row(0),
        domain_rect: row(1),
        advanced_rect: row(2),
        advanced_rects: Some(AdvancedBoxes { proxy_ip: row(3), play_port: row(4), init_port: row(5) }),
        start_rect: row(6),
        server_rects: (0..servers).map(|i| row(10 + i)).collect(),
    }
}

struct Menu {
    perm: MainMenuPermanentState,
    temp: MainMenuTemporaryState,
    mouse: (u16, u16),
}

impl Menu {
    fn new() -> Menu {
        Menu { perm: perm(), temp: MainMenuTemporaryState::new(), mouse: (3, 3) }
    }

    fn event(&mut self, e: TerminalEvent) -> MainMenuEventResult {
        let b = boxes(self.temp.servers.len() as u16);
        TuiApp::handle_menu_event(e, &mut self.perm, &mut self.mouse, &mut self.temp, &b)
    }

    fn key(&mut self, code: KeyCode) -> MainMenuEventResult {
        self.event(TerminalEvent::Key(KeyEvent { code, control: false, release: false }))
    }

    fn control(&mut self, c: char) -> MainMenuEventResult {
        let code = KeyCode::Char(c);
        self.event(TerminalEvent::Key(KeyEvent { code, control: true, release: false }))
    }

    fn type_text(&mut self, s: &str) {
        for c in s.chars() {
            self.key(KeyCode::Char(c));
        }
    }

    fn click(&mut self, row: u16) -> MainMenuEventResult {
        let kind = MouseEventKind::Up;
        self.event(TerminalEvent::Mouse(MouseEvent { kind, column: 1, row }))
    }
}

const REDRAW: MainMenuEventResult = MainMenuEventResult::Redraw;
const DONE: MainMenuEventResult = MainMenuEventResult::Done;

#[test]
fn characters_that_can_be_typed() {
    for c in ['a', 'z', 'A', 'Z', '0', '9', '-', '.', ':'] {
        assert!(is_typeable(c));
    }
    for c in [' ', '/', '@', '[', '`', '{', '_', '\u{00e9}', '\n', '+'] {
        assert!(!is_typeable(c));
    }
    assert_eq!(only_typeable("a b/c\u{00e9}:1.-\n"), "abc:1.-");
}

#[test]
fn text_is_typed_and_edited() {
    let mut m = Menu::new();
    assert_eq!(m.key(KeyCode::Tab), REDRAW);
    assert_eq!(m.temp.selected, SelectedBlock::ServerIp);
    assert_eq!(m.mouse, (u16::MAX, u16::MAX));
    m.type_text("ab c");
    assert_eq!(m.perm.server_ip, "abc");
    assert_eq!(m.temp.cursor, Cursor::Position(3));
    assert_eq!(m.key(KeyCode::Left), REDRAW);
    m.type_text("X");
    assert_eq!(m.perm.server_ip, "abXc");
    assert_eq!(m.temp.cursor, Cursor::Position(3));
    assert_eq!(m.key(KeyCode::Backspace), REDRAW);
    assert_eq!(m.perm.server_ip, "abc");
    assert_eq!(m.key(KeyCode::Delete), REDRAW);
    assert_eq!(m.perm.server_ip, "ab");
    assert_eq!(m.key(KeyCode::Delete), DONE);
    assert_eq!(m.key(KeyCode::Right), DONE);
    assert_eq!(m.key(KeyCode::Home), REDRAW);
    assert_eq!(m.key(KeyCode::Left), DONE);
    assert_eq!(m.key(KeyCode::Backspace), DONE);
    assert_eq!(m.key(KeyCode::End), REDRAW);
    assert_eq!(m.temp.cursor, Cursor::Position(2));
    assert_eq!(m.key(KeyCode::Char('q')), REDRAW);
    assert_eq!(m.perm.server_ip, "abq");
}

#[test]
fn all_text_can_be_replaced() {
    let mut m = Menu::new();
    m.click(3);
    assert_eq!(m.temp.selected, SelectedBlock::ProxyIp);
    assert_eq!(m.temp.cursor, Cursor::Position(5));
    assert_eq!(m.control('a'), REDRAW);
    assert_eq!(m.temp.cursor, Cursor::All);
    m.type_text("n");
    assert_eq!(m.perm.proxy_server, "n");
    assert_eq!(m.temp.cursor, Cursor::Position(1));
    m.control('a');
    assert_eq!(m.key(KeyCode::Right), REDRAW);
    assert_eq!(m.temp.cursor, Cursor::Position(1));
    m.control('a');
    assert_eq!(m.key(KeyCode::Left), REDRAW);
    assert_eq!(m.temp.cursor, Cursor::Position(0));
    m.control('a');
    assert_eq!(m.key(KeyCode::Backspace), REDRAW);
    assert_eq!(m.perm.proxy_server, "");
    assert_eq!(m.temp.cursor, Cursor::Position(0));
}

#[test]
fn backspace_takes_back_what_was_typed() {
    let mut text = "mine.dev".to_string();
    let mut cursor = Cursor::Position(4);
    assert!(edit_text(&mut text, &mut cursor, KeyCode::Char('-')));
    assert_eq!(text, "mine-.dev");
    assert!(edit_text(&mut text, &mut cursor, KeyCode::Backspace));
    assert_eq!(text, "mine.dev");
    assert_eq!(cursor, Cursor::Position(4));
    assert!(!edit_text(&mut text, &mut cursor, KeyCode::Char(' ')));
    assert!(!edit_text(&mut text, &mut cursor, KeyCode::Other));
}

#[test]
fn pasted_text_is_cleaned() {
    let mut m = Menu::new();
    assert_eq!(m.event(TerminalEvent::Paste("x".to_string())), DONE);
    assert_eq!(m.perm.server_ip, "");
    m.click(0);
    m.type_text("ad");
    m.key(KeyCode::Left);
    assert_eq!(m.event(TerminalEvent::Paste("b /c".to_string())), DONE);
    assert_eq!(m.perm.server_ip, "abcd");
    assert_eq!(m.temp.cursor, Cursor::Position(1));
    m.control('a');
    m.event(TerminalEvent::Paste("z z".to_string()));
    assert_eq!(m.perm.server_ip, "zz");
    assert_eq!(m.temp.cursor, Cursor::All);
    let mut text = "12".to_string();
    paste_text(&mut text, Cursor::Position(2), "3");
    assert_eq!(text, "123");
}

#[test]
fn the_parts_follow_each_other_round() {
    let all = [
        SelectedBlock::ServerIp,
        SelectedBlock::RequestedDomain,
        SelectedBlock::AdvancedButton,
        SelectedBlock::ProxyIp,
        SelectedBlock::PlayPort,
        SelectedBlock::InitPort,
        SelectedBlock::StartButton,
    ];
    let short = [all[0], all[1], all[2], all[6]];
    for (parts, advanced) in [(&all[..], true), (&short[..], false)] {
        for (i, part) in parts.iter().enumerate() {
            let next = parts[(i + 1) % parts.len()];
            assert_eq!(select_next(*part, advanced), next);
            assert_eq!(select_previous(next, advanced), *part);
        }
    }
    assert_eq!(select_next(SelectedBlock::Nothing, false), SelectedBlock::ServerIp);
    assert_eq!(select_previous(SelectedBlock::Nothing, false), SelectedBlock::StartButton);
}

#[test]
fn keys_select_and_press_buttons() {
    let mut m = Menu::new();
    assert_eq!(m.key(KeyCode::Up), REDRAW);
    assert_eq!(m.temp.selected, SelectedBlock::StartButton);
    assert_eq!(m.key(KeyCode::Enter), MainMenuEventResult::Start);
    m.key(KeyCode::BackTab);
    assert_eq!(m.temp.selected, SelectedBlock::AdvancedButton);
    assert_eq!(m.key(KeyCode::Enter), REDRAW);
    assert!(m.perm.advanced);
    m.key(KeyCode::Down);
    assert_eq!(m.temp.selected, SelectedBlock::ProxyIp);
    assert_eq!(m.key(KeyCode::Enter), DONE);
    assert_eq!(m.key(KeyCode::Esc), REDRAW);
    assert_eq!(m.temp.selected, SelectedBlock::Nothing);
    assert_eq!(m.temp.cursor, Cursor::Position(0));
    assert_eq!(m.key(KeyCode::Char('x')), DONE);
    assert_eq!(m.key(KeyCode::Char('q')), MainMenuEventResult::Exit);
    assert_eq!(m.control('c'), MainMenuEventResult::Exit);
    let release = KeyEvent { code: KeyCode::Char('q'), control: false, release: true };
    assert_eq!(m.event(TerminalEvent::Key(release)), DONE);
    assert_eq!(m.event(TerminalEvent::Other), DONE);
}

#[test]
fn the_mouse_selects_and_presses_buttons() {
    let mut m = Menu::new();
    assert_eq!(m.click(1), REDRAW);
    assert_eq!(m.temp.selected, SelectedBlock::RequestedDomain);
    assert_eq!(m.mouse, (u16::MAX, u16::MAX));
    assert_eq!(m.click(2), REDRAW);
    assert!(m.perm.advanced);
    assert_eq!(m.temp.selected, SelectedBlock::Nothing);
    assert_eq!(m.click(6), MainMenuEventResult::Start);
    m.click(4);
    assert_eq!(m.temp.selected, SelectedBlock::PlayPort);
    assert_eq!(m.temp.cursor, Cursor::Position(5));
    m.click(5);
    assert_eq!(m.temp.selected, SelectedBlock::InitPort);
    assert_eq!(m.click(9), REDRAW);
    assert_eq!(m.temp.selected, SelectedBlock::Nothing);
    assert_eq!(m.click(9), DONE);
    let moved = MouseEvent { kind: MouseEventKind::Moved, column: 8, row: 9 };
    assert_eq!(m.event(TerminalEvent::Mouse(moved)), REDRAW);
    assert_eq!(m.mouse, (8, 9));
    let scrolled = MouseEvent { kind: MouseEventKind::ScrollUp, column: 8, row: 9 };
    assert_eq!(m.event(TerminalEvent::Mouse(scrolled)), DONE);
}

#[test]
fn a_server_that_was_found_is_taken_over() {
    let mut m = Menu::new();
    for i in 0..3 {
        m.temp.servers.push(ServerInfo { motd: "m".to_string(), ip: format!("10.0.0.{i}:1") });
    }
    assert_eq!(m.click(11), REDRAW);
    assert_eq!(m.perm.server_ip, "10.0.0.1:1");
    assert_eq!(m.temp.last_selected_server, Some(1));
    assert_eq!(m.temp.selected, SelectedBlock::ServerIp);
    assert_eq!(m.temp.cursor, Cursor::Position(10));
    m.click(9);
    assert_eq!(m.temp.last_selected_server, None);
}

#[test]
fn the_first_part_under_the_mouse_is_found() {
    let rects = vec![row(1), row(2), row(2)];
    assert_eq!(find_hit(&rects, Position { x: 0, y: 2 }), Some(1));
    assert_eq!(find_hit(&rects, Position { x: 9, y: 1 }), Some(0));
    assert_eq!(find_hit(&rects, Position { x: 10, y: 1 }), None);
    assert_eq!(find_hit(&Vec::new(), Position { x: 0, y: 0 }), None);
}

#[test]
fn starting_needs_an_address_and_ports() {
    let mut errors = vec!["old".to_string()];
    let mut p = perm();
    p.proxy_server_play_port = "x".to_string();
    p.proxy_server_init_port = "65536".to_string();
    assert!(TuiApp::handle_start(&p, &mut errors).is_err());
    assert_eq!(
        errors,
        vec![
            "Server IP should not be empty!",
            "Failed to parse proxy server play port: x",
            "Failed to parse proxy server init port: 65536",
        ]
    );
    let mut p = perm();
    p.server_ip = "localhost:25565".to_string();
    let options = TuiApp::handle_start(&p, &mut errors).unwrap();
    assert!(errors.is_empty());
    assert_eq!(options.proxy_server, "proxy");
    assert_eq!(options.proxy_server_play_port, 25564);
    assert_eq!(options.proxy_server_init_port, 25563);
    assert_eq!(options.server_ip, "localhost:25565");
    assert_eq!(options.request_domain, None);
    p.request_domain = "a.mineshare.dev".to_string();
    let options = TuiApp::handle_start(&p, &mut errors).unwrap();
    assert_eq!(options.request_domain.as_deref(), Some("a.mineshare.dev"));
}

#[test]
fn the_cursor_goes_behind_the_text() {
    let mut t = MainMenuTemporaryState::new();
    let p = perm();
    t.selected = SelectedBlock::PlayPort;
    t.set_cursor(&p);
    assert_eq!(t.cursor, Cursor::Position(5));
    t.selected = SelectedBlock::StartButton;
    t.set_cursor(&p);
    assert_eq!(t.cursor, Cursor::Position(5));
    t.selected = SelectedBlock::Nothing;
    t.set_cursor(&p);
    assert_eq!(t.cursor, Cursor::Position(0));
    let mut p = perm();
    p.server_ip = "\u{e9}\u{4e16}a".to_string();
    t.selected = SelectedBlock::ServerIp;
    t.set_cursor(&p);
    assert_eq!(t.cursor, Cursor::Position(6));
    let mut c = Cursor::Position(3);
    c.add_assign(2);
    c.sub_assign(1);
    assert_eq!(c, Cursor::Position(4));
    let mut c = Cursor::All;
    c.add_assign(2);
    c.sub_assign(1);
    assert_eq!(c, Cursor::All);
}
