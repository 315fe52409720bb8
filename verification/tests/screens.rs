//! The screens.

use mineshare::client_impls::consts::{RETRY_START, TICK_LEN};
use mineshare::client_impls::geometry::{Position, Rect};
use mineshare::client_impls::tui_events::{Flow, Input, Moment, Reaction};
use mineshare::client_impls::types::{
    FailedSelected, KeyCode, KeyEvent, MainMenuBoundingBoxes, MouseEvent, MouseEventKind,
    PlayerInfo, RenderResult, RetryDelay, RunningBoundingBoxes, RunningState, ServerEvent,
    ServerInfo, TerminalEvent, TuiApp, TuiAppState, UiEvent,
};
use mineshare::net::{IpAddr, SocketAddr};

fn row(y: u16) -> Rect {
    Rect { x: 0, y, width: 10, height: 1 }
}

fn moment() -> Moment {
    Moment {
        now: 1000,
        retry_at: 3000,
        next_retry: RetryDelay { bits: 7 },
        time: "12:00".to_string(),
    }
}

fn addr(n: u32) -> SocketAddr {
    SocketAddr { ip: IpAddr::V4(n), port: 1 }
}

fn menu_boxes() -> RenderResult {
    RenderResult::MainMenu {
        bounding_boxes: MainMenuBoundingBoxes {
            ip_rect: row(0),
            domain_rect: row(1),
            advanced_rect: row(2),
            advanced_rects: None,
            start_rect: row(6),
            server_rects: Vec::new(),
        },
    }
}

fn boxes(app: &TuiApp) -> RenderResult {
    match &app.app_state {
        TuiAppState::MainMenu(_) => menu_boxes(),
        TuiAppState::ServerLoading(_) => RenderResult::Loading { cancel_bounding_box: row(5) },
        TuiAppState::Failed(s) => RenderResult::FailScreen {
            main_menu: row(5),
            retry_now: if s.permanent { None } else { Some(row(6)) },
        },
        TuiAppState::Running(s) => RenderResult::RunningScreen {
            bounding_boxes: RunningBoundingBoxes {
                disconnects: s.players.iter().enumerate().map(|(i, p)| (p.addr, row(20 + i as u16))).collect(),
                ip_box: row(0),
                players_box: Rect { x: 0, y: 1, width: 5, height: 2 },
                logs_box: Rect { x: 5, y: 1, width: 5, height: 3 },
            },
        },
    }
}

struct Screen {
    app: TuiApp,
    redraw: bool,
}

impl Screen {
    fn new() -> Screen {
        Screen { app: TuiApp::new(), redraw: false }
    }

    fn input(&mut self, input: Input) -> Reaction {
        let b = boxes(&self.app);
        self.app.handle_events(&b, &mut self.redraw, input, &moment())
    }

    fn key(&mut self, code: KeyCode) -> Reaction {
        let e = KeyEvent { code, control: false, release: false };
        self.input(Input::Terminal(TerminalEvent::Key(e)))
    }

    fn mouse(&mut self, kind: MouseEventKind, column: u16, row: u16) -> Reaction {
        self.input(Input::Terminal(TerminalEvent::Mouse(MouseEvent { kind, column, row })))
    }

    fn server(&mut self, e: ServerEvent) -> Reaction {
        self.input(Input::Server(e))
    }

    fn loading() -> Screen {
        let mut s = Screen::new();
        s.app.permanent_state.server_ip = "localhost:25565".to_string();
        let r = s.mouse(MouseEventKind::Up, 0, 6);
        assert_eq!(r.flow, Flow::Next);
        match r.send {
            Some(UiEvent::Start(o)) => assert_eq!(o.server_ip, "localhost:25565"),
            other => panic!("{other:?}"),
        }
        s
    }

    fn running() -> Screen {
        let mut s = Screen::loading();
        let r = s.server(ServerEvent::Url("a-b-c.d".to_string()));
        assert_eq!(r.flow, Flow::Next);
        assert!(r.send.is_none());
        s
    }

    fn failed() -> Screen {
        let mut s = Screen::loading();
        s.server(ServerEvent::ServerConnectionFailed("why".to_string()));
        s
    }

    fn run(&self) -> &RunningState {
        match &self.app.app_state {
            TuiAppState::Running(s) => s,
            other => panic!("{other:?}"),
        }
    }

    fn is_menu(&self) -> bool {
        matches!(self.app.app_state, TuiAppState::MainMenu(_))
    }
}

fn failure(s: &Screen) -> (bool, String, u32, u64) {
    match &s.app.app_state {
        TuiAppState::Failed(f) => (f.permanent, f.msg.clone(), f.retry.bits, f.retry_at),
        other => panic!("{other:?}"),
    }
}

#[test]
fn the_app_starts_with_the_menu() {
    let s = Screen::new();
    assert!(s.is_menu());
    assert_eq!(s.app.permanent_state.proxy_server, "na.mineshare.dev");
    assert_eq!(s.app.permanent_state.proxy_server_play_port, "25564");
    assert_eq!(s.app.permanent_state.proxy_server_init_port, "25563");
    assert_eq!(s.app.mouse_pos, (0, 0));
    assert_eq!(TICK_LEN, 33333);
    assert_eq!(f32::from_bits(RETRY_START), 2.0);
}

#[test]
fn the_menu_waits_draws_and_ends() {
    let mut s = Screen::new();
    assert_eq!(s.input(Input::Timeout).flow, Flow::Extend);
    assert_eq!(s.key(KeyCode::Tab).flow, Flow::Wait);
    assert!(s.redraw);
    assert_eq!(s.input(Input::Timeout).flow, Flow::Redraw);
    assert_eq!(s.server(ServerEvent::Stopped).flow, Flow::Wait);
    assert_eq!(s.input(Input::Closed).flow, Flow::Exit);
    s.key(KeyCode::Esc);
    assert_eq!(s.key(KeyCode::Char('q')).flow, Flow::Exit);
}

#[test]
fn starting_without_an_address_is_refused() {
    let mut s = Screen::new();
    let r = s.mouse(MouseEventKind::Up, 0, 6);
    assert_eq!(r.flow, Flow::Next);
    assert!(r.send.is_none());
    match &s.app.app_state {
        TuiAppState::MainMenu(m) => assert_eq!(m.errors, vec!["Server IP should not be empty!"]),
        other => panic!("{other:?}"),
    }
}

#[test]
fn servers_that_were_found_are_taken_in() {
    let mut s = Screen::new();
    s.app.found(ServerInfo { motd: "m".to_string(), ip: "1.2.3.4:5".to_string() });
    match &s.app.app_state {
        TuiAppState::MainMenu(m) => assert_eq!(m.servers[0].ip, "1.2.3.4:5"),
        other => panic!("{other:?}"),
    }
    let mut s = Screen::running();
    s.app.found(ServerInfo { motd: "m".to_string(), ip: "1.2.3.4:5".to_string() });
    assert_eq!(s.run().ip, "a-b-c.d");
}

#[test]
fn connecting_can_be_cancelled() {
    let mut s = Screen::loading();
    assert_eq!(s.key(KeyCode::Enter).flow, Flow::Wait);
    s.redraw = false;
    s.key(KeyCode::Tab);
    assert!(s.redraw);
    s.key(KeyCode::Esc);
    assert_eq!(s.key(KeyCode::Enter).flow, Flow::Wait);
    s.key(KeyCode::BackTab);
    let r = s.key(KeyCode::Enter);
    assert_eq!(r.flow, Flow::Next);
    assert!(matches!(r.send, Some(UiEvent::Stop)));
    assert!(s.is_menu());
    assert_eq!(s.app.permanent_state.server_ip, "localhost:25565");
    let mut s = Screen::loading();
    s.mouse(MouseEventKind::Moved, 4, 4);
    assert_eq!(s.app.mouse_pos, (4, 4));
    assert_eq!(s.mouse(MouseEventKind::Up, 4, 4).flow, Flow::Wait);
    assert_eq!(s.app.mouse_pos, (u16::MAX, u16::MAX));
    let r = s.mouse(MouseEventKind::Up, 4, 5);
    assert!(matches!(r.send, Some(UiEvent::Stop)));
    assert!(s.is_menu());
    let mut s = Screen::loading();
    assert_eq!(s.key(KeyCode::Char('q')).flow, Flow::Exit);
    assert_eq!(s.key(KeyCode::Char('c')).flow, Flow::Wait);
    assert_eq!(s.input(Input::Closed).flow, Flow::Exit);
}

#[test]
fn failures_to_connect_are_reported() {
    let s = Screen::failed();
    assert_eq!(failure(&s), (false, "why".to_string(), RETRY_START, 3000));
    let mut s = Screen::loading();
    s.server(ServerEvent::ServerConnectionFailedTimeout);
    let msg = "Timed out when connecting to proxy".to_string();
    assert_eq!(failure(&s), (false, msg, RETRY_START, 3000));
    let mut s = Screen::loading();
    s.server(ServerEvent::InvalidProtocolVersion(5));
    let msg = "Protocol version too low! You are on 4 but proxy is on 5".to_string();
    assert_eq!(failure(&s), (true, msg, 0, 1000));
    let mut s = Screen::loading();
    s.server(ServerEvent::InvalidProtocolVersion(3));
    let msg = "Protocol version too high! You are on 4 but proxy is on 3".to_string();
    assert_eq!(failure(&s), (true, msg, 0, 1000));
    let mut s = Screen::loading();
    s.server(ServerEvent::DidntGetRequestedUrl("x.y".to_string()));
    let msg = "Did not get assigned requested subdomain. Got assigned `x.y`".to_string();
    assert_eq!(failure(&s), (true, msg, 0, 1000));
}

#[test]
fn leftovers_are_passed_over_while_connecting() {
    let mut s = Screen::loading();
    s.redraw = false;
    for e in [
        ServerEvent::Stopped,
        ServerEvent::Pinged(addr(1)),
        ServerEvent::PlayerConnected(addr(1), "n".to_string()),
        ServerEvent::PlayerDisconnected(addr(1), "n".to_string()),
        ServerEvent::MCServerConnectionFailed("e".to_string()),
        ServerEvent::ServerNonCatastrophicError("e".to_string()),
    ] {
        assert_eq!(s.server(e).flow, Flow::Wait);
    }
    assert!(!s.redraw);
    assert!(matches!(s.app.app_state, TuiAppState::ServerLoading(_)));
}

#[test]
fn a_failure_is_followed_by_another_attempt() {
    let mut s = Screen::failed();
    assert_eq!(s.input(Input::Timeout).flow, Flow::Redraw);
    if let TuiAppState::Failed(f) = &mut s.app.app_state {
        f.retry_at = 1000;
    }
    let r = s.input(Input::Timeout);
    assert_eq!(r.flow, Flow::Next);
    assert!(matches!(r.send, Some(UiEvent::Start(_))));
    match &s.app.app_state {
        TuiAppState::ServerLoading(l) => assert_eq!((l.retry.bits, l.cancel_selected), (7, false)),
        other => panic!("{other:?}"),
    }
    let mut s = Screen::loading();
    s.server(ServerEvent::InvalidProtocolVersion(5));
    assert_eq!(s.input(Input::Timeout).flow, Flow::Redraw);
    assert_eq!(s.input(Input::Closed).flow, Flow::Redraw);
}

fn selected(s: &Screen) -> FailedSelected {
    match &s.app.app_state {
        TuiAppState::Failed(f) => f.selected,
        other => panic!("{other:?}"),
    }
}

#[test]
fn the_buttons_after_a_failure_are_selected_and_pressed() {
    let mut s = Screen::failed();
    s.key(KeyCode::Tab);
    assert_eq!(selected(&s), FailedSelected::Cancel);
    s.key(KeyCode::Tab);
    assert_eq!(selected(&s), FailedSelected::Retry);
    s.key(KeyCode::Tab);
    assert_eq!(selected(&s), FailedSelected::Cancel);
    s.key(KeyCode::BackTab);
    assert_eq!(selected(&s), FailedSelected::Retry);
    let r = s.key(KeyCode::Enter);
    assert!(matches!(r.send, Some(UiEvent::Start(_))));
    let mut s = Screen::failed();
    s.key(KeyCode::BackTab);
    assert_eq!(selected(&s), FailedSelected::Retry);
    s.key(KeyCode::BackTab);
    let r = s.key(KeyCode::Enter);
    assert_eq!(r.flow, Flow::Next);
    assert!(r.send.is_none());
    assert!(s.is_menu());
    let mut s = Screen::failed();
    s.key(KeyCode::Tab);
    s.key(KeyCode::Esc);
    assert_eq!(selected(&s), FailedSelected::Nothing);
    assert_eq!(s.key(KeyCode::Enter).flow, Flow::Wait);
    assert_eq!(s.key(KeyCode::Char('q')).flow, Flow::Exit);
    let r = s.mouse(MouseEventKind::Up, 0, 6);
    assert!(matches!(r.send, Some(UiEvent::Start(_))));
    let mut s = Screen::failed();
    assert_eq!(s.mouse(MouseEventKind::Up, 0, 7).flow, Flow::Wait);
    s.mouse(MouseEventKind::Up, 0, 5);
    assert!(s.is_menu());
    let mut s = Screen::loading();
    s.server(ServerEvent::InvalidProtocolVersion(5));
    s.key(KeyCode::Tab);
    s.key(KeyCode::Tab);
    assert_eq!(selected(&s), FailedSelected::Cancel);
    s.key(KeyCode::BackTab);
    assert_eq!(selected(&s), FailedSelected::Cancel);
}

#[test]
fn players_come_and_go() {
    let mut s = Screen::running();
    s.redraw = false;
    s.server(ServerEvent::PlayerConnected(addr(1), "a".to_string()));
    assert!(s.redraw);
    s.server(ServerEvent::PlayerConnected(addr(2), "b".to_string()));
    assert_eq!(s.run().players[1].username, "b");
    assert_eq!(s.run().logs[0].text, "0.0.0.2:1 connected");
    assert_eq!(s.run().logs[0].time, "12:00");
    s.redraw = false;
    s.server(ServerEvent::PlayerDisconnected(addr(9), "z".to_string()));
    assert!(!s.redraw);
    assert_eq!(s.run().players.len(), 2);
    s.server(ServerEvent::PlayerDisconnected(addr(1), "a".to_string()));
    assert!(s.redraw);
    assert_eq!(s.run().players.len(), 1);
    assert_eq!(s.run().players[0].addr, addr(2));
    assert_eq!(s.run().logs[0].text, "0.0.0.1:1 disconnected");
}

#[test]
fn the_log_is_bounded() {
    let mut s = Screen::running();
    for i in 0..105 {
        s.server(ServerEvent::ServerNonCatastrophicError(format!("{i}")));
    }
    assert_eq!(s.run().logs.len(), 100);
    assert_eq!(s.run().logs[0].text, "Error: 104");
    assert_eq!(s.run().logs[99].text, "Error: 5");
    s.server(ServerEvent::MCServerConnectionFailed("refused".to_string()));
    let want = "Failed to connect to Minecraft server: refused. Is the MC server up?";
    assert_eq!(s.run().logs[0].text, want);
}

#[test]
fn lists_are_scrolled() {
    let mut s = Screen::running();
    for i in 0..5 {
        s.server(ServerEvent::PlayerConnected(addr(i), String::new()));
    }
    for want in [1, 2, 3, 3] {
        s.mouse(MouseEventKind::ScrollDown, 0, 1);
        assert_eq!(s.run().scroll_players, want);
    }
    s.server(ServerEvent::PlayerDisconnected(addr(0), String::new()));
    assert_eq!(s.run().scroll_players, 2);
    s.server(ServerEvent::PlayerDisconnected(addr(4), String::new()));
    assert_eq!(s.run().scroll_players, 2);
    s.mouse(MouseEventKind::ScrollUp, 0, 1);
    assert_eq!(s.run().scroll_players, 1);
    s.server(ServerEvent::PlayerDisconnected(addr(1), String::new()));
    s.mouse(MouseEventKind::ScrollDown, 0, 1);
    assert_eq!(s.run().scroll_players, 0);
    assert_eq!(s.run().logs.len(), 8);
    for want in [1, 2, 3, 4, 5, 5] {
        s.mouse(MouseEventKind::ScrollUp, 6, 2);
        assert_eq!(s.run().scroll_logs, want);
    }
    s.mouse(MouseEventKind::ScrollDown, 6, 2);
    assert_eq!(s.run().scroll_logs, 4);
    s.redraw = false;
    s.mouse(MouseEventKind::ScrollDown, 6, 9);
    s.mouse(MouseEventKind::Other, 6, 2);
    assert!(!s.redraw);
}

#[test]
fn the_address_is_copied() {
    let mut s = Screen::running();
    assert_eq!(s.mouse(MouseEventKind::Up, 0, 0).flow, Flow::Copy);
    assert_eq!(s.app.copied(false), Flow::Wait);
    assert!(!s.run().copied);
    assert_eq!(s.app.copied(true), Flow::Next);
    assert!(s.run().copied);
    s.mouse(MouseEventKind::Up, 0, 9);
    assert!(!s.run().copied);
    let mut s = Screen::loading();
    assert_eq!(s.app.copied(true), Flow::Wait);
}

#[test]
fn players_are_cut_off() {
    let mut s = Screen::running();
    s.server(ServerEvent::PlayerConnected(addr(1), String::new()));
    s.server(ServerEvent::PlayerConnected(addr(2), String::new()));
    let r = s.mouse(MouseEventKind::Up, 3, 21);
    assert_eq!(r.flow, Flow::Next);
    assert!(matches!(r.send, Some(UiEvent::Disconnect(a)) if a == addr(2)));
    assert_eq!(s.run().players.len(), 2);
}

#[test]
fn sharing_ends() {
    let mut s = Screen::running();
    let r = s.key(KeyCode::Char('q'));
    assert!(matches!(r.send, Some(UiEvent::Stop)));
    assert!(s.is_menu());
    let mut s = Screen::running();
    let r = s.server(ServerEvent::Stopped);
    assert_eq!(r.flow, Flow::Next);
    assert!(r.send.is_none());
    assert!(s.is_menu());
    let mut s = Screen::running();
    s.server(ServerEvent::ServerConnectionFailed("gone".to_string()));
    assert_eq!(failure(&s), (false, "gone".to_string(), RETRY_START, 3000));
    let mut s = Screen::running();
    let e = KeyEvent { code: KeyCode::Char('c'), control: true, release: false };
    assert_eq!(s.input(Input::Terminal(TerminalEvent::Key(e))).flow, Flow::Exit);
    assert_eq!(s.key(KeyCode::Char('c')).flow, Flow::Wait);
    s.redraw = false;
    assert_eq!(s.input(Input::Timeout).flow, Flow::Extend);
    assert_eq!(s.input(Input::Closed).flow, Flow::Exit);
}

#[test]
fn parts_of_the_screen_are_computed() {
    let r = Rect { x: 2, y: 3, width: 4, height: 5 };
    assert!(r.contains(Position { x: 2, y: 3 }));
    assert!(r.contains(Position { x: 5, y: 7 }));
    assert!(!r.contains(Position { x: 6, y: 7 }));
    assert!(!r.contains(Position { x: 5, y: 8 }));
    assert!(!r.contains(Position { x: 1, y: 3 }));
    assert_eq!(r.inner(), Rect { x: 3, y: 4, width: 2, height: 3 });
    let zero = Rect { x: 0, y: 0, width: 0, height: 0 };
    assert_eq!(Rect { x: 9, y: 9, width: 1, height: 5 }.inner(), zero);
    let other = Rect { x: 0, y: 6, width: 3, height: 9 };
    assert_eq!(r.union(other), Rect { x: 0, y: 3, width: 6, height: 12 });
    let rows = r.rows();
    assert_eq!(rows.len(), 5);
    assert_eq!(rows[4], Rect { x: 2, y: 7, width: 4, height: 1 });
    assert!(Rect { x: 2, y: 3, width: 0, height: 5 }.rows().is_empty());
    assert_eq!(Rect::new(65530, 2, 10, 1), Rect { x: 65530, y: 2, width: 5, height: 1 });
    let edge = Rect { x: 65530, y: 0, width: 10, height: 1 };
    assert!(edge.contains(Position { x: 65534, y: 0 }));
    assert!(!edge.contains(Position { x: 65535, y: 0 }));
}

#[test]
fn some_screens_hear_the_connection() {
    assert!(!Screen::new().app.hears_the_connection());
    assert!(Screen::loading().app.hears_the_connection());
    assert!(Screen::running().app.hears_the_connection());
    assert!(!Screen::failed().app.hears_the_connection());
}

#[test]
fn players_are_ordered_by_their_addresses() {
    let player = |ip, port, name: &str| PlayerInfo {
        addr: SocketAddr { ip, port },
        username: name.to_string(),
    };
    let ordered = [
        player(IpAddr::V4(1), 9, "z"),
        player(IpAddr::V4(2), 1, "a"),
        player(IpAddr::V4(2), 1, "b"),
        player(IpAddr::V4(2), 2, "a"),
        player(IpAddr::V6(0), 1, "a"),
    ];
    assert!(ordered.windows(2).all(|w| w[0] < w[1]));
}
