//! What the screens show.

use mineshare::client_impls::draw::{Color, Draw, Paragraph, Style};
use mineshare::client_impls::geometry::{Position, Rect};
use mineshare::client_impls::layout::{
    Constraint, Direction, FailedLayout, Flex, LoadingLayout, LogRow, MenuLayout, PlayerRow,
    RunningLayout, Split,
};
use mineshare::client_impls::tui_render::is_cursor_fitting;
use mineshare::client_impls::types::{
    Cursor, EditableTextBox, FailedSelected, FailedState, LoadingState, LogLine,
    MainMenuTemporaryState, PlayerInfo, RenderResult, RetryDelay, RunningState, SelectedBlock,
    ServerInfo, TuiApp, TuiAppState,
};
use mineshare::net::{IpAddr, SocketAddr};

const AREA: Rect = Rect { x: 0, y: 0, width: 100, height: 40 };
const NOWHERE: (u16, u16) = (u16::MAX, u16::MAX);

fn row(y: u16) -> Rect {
    Rect { x: 0, y, width: 20, height: 3 }
}

fn text(p: &Paragraph) -> String {
    let lines: Vec<String> =
        p.lines.iter().map(|l| l.spans.iter().map(|s| s.text.as_str()).collect()).collect();
    lines.join("\n")
}

fn shown(plan: &[Draw]) -> Vec<(Rect, String, Style)> {
    let mut out = Vec::new();
    for d in plan {
        if let Draw::Paragraph(area, p) = d {
            out.push((*area, text(p), p.style));
        }
    }
    out
}

fn says(plan: &[Draw], s: &str) -> bool {
    shown(plan).iter().any(|(_, t, _)| t == s)
}

fn text_box(selected: bool, cursor: Cursor, content: &str) -> Vec<Draw> {
    EditableTextBox {
        title: " T ",
        content,
        selected,
        cursor,
        mouse_position: Position { x: 5, y: 5 },
        rect: row(0),
        suffix: None,
    }
    .render()
}

#[test]
fn a_text_box_shows_its_cursor() {
    let plan = text_box(false, Cursor::Position(1), "abc");
    assert_eq!(plan.len(), 2);
    match &plan[0] {
        Draw::Block(area, b) => {
            assert_eq!(*area, row(0));
            assert_eq!(b.title.as_deref(), Some(" T "));
            assert_eq!(b.border_style, Style { fg: None, bg: None });
        }
        other => panic!("{other:?}"),
    }
    let on_green = Style { fg: Some(Color::Black), bg: Some(Color::Green) };
    let cell = |x| Rect { x, y: 1, width: 1, height: 1 };
    let plan = shown(&text_box(true, Cursor::Position(1), "abc"));
    assert_eq!(plan[0], (Rect { x: 1, y: 1, width: 18, height: 1 }, "abc".to_string(), Style { fg: None, bg: None }));
    assert_eq!(plan[1], (cell(2), "b".to_string(), on_green));
    let plan = shown(&text_box(true, Cursor::Position(3), "abc"));
    assert_eq!(plan[1], (cell(4), " ".to_string(), on_green));
    let plan = shown(&text_box(true, Cursor::Position(0), "\u{00e9}"));
    assert_eq!(plan[1].1, " ");
    let plan = shown(&text_box(true, Cursor::All, "abc"));
    assert_eq!(plan[1], (Rect { x: 1, y: 1, width: 3, height: 1 }, "abc".to_string(), on_green));
}

#[test]
fn a_cursor_can_be_too_far_away() {
    assert!(is_cursor_fitting(true, Cursor::Position(10), row(0)));
    let far = Rect { x: 65530, y: 0, width: 5, height: 3 };
    assert!(!is_cursor_fitting(true, Cursor::Position(5), far));
    assert!(is_cursor_fitting(true, Cursor::Position(4), far));
    assert!(is_cursor_fitting(false, Cursor::Position(5), far));
    assert!(is_cursor_fitting(true, Cursor::All, far));
}

#[test]
fn the_menu_is_divided() {
    let l = MenuLayout::new(AREA, true, 2);
    assert_eq!(l.help, Rect { x: 0, y: 39, width: 100, height: 1 });
    assert_eq!(l.left, Rect { x: 0, y: 0, width: 50, height: 39 });
    assert_eq!(l.right, Rect { x: 50, y: 0, width: 50, height: 39 });
    assert_eq!(l.server_ip, Rect { x: 1, y: 1, width: 48, height: 3 });
    assert_eq!(l.request_domain.y, 4);
    assert_eq!(l.advanced, Rect { x: 1, y: 7, width: 10, height: 1 });
    assert_eq!(l.advanced_text, Rect { x: 1, y: 8, width: 48, height: 9 });
    assert_eq!(l.start, Rect { x: 1, y: 35, width: 48, height: 3 });
    assert_eq!(l.start_inner, Rect { x: 1, y: 36, width: 48, height: 1 });
    assert_eq!(l.servers.len(), 2);
    assert_eq!(l.servers[1], Rect { x: 51, y: 5, width: 48, height: 4 });
    assert_eq!(l.loading, Rect { x: 51, y: 10, width: 48, height: 1 });
    let b = l.proxy.unwrap();
    assert_eq!((b.proxy_ip.y, b.play_port.y, b.init_port.y), (8, 11, 14));
    assert!(MenuLayout::new(AREA, false, 0).proxy.is_none());
}

#[test]
fn the_menu_is_drawn() {
    let mut app = TuiApp::new();
    if let TuiAppState::MainMenu(m) = &mut app.app_state {
        m.servers.push(ServerInfo { motd: "hello".to_string(), ip: "1.2.3.4:5".to_string() });
        m.last_selected_server = Some(0);
        m.selected = SelectedBlock::StartButton;
        m.errors = vec!["first".to_string(), "second".to_string()];
    }
    app.mouse_pos = NOWHERE;
    let (plan, boxes) = app.render(AREA, "").unwrap();
    assert!(says(&plan, "Next: Tab, Previous: Shift+Tab, Exit: q, Select: Enter; (Can use mouse too!)"));
    assert!(says(&plan, "Lan Server - 1.2.3.4:5 - Set as server IP!\nhello"));
    assert!(says(&plan, "Loading LAN servers..."));
    assert!(says(&plan, " Advanced "));
    assert!(says(&plan, "Start"));
    let errors = shown(&plan).into_iter().find(|(_, t, _)| t == "first\nsecond").unwrap();
    assert_eq!(errors.0, Rect { x: 1, y: 8, width: 48, height: 27 });
    assert_eq!(errors.2, Style { fg: Some(Color::Red), bg: None });
    let starts: Vec<Style> = plan
        .iter()
        .filter_map(|d| match d {
            Draw::Block(area, b) if area.y == 35 => Some(b.style),
            _ => None,
        })
        .collect();
    assert_eq!(starts, vec![Style { fg: Some(Color::Black), bg: Some(Color::LightGreen) }]);
    match boxes {
        RenderResult::MainMenu { bounding_boxes } => {
            assert_eq!(bounding_boxes.server_rects.len(), 1);
            assert!(bounding_boxes.advanced_rects.is_none());
            assert_eq!(bounding_boxes.start_rect.y, 35);
        }
        other => panic!("{other:?}"),
    }
    app.permanent_state.advanced = true;
    let (plan, _) = app.render(AREA, "").unwrap();
    assert!(says(&plan, "na.mineshare.dev"));
    assert!(says(&plan, "25564"));
    assert!(says(&plan, "25563"));
}

#[test]
fn a_menu_whose_cursor_is_too_far_away_is_not_drawn() {
    let mut m = MainMenuTemporaryState::new();
    m.selected = SelectedBlock::ServerIp;
    m.cursor = Cursor::Position(65535);
    let app = TuiApp::new();
    assert!(m.render(&app.permanent_state, AREA, NOWHERE).is_none());
    m.cursor = Cursor::Position(65536);
    assert!(m.render(&app.permanent_state, AREA, NOWHERE).is_some());
}

#[test]
fn the_screen_while_connecting_is_drawn() {
    let l = LoadingLayout::new(AREA);
    assert_eq!(l.middle.width, 25);
    assert_eq!(l.loading.height, 3);
    assert_eq!((l.cancel.width, l.cancel.height), (8, 1));
    assert_eq!(l.cancel.y, l.loading.y + 4);
    let s = LoadingState { cancel_selected: false, retry: RetryDelay { bits: 0 } };
    let plan = shown(&s.plan(NOWHERE, l));
    assert_eq!(plan[1], (l.loading, " Loading...".to_string(), Style { fg: None, bg: None }));
    assert_eq!(plan[2], (l.cancel, "Cancel".to_string(), Style { fg: None, bg: Some(Color::LightRed) }));
    let hover = shown(&s.plan((l.cancel.x, l.cancel.y), l));
    assert_eq!(hover[2].2.bg, Some(Color::Magenta));
    let s = LoadingState { cancel_selected: true, retry: RetryDelay { bits: 0 } };
    assert_eq!(shown(&s.plan(NOWHERE, l))[2].2.bg, Some(Color::Magenta));
    let (plan, button) = s.render(AREA, NOWHERE);
    assert_eq!(plan.len(), 3);
    assert_eq!(button, l.cancel);
}

fn failed(permanent: bool) -> FailedState {
    FailedState {
        permanent,
        msg: "broken".to_string(),
        retry: RetryDelay { bits: 0 },
        retry_at: 0,
        selected: FailedSelected::Nothing,
    }
}

#[test]
fn the_screen_after_a_failure_is_drawn() {
    let (plan, cancel, retry) = failed(false).render("1.250", AREA, NOWHERE);
    assert!(says(&plan, "broken"));
    assert!(says(&plan, "Retrying in: 1.250s"));
    assert!(says(&plan, " Cancel "));
    assert!(says(&plan, " Retry now"));
    let retry = retry.unwrap();
    assert_eq!((retry.width, cancel.width), (11, 8));
    assert_eq!(cancel.x, retry.x + 12);
    let hover = failed(false).plan("", (retry.x, retry.y), FailedLayout::new(AREA, false));
    assert_eq!(shown(&hover).last().unwrap().2.bg, Some(Color::Green));
    let (plan, _, retry) = failed(true).render("1.250", AREA, NOWHERE);
    assert!(retry.is_none());
    assert!(!says(&plan, "Retrying in: 1.250s"));
    assert!(!says(&plan, " Retry now"));
}

fn running() -> RunningState {
    let mut s = RunningState::new("a-b-c.d".to_string());
    for i in 0..3 {
        let addr = SocketAddr { ip: IpAddr::V4(i), port: 7 };
        s.players.push_back(PlayerInfo { addr, username: format!("p{i}") });
        s.logs.push_front(LogLine { time: format!("t{i}"), text: format!("l{i}") });
    }
    s
}

#[test]
fn a_log_of_any_length_is_drawn() {
    let mut s = running();
    for i in 0..200 {
        s.logs.push_front(LogLine { time: String::new(), text: format!("line {i}") });
    }
    let (plan, _) = s.render(AREA, NOWHERE);
    assert!(says(&plan, "line 199"));
    assert!(!says(&plan, "line 100"));
    s.scroll_logs = 99;
    let (plan, _) = s.render(AREA, NOWHERE);
    assert!(says(&plan, "line 100"));
}

#[test]
fn the_screen_of_a_shared_server_is_divided() {
    let l = RunningLayout::new(AREA, 2, 50);
    assert_eq!(l.ip, Rect { x: 0, y: 0, width: 50, height: 3 });
    assert_eq!(l.players, Rect { x: 0, y: 3, width: 50, height: 36 });
    assert_eq!(l.player_rows.len(), 2);
    assert_eq!(
        l.player_rows[1],
        PlayerRow {
            name: Rect { x: 1, y: 5, width: 16, height: 1 },
            addr: l.player_rows[1].addr,
            gap: l.player_rows[1].gap,
            disconnect: l.player_rows[1].disconnect,
        }
    );
    assert_eq!(l.log_rows.len(), 37);
    assert_eq!(
        l.log_rows[0],
        LogRow {
            time: Rect { x: 51, y: 37, width: 20, height: 1 },
            text: Rect { x: 73, y: 37, width: 26, height: 1 },
        }
    );
    assert_eq!(l.log_rows[36].time.y, 1);
}

#[test]
fn the_screen_of_a_shared_server_is_drawn() {
    let mut s = running();
    s.scroll_players = 1;
    s.scroll_logs = 2;
    let (plan, boxes) = s.render(AREA, NOWHERE);
    assert!(says(&plan, "a-b-c.d"));
    assert!(!says(&plan, "0.0.0.0:7"));
    assert!(says(&plan, "0.0.0.1:7"));
    assert!(says(&plan, "0.0.0.2:7"));
    assert!(says(&plan, "TEST"));
    assert!(says(&plan, " Disconnect "));
    assert!(says(&plan, "l0"));
    assert!(says(&plan, "t0"));
    assert!(!says(&plan, "l1"));
    assert_eq!(boxes.disconnects.len(), 2);
    assert_eq!(boxes.disconnects[0].0, SocketAddr { ip: IpAddr::V4(1), port: 7 });
    assert_eq!(boxes.ip_box, Rect { x: 0, y: 0, width: 50, height: 3 });
    assert_eq!(boxes.players_box, Rect { x: 1, y: 4, width: 48, height: 34 });
    assert_eq!(boxes.logs_box, Rect { x: 51, y: 1, width: 48, height: 37 });
    s.copied = true;
    let (plan, _) = s.render(AREA, NOWHERE);
    assert!(says(&plan, "a-b-c.d - Copied "));
}

#[test]
fn every_screen_can_be_drawn_on_a_tiny_terminal() {
    let tiny = Rect { x: 0, y: 0, width: 1, height: 1 };
    let mut app = TuiApp::new();
    assert!(app.render(tiny, "").is_some());
    app.permanent_state.server_ip = "a".to_string();
    app.app_state = TuiAppState::Running(running());
    assert!(matches!(app.render(tiny, ""), Some((_, RenderResult::RunningScreen { .. }))));
    app.app_state = TuiAppState::Failed(failed(false));
    assert!(matches!(app.render(tiny, ""), Some((_, RenderResult::FailScreen { .. }))));
    let loading = LoadingState { cancel_selected: false, retry: RetryDelay { bits: 0 } };
    app.app_state = TuiAppState::ServerLoading(loading);
    assert!(matches!(app.render(tiny, ""), Some((_, RenderResult::Loading { .. }))));
}

fn next(seed: &mut u64) -> u64 {
    *seed = seed.wrapping_mul(6364136223846793005).wrapping_add(1442695040888963407);
    *seed >> 33
}

/// Where the pieces of a division begin and end, where that is settled.
fn placed(split: &Split) -> Option<Vec<(i64, i64)>> {
    let area = split.area;
    let (start, size) = match split.direction {
        Direction::Horizontal => (area.x, area.x.saturating_add(area.width) - area.x),
        Direction::Vertical => (area.y, area.y.saturating_add(area.height) - area.y),
    };
    let (start, size, spacing) = (i64::from(start), i64::from(size), i64::from(split.spacing));
    let wanted = |c: &Constraint| match *c {
        Constraint::Length(n) => 200 * i64::from(n),
        Constraint::Percentage(p) => 2 * i64::from(p) * size,
        Constraint::Fill(_) => 0,
    };
    let fills = split.constraints.iter().filter(|c| matches!(c, Constraint::Fill(_))).count() as i64;
    let sum: i64 = split.constraints.iter().map(wanted).sum();
    let spare = 200 * size - sum - 200 * spacing * (split.constraints.len() as i64 - 1);
    if spare < 0 || fills > 0 && spare % fills != 0 {
        return None;
    }
    let mut at = 200 * start;
    if split.flex == Flex::Center && fills == 0 {
        at += spare / 2;
    }
    let mut pieces = Vec::new();
    for c in &split.constraints {
        let extent = if matches!(c, Constraint::Fill(_)) { spare / fills } else { wanted(c) };
        if at % 200 == 99 || (at + extent) % 200 == 99 {
            return None;
        }
        pieces.push(((at + 100) / 200, (at + extent + 100) / 200));
        at += extent + 200 * spacing;
    }
    Some(pieces)
}

/// Whether the places of the pieces were settled.
fn check_division(split: &Split) -> bool {
    let pieces = split.divide();
    let area = split.area;
    assert_eq!(pieces.len(), split.constraints.len());
    let ends: Vec<(i64, i64)> = pieces
        .iter()
        .map(|p| match split.direction {
            Direction::Horizontal => {
                assert_eq!((p.y, p.height), (area.y, area.height));
                assert!(area.x <= p.x);
                assert!(p.x.checked_add(p.width).unwrap() <= area.x.saturating_add(area.width));
                (i64::from(p.x), i64::from(p.x + p.width))
            }
            Direction::Vertical => {
                assert_eq!((p.x, p.width), (area.x, area.width));
                assert!(area.y <= p.y);
                assert!(p.y.checked_add(p.height).unwrap() <= area.y.saturating_add(area.height));
                (i64::from(p.y), i64::from(p.y + p.height))
            }
        })
        .collect();
    match placed(split) {
        Some(want) => {
            assert_eq!(ends, want, "{split:?}");
            true
        }
        None => false,
    }
}

#[test]
fn screens_are_divided_as_they_should_be() {
    for (x, y) in [(0, 0), (3, 7), (60000, 60000)] {
        for n in 0..120 {
            let area = Rect { x, y, width: n, height: n };
            check_division(&Split::help(area));
            assert!(check_division(&Split::menu_columns(area)));
            check_division(&Split::menu_fields(area));
            check_division(&Split::proxy_fields(area));
            check_division(&Split::left_button(area, 10));
            check_division(&Split::middle_button(area, 8));
            check_division(&Split::middle_line(area));
            assert!(check_division(&Split::middle_column(area, 25)));
            assert!(check_division(&Split::middle_column(area, 40)));
            check_division(&Split::loading_rows(area));
            check_division(&Split::failed_rows(area));
            check_division(&Split::two_buttons(area, 11, 8));
            assert!(check_division(&Split::halves(area)));
            check_division(&Split::running_rows(area));
            check_division(&Split::player_columns(area, 12));
            check_division(&Split::log_columns(area));
            check_division(&Split::server_rows(area, usize::from(n) / 5));
        }
    }
}

#[test]
fn divisions_are_settled_where_there_is_room() {
    let area = Rect { x: 0, y: 0, width: 80, height: 24 };
    for split in [
        Split::help(area),
        Split::menu_fields(area),
        Split::proxy_fields(area),
        Split::left_button(area, 10),
        Split::loading_rows(area),
        Split::failed_rows(area),
        Split::two_buttons(area, 11, 8),
        Split::running_rows(area),
        Split::player_columns(area, 12),
        Split::log_columns(area),
        Split::server_rows(area, 5),
    ] {
        assert!(check_division(&split));
    }
}

#[test]
fn any_parts_are_divided_as_they_should_be() {
    let mut seed = 1;
    let mut settled = 0;
    for _ in 0..6000 {
        let mut below = |n: u64| (next(&mut seed) % n) as u16;
        let size = [30, 200, 5000, 65536][usize::from(below(4))];
        let area = Rect {
            x: below(300),
            y: below(300),
            width: below(size),
            height: below(size),
        };
        let constraints = (0..below(6))
            .map(|_| match below(3) {
                0 => Constraint::Length(below(40)),
                1 => Constraint::Percentage(below(60)),
                _ => Constraint::Fill(1),
            })
            .collect();
        let direction = if below(2) == 0 { Direction::Horizontal } else { Direction::Vertical };
        let flex = if below(2) == 0 { Flex::Start } else { Flex::Center };
        let spacing = below(4);
        if check_division(&Split { area, direction, constraints, flex, spacing }) {
            settled += 1;
        }
    }
    assert!(settled > 1000);
}

#[test]
fn the_menu_gets_the_odd_column() {
    for (width, left) in [(0, 0), (1, 1), (80, 40), (81, 41)] {
        let area = Rect { x: 5, y: 2, width, height: 9 };
        let columns = Split::menu_columns(area).divide();
        assert_eq!(columns[0], Rect { width: left, ..area });
        assert_eq!(columns[1], Rect { x: 5 + left, width: width - left, ..area });
    }
}
