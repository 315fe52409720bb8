//! What the screens do with what reaches them.

use crate::client_impls::consts::{DEFAULT_URL, RETRY_START};
use crate::client_impls::geometry::{Position, Rect};
use crate::client_impls::menu;
use crate::client_impls::menu::MenuView;
use crate::client_impls::types;
use crate::client_impls::types::{
    AppView, FailedSelected, FailedState, FailedView, KeyCode, LoadingState, LogLine, LogView,
    MainMenuBoundingBoxes, MainMenuEventResult, MainMenuPermanentState, MainMenuTemporaryState,
    MouseEventKind, PermView, PlayerInfo, PlayerView, RenderResult, RetryDelay,
    RunningBoundingBoxes, RunningState, RunningView, ServerEvent, ServerEventView, ServerInfo,
    StateView, TempView, TerminalEvent, TuiApp, TuiAppState, UiEvent, UiEventView, LOG_LINES,
};
use crate::message::PROTOCOL_VERSION;
use crate::net::SocketAddr;
use crate::search;
use crate::text;
use crate::text::{concat, concat3, decimal};
use std::collections::VecDeque;
use vstd::prelude::*;

verus! {

/// What reaches a screen while it is shown: an event, the end of the frame, or
/// that no events will come any more.
#[derive(Debug)]
pub enum Input {
    Terminal(TerminalEvent),
    Server(ServerEvent),
    Timeout,
    Closed,
}

/// What happens next.
#[derive(Debug, Clone, Copy, PartialEq, Eq, Structural)]
pub enum Flow {
    /// Wait for more in this frame.
    Wait,
    /// Wait for more in another frame, without drawing.
    Extend,
    /// Draw, after the menu has taken in the servers that were found.
    Redraw,
    /// Draw.
    Next,
    /// Put the address of the server into the clipboard, and report back.
    Copy,
    /// Leave the app.
    Exit,
}

/// The times that a screen needs. They are counted in nanoseconds.
#[derive(Debug)]
pub struct Moment {
    /// The time.
    pub now: u64,
    /// The time when the delay will be over that a failure now has to wait out.
    pub retry_at: u64,
    /// The delay after the next failure.
    pub next_retry: RetryDelay,
    /// The time, written for the log.
    pub time: String,
}

/// Where a screen leads.
#[derive(Debug)]
pub enum Turn {
    /// It stays.
    Stay(Flow),
    /// Back to the menu, and whether sharing has to be stopped.
    Menu { stop: bool },
    /// To another attempt to connect.
    Connect { retry: RetryDelay },
    /// To the report of a failure.
    Fail(FailedState),
    /// To a server that is shared at this address.
    Run(String),
    /// It stays, without this player.
    Kick(SocketAddr),
}

/// A [`Turn`] with its texts as sequences.
pub enum TurnView {
    Stay(Flow),
    Menu { stop: bool },
    Connect { retry: RetryDelay },
    Fail(FailedView),
    Run(Seq<char>),
    Kick(SocketAddr),
}

impl View for Turn {
    type V = TurnView;

    open spec fn view(&self) -> TurnView {
        match *self {
            Turn::Stay(flow) => TurnView::Stay(flow),
            Turn::Menu { stop } => TurnView::Menu { stop },
            Turn::Connect { retry } => TurnView::Connect { retry },
            Turn::Fail(state) => TurnView::Fail(state@),
            Turn::Run(url) => TurnView::Run(url@),
            Turn::Kick(addr) => TurnView::Kick(addr),
        }
    }
}

/// Whether a key leaves the app.
pub open spec fn quits(code: KeyCode, control: bool) -> bool {
    code matches KeyCode::Char(c) && (c == 'q' || (c == 'c' && control))
}

fn is_quit(code: KeyCode, control: bool) -> (r: bool)
    ensures
        r == quits(code, control),
{
    if let KeyCode::Char(c) = code {
        c == 'q' || (c == 'c' && control)
    } else {
        false
    }
}

/// What the end of a frame leads to.
pub open spec fn frame_end(redraw: bool) -> Flow {
    if redraw {
        Flow::Redraw
    } else {
        Flow::Extend
    }
}

/// The report of a failure that is followed by another attempt.
pub open spec fn retried(msg: Seq<char>, retry: RetryDelay, moment: Moment) -> FailedView {
    FailedView {
        permanent: false,
        msg,
        retry,
        retry_at: moment.retry_at,
        selected: FailedSelected::Nothing,
    }
}

/// The report of a failure that another attempt would not mend.
pub open spec fn permanent(msg: Seq<char>, moment: Moment) -> FailedView {
    FailedView {
        permanent: true,
        msg,
        retry: RetryDelay { bits: 0 },
        retry_at: moment.now,
        selected: FailedSelected::Nothing,
    }
}

/// What is said where the protocol of the proxy has another version.
pub open spec fn version_text(version: u64) -> Seq<char> {
    let which = if version > PROTOCOL_VERSION {
        "Protocol version too low! You are on "@
    } else {
        "Protocol version too high! You are on "@
    };
    which + text::decimal_text(PROTOCOL_VERSION as nat) + " but proxy is on "@ + text::decimal_text(
        version as nat,
    )
}

fn version_message(version: u64) -> (r: String)
    ensures
        r@ == version_text(version),
{
    let which = if version > PROTOCOL_VERSION {
        "Protocol version too low! You are on "
    } else {
        "Protocol version too high! You are on "
    };
    let own = decimal(PROTOCOL_VERSION);
    let other = decimal(version);
    let front = concat3(which, own.as_str(), " but proxy is on ");
    concat(front.as_str(), other.as_str())
}

/// What is said where the proxy assigned another domain than the requested one.
pub open spec fn domain_text(url: Seq<char>) -> Seq<char> {
    "Did not get assigned requested subdomain. Got assigned `"@ + url + "`"@
}

/// The screen while the proxy is being connected to: the state, the place of the
/// mouse, whether to draw at the end of the frame, and where it leads.
pub open spec fn loading_input(
    s: LoadingState,
    mouse: (u16, u16),
    redraw: bool,
    cancel_box: Rect,
    input: Input,
    moment: Moment,
) -> (LoadingState, (u16, u16), bool, TurnView) {
    let same = (s, mouse, redraw, TurnView::Stay(Flow::Wait));
    match input {
        Input::Timeout => (s, mouse, redraw, TurnView::Stay(frame_end(redraw))),
        Input::Closed => (s, mouse, redraw, TurnView::Stay(Flow::Exit)),
        Input::Server(e) => match e@ {
            ServerEventView::Url(url) => (s, mouse, redraw, TurnView::Run(url)),
            ServerEventView::ServerConnectionFailed(msg) => (
                s,
                mouse,
                redraw,
                TurnView::Fail(retried(msg, s.retry, moment)),
            ),
            ServerEventView::ServerConnectionFailedTimeout => (
                s,
                mouse,
                redraw,
                TurnView::Fail(retried("Timed out when connecting to proxy"@, s.retry, moment)),
            ),
            ServerEventView::InvalidProtocolVersion(version) => (
                s,
                mouse,
                redraw,
                TurnView::Fail(permanent(version_text(version), moment)),
            ),
            ServerEventView::DidntGetRequestedUrl(url) => (
                s,
                mouse,
                redraw,
                TurnView::Fail(permanent(domain_text(url), moment)),
            ),
            _ => same,
        },
        Input::Terminal(TerminalEvent::Key(e)) => if e.release {
            same
        } else {
            match e.code {
                KeyCode::Tab | KeyCode::BackTab => (
                    LoadingState { cancel_selected: true, ..s },
                    mouse,
                    true,
                    TurnView::Stay(Flow::Wait),
                ),
                KeyCode::Esc => (
                    LoadingState { cancel_selected: false, ..s },
                    mouse,
                    true,
                    TurnView::Stay(Flow::Wait),
                ),
                KeyCode::Enter if s.cancel_selected => (
                    s,
                    mouse,
                    redraw,
                    TurnView::Menu { stop: true },
                ),
                code => if quits(code, e.control) {
                    (s, mouse, redraw, TurnView::Stay(Flow::Exit))
                } else {
                    same
                },
            }
        },
        Input::Terminal(TerminalEvent::Mouse(e)) => match e.kind {
            MouseEventKind::Moved => (
                s,
                (e.column, e.row),
                true,
                TurnView::Stay(Flow::Wait),
            ),
            MouseEventKind::Up => if cancel_box.has(e.at()) {
                (s, menu::nowhere(), redraw, TurnView::Menu { stop: true })
            } else {
                (s, menu::nowhere(), true, TurnView::Stay(Flow::Wait))
            },
            _ => same,
        },
        Input::Terminal(_) => same,
    }
}

impl LoadingState {
    /// Works an input into the screen.
    pub fn handle_input(
        &mut self,
        mouse_pos: &mut (u16, u16),
        redraw: &mut bool,
        cancel_bounding_box: Rect,
        input: Input,
        moment: &Moment,
    ) -> (r: Turn)
        ensures
            (*final(self), *final(mouse_pos), *final(redraw), r@) == loading_input(
                *old(self),
                *old(mouse_pos),
                *old(redraw),
                cancel_bounding_box,
                input,
                *moment,
            ),
    {
        match input {
            Input::Timeout => {
                if *redraw {
                    Turn::Stay(Flow::Redraw)
                } else {
                    Turn::Stay(Flow::Extend)
                }
            },
            Input::Closed => Turn::Stay(Flow::Exit),
            Input::Server(e) => match e {
                ServerEvent::Url(url) => Turn::Run(url),
                ServerEvent::ServerConnectionFailed(msg) => Turn::Fail(
                    FailedState {
                        permanent: false,
                        msg,
                        retry: self.retry,
                        retry_at: moment.retry_at,
                        selected: FailedSelected::Nothing,
                    },
                ),
                ServerEvent::ServerConnectionFailedTimeout => Turn::Fail(
                    FailedState {
                        permanent: false,
                        msg: "Timed out when connecting to proxy".to_owned(),
                        retry: self.retry,
                        retry_at: moment.retry_at,
                        selected: FailedSelected::Nothing,
                    },
                ),
                ServerEvent::InvalidProtocolVersion(version) => Turn::Fail(
                    FailedState {
                        permanent: true,
                        msg: version_message(version),
                        retry: RetryDelay { bits: 0 },
                        retry_at: moment.now,
                        selected: FailedSelected::Nothing,
                    },
                ),
                ServerEvent::DidntGetRequestedUrl(url) => Turn::Fail(
                    FailedState {
                        permanent: true,
                        msg: concat3(
                            "Did not get assigned requested subdomain. Got assigned `",
                            url.as_str(),
                            "`",
                        ),
                        retry: RetryDelay { bits: 0 },
                        retry_at: moment.now,
                        selected: FailedSelected::Nothing,
                    },
                ),
                // What is left over from an earlier connection is passed over.
                _ => Turn::Stay(Flow::Wait),
            },
            Input::Terminal(TerminalEvent::Key(e)) => {
                if e.release {
                    return Turn::Stay(Flow::Wait);
                }
                match e.code {
                    KeyCode::Tab | KeyCode::BackTab => {
                        self.cancel_selected = true;
                        *redraw = true;
                        Turn::Stay(Flow::Wait)
                    },
                    KeyCode::Esc => {
                        self.cancel_selected = false;
                        *redraw = true;
                        Turn::Stay(Flow::Wait)
                    },
                    KeyCode::Enter => {
                        if self.cancel_selected {
                            Turn::Menu { stop: true }
                        } else {
                            Turn::Stay(Flow::Wait)
                        }
                    },
                    code => {
                        if is_quit(code, e.control) {
                            Turn::Stay(Flow::Exit)
                        } else {
                            Turn::Stay(Flow::Wait)
                        }
                    },
                }
            },
            Input::Terminal(TerminalEvent::Mouse(e)) => match e.kind {
                MouseEventKind::Moved => {
                    *mouse_pos = (e.column, e.row);
                    *redraw = true;
                    Turn::Stay(Flow::Wait)
                },
                MouseEventKind::Up => {
                    *mouse_pos = (u16::MAX, u16::MAX);
                    if cancel_bounding_box.contains(e.position()) {
                        return Turn::Menu { stop: true };
                    }
                    *redraw = true;
                    Turn::Stay(Flow::Wait)
                },
                _ => Turn::Stay(Flow::Wait),
            },
            Input::Terminal(_) => Turn::Stay(Flow::Wait),
        }
    }
}

/// The button that Tab leads to.
pub open spec fn failed_next(selected: FailedSelected, permanent: bool) -> FailedSelected {
    match selected {
        FailedSelected::Nothing | FailedSelected::Retry => FailedSelected::Cancel,
        FailedSelected::Cancel => if permanent {
            FailedSelected::Cancel
        } else {
            FailedSelected::Retry
        },
    }
}

/// The button that Shift+Tab leads to.
pub open spec fn failed_previous(selected: FailedSelected, permanent: bool) -> FailedSelected {
    match selected {
        FailedSelected::Nothing => FailedSelected::Retry,
        FailedSelected::Cancel => if permanent {
            FailedSelected::Cancel
        } else {
            FailedSelected::Retry
        },
        FailedSelected::Retry => FailedSelected::Cancel,
    }
}

/// The screen after a failure: the state, the place of the mouse, and where it
/// leads.
pub open spec fn failed_input(
    s: FailedView,
    mouse: (u16, u16),
    main_menu: Rect,
    retry_now: Option<Rect>,
    input: Input,
    moment: Moment,
) -> (FailedView, (u16, u16), TurnView) {
    let same = (s, mouse, TurnView::Stay(Flow::Wait));
    match input {
        Input::Timeout | Input::Closed => if moment.now >= s.retry_at && !s.permanent {
            (s, mouse, TurnView::Connect { retry: moment.next_retry })
        } else {
            (s, mouse, TurnView::Stay(Flow::Redraw))
        },
        Input::Server(_) => same,
        Input::Terminal(TerminalEvent::Key(e)) => if e.release {
            same
        } else {
            match e.code {
                KeyCode::Tab => (
                    FailedView { selected: failed_next(s.selected, s.permanent), ..s },
                    mouse,
                    TurnView::Stay(Flow::Wait),
                ),
                KeyCode::BackTab => (
                    FailedView { selected: failed_previous(s.selected, s.permanent), ..s },
                    mouse,
                    TurnView::Stay(Flow::Wait),
                ),
                KeyCode::Esc => (
                    FailedView { selected: FailedSelected::Nothing, ..s },
                    mouse,
                    TurnView::Stay(Flow::Wait),
                ),
                KeyCode::Enter => match s.selected {
                    FailedSelected::Nothing => same,
                    FailedSelected::Cancel => (s, mouse, TurnView::Menu { stop: false }),
                    FailedSelected::Retry => (
                        s,
                        mouse,
                        TurnView::Connect { retry: moment.next_retry },
                    ),
                },
                code => if quits(code, e.control) {
                    (s, mouse, TurnView::Stay(Flow::Exit))
                } else {
                    same
                },
            }
        },
        Input::Terminal(TerminalEvent::Mouse(e)) => match e.kind {
            MouseEventKind::Moved => (s, (e.column, e.row), TurnView::Stay(Flow::Wait)),
            MouseEventKind::Up => (
                s,
                menu::nowhere(),
                if main_menu.has(e.at()) {
                    TurnView::Menu { stop: false }
                } else if retry_now matches Some(retry) && retry.has(e.at()) {
                    TurnView::Connect { retry: moment.next_retry }
                } else {
                    TurnView::Stay(Flow::Wait)
                },
            ),
            _ => same,
        },
        Input::Terminal(_) => same,
    }
}

impl FailedState {
    /// Works an input into the screen.
    pub fn handle_input(
        &mut self,
        mouse_pos: &mut (u16, u16),
        main_menu: Rect,
        retry_now: Option<Rect>,
        input: Input,
        moment: &Moment,
    ) -> (r: Turn)
        ensures
            (final(self)@, *final(mouse_pos), r@) == failed_input(
                old(self)@,
                *old(mouse_pos),
                main_menu,
                retry_now,
                input,
                *moment,
            ),
    {
        match input {
            Input::Timeout | Input::Closed => {
                if moment.now >= self.retry_at && !self.permanent {
                    Turn::Connect { retry: moment.next_retry }
                } else {
                    Turn::Stay(Flow::Redraw)
                }
            },
            Input::Server(_) => Turn::Stay(Flow::Wait),
            Input::Terminal(TerminalEvent::Key(e)) => {
                if e.release {
                    return Turn::Stay(Flow::Wait);
                }
                match e.code {
                    KeyCode::Tab => {
                        self.selected = match self.selected {
                            FailedSelected::Nothing | FailedSelected::Retry =>
                                FailedSelected::Cancel,
                            FailedSelected::Cancel => {
                                if self.permanent {
                                    FailedSelected::Cancel
                                } else {
                                    FailedSelected::Retry
                                }
                            },
                        };
                        Turn::Stay(Flow::Wait)
                    },
                    KeyCode::BackTab => {
                        self.selected = match self.selected {
                            FailedSelected::Nothing => FailedSelected::Retry,
                            FailedSelected::Cancel => {
                                if self.permanent {
                                    FailedSelected::Cancel
                                } else {
                                    FailedSelected::Retry
                                }
                            },
                            FailedSelected::Retry => FailedSelected::Cancel,
                        };
                        Turn::Stay(Flow::Wait)
                    },
                    KeyCode::Esc => {
                        self.selected = FailedSelected::Nothing;
                        Turn::Stay(Flow::Wait)
                    },
                    KeyCode::Enter => match self.selected {
                        FailedSelected::Nothing => Turn::Stay(Flow::Wait),
                        FailedSelected::Cancel => Turn::Menu { stop: false },
                        FailedSelected::Retry => Turn::Connect { retry: moment.next_retry },
                    },
                    code => {
                        if is_quit(code, e.control) {
                            Turn::Stay(Flow::Exit)
                        } else {
                            Turn::Stay(Flow::Wait)
                        }
                    },
                }
            },
            Input::Terminal(TerminalEvent::Mouse(e)) => match e.kind {
                MouseEventKind::Moved => {
                    *mouse_pos = (e.column, e.row);
                    Turn::Stay(Flow::Wait)
                },
                MouseEventKind::Up => {
                    *mouse_pos = (u16::MAX, u16::MAX);
                    let pos = e.position();
                    if main_menu.contains(pos) {
                        return Turn::Menu { stop: false };
                    }
                    if let Some(retry) = retry_now {
                        if retry.contains(pos) {
                            return Turn::Connect { retry: moment.next_retry };
                        }
                    }
                    Turn::Stay(Flow::Wait)
                },
                _ => Turn::Stay(Flow::Wait),
            },
            Input::Terminal(_) => Turn::Stay(Flow::Wait),
        }
    }
}

impl RunningView {
    /// The state with another line at the front of the log, which forgets the
    /// oldest line where it would grow too long.
    pub open spec fn logged(self, time: Seq<char>, text: Seq<char>) -> RunningView {
        let logs = seq![LogView { time, text }] + self.logs;
        RunningView {
            logs: if logs.len() > LOG_LINES {
                logs.drop_last()
            } else {
                logs
            },
            ..self
        }
    }

    /// Where the first player with this address stands.
    pub open spec fn player_at(self, addr: SocketAddr) -> Option<int> {
        search::first_where(self.players, |p: PlayerView| p.addr == addr)
    }

    /// The state without the first player with this address. What is shown of
    /// the players stays in its place.
    pub open spec fn without(self, addr: SocketAddr) -> RunningView {
        match self.player_at(addr) {
            Some(i) => RunningView {
                players: self.players.remove(i),
                scroll_players: if self.scroll_players > i {
                    (self.scroll_players - 1) as usize
                } else {
                    self.scroll_players
                },
                ..self
            },
            None => self,
        }
    }
}

/// A step to the front of a list of which `shown` lines are shown.
pub open spec fn scroll_back(scroll: usize, len: nat, shown: u16) -> usize {
    if len <= shown || scroll == 0 {
        0
    } else {
        (scroll - 1) as usize
    }
}

/// A step to the back of a list of which `shown` lines are shown, as far as the
/// last line stays the last that is shown.
pub open spec fn scroll_on(scroll: usize, len: nat, shown: u16) -> usize {
    if len <= shown {
        0
    } else if scroll < len - shown {
        (scroll + 1) as usize
    } else {
        (len - shown) as usize
    }
}

fn scrolled_back(scroll: usize, len: usize, shown: u16) -> (r: usize)
    ensures
        r == scroll_back(scroll, len as nat, shown),
{
    if len <= shown as usize || scroll == 0 {
        0
    } else {
        scroll - 1
    }
}

fn scrolled_on(scroll: usize, len: usize, shown: u16) -> (r: usize)
    ensures
        r == scroll_on(scroll, len as nat, shown),
{
    if len <= shown as usize {
        0
    } else if scroll < len - shown as usize {
        scroll + 1
    } else {
        len - shown as usize
    }
}

/// What is said of a player who came.
pub open spec fn connected_text(addr: SocketAddr) -> Seq<char> {
    addr.text() + " connected"@
}

/// What is said of a player who left.
pub open spec fn disconnected_text(addr: SocketAddr) -> Seq<char> {
    addr.text() + " disconnected"@
}

/// What is said where the Minecraft server could not be reached.
pub open spec fn unreached_text(msg: Seq<char>) -> Seq<char> {
    "Failed to connect to Minecraft server: "@ + msg + ". Is the MC server up?"@
}

/// The screen of a shared server, for what the connection tells: the state,
/// whether to draw at the end of the frame, and where it leads.
pub open spec fn running_event(
    s: RunningView,
    redraw: bool,
    e: ServerEventView,
    moment: Moment,
) -> (RunningView, bool, TurnView) {
    let wait = TurnView::Stay(Flow::Wait);
    let time = moment.time@;
    match e {
        ServerEventView::ServerConnectionFailed(msg) => (
            s,
            redraw,
            TurnView::Fail(retried(msg, RetryDelay { bits: RETRY_START }, moment)),
        ),
        ServerEventView::MCServerConnectionFailed(msg) => (
            s.logged(time, unreached_text(msg)),
            true,
            wait,
        ),
        ServerEventView::ServerNonCatastrophicError(msg) => (
            s.logged(time, "Error: "@ + msg),
            true,
            wait,
        ),
        ServerEventView::PlayerConnected(addr, username) => (
            RunningView { players: s.players.push(PlayerView { addr, username }), ..s }.logged(
                time,
                connected_text(addr),
            ),
            true,
            wait,
        ),
        ServerEventView::PlayerDisconnected(addr, _) => (
            s.without(addr).logged(time, disconnected_text(addr)),
            redraw || s.player_at(addr) is Some,
            wait,
        ),
        ServerEventView::Stopped => (s, redraw, TurnView::Menu { stop: false }),
        _ => (s, redraw, wait),
    }
}

/// The player whose button a cell lies in.
pub open spec fn kicked(boxes: RunningBoundingBoxes, pos: Position) -> Option<int> {
    search::first_where(boxes.disconnects@, |d: (SocketAddr, Rect)| d.1.has(pos))
}

/// The screen of a shared server: the state, the place of the mouse, whether to
/// draw at the end of the frame, and where it leads.
pub open spec fn running_input(
    s: RunningView,
    mouse: (u16, u16),
    redraw: bool,
    boxes: RunningBoundingBoxes,
    input: Input,
    moment: Moment,
) -> (RunningView, (u16, u16), bool, TurnView) {
    let wait = TurnView::Stay(Flow::Wait);
    let same = (s, mouse, redraw, wait);
    match input {
        Input::Timeout => (s, mouse, redraw, TurnView::Stay(frame_end(redraw))),
        Input::Closed => (s, mouse, redraw, TurnView::Stay(Flow::Exit)),
        Input::Server(e) => {
            let (s, redraw, turn) = running_event(s, redraw, e@, moment);
            (s, mouse, redraw, turn)
        },
        Input::Terminal(TerminalEvent::Key(e)) => if e.release {
            same
        } else if e.code == KeyCode::Char('q') {
            (s, mouse, redraw, TurnView::Menu { stop: true })
        } else if e.code == KeyCode::Char('c') && e.control {
            (s, mouse, redraw, TurnView::Stay(Flow::Exit))
        } else {
            same
        },
        Input::Terminal(TerminalEvent::Mouse(e)) => match e.kind {
            MouseEventKind::Moved => (s, (e.column, e.row), true, wait),
            MouseEventKind::Up => {
                let s = RunningView { copied: false, ..s };
                if boxes.ip_box.has(e.at()) {
                    (s, menu::nowhere(), redraw, TurnView::Stay(Flow::Copy))
                } else {
                    match kicked(boxes, e.at()) {
                        Some(i) => (
                            s,
                            menu::nowhere(),
                            redraw,
                            TurnView::Kick(boxes.disconnects@[i].0),
                        ),
                        None => (s, menu::nowhere(), true, wait),
                    }
                }
            },
            MouseEventKind::ScrollUp => if boxes.players_box.has(e.at()) {
                let scroll_players = scroll_back(
                    s.scroll_players,
                    s.players.len(),
                    boxes.players_box.height,
                );
                (RunningView { scroll_players, ..s }, mouse, true, wait)
            } else if boxes.logs_box.has(e.at()) {
                let scroll_logs = scroll_on(s.scroll_logs, s.logs.len(), boxes.logs_box.height);
                (RunningView { scroll_logs, ..s }, mouse, true, wait)
            } else {
                same
            },
            MouseEventKind::ScrollDown => if boxes.players_box.has(e.at()) {
                let scroll_players = scroll_on(
                    s.scroll_players,
                    s.players.len(),
                    boxes.players_box.height,
                );
                (RunningView { scroll_players, ..s }, mouse, true, wait)
            } else if boxes.logs_box.has(e.at()) {
                let scroll_logs = scroll_back(s.scroll_logs, s.logs.len(), boxes.logs_box.height);
                (RunningView { scroll_logs, ..s }, mouse, true, wait)
            } else {
                same
            },
            MouseEventKind::Other => same,
        },
        Input::Terminal(_) => same,
    }
}

impl RunningState {
    /// A server that was just shared at this address.
    pub fn new(ip: String) -> (r: RunningState)
        ensures
            r@ == new_running(ip@),
    {
        let r = RunningState {
            ip,
            players: VecDeque::new(),
            logs: VecDeque::new(),
            scroll_players: 0,
            scroll_logs: 0,
            copied: false,
        };
        assert(r@ =~= new_running(ip@));
        r
    }

    /// Puts a line at the front of the log.
    fn log(&mut self, time: &String, text: String)
        ensures
            final(self)@ == old(self)@.logged(time@, text@),
    {
        let ghost before = self@;
        self.logs.push_front(LogLine { time: time.clone(), text });
        let ghost grown = types::log_views(self.logs@);
        assert(grown =~= seq![LogView { time: time@, text: text@ }] + before.logs);
        if self.logs.len() > LOG_LINES {
            self.logs.pop_back();
            assert(types::log_views(self.logs@) =~= grown.drop_last());
        }
        assert(self@ =~= before.logged(time@, text@));
    }

    /// Removes the first player with this address. The result is whether there
    /// was one.
    fn remove_player(&mut self, addr: SocketAddr) -> (r: bool)
        ensures
            final(self)@ == old(self)@.without(addr),
            r == old(self)@.player_at(addr) is Some,
    {
        let ghost before = self@;
        let ghost wanted = |p: PlayerView| p.addr == addr;
        let mut i: usize = 0;
        while i < self.players.len()
            invariant
                i <= self.players@.len(),
                self@ == before,
                before == old(self)@,
                wanted == (|p: PlayerView| p.addr == addr),
                forall|j: int| 0 <= j < i ==> !wanted(#[trigger] before.players[j]),
            decreases self.players@.len() - i,
        {
            assert(before.players[i as int] == self.players@[i as int]@);
            if self.players[i].addr == addr {
                proof {
                    search::lemma_found(before.players, wanted, i as int);
                }
                let _gone = self.players.remove(i);
                assert(types::player_views(self.players@) =~= before.players.remove(i as int));
                if self.scroll_players > i {
                    self.scroll_players = self.scroll_players - 1;
                }
                assert(self@ =~= before.without(addr));
                return true;
            }
            i = i + 1;
        }
        proof {
            search::lemma_absent(before.players, wanted);
        }
        false
    }

    /// Works what the connection tells into the screen.
    fn handle_server_event(&mut self, redraw: &mut bool, e: ServerEvent, moment: &Moment) -> (r: Turn)
        ensures
            (final(self)@, *final(redraw), r@) == running_event(
                old(self)@,
                *old(redraw),
                e@,
                *moment,
            ),
    {
        match e {
            ServerEvent::ServerConnectionFailed(msg) => Turn::Fail(
                FailedState {
                    permanent: false,
                    msg,
                    retry: RetryDelay { bits: RETRY_START },
                    retry_at: moment.retry_at,
                    selected: FailedSelected::Nothing,
                },
            ),
            ServerEvent::MCServerConnectionFailed(msg) => {
                self.log(
                    &moment.time,
                    concat3(
                        "Failed to connect to Minecraft server: ",
                        msg.as_str(),
                        ". Is the MC server up?",
                    ),
                );
                *redraw = true;
                Turn::Stay(Flow::Wait)
            },
            ServerEvent::ServerNonCatastrophicError(msg) => {
                self.log(&moment.time, concat("Error: ", msg.as_str()));
                *redraw = true;
                Turn::Stay(Flow::Wait)
            },
            ServerEvent::PlayerConnected(addr, username) => {
                let shown = addr.to_text();
                let ghost before = self@;
                self.players.push_back(PlayerInfo { addr, username });
                assert(types::player_views(self.players@) =~= before.players.push(
                    PlayerView { addr, username: username@ },
                ));
                self.log(&moment.time, concat(shown.as_str(), " connected"));
                *redraw = true;
                Turn::Stay(Flow::Wait)
            },
            ServerEvent::PlayerDisconnected(addr, _) => {
                let shown = addr.to_text();
                if self.remove_player(addr) {
                    *redraw = true;
                }
                self.log(&moment.time, concat(shown.as_str(), " disconnected"));
                Turn::Stay(Flow::Wait)
            },
            ServerEvent::Stopped => Turn::Menu { stop: false },
            // What is left over from an earlier connection is passed over.
            _ => Turn::Stay(Flow::Wait),
        }
    }

    /// Works an input into the screen.
    pub fn handle_input(
        &mut self,
        mouse_pos: &mut (u16, u16),
        redraw: &mut bool,
        bounding_boxes: &RunningBoundingBoxes,
        input: Input,
        moment: &Moment,
    ) -> (r: Turn)
        ensures
            (final(self)@, *final(mouse_pos), *final(redraw), r@) == running_input(
                old(self)@,
                *old(mouse_pos),
                *old(redraw),
                *bounding_boxes,
                input,
                *moment,
            ),
            old(self)@.wf() ==> final(self)@.wf(),
    {
        proof {
            if self@.wf() {
                lemma_running_wf(self@, *mouse_pos, *redraw, *bounding_boxes, input, *moment);
            }
        }
        match input {
            Input::Timeout => {
                if *redraw {
                    Turn::Stay(Flow::Redraw)
                } else {
                    Turn::Stay(Flow::Extend)
                }
            },
            Input::Closed => Turn::Stay(Flow::Exit),
            Input::Server(e) => self.handle_server_event(redraw, e, moment),
            Input::Terminal(TerminalEvent::Key(e)) => {
                if e.release {
                    return Turn::Stay(Flow::Wait);
                }
                if let KeyCode::Char(c) = e.code {
                    if c == 'q' {
                        return Turn::Menu { stop: true };
                    } else if c == 'c' && e.control {
                        return Turn::Stay(Flow::Exit);
                    }
                }
                Turn::Stay(Flow::Wait)
            },
            Input::Terminal(TerminalEvent::Mouse(e)) => {
                let pos = e.position();
                let players: usize = self.players.len();
                let logs: usize = self.logs.len();
                match e.kind {
                    MouseEventKind::Moved => {
                        *mouse_pos = (e.column, e.row);
                        *redraw = true;
                        Turn::Stay(Flow::Wait)
                    },
                    MouseEventKind::Up => {
                        *mouse_pos = (u16::MAX, u16::MAX);
                        self.copied = false;
                        if bounding_boxes.ip_box.contains(pos) {
                            return Turn::Stay(Flow::Copy);
                        }
                        if let Some(addr) = find_kicked(bounding_boxes, pos) {
                            return Turn::Kick(addr);
                        }
                        *redraw = true;
                        Turn::Stay(Flow::Wait)
                    },
                    MouseEventKind::ScrollUp => {
                        if bounding_boxes.players_box.contains(pos) {
                            self.scroll_players =
                            scrolled_back(
                                self.scroll_players,
                                players,
                                bounding_boxes.players_box.height,
                            );
                            *redraw = true;
                        } else if bounding_boxes.logs_box.contains(pos) {
                            self.scroll_logs =
                            scrolled_on(self.scroll_logs, logs, bounding_boxes.logs_box.height);
                            *redraw = true;
                        }
                        Turn::Stay(Flow::Wait)
                    },
                    MouseEventKind::ScrollDown => {
                        if bounding_boxes.players_box.contains(pos) {
                            self.scroll_players =
                            scrolled_on(
                                self.scroll_players,
                                players,
                                bounding_boxes.players_box.height,
                            );
                            *redraw = true;
                        } else if bounding_boxes.logs_box.contains(pos) {
                            self.scroll_logs =
                            scrolled_back(self.scroll_logs, logs, bounding_boxes.logs_box.height);
                            *redraw = true;
                        }
                        Turn::Stay(Flow::Wait)
                    },
                    MouseEventKind::Other => Turn::Stay(Flow::Wait),
                }
            },
            Input::Terminal(_) => Turn::Stay(Flow::Wait),
        }
    }
}

/// The player whose button a cell lies in.
fn find_kicked(boxes: &RunningBoundingBoxes, pos: Position) -> (r: Option<SocketAddr>)
    ensures
        r == match kicked(*boxes, pos) {
            Some(i) => Some(boxes.disconnects@[i].0),
            None => None,
        },
{
    let ghost hit = |d: (SocketAddr, Rect)| d.1.has(pos);
    let mut i: usize = 0;
    while i < boxes.disconnects.len()
        invariant
            i <= boxes.disconnects@.len(),
            hit == (|d: (SocketAddr, Rect)| d.1.has(pos)),
            forall|j: int| 0 <= j < i ==> !hit(#[trigger] boxes.disconnects@[j]),
        decreases boxes.disconnects@.len() - i,
    {
        if boxes.disconnects[i].1.contains(pos) {
            proof {
                search::lemma_found(boxes.disconnects@, hit, i as int);
            }
            return Some(boxes.disconnects[i].0);
        }
        i = i + 1;
    }
    proof {
        search::lemma_absent(boxes.disconnects@, hit);
    }
    None
}

/// A server that was just shared at this address.
pub open spec fn new_running(ip: Seq<char>) -> RunningView {
    RunningView {
        ip,
        players: Seq::empty(),
        logs: Seq::empty(),
        scroll_players: 0,
        scroll_logs: 0,
        copied: false,
    }
}

/// What the app does: what happens next, and what it tells the connection.
pub struct Reaction {
    pub flow: Flow,
    pub send: Option<UiEvent>,
}

/// A [`Reaction`] with its texts as sequences.
pub struct ReactionView {
    pub flow: Flow,
    pub send: Option<UiEventView>,
}

impl View for Reaction {
    type V = ReactionView;

    open spec fn view(&self) -> ReactionView {
        ReactionView {
            flow: self.flow,
            send: match self.send {
                Some(e) => Some(e@),
                None => None,
            },
        }
    }
}

/// Nothing is told to the connection.
pub open spec fn silent(flow: Flow) -> ReactionView {
    ReactionView { flow, send: None }
}

impl AppView {
    /// Whether the app can be worked on. Once an attempt to connect was made,
    /// nothing stands in the way of another.
    pub open spec fn wf(self) -> bool {
        match self.state {
            StateView::MainMenu(temp) => types::menu_wf(self.perm, temp),
            StateView::Running(s) => self.perm.is_ascii() && menu::startable(self.perm) && s.wf(),
            _ => self.perm.is_ascii() && menu::startable(self.perm),
        }
    }

    /// Whether it is this screen that was drawn.
    pub open spec fn drawn(self, boxes: RenderResult) -> bool {
        match (self.state, boxes) {
            (StateView::MainMenu(temp), RenderResult::MainMenu { bounding_boxes }) =>
                bounding_boxes.server_rects@.len() <= temp.servers.len(),
            (StateView::ServerLoading(_), RenderResult::Loading { .. }) => true,
            (StateView::Failed(_), RenderResult::FailScreen { .. }) => true,
            (StateView::Running(_), RenderResult::RunningScreen { .. }) => true,
            _ => false,
        }
    }

    /// The app where a screen leads.
    pub open spec fn turned(self, turn: TurnView) -> (AppView, ReactionView) {
        match turn {
            TurnView::Stay(flow) => (self, silent(flow)),
            TurnView::Menu { stop } => (
                AppView { state: StateView::MainMenu(types::new_menu()), ..self },
                ReactionView {
                    flow: Flow::Next,
                    send: if stop {
                        Some(UiEventView::Stop)
                    } else {
                        None
                    },
                },
            ),
            TurnView::Connect { retry } => (
                AppView {
                    state: StateView::ServerLoading(LoadingState { cancel_selected: false, retry }),
                    ..self
                },
                ReactionView {
                    flow: Flow::Next,
                    send: Some(UiEventView::Start(menu::connect_options(self.perm))),
                },
            ),
            TurnView::Fail(s) => (
                AppView { state: StateView::Failed(s), ..self },
                silent(Flow::Next),
            ),
            TurnView::Run(url) => (
                AppView { state: StateView::Running(new_running(url)), ..self },
                silent(Flow::Next),
            ),
            TurnView::Kick(addr) => (
                self,
                ReactionView { flow: Flow::Next, send: Some(UiEventView::Disconnect(addr)) },
            ),
        }
    }

    /// The menu: the app, whether to draw at the end of the frame, and what the
    /// app does.
    pub open spec fn menu_input(
        self,
        temp: TempView,
        redraw: bool,
        boxes: MainMenuBoundingBoxes,
        input: Input,
    ) -> (AppView, bool, ReactionView) {
        match input {
            Input::Timeout => (self, redraw, silent(frame_end(redraw))),
            Input::Closed => (self, redraw, silent(Flow::Exit)),
            Input::Server(_) => (self, redraw, silent(Flow::Wait)),
            Input::Terminal(e) => {
                let (m, result) = MenuView { perm: self.perm, temp, mouse: self.mouse }.event(
                    e,
                    boxes,
                );
                let app = AppView { state: StateView::MainMenu(m.temp), perm: m.perm, mouse: m.mouse
                };
                match result {
                    MainMenuEventResult::Done => (app, redraw, silent(Flow::Wait)),
                    MainMenuEventResult::Redraw => (app, true, silent(Flow::Wait)),
                    MainMenuEventResult::Exit => (app, redraw, silent(Flow::Exit)),
                    MainMenuEventResult::Start => if menu::startable(m.perm) {
                        let (app, reaction) = app.turned(
                            TurnView::Connect { retry: RetryDelay { bits: RETRY_START } },
                        );
                        (app, redraw, reaction)
                    } else {
                        let errors = menu::start_errors(m.perm);
                        (
                            AppView {
                                state: StateView::MainMenu(TempView { errors, ..m.temp }),
                                ..app
                            },
                            redraw,
                            silent(Flow::Next),
                        )
                    },
                }
            },
        }
    }

    /// What the app does with an input: the app, whether to draw at the end of
    /// the frame, and what it does.
    pub open spec fn input(
        self,
        boxes: RenderResult,
        redraw: bool,
        input: Input,
        moment: Moment,
    ) -> (AppView, bool, ReactionView) {
        match (self.state, boxes) {
            (StateView::MainMenu(temp), RenderResult::MainMenu { bounding_boxes }) =>
                self.menu_input(temp, redraw, bounding_boxes, input),
            (StateView::ServerLoading(s), RenderResult::Loading { cancel_bounding_box }) => {
                let (s, mouse, redraw, turn) = loading_input(
                    s,
                    self.mouse,
                    redraw,
                    cancel_bounding_box,
                    input,
                    moment,
                );
                let (app, reaction) = AppView {
                    state: StateView::ServerLoading(s),
                    mouse,
                    ..self
                }.turned(turn);
                (app, redraw, reaction)
            },
            (StateView::Failed(s), RenderResult::FailScreen { main_menu, retry_now }) => {
                let (s, mouse, turn) = failed_input(
                    s,
                    self.mouse,
                    main_menu,
                    retry_now,
                    input,
                    moment,
                );
                let (app, reaction) = AppView {
                    state: StateView::Failed(s),
                    mouse,
                    ..self
                }.turned(turn);
                (app, redraw, reaction)
            },
            (StateView::Running(s), RenderResult::RunningScreen { bounding_boxes }) => {
                let (s, mouse, redraw, turn) = running_input(
                    s,
                    self.mouse,
                    redraw,
                    bounding_boxes,
                    input,
                    moment,
                );
                let (app, reaction) = AppView {
                    state: StateView::Running(s),
                    mouse,
                    ..self
                }.turned(turn);
                (app, redraw, reaction)
            },
            _ => (self, redraw, silent(Flow::Wait)),
        }
    }
}

/// The screen of a shared server stays one that can be worked on.
proof fn lemma_running_wf(
    s: RunningView,
    mouse: (u16, u16),
    redraw: bool,
    boxes: RunningBoundingBoxes,
    input: Input,
    moment: Moment,
)
    requires
        s.wf(),
    ensures
        running_input(s, mouse, redraw, boxes, input, moment).0.wf(),
{
    if let Input::Server(e) = input {
        if let ServerEventView::PlayerDisconnected(addr, _) = e@ {
            search::law_first_where(s.players, |p: PlayerView| p.addr == addr);
        }
    }
}

impl TuiApp {
    /// Goes where a screen leads.
    fn follow(&mut self, turn: Turn) -> (r: Reaction)
        requires
            turn@ is Connect ==> menu::startable(old(self)@.perm),
        ensures
            (final(self)@, r@) == old(self)@.turned(turn@),
    {
        match turn {
            Turn::Stay(flow) => Reaction { flow, send: None },
            Turn::Menu { stop } => {
                self.app_state = TuiAppState::MainMenu(MainMenuTemporaryState::new());
                let send = if stop {
                    Some(UiEvent::Stop)
                } else {
                    None
                };
                Reaction { flow: Flow::Next, send }
            },
            Turn::Connect { retry } => {
                let mut errors: Vec<String> = Vec::new();
                match Self::handle_start(&self.permanent_state, &mut errors) {
                    Ok(options) => {
                        self.app_state =
                        TuiAppState::ServerLoading(LoadingState { cancel_selected: false, retry });
                        Reaction { flow: Flow::Next, send: Some(UiEvent::Start(options)) }
                    },
                    Err(()) => Reaction { flow: Flow::Next, send: None },
                }
            },
            Turn::Fail(state) => {
                self.app_state = TuiAppState::Failed(state);
                Reaction { flow: Flow::Next, send: None }
            },
            Turn::Run(url) => {
                self.app_state = TuiAppState::Running(RunningState::new(url));
                Reaction { flow: Flow::Next, send: None }
            },
            Turn::Kick(addr) => Reaction {
                flow: Flow::Next,
                send: Some(UiEvent::Disconnect(addr)),
            },
        }
    }

    /// Works an input into the screen that was drawn.
    pub fn handle_events(
        &mut self,
        render_result: &RenderResult,
        redraw: &mut bool,
        input: Input,
        moment: &Moment,
    ) -> (r: Reaction)
        requires
            old(self)@.wf(),
            old(self)@.drawn(*render_result),
        ensures
            (final(self)@, *final(redraw), r@) == old(self)@.input(
                *render_result,
                *old(redraw),
                input,
                *moment,
            ),
            final(self)@.wf(),
    {
        let turn = match (&mut self.app_state, render_result) {
            (TuiAppState::MainMenu(state), RenderResult::MainMenu { bounding_boxes }) => {
                let e = match input {
                    Input::Timeout => {
                        let flow = if *redraw {
                            Flow::Redraw
                        } else {
                            Flow::Extend
                        };
                        return Reaction { flow, send: None };
                    },
                    Input::Closed => return Reaction { flow: Flow::Exit, send: None },
                    Input::Server(_) => return Reaction { flow: Flow::Wait, send: None },
                    Input::Terminal(e) => e,
                };
                let result = Self::handle_menu_event(
                    e,
                    &mut self.permanent_state,
                    &mut self.mouse_pos,
                    state,
                    bounding_boxes,
                );
                match result {
                    MainMenuEventResult::Done => Turn::Stay(Flow::Wait),
                    MainMenuEventResult::Redraw => {
                        *redraw = true;
                        Turn::Stay(Flow::Wait)
                    },
                    MainMenuEventResult::Exit => Turn::Stay(Flow::Exit),
                    MainMenuEventResult::Start => {
                        match Self::handle_start(&self.permanent_state, &mut state.errors) {
                            Ok(_) => Turn::Connect { retry: RetryDelay { bits: RETRY_START } },
                            Err(()) => Turn::Stay(Flow::Next),
                        }
                    },
                }
            },
            (TuiAppState::ServerLoading(state), RenderResult::Loading { cancel_bounding_box }) => {
                state.handle_input(
                    &mut self.mouse_pos,
                    redraw,
                    *cancel_bounding_box,
                    input,
                    moment,
                )
            },
            (TuiAppState::Failed(state), RenderResult::FailScreen { main_menu, retry_now }) => {
                state.handle_input(&mut self.mouse_pos, *main_menu, *retry_now, input, moment)
            },
            (TuiAppState::Running(state), RenderResult::RunningScreen { bounding_boxes }) => {
                state.handle_input(&mut self.mouse_pos, redraw, bounding_boxes, input, moment)
            },
            _ => Turn::Stay(Flow::Wait),
        };
        self.follow(turn)
    }
}

impl TuiApp {
    /// Whether the screen waits for what the connection tells, and not only for
    /// the terminal.
    pub fn hears_the_connection(&self) -> (r: bool)
        ensures
            r == (self@.state is ServerLoading || self@.state is Running),
    {
        match &self.app_state {
            TuiAppState::MainMenu(_) | TuiAppState::Failed(_) => false,
            TuiAppState::ServerLoading(_) | TuiAppState::Running(_) => true,
        }
    }

    /// Takes note of whether the address of the server was copied.
    pub fn copied(&mut self, done: bool) -> (r: Flow)
        requires
            old(self)@.wf(),
        ensures
            final(self)@.wf(),
            match old(self)@.state {
                StateView::Running(s) if done => r == Flow::Next && final(self)@ == (AppView {
                    state: StateView::Running(RunningView { copied: true, ..s }),
                    ..old(self)@
                }),
                _ => r == Flow::Wait && final(self)@ == old(self)@,
            },
    {
        if done {
            if let TuiAppState::Running(state) = &mut self.app_state {
                state.copied = true;
                return Flow::Next;
            }
        }
        Flow::Wait
    }

    /// Takes a server that was found into the menu, where the menu is shown.
    pub fn found(&mut self, info: ServerInfo)
        requires
            old(self)@.wf(),
            vstd::utf8::is_ascii_chars(info.ip@),
        ensures
            final(self)@.wf(),
            final(self)@ == match old(self)@.state {
                StateView::MainMenu(temp) => AppView {
                    state: StateView::MainMenu(
                        TempView { servers: temp.servers.push(info@), ..temp },
                    ),
                    ..old(self)@
                },
                _ => old(self)@,
            },
    {
        if let TuiAppState::MainMenu(state) = &mut self.app_state {
            let ghost before = types::server_views(state.servers@);
            state.servers.push(info);
            assert(types::server_views(state.servers@) =~= before.push(info@));
        }
    }
}

/// The settings that the menu starts with.
pub open spec fn first_settings() -> PermView {
    PermView {
        proxy_server: DEFAULT_URL@,
        proxy_server_play_port: "25564"@,
        proxy_server_init_port: "25563"@,
        server_ip: Seq::empty(),
        advanced: false,
        request_domain: Seq::empty(),
    }
}

impl TuiApp {
    /// The app when it is started, with the menu shown.
    pub fn new() -> (r: TuiApp)
        ensures
            r@ == (AppView {
                state: StateView::MainMenu(types::new_menu()),
                perm: first_settings(),
                mouse: (0, 0),
            }),
            r@.wf(),
    {
        proof {
            reveal_strlit("na.mineshare.dev");
            reveal_strlit("25564");
            reveal_strlit("25563");
        }
        let r = TuiApp {
            app_state: TuiAppState::MainMenu(MainMenuTemporaryState::new()),
            permanent_state: MainMenuPermanentState {
                proxy_server: DEFAULT_URL.to_owned(),
                proxy_server_play_port: "25564".to_owned(),
                proxy_server_init_port: "25563".to_owned(),
                server_ip: String::new(),
                advanced: false,
                request_domain: String::new(),
            },
            mouse_pos: (0, 0),
        };
        assert(r@.perm =~= first_settings());
        r
    }
}

/// What was set in the menu changes nowhere else.
pub proof fn law_settings_change_in_the_menu(
    app: AppView,
    boxes: RenderResult,
    redraw: bool,
    input: Input,
    moment: Moment,
)
    requires
        !(app.state is MainMenu),
    ensures
        app.input(boxes, redraw, input, moment).0.perm == app.perm,
{
}

/// A player who comes and leaves again leaves the list of players, and what is
/// shown of it, as they were.
pub proof fn law_leaving_undoes_coming(
    s: RunningView,
    redraw: bool,
    addr: SocketAddr,
    username: Seq<char>,
    moment: Moment,
)
    requires
        s.wf(),
        s.player_at(addr) is None,
    ensures
        ({
            let (s1, redraw1, _) = running_event(
                s,
                redraw,
                ServerEventView::PlayerConnected(addr, username),
                moment,
            );
            let (s2, _, _) = running_event(
                s1,
                redraw1,
                ServerEventView::PlayerDisconnected(addr, username),
                moment,
            );
            &&& s1.player_at(addr) == Some(s.players.len() as int)
            &&& s2.players == s.players
            &&& s2.scroll_players == s.scroll_players
        }),
{
    let wanted = |p: PlayerView| p.addr == addr;
    let players = s.players.push(PlayerView { addr, username });
    search::law_first_where(s.players, wanted);
    search::lemma_found(players, wanted, s.players.len() as int);
    assert(players.remove(s.players.len() as int) =~= s.players);
}

/// The newest line stands first in the log, and the lines before it follow in
/// their order, the oldest aside where the log is full.
pub proof fn law_log_newest_first(s: RunningView, time: Seq<char>, text: Seq<char>)
    requires
        s.wf(),
    ensures
        s.logged(time, text).logs[0] == (LogView { time, text }),
        s.logged(time, text).logs.skip(1) == if s.logs.len() == LOG_LINES {
            s.logs.drop_last()
        } else {
            s.logs
        },
{
    let logs = seq![LogView { time, text }] + s.logs;
    assert(s.logged(time, text).logs.skip(1) =~= if s.logs.len() == LOG_LINES {
        s.logs.drop_last()
    } else {
        s.logs
    });
}

/// However far a list is scrolled, no line is left empty that could be filled.
pub proof fn law_scrolling_stays_in_the_list(scroll: usize, len: nat, shown: u16)
    requires
        len <= usize::MAX,
    ensures
        scroll_on(scroll, len, shown) + shown <= len || scroll_on(scroll, len, shown) == 0,
        scroll + shown <= len ==> scroll_back(scroll, len, shown) + shown <= len,
{
}

/// A step on and a step back lead to the same place.
pub proof fn law_scrolling_back_undoes_scrolling_on(scroll: usize, len: nat, shown: u16)
    requires
        len <= usize::MAX,
        scroll + shown < len,
    ensures
        scroll_back(scroll_on(scroll, len, shown), len, shown) == scroll,
{
}

} // verus!
