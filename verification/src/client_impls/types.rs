//! What the app remembers, and what its parts tell each other.

use crate::client_impls::geometry::{Position, Rect};
use crate::net::SocketAddr;
use std::collections::VecDeque;
use vstd::prelude::*;
use vstd::utf8;

verus! {

/// What the connection to the proxy tells the screens.
#[derive(Debug, Clone)]
pub enum ServerEvent {
    ServerConnectionFailed(String),
    ServerNonCatastrophicError(String),
    ServerConnectionFailedTimeout,
    MCServerConnectionFailed(String),
    InvalidProtocolVersion(u64),
    Stopped,
    Url(String),
    DidntGetRequestedUrl(String),
    PlayerConnected(SocketAddr, String),
    PlayerDisconnected(SocketAddr, String),
    Pinged(SocketAddr),
}

/// A [`ServerEvent`] with its texts as sequences.
pub enum ServerEventView {
    ServerConnectionFailed(Seq<char>),
    ServerNonCatastrophicError(Seq<char>),
    ServerConnectionFailedTimeout,
    MCServerConnectionFailed(Seq<char>),
    InvalidProtocolVersion(u64),
    Stopped,
    Url(Seq<char>),
    DidntGetRequestedUrl(Seq<char>),
    PlayerConnected(SocketAddr, Seq<char>),
    PlayerDisconnected(SocketAddr, Seq<char>),
    Pinged(SocketAddr),
}

impl View for ServerEvent {
    type V = ServerEventView;

    open spec fn view(&self) -> ServerEventView {
        match *self {
            ServerEvent::ServerConnectionFailed(s) => ServerEventView::ServerConnectionFailed(s@),
            ServerEvent::ServerNonCatastrophicError(s) =>
                ServerEventView::ServerNonCatastrophicError(s@),
            ServerEvent::ServerConnectionFailedTimeout =>
                ServerEventView::ServerConnectionFailedTimeout,
            ServerEvent::MCServerConnectionFailed(s) => ServerEventView::MCServerConnectionFailed(
                s@,
            ),
            ServerEvent::InvalidProtocolVersion(v) => ServerEventView::InvalidProtocolVersion(v),
            ServerEvent::Stopped => ServerEventView::Stopped,
            ServerEvent::Url(s) => ServerEventView::Url(s@),
            ServerEvent::DidntGetRequestedUrl(s) => ServerEventView::DidntGetRequestedUrl(s@),
            ServerEvent::PlayerConnected(a, s) => ServerEventView::PlayerConnected(a, s@),
            ServerEvent::PlayerDisconnected(a, s) => ServerEventView::PlayerDisconnected(a, s@),
            ServerEvent::Pinged(a) => ServerEventView::Pinged(a),
        }
    }
}

/// What the screens tell the connection to the proxy.
#[derive(Debug)]
pub enum UiEvent {
    Stop,
    Start(ConnectOptions),
    Disconnect(SocketAddr),
}

/// A [`UiEvent`] with its texts as sequences.
pub enum UiEventView {
    Stop,
    Start(ConnectView),
    Disconnect(SocketAddr),
}

impl View for UiEvent {
    type V = UiEventView;

    open spec fn view(&self) -> UiEventView {
        match *self {
            UiEvent::Stop => UiEventView::Stop,
            UiEvent::Start(options) => UiEventView::Start(options@),
            UiEvent::Disconnect(addr) => UiEventView::Disconnect(addr),
        }
    }
}

/// What is needed to share a server.
#[derive(Debug)]
pub struct ConnectOptions {
    pub proxy_server: String,
    pub proxy_server_play_port: u16,
    pub proxy_server_init_port: u16,
    pub server_ip: String,
    pub request_domain: Option<String>,
}

/// [`ConnectOptions`] with their texts as sequences.
pub struct ConnectView {
    pub proxy_server: Seq<char>,
    pub proxy_server_play_port: u16,
    pub proxy_server_init_port: u16,
    pub server_ip: Seq<char>,
    pub request_domain: Option<Seq<char>>,
}

impl View for ConnectOptions {
    type V = ConnectView;

    open spec fn view(&self) -> ConnectView {
        ConnectView {
            proxy_server: self.proxy_server@,
            proxy_server_play_port: self.proxy_server_play_port,
            proxy_server_init_port: self.proxy_server_init_port,
            server_ip: self.server_ip@,
            request_domain: match self.request_domain {
                Some(s) => Some(s@),
                None => None,
            },
        }
    }
}

/// The parts of the menu that can be selected.
#[derive(Debug, PartialEq, Eq, Clone, Copy, Structural)]
pub enum SelectedBlock {
    Nothing,
    ServerIp,
    RequestedDomain,
    AdvancedButton,
    StartButton,
    ProxyIp,
    PlayPort,
    InitPort,
}

/// Where the next character goes: before the character at a position, or in the
/// place of the whole text.
#[derive(Debug, Clone, Copy, PartialEq, Eq, Structural)]
pub enum Cursor {
    Position(usize),
    All,
}

impl Cursor {
    /// Whether the cursor stands in a text of this length.
    pub open spec fn stands_in(self, len: nat) -> bool {
        match self {
            Cursor::Position(pos) => pos <= len,
            Cursor::All => true,
        }
    }

    /// Moves a cursor at a position to the left.
    pub fn sub_assign(&mut self, rhs: usize)
        requires
            *old(self) matches Cursor::Position(pos) ==> rhs <= pos,
        ensures
            *final(self) == match *old(self) {
                Cursor::Position(pos) => Cursor::Position((pos - rhs) as usize),
                Cursor::All => Cursor::All,
            },
    {
        if let Cursor::Position(pos) = *self {
            *self = Cursor::Position(pos - rhs);
        }
    }

    /// Moves a cursor at a position to the right.
    pub fn add_assign(&mut self, rhs: usize)
        requires
            *old(self) matches Cursor::Position(pos) ==> pos + rhs <= usize::MAX,
        ensures
            *final(self) == match *old(self) {
                Cursor::Position(pos) => Cursor::Position((pos + rhs) as usize),
                Cursor::All => Cursor::All,
            },
    {
        if let Cursor::Position(pos) = *self {
            *self = Cursor::Position(pos + rhs);
        }
    }
}

/// What the menu keeps while other screens are shown.
#[derive(Debug)]
pub struct MainMenuPermanentState {
    pub proxy_server: String,
    pub proxy_server_play_port: String,
    pub proxy_server_init_port: String,
    pub server_ip: String,
    pub advanced: bool,
    pub request_domain: String,
}

/// A [`MainMenuPermanentState`] with its texts as sequences.
#[verifier::ext_equal]
pub struct PermView {
    pub proxy_server: Seq<char>,
    pub proxy_server_play_port: Seq<char>,
    pub proxy_server_init_port: Seq<char>,
    pub server_ip: Seq<char>,
    pub advanced: bool,
    pub request_domain: Seq<char>,
}

impl View for MainMenuPermanentState {
    type V = PermView;

    open spec fn view(&self) -> PermView {
        PermView {
            proxy_server: self.proxy_server@,
            proxy_server_play_port: self.proxy_server_play_port@,
            proxy_server_init_port: self.proxy_server_init_port@,
            server_ip: self.server_ip@,
            advanced: self.advanced,
            request_domain: self.request_domain@,
        }
    }
}

impl PermView {
    /// The text that is edited where a part of the menu is selected.
    pub open spec fn field(self, block: SelectedBlock) -> Option<Seq<char>> {
        match block {
            SelectedBlock::ServerIp => Some(self.server_ip),
            SelectedBlock::RequestedDomain => Some(self.request_domain),
            SelectedBlock::ProxyIp => Some(self.proxy_server),
            SelectedBlock::PlayPort => Some(self.proxy_server_play_port),
            SelectedBlock::InitPort => Some(self.proxy_server_init_port),
            _ => None,
        }
    }

    /// The state with another text in that place.
    pub open spec fn with_field(self, block: SelectedBlock, text: Seq<char>) -> PermView {
        match block {
            SelectedBlock::ServerIp => PermView { server_ip: text, ..self },
            SelectedBlock::RequestedDomain => PermView { request_domain: text, ..self },
            SelectedBlock::ProxyIp => PermView { proxy_server: text, ..self },
            SelectedBlock::PlayPort => PermView { proxy_server_play_port: text, ..self },
            SelectedBlock::InitPort => PermView { proxy_server_init_port: text, ..self },
            _ => self,
        }
    }

    /// Whether every text is ASCII.
    pub open spec fn is_ascii(self) -> bool {
        &&& utf8::is_ascii_chars(self.proxy_server)
        &&& utf8::is_ascii_chars(self.proxy_server_play_port)
        &&& utf8::is_ascii_chars(self.proxy_server_init_port)
        &&& utf8::is_ascii_chars(self.server_ip)
        &&& utf8::is_ascii_chars(self.request_domain)
    }
}

/// A server that was found on the local network.
#[derive(Debug, Hash, PartialEq, Eq, Clone)]
pub struct ServerInfo {
    pub motd: String,
    pub ip: String,
}

/// A [`ServerInfo`] with its texts as sequences.
pub struct ServerView {
    pub motd: Seq<char>,
    pub ip: Seq<char>,
}

impl View for ServerInfo {
    type V = ServerView;

    open spec fn view(&self) -> ServerView {
        ServerView { motd: self.motd@, ip: self.ip@ }
    }
}

/// The texts of a list.
pub open spec fn texts(list: Seq<String>) -> Seq<Seq<char>> {
    list.map_values(|s: String| s@)
}

/// The servers of a list.
pub open spec fn server_views(list: Seq<ServerInfo>) -> Seq<ServerView> {
    list.map_values(|s: ServerInfo| s@)
}

/// What the menu keeps while it is shown.
#[derive(Debug)]
pub struct MainMenuTemporaryState {
    pub servers: Vec<ServerInfo>,
    pub last_selected_server: Option<usize>,
    pub selected: SelectedBlock,
    pub cursor: Cursor,
    pub errors: Vec<String>,
}

/// A [`MainMenuTemporaryState`] with its texts as sequences.
#[verifier::ext_equal]
pub struct TempView {
    pub servers: Seq<ServerView>,
    pub last_selected_server: Option<usize>,
    pub selected: SelectedBlock,
    pub cursor: Cursor,
    pub errors: Seq<Seq<char>>,
}

impl View for MainMenuTemporaryState {
    type V = TempView;

    open spec fn view(&self) -> TempView {
        TempView {
            servers: server_views(self.servers@),
            last_selected_server: self.last_selected_server,
            selected: self.selected,
            cursor: self.cursor,
            errors: texts(self.errors@),
        }
    }
}

/// Where the cursor goes when a part of the menu is selected: behind the bytes of
/// its text, or where it was if the part is a button.
pub open spec fn cursor_at(perm: PermView, selected: SelectedBlock, cursor: Cursor) -> Cursor {
    match perm.field(selected) {
        Some(text) => Cursor::Position(utf8::encode_utf8(text).len() as usize),
        None => if selected == SelectedBlock::Nothing {
            Cursor::Position(0)
        } else {
            cursor
        },
    }
}

/// The menu when it is opened.
pub open spec fn new_menu() -> TempView {
    TempView {
        servers: Seq::empty(),
        last_selected_server: None,
        selected: SelectedBlock::Nothing,
        cursor: Cursor::Position(0),
        errors: Seq::empty(),
    }
}

/// Whether the menu can be worked on: its texts and the addresses that can be
/// taken over are ASCII, and the cursor stands in the text that is edited.
pub open spec fn menu_wf(perm: PermView, temp: TempView) -> bool {
    &&& perm.is_ascii()
    &&& forall|i: int|
        0 <= i < temp.servers.len() ==> utf8::is_ascii_chars((#[trigger] temp.servers[i]).ip)
    &&& perm.field(temp.selected) matches Some(text) ==> temp.cursor.stands_in(text.len())
}

impl MainMenuTemporaryState {
    /// Puts the cursor behind the text of the selected part.
    pub fn set_cursor(&mut self, perm_state: &MainMenuPermanentState)
        ensures
            final(self)@ == (TempView {
                cursor: cursor_at(perm_state@, old(self).selected, old(self).cursor),
                ..old(self)@
            }),
            final(self).selected == old(self).selected,
            final(self).servers == old(self).servers,
            final(self).errors == old(self).errors,
            perm_state@.field(old(self).selected) matches Some(text) ==> {
                &&& utf8::encode_utf8(text).len() <= usize::MAX
                &&& utf8::is_ascii_chars(text) ==> final(self).cursor == Cursor::Position(
                    text.len() as usize,
                ) && text.len() <= usize::MAX
            },
    {
        proof {
            if let Some(text) = perm_state@.field(self.selected) {
                if utf8::is_ascii_chars(text) {
                    utf8::is_ascii_chars_encode_utf8(text);
                }
            }
        }
        let pos: usize = match self.selected {
            SelectedBlock::Nothing => 0,
            SelectedBlock::ServerIp => perm_state.server_ip.as_str().as_bytes().len(),
            SelectedBlock::RequestedDomain => perm_state.request_domain.as_str().as_bytes().len(),
            SelectedBlock::ProxyIp => perm_state.proxy_server.as_str().as_bytes().len(),
            SelectedBlock::PlayPort => perm_state.proxy_server_play_port.as_str().as_bytes().len(),
            SelectedBlock::InitPort => perm_state.proxy_server_init_port.as_str().as_bytes().len(),
            _ => {
                return ;
            },
        };
        self.cursor = Cursor::Position(pos);
    }

    /// The menu when it is opened.
    #[must_use]
    pub fn new() -> (r: MainMenuTemporaryState)
        ensures
            r@ == new_menu(),
    {
        let r = MainMenuTemporaryState {
            servers: Vec::new(),
            last_selected_server: None,
            selected: SelectedBlock::Nothing,
            cursor: Cursor::Position(0),
            errors: Vec::new(),
        };
        assert(r@ =~= new_menu());
        r
    }
}

/// The number of characters of an ASCII text, which is that of its bytes.
pub fn ascii_len(s: &String) -> (r: usize)
    requires
        utf8::is_ascii_chars(s@),
    ensures
        r == s@.len(),
{
    proof {
        utf8::is_ascii_chars_encode_utf8(s@);
    }
    s.as_str().as_bytes().len()
}

/// A player that is connected.
#[derive(Debug, Hash, PartialEq, Eq, PartialOrd, Ord)]
pub struct PlayerInfo {
    pub addr: SocketAddr,
    pub username: String,
}

/// A [`PlayerInfo`] with its text as a sequence.
pub struct PlayerView {
    pub addr: SocketAddr,
    pub username: Seq<char>,
}

impl View for PlayerInfo {
    type V = PlayerView;

    open spec fn view(&self) -> PlayerView {
        PlayerView { addr: self.addr, username: self.username@ }
    }
}

/// What happened, and when.
#[derive(Debug)]
pub struct LogLine {
    pub time: String,
    pub text: String,
}

/// A [`LogLine`] with its texts as sequences.
pub struct LogView {
    pub time: Seq<char>,
    pub text: Seq<char>,
}

impl View for LogLine {
    type V = LogView;

    open spec fn view(&self) -> LogView {
        LogView { time: self.time@, text: self.text@ }
    }
}

/// What is kept while a server is shared. The newest line of the log stands
/// first.
#[derive(Debug)]
pub struct RunningState {
    pub ip: String,
    pub players: VecDeque<PlayerInfo>,
    pub logs: VecDeque<LogLine>,
    pub scroll_players: usize,
    pub scroll_logs: usize,
    pub copied: bool,
}

/// A [`RunningState`] with its texts as sequences.
#[verifier::ext_equal]
pub struct RunningView {
    pub ip: Seq<char>,
    pub players: Seq<PlayerView>,
    pub logs: Seq<LogView>,
    pub scroll_players: usize,
    pub scroll_logs: usize,
    pub copied: bool,
}

/// The players of a list.
pub open spec fn player_views(list: Seq<PlayerInfo>) -> Seq<PlayerView> {
    list.map_values(|p: PlayerInfo| p@)
}

/// The lines of a log.
pub open spec fn log_views(list: Seq<LogLine>) -> Seq<LogView> {
    list.map_values(|l: LogLine| l@)
}

impl View for RunningState {
    type V = RunningView;

    open spec fn view(&self) -> RunningView {
        RunningView {
            ip: self.ip@,
            players: player_views(self.players@),
            logs: log_views(self.logs@),
            scroll_players: self.scroll_players,
            scroll_logs: self.scroll_logs,
            copied: self.copied,
        }
    }
}

/// How many lines the log keeps.
pub const LOG_LINES: usize = 100;

impl RunningView {
    /// Whether both lists are scrolled to a place in them, and the log is no
    /// longer than it may be.
    pub open spec fn wf(self) -> bool {
        &&& self.scroll_players <= self.players.len()
        &&& self.scroll_logs <= self.logs.len()
        &&& self.logs.len() <= LOG_LINES
    }
}

/// How long to wait before the next attempt to connect: the bits of a number of
/// seconds in single precision.
#[derive(Debug, Clone, Copy, PartialEq, Eq, Structural)]
pub struct RetryDelay {
    pub bits: u32,
}

/// What is kept while the proxy is being connected to.
#[derive(Debug)]
pub struct LoadingState {
    pub cancel_selected: bool,
    pub retry: RetryDelay,
}

/// The buttons of the screen that is shown after a failure.
#[derive(Debug, Clone, Copy, PartialEq, Eq, Structural)]
pub enum FailedSelected {
    Nothing,
    Cancel,
    Retry,
}

/// What is kept after a failure. Times are counted in nanoseconds.
#[derive(Debug)]
pub struct FailedState {
    pub permanent: bool,
    pub msg: String,
    pub retry: RetryDelay,
    pub retry_at: u64,
    pub selected: FailedSelected,
}

/// A [`FailedState`] with its text as a sequence.
pub struct FailedView {
    pub permanent: bool,
    pub msg: Seq<char>,
    pub retry: RetryDelay,
    pub retry_at: u64,
    pub selected: FailedSelected,
}

impl View for FailedState {
    type V = FailedView;

    open spec fn view(&self) -> FailedView {
        FailedView {
            permanent: self.permanent,
            msg: self.msg@,
            retry: self.retry,
            retry_at: self.retry_at,
            selected: self.selected,
        }
    }
}

/// The screen that is shown.
#[derive(Debug)]
pub enum TuiAppState {
    MainMenu(MainMenuTemporaryState),
    ServerLoading(LoadingState),
    Running(RunningState),
    Failed(FailedState),
}

/// A [`TuiAppState`] with its texts as sequences.
pub enum StateView {
    MainMenu(TempView),
    ServerLoading(LoadingState),
    Running(RunningView),
    Failed(FailedView),
}

impl View for TuiAppState {
    type V = StateView;

    open spec fn view(&self) -> StateView {
        match *self {
            TuiAppState::MainMenu(s) => StateView::MainMenu(s@),
            TuiAppState::ServerLoading(s) => StateView::ServerLoading(s),
            TuiAppState::Running(s) => StateView::Running(s@),
            TuiAppState::Failed(s) => StateView::Failed(s@),
        }
    }
}

/// The screens of the app.
#[derive(Debug)]
pub struct TuiApp {
    pub app_state: TuiAppState,
    pub permanent_state: MainMenuPermanentState,
    pub mouse_pos: (u16, u16),
}

/// A [`TuiApp`] with its texts as sequences.
pub struct AppView {
    pub state: StateView,
    pub perm: PermView,
    pub mouse: (u16, u16),
}

impl View for TuiApp {
    type V = AppView;

    open spec fn view(&self) -> AppView {
        AppView { state: self.app_state@, perm: self.permanent_state@, mouse: self.mouse_pos }
    }
}

/// Where the parts of the menu were drawn.
#[derive(Debug)]
pub struct MainMenuBoundingBoxes {
    pub ip_rect: Rect,
    pub domain_rect: Rect,
    pub advanced_rect: Rect,
    pub advanced_rects: Option<AdvancedBoxes>,
    pub start_rect: Rect,
    pub server_rects: Vec<Rect>,
}

/// Where the settings of the proxy were drawn.
#[derive(Debug, Clone, Copy, PartialEq, Eq, Structural)]
pub struct AdvancedBoxes {
    pub proxy_ip: Rect,
    pub play_port: Rect,
    pub init_port: Rect,
}

/// Where the parts of the screen of a shared server were drawn.
#[derive(Debug)]
pub struct RunningBoundingBoxes {
    pub disconnects: Vec<(SocketAddr, Rect)>,
    pub ip_box: Rect,
    pub players_box: Rect,
    pub logs_box: Rect,
}

/// A box with text that can be edited.
pub struct EditableTextBox<'a> {
    pub title: &'a str,
    pub content: &'a str,
    pub selected: bool,
    pub cursor: Cursor,
    pub mouse_position: Position,
    pub rect: Rect,
    pub suffix: Option<&'a str>,
}

/// What follows from an event in the menu.
#[derive(Debug, Clone, Copy, PartialEq, Eq, Structural)]
pub enum MainMenuEventResult {
    Done,
    Redraw,
    Exit,
    Start,
}

/// Where the parts of the screen were drawn that react to the mouse.
#[allow(inconsistent_fields)]
#[derive(Debug)]
pub enum RenderResult {
    MainMenu { bounding_boxes: MainMenuBoundingBoxes },
    Loading { cancel_bounding_box: Rect },
    FailScreen { main_menu: Rect, retry_now: Option<Rect> },
    RunningScreen { bounding_boxes: RunningBoundingBoxes },
    Nothing,
}

/// What the connection of a player tells the connection to the proxy. A token
/// cuts the player off.
#[derive(Debug)]
pub enum ClientStatusUpdate<T> {
    Connected { addr: SocketAddr, token: T },
    Disconnected { addr: SocketAddr },
}

/// A key.
#[derive(Debug, Clone, Copy, PartialEq, Eq, Structural)]
pub enum KeyCode {
    Backspace,
    Enter,
    Left,
    Right,
    Up,
    Down,
    Home,
    End,
    Tab,
    BackTab,
    Delete,
    Esc,
    Char(char),
    Other,
}

/// A key that was pressed or released, and whether Control was held.
#[derive(Debug, Clone, Copy, PartialEq, Eq, Structural)]
pub struct KeyEvent {
    pub code: KeyCode,
    pub control: bool,
    pub release: bool,
}

/// What the mouse did.
#[derive(Debug, Clone, Copy, PartialEq, Eq, Structural)]
pub enum MouseEventKind {
    Up,
    Moved,
    ScrollUp,
    ScrollDown,
    Other,
}

/// What the mouse did, and where.
#[derive(Debug, Clone, Copy, PartialEq, Eq, Structural)]
pub struct MouseEvent {
    pub kind: MouseEventKind,
    pub column: u16,
    pub row: u16,
}

impl MouseEvent {
    /// The cell that the mouse points at.
    pub open spec fn at(self) -> Position {
        Position { x: self.column, y: self.row }
    }

    /// The cell that the mouse points at.
    pub fn position(&self) -> (r: Position)
        ensures
            r == self.at(),
    {
        Position { x: self.column, y: self.row }
    }
}

/// What the terminal reports.
#[derive(Debug)]
pub enum TerminalEvent {
    Key(KeyEvent),
    Mouse(MouseEvent),
    Paste(String),
    Other,
}

} // verus!
