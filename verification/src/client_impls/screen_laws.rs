//! What the screens are for: how the app gets from the menu to a server that is
//! shared, what it tells of it, and how it gets back.

use crate::client_impls::geometry::Rect;
use crate::client_impls::menu;
use crate::client_impls::menu::MenuView;
use crate::client_impls::tui_events::{Flow, Input, Moment, Reaction, ReactionView};
use crate::client_impls::types::{
    AppView, Cursor, FailedSelected, FailedView, KeyCode, KeyEvent, LoadingState, LogView,
    MainMenuBoundingBoxes, MainMenuEventResult, MouseEvent, PermView, PlayerView, RenderResult,
    RetryDelay, RunningBoundingBoxes, RunningView, SelectedBlock, ServerEvent, ServerEventView,
    ServerInfo, ServerView, StateView, TempView, TerminalEvent, TuiApp, UiEventView,
};
use crate::message::PROTOCOL_VERSION;
use crate::net::SocketAddr;
use crate::search;
use crate::text;
use vstd::prelude::*;

verus! {

/// A key that is pressed, alone or with Control.
pub open spec fn key(code: KeyCode, control: bool) -> Input {
    Input::Terminal(TerminalEvent::Key(KeyEvent { code, control, release: false }))
}

/// Something that the mouse does.
pub open spec fn mouse(e: MouseEvent) -> Input {
    Input::Terminal(TerminalEvent::Mouse(e))
}

/// Whether the app shows the menu, fresh, and keeps what was set.
pub open spec fn is_back_in_the_menu(before: AppView, after: AppView) -> bool {
    &&& after.perm == before.perm
    &&& after.state matches StateView::MainMenu(t) && t.servers.len() == 0 && t.errors.len() == 0
        && t.selected == SelectedBlock::Nothing && t.last_selected_server is None && t.cursor
        == Cursor::Position(0)
}

/// Whether the app tries to connect, with what was set and this delay.
pub open spec fn is_connecting(before: AppView, after: AppView, retry: RetryDelay) -> bool {
    &&& after.perm == before.perm
    &&& after.state == StateView::ServerLoading(LoadingState { cancel_selected: false, retry })
}

/// Whether the connection is told to start with what was set.
pub open spec fn starts(perm: PermView, reaction: ReactionView) -> bool {
    &&& reaction.flow == Flow::Next
    &&& reaction.send matches Some(UiEventView::Start(options)) && {
        &&& options.server_ip == perm.server_ip
        &&& options.proxy_server == perm.proxy_server
        &&& Some(options.proxy_server_play_port) == text::u16_text(perm.proxy_server_play_port)
        &&& Some(options.proxy_server_init_port) == text::u16_text(perm.proxy_server_init_port)
        &&& options.request_domain == if perm.request_domain.len() == 0 {
            None
        } else {
            Some(perm.request_domain)
        }
    }
}

/// Whether an input leaves the app as it is, and is waited for more.
pub open spec fn is_ignored(
    app: AppView,
    boxes: RenderResult,
    redraw: bool,
    input: Input,
    moment: Moment,
) -> bool {
    app.input(boxes, redraw, input, moment) == (
        app,
        redraw,
        ReactionView { flow: Flow::Wait, send: None },
    )
}

/// Whether an input leaves the app.
pub open spec fn is_left(
    app: AppView,
    boxes: RenderResult,
    redraw: bool,
    input: Input,
    moment: Moment,
) -> bool {
    app.input(boxes, redraw, input, moment) == (
        app,
        redraw,
        ReactionView { flow: Flow::Exit, send: None },
    )
}

// The menu.

/// Starting from the menu connects to the proxy with what was set, where nothing
/// stands in the way, and else tells what does.
pub proof fn law_the_menu_starts(
    app: AppView,
    temp: TempView,
    boxes: MainMenuBoundingBoxes,
    redraw: bool,
    control: bool,
    moment: Moment,
)
    requires
        app.state == StateView::MainMenu(temp),
        temp.selected == SelectedBlock::StartButton,
    ensures
        ({
            let (after, _, reaction) = app.input(
                RenderResult::MainMenu { bounding_boxes: boxes },
                redraw,
                key(KeyCode::Enter, control),
                moment,
            );
            let perm = app.perm;
            if perm.server_ip.len() > 0 && text::u16_text(perm.proxy_server_play_port) is Some
                && text::u16_text(perm.proxy_server_init_port) is Some {
                &&& is_connecting(app, after, RetryDelay { bits: 0x4000_0000 })
                &&& starts(perm, reaction)
            } else {
                &&& after.perm == perm && after.mouse == app.mouse
                &&& reaction == (ReactionView { flow: Flow::Next, send: None })
                &&& after.state == StateView::MainMenu(
                    TempView { errors: menu::start_errors(perm), ..temp },
                )
            }
        }),
{
}

/// Control and C leave the menu, and so does the end of the terminal. The end of
/// a frame draws exactly where something changed, and what the connection tells
/// is not for the menu.
pub proof fn law_the_menu_waits(
    app: AppView,
    boxes: MainMenuBoundingBoxes,
    redraw: bool,
    e: ServerEvent,
    moment: Moment,
)
    requires
        app.state is MainMenu,
    ensures
        ({
            let drawn = RenderResult::MainMenu { bounding_boxes: boxes };
            &&& is_left(app, drawn, redraw, key(KeyCode::Char('c'), true), moment)
            &&& is_left(app, drawn, redraw, Input::Closed, moment)
            &&& is_ignored(app, drawn, redraw, Input::Server(e), moment)
            &&& app.input(drawn, redraw, Input::Timeout, moment) == (
                app,
                redraw,
                ReactionView {
                    flow: if redraw {
                        Flow::Redraw
                    } else {
                        Flow::Extend
                    },
                    send: None,
                },
            )
        }),
{
}

// The screen while the proxy is connected to.

/// When the proxy assigned a domain, the server is shown as shared at it, with no
/// players and nothing in the log.
pub proof fn law_assigned_domains_are_shown(
    app: AppView,
    cancel: Rect,
    redraw: bool,
    e: ServerEvent,
    url: Seq<char>,
    moment: Moment,
)
    requires
        app.state is ServerLoading,
        e@ == ServerEventView::Url(url),
    ensures
        ({
            let (after, _, reaction) = app.input(
                RenderResult::Loading { cancel_bounding_box: cancel },
                redraw,
                Input::Server(e),
                moment,
            );
            &&& reaction == (ReactionView { flow: Flow::Next, send: None })
            &&& after.perm == app.perm && after.mouse == app.mouse
            &&& after.state matches StateView::Running(s) && s.ip == url && s.players.len() == 0
                && s.logs.len() == 0 && s.scroll_players == 0 && s.scroll_logs == 0 && !s.copied
        }),
{
}

/// Whether a failure is shown, with this text.
pub open spec fn is_failed(
    app: AppView,
    after: AppView,
    reaction: ReactionView,
    msg: Seq<char>,
    permanent: bool,
) -> bool {
    &&& reaction == (ReactionView { flow: Flow::Next, send: None })
    &&& after.perm == app.perm && after.mouse == app.mouse
    &&& after.state matches StateView::Failed(f) && f.msg == msg && f.permanent == permanent
        && f.selected == FailedSelected::Nothing
}

/// When connecting fails, it is shown why. Where another attempt may help, it is
/// made after the delay; where the proxy speaks another protocol or assigned
/// another domain, none is made.
pub proof fn law_failures_are_shown(
    app: AppView,
    s: LoadingState,
    cancel: Rect,
    redraw: bool,
    e: ServerEvent,
    moment: Moment,
)
    requires
        app.state == StateView::ServerLoading(s),
    ensures
        ({
            let (after, _, reaction) = app.input(
                RenderResult::Loading { cancel_bounding_box: cancel },
                redraw,
                Input::Server(e),
                moment,
            );
            let tried_again = after.state matches StateView::Failed(f) && f.retry == s.retry
                && f.retry_at == moment.retry_at;
            let given_up = after.state matches StateView::Failed(f) && f.retry.bits == 0
                && f.retry_at == moment.now;
            match e@ {
                ServerEventView::ServerConnectionFailed(msg) => tried_again && is_failed(
                    app,
                    after,
                    reaction,
                    msg,
                    false,
                ),
                ServerEventView::ServerConnectionFailedTimeout => tried_again && is_failed(
                    app,
                    after,
                    reaction,
                    "Timed out when connecting to proxy"@,
                    false,
                ),
                ServerEventView::InvalidProtocolVersion(v) => given_up && is_failed(
                    app,
                    after,
                    reaction,
                    (if v > PROTOCOL_VERSION {
                        "Protocol version too low! You are on "@
                    } else {
                        "Protocol version too high! You are on "@
                    }) + text::decimal_text(PROTOCOL_VERSION as nat) + " but proxy is on "@
                        + text::decimal_text(v as nat),
                    true,
                ),
                ServerEventView::DidntGetRequestedUrl(url) => given_up && is_failed(
                    app,
                    after,
                    reaction,
                    "Did not get assigned requested subdomain. Got assigned `"@ + url + "`"@,
                    true,
                ),
                ServerEventView::Url(_) => after.state is Running,
                _ => is_ignored(
                    app,
                    RenderResult::Loading { cancel_bounding_box: cancel },
                    redraw,
                    Input::Server(e),
                    moment,
                ),
            }
        }),
{
}

/// Connecting is cancelled by a click on the button, or by Enter when it is
/// selected: the connection is told to stop, and the menu is shown again.
pub proof fn law_connecting_is_cancelled(
    app: AppView,
    s: LoadingState,
    cancel: Rect,
    redraw: bool,
    e: MouseEvent,
    control: bool,
    moment: Moment,
)
    requires
        app.state == StateView::ServerLoading(s),
        e.kind is Up,
    ensures
        ({
            let drawn = RenderResult::Loading { cancel_bounding_box: cancel };
            let (a1, d1, r1) = app.input(drawn, redraw, mouse(e), moment);
            let (a2, _, r2) = app.input(drawn, redraw, key(KeyCode::Enter, control), moment);
            let stop = ReactionView { flow: Flow::Next, send: Some(UiEventView::Stop) };
            &&& a1.mouse == (u16::MAX, u16::MAX)
            &&& cancel.has(e.at()) ==> is_back_in_the_menu(app, a1) && r1 == stop
            &&& !cancel.has(e.at()) ==> d1 && a1.state == app.state && a1.perm == app.perm && r1
                == (ReactionView { flow: Flow::Wait, send: None })
            &&& s.cancel_selected ==> is_back_in_the_menu(app, a2) && r2 == stop
            &&& !s.cancel_selected ==> is_ignored(
                app,
                drawn,
                redraw,
                key(KeyCode::Enter, control),
                moment,
            )
        }),
{
}

/// Tab selects the button and Escape lets go of it, and both are drawn. Q, and
/// Control with C, leave the app.
pub proof fn law_the_connecting_screen_is_worked(
    app: AppView,
    s: LoadingState,
    cancel: Rect,
    redraw: bool,
    control: bool,
    e: MouseEvent,
    moment: Moment,
)
    requires
        app.state == StateView::ServerLoading(s),
        e.kind is Moved,
    ensures
        ({
            let drawn = RenderResult::Loading { cancel_bounding_box: cancel };
            let wait = ReactionView { flow: Flow::Wait, send: None };
            let with = |cancel_selected: bool|
                (
                    AppView {
                        state: StateView::ServerLoading(
                            LoadingState { cancel_selected, retry: s.retry },
                        ),
                        ..app
                    },
                    true,
                    wait,
                );
            &&& app.input(drawn, redraw, key(KeyCode::Tab, control), moment) == with(true)
            &&& app.input(drawn, redraw, key(KeyCode::BackTab, control), moment) == with(true)
            &&& app.input(drawn, redraw, key(KeyCode::Esc, control), moment) == with(false)
            &&& app.input(drawn, redraw, mouse(e), moment) == (
                AppView { mouse: (e.column, e.row), ..app },
                true,
                wait,
            )
            &&& is_left(app, drawn, redraw, key(KeyCode::Char('q'), control), moment)
            &&& is_left(app, drawn, redraw, key(KeyCode::Char('c'), true), moment)
            &&& is_left(app, drawn, redraw, Input::Closed, moment)
            &&& app.input(drawn, redraw, Input::Timeout, moment) == (
                app,
                redraw,
                ReactionView {
                    flow: if redraw {
                        Flow::Redraw
                    } else {
                        Flow::Extend
                    },
                    send: None,
                },
            )
        }),
{
}

// The screen after a failure.

/// After a failure that another attempt may mend, the attempt is made when the
/// delay is over, and not before. After one that it would not mend, none is made
/// by itself.
pub proof fn law_attempts_are_made_after_the_delay(
    app: AppView,
    f: FailedView,
    main_menu: Rect,
    retry_now: Option<Rect>,
    redraw: bool,
    input: Input,
    moment: Moment,
)
    requires
        app.wf(),
        app.state == StateView::Failed(f),
        input is Timeout || input is Closed,
    ensures
        ({
            let (after, _, reaction) = app.input(
                RenderResult::FailScreen { main_menu, retry_now },
                redraw,
                input,
                moment,
            );
            if !f.permanent && moment.now >= f.retry_at {
                is_connecting(app, after, moment.next_retry) && starts(app.perm, reaction)
            } else {
                after == app && reaction == (ReactionView { flow: Flow::Redraw, send: None })
            }
        }),
{
}

/// After a failure, the buttons lead back to the menu and to another attempt at
/// once, by a click, or by Enter when they are selected. Going back tells the
/// connection nothing.
pub proof fn law_the_failure_buttons_work(
    app: AppView,
    f: FailedView,
    main_menu: Rect,
    retry_now: Option<Rect>,
    redraw: bool,
    e: MouseEvent,
    control: bool,
    moment: Moment,
)
    requires
        app.wf(),
        app.state == StateView::Failed(f),
        e.kind is Up,
    ensures
        ({
            let drawn = RenderResult::FailScreen { main_menu, retry_now };
            let (a1, _, r1) = app.input(drawn, redraw, mouse(e), moment);
            let (a2, _, r2) = app.input(drawn, redraw, key(KeyCode::Enter, control), moment);
            let on_retry = retry_now matches Some(retry) && retry.has(e.at());
            let on_menu = main_menu.has(e.at());
            let quiet = ReactionView { flow: Flow::Next, send: None };
            let wait = ReactionView { flow: Flow::Wait, send: None };
            &&& a1.mouse == (u16::MAX, u16::MAX)
            &&& on_menu ==> is_back_in_the_menu(app, a1) && r1 == quiet
            &&& on_retry && !on_menu ==> is_connecting(app, a1, moment.next_retry) && starts(
                app.perm,
                r1,
            )
            &&& !on_retry && !on_menu ==> a1.state == app.state && r1 == wait
            &&& match f.selected {
                FailedSelected::Cancel => is_back_in_the_menu(app, a2) && r2 == quiet,
                FailedSelected::Retry => is_connecting(app, a2, moment.next_retry) && starts(
                    app.perm,
                    r2,
                ),
                FailedSelected::Nothing => a2 == app && r2 == wait,
            }
        }),
{
}

/// Tab leads from one button to the other and back, where both are shown, and
/// stays on the one that leads to the menu where it is the only one.
pub proof fn law_the_failure_buttons_are_selected(
    app: AppView,
    f: FailedView,
    main_menu: Rect,
    retry_now: Option<Rect>,
    redraw: bool,
    control: bool,
    moment: Moment,
)
    requires
        app.state == StateView::Failed(f),
    ensures
        ({
            let drawn = RenderResult::FailScreen { main_menu, retry_now };
            let selects = |code: KeyCode, selected: FailedSelected|
                app.input(drawn, redraw, key(code, control), moment) == (
                    AppView { state: StateView::Failed(FailedView { selected, ..f }), ..app },
                    redraw,
                    ReactionView { flow: Flow::Wait, send: None },
                );
            &&& selects(KeyCode::Esc, FailedSelected::Nothing)
            &&& f.selected is Nothing ==> selects(KeyCode::Tab, FailedSelected::Cancel)
            &&& f.selected is Nothing ==> selects(KeyCode::BackTab, FailedSelected::Retry)
            &&& f.selected is Retry ==> selects(KeyCode::Tab, FailedSelected::Cancel) && selects(
                KeyCode::BackTab,
                FailedSelected::Cancel,
            )
            &&& f.selected is Cancel && f.permanent ==> selects(
                KeyCode::Tab,
                FailedSelected::Cancel,
            ) && selects(KeyCode::BackTab, FailedSelected::Cancel)
            &&& f.selected is Cancel && !f.permanent ==> selects(
                KeyCode::Tab,
                FailedSelected::Retry,
            ) && selects(KeyCode::BackTab, FailedSelected::Retry)
            &&& is_left(app, drawn, redraw, key(KeyCode::Char('q'), control), moment)
            &&& is_left(app, drawn, redraw, key(KeyCode::Char('c'), true), moment)
        }),
{
}

// The screen of a shared server.

/// Whether the log tells this at its front, after all that it told before, and
/// forgets no more than the oldest of a hundred lines.
pub open spec fn is_logged(
    before: Seq<LogView>,
    after: Seq<LogView>,
    time: Seq<char>,
    text: Seq<char>,
) -> bool {
    &&& after.len() > 0 && after[0] == (LogView { time, text })
    &&& after.len() == if before.len() < 100 {
        before.len() + 1
    } else {
        100
    }
    &&& forall|i: int| 0 < i < after.len() ==> #[trigger] after[i] == before[i - 1]
}

/// Whether a screen is the same but for the players, the log and their places.
pub open spec fn is_same_server(a: RunningView, b: RunningView) -> bool {
    a.ip == b.ip && a.copied == b.copied && a.scroll_logs == b.scroll_logs
}

/// A player who comes is listed last, with address and name, and the log says so.
/// The players before stay as they are.
pub proof fn law_players_are_listed(
    app: AppView,
    s: RunningView,
    boxes: RunningBoundingBoxes,
    redraw: bool,
    e: ServerEvent,
    addr: SocketAddr,
    name: Seq<char>,
    moment: Moment,
)
    requires
        app.state == StateView::Running(s),
        s.wf(),
        e@ == ServerEventView::PlayerConnected(addr, name),
    ensures
        ({
            let (after, drawing, reaction) = app.input(
                RenderResult::RunningScreen { bounding_boxes: boxes },
                redraw,
                Input::Server(e),
                moment,
            );
            &&& drawing && reaction == (ReactionView { flow: Flow::Wait, send: None })
            &&& after.perm == app.perm && after.mouse == app.mouse
            &&& after.state matches StateView::Running(t) && {
                &&& is_same_server(s, t) && t.scroll_players == s.scroll_players
                &&& t.players == s.players.push(PlayerView { addr, username: name })
                &&& is_logged(s.logs, t.logs, moment.time@, addr.text() + " connected"@)
            }
        }),
{
}

/// A player who leaves is listed no more, the others stay in their order, and the
/// log says so. Of several with the same address the first is taken off. What is
/// shown of the others stays in its place.
pub proof fn law_players_are_taken_off(
    app: AppView,
    s: RunningView,
    boxes: RunningBoundingBoxes,
    redraw: bool,
    e: ServerEvent,
    addr: SocketAddr,
    name: Seq<char>,
    i: int,
    moment: Moment,
)
    requires
        app.state == StateView::Running(s),
        s.wf(),
        e@ == ServerEventView::PlayerDisconnected(addr, name),
    ensures
        ({
            let (after, drawing, reaction) = app.input(
                RenderResult::RunningScreen { bounding_boxes: boxes },
                redraw,
                Input::Server(e),
                moment,
            );
            let first = 0 <= i < s.players.len() && s.players[i].addr == addr && forall|j: int|
                0 <= j < i ==> (#[trigger] s.players[j]).addr != addr;
            let none = forall|j: int|
                0 <= j < s.players.len() ==> (#[trigger] s.players[j]).addr != addr;
            &&& reaction == (ReactionView { flow: Flow::Wait, send: None })
            &&& after.perm == app.perm && after.mouse == app.mouse
            &&& after.state matches StateView::Running(t) && {
                &&& is_same_server(s, t)
                &&& is_logged(s.logs, t.logs, moment.time@, addr.text() + " disconnected"@)
                &&& first ==> drawing && t.players == s.players.remove(i) && t.scroll_players
                    == if i < s.scroll_players {
                    s.scroll_players - 1
                } else {
                    s.scroll_players as int
                }
                &&& none ==> drawing == redraw && t.players == s.players && t.scroll_players
                    == s.scroll_players
            }
        }),
{
    let wanted = |p: PlayerView| p.addr == addr;
    search::law_first_where(s.players, wanted);
    if 0 <= i < s.players.len() && s.players[i].addr == addr && (forall|j: int|
        0 <= j < i ==> (#[trigger] s.players[j]).addr != addr) {
        assert forall|j: int| 0 <= j < i implies !wanted(#[trigger] s.players[j]) by {}
        search::lemma_found(s.players, wanted, i);
    }
    if forall|j: int| 0 <= j < s.players.len() ==> (#[trigger] s.players[j]).addr != addr {
        assert forall|j: int| 0 <= j < s.players.len() implies !wanted(#[trigger] s.players[j]) by {
        }
        search::lemma_absent(s.players, wanted);
    }
}

/// What goes wrong with one player is told in the log, and sharing goes on. When
/// the connection to the proxy fails, that is shown, and another attempt is made
/// after the first delay. When sharing stopped, the menu is shown again.
pub proof fn law_troubles_are_told(
    app: AppView,
    s: RunningView,
    boxes: RunningBoundingBoxes,
    redraw: bool,
    e: ServerEvent,
    moment: Moment,
)
    requires
        app.state == StateView::Running(s),
        s.wf(),
    ensures
        ({
            let drawn = RenderResult::RunningScreen { bounding_boxes: boxes };
            let (after, drawing, reaction) = app.input(drawn, redraw, Input::Server(e), moment);
            let wait = ReactionView { flow: Flow::Wait, send: None };
            let told = |text: Seq<char>|
                drawing && reaction == wait && after.perm == app.perm && (
                after.state matches StateView::Running(t) && is_same_server(s, t) && t.players
                    == s.players && t.scroll_players == s.scroll_players && is_logged(
                    s.logs,
                    t.logs,
                    moment.time@,
                    text,
                ));
            match e@ {
                ServerEventView::MCServerConnectionFailed(msg) => told(
                    "Failed to connect to Minecraft server: "@ + msg + ". Is the MC server up?"@,
                ),
                ServerEventView::ServerNonCatastrophicError(msg) => told("Error: "@ + msg),
                ServerEventView::ServerConnectionFailed(msg) => is_failed(
                    app,
                    after,
                    reaction,
                    msg,
                    false,
                ) && (after.state matches StateView::Failed(f) && f.retry.bits == 0x4000_0000
                    && f.retry_at == moment.retry_at),
                ServerEventView::Stopped => is_back_in_the_menu(app, after) && reaction == (
                ReactionView { flow: Flow::Next, send: None }),
                ServerEventView::PlayerConnected(_, _) => true,
                ServerEventView::PlayerDisconnected(_, _) => true,
                _ => is_ignored(app, drawn, redraw, Input::Server(e), moment),
            }
        }),
{
}

/// Q stops sharing and leads back to the menu; Control with C leaves the app. The
/// end of a frame draws exactly where something changed.
pub proof fn law_the_sharing_screen_is_left(
    app: AppView,
    s: RunningView,
    boxes: RunningBoundingBoxes,
    redraw: bool,
    control: bool,
    moment: Moment,
)
    requires
        app.state == StateView::Running(s),
    ensures
        ({
            let drawn = RenderResult::RunningScreen { bounding_boxes: boxes };
            let (after, _, reaction) = app.input(
                drawn,
                redraw,
                key(KeyCode::Char('q'), control),
                moment,
            );
            &&& is_back_in_the_menu(app, after)
            &&& reaction == (ReactionView { flow: Flow::Next, send: Some(UiEventView::Stop) })
            &&& is_left(app, drawn, redraw, key(KeyCode::Char('c'), true), moment)
            &&& is_left(app, drawn, redraw, Input::Closed, moment)
            &&& app.input(drawn, redraw, Input::Timeout, moment) == (
                app,
                redraw,
                ReactionView {
                    flow: if redraw {
                        Flow::Redraw
                    } else {
                        Flow::Extend
                    },
                    send: None,
                },
            )
        }),
{
}

/// A click on the address copies it; one on the button of a player cuts that
/// player off, and no other; one elsewhere does nothing. After each, the address
/// is not marked as copied any more, and the mouse is taken away.
pub proof fn law_clicks_copy_and_cut_off(
    app: AppView,
    s: RunningView,
    boxes: RunningBoundingBoxes,
    redraw: bool,
    e: MouseEvent,
    i: int,
    moment: Moment,
)
    requires
        app.state == StateView::Running(s),
        e.kind is Up,
    ensures
        ({
            let drawn = RenderResult::RunningScreen { bounding_boxes: boxes };
            let (after, drawing, reaction) = app.input(drawn, redraw, mouse(e), moment);
            let buttons = boxes.disconnects@;
            let pos = e.at();
            let first = 0 <= i < buttons.len() && buttons[i].1.has(pos) && forall|j: int|
                0 <= j < i ==> !(#[trigger] buttons[j]).1.has(pos);
            let none = forall|j: int|
                0 <= j < buttons.len() ==> !(#[trigger] buttons[j]).1.has(pos);
            &&& after == (AppView {
                state: StateView::Running(RunningView { copied: false, ..s }),
                mouse: (u16::MAX, u16::MAX),
                ..app
            })
            &&& boxes.ip_box.has(pos) ==> reaction == (ReactionView {
                flow: Flow::Copy,
                send: None,
            })
            &&& !boxes.ip_box.has(pos) && first ==> reaction == (ReactionView {
                flow: Flow::Next,
                send: Some(UiEventView::Disconnect(buttons[i].0)),
            })
            &&& !boxes.ip_box.has(pos) && none ==> drawing && reaction == (ReactionView {
                flow: Flow::Wait,
                send: None,
            })
        }),
{
    let pos = e.at();
    let buttons = boxes.disconnects@;
    let hit = |d: (SocketAddr, Rect)| d.1.has(pos);
    search::law_first_where(buttons, hit);
    if 0 <= i < buttons.len() && buttons[i].1.has(pos) && (forall|j: int|
        0 <= j < i ==> !(#[trigger] buttons[j]).1.has(pos)) {
        assert forall|j: int| 0 <= j < i implies !hit(#[trigger] buttons[j]) by {}
        search::lemma_found(buttons, hit, i);
    }
    if forall|j: int| 0 <= j < buttons.len() ==> !(#[trigger] buttons[j]).1.has(pos) {
        assert forall|j: int| 0 <= j < buttons.len() implies !hit(#[trigger] buttons[j]) by {}
        search::lemma_absent(buttons, hit);
    }
}

/// Whether a list is scrolled by one line at most, forward or back, and as far as
/// there is more to show.
pub open spec fn is_scrolled(before: int, after: int, len: int, shown: int, forward: bool) -> bool {
    if len <= shown {
        after == 0
    } else if forward {
        after == if before < len - shown {
            before + 1
        } else {
            len - shown
        }
    } else {
        after == if before > 0 {
            before - 1
        } else {
            0
        }
    }
}

/// The wheel moves the list that the mouse is on by one line: the players forward
/// when it turns down, and the log, which grows upward, forward when it turns up.
/// Nothing else changes.
pub proof fn law_the_wheel_scrolls(
    app: AppView,
    s: RunningView,
    boxes: RunningBoundingBoxes,
    redraw: bool,
    e: MouseEvent,
    moment: Moment,
)
    requires
        app.state == StateView::Running(s),
        e.kind is ScrollUp || e.kind is ScrollDown,
        s.players.len() <= usize::MAX,
        s.logs.len() <= usize::MAX,
    ensures
        ({
            let drawn = RenderResult::RunningScreen { bounding_boxes: boxes };
            let (after, drawing, reaction) = app.input(drawn, redraw, mouse(e), moment);
            let on_players = boxes.players_box.has(e.at());
            let on_logs = !on_players && boxes.logs_box.has(e.at());
            &&& reaction == (ReactionView { flow: Flow::Wait, send: None })
            &&& after.perm == app.perm && after.mouse == app.mouse
            &&& after.state matches StateView::Running(t) && {
                &&& t.ip == s.ip && t.players == s.players && t.logs == s.logs && t.copied
                    == s.copied
                &&& on_players ==> drawing && t.scroll_logs == s.scroll_logs && is_scrolled(
                    s.scroll_players as int,
                    t.scroll_players as int,
                    s.players.len() as int,
                    boxes.players_box.height as int,
                    e.kind is ScrollDown,
                )
                &&& on_logs ==> drawing && t.scroll_players == s.scroll_players && is_scrolled(
                    s.scroll_logs as int,
                    t.scroll_logs as int,
                    s.logs.len() as int,
                    boxes.logs_box.height as int,
                    e.kind is ScrollUp,
                )
                &&& !on_players && !on_logs ==> t == s && drawing == redraw
            }
        }),
{
}

// All screens.

/// The app starts with the menu, fresh, set to the public proxy and its ports, and
/// nothing else.
pub proof fn law_the_app_starts_with_the_public_proxy(app: TuiApp)
    requires
        call_ensures(TuiApp::new, (), app),
    ensures
        ({
            let perm = app@.perm;
            &&& is_back_in_the_menu(app@, app@)
            &&& perm.proxy_server == "na.mineshare.dev"@
            &&& perm.proxy_server_play_port == "25564"@
            &&& perm.proxy_server_init_port == "25563"@
            &&& perm.server_ip.len() == 0
            &&& perm.request_domain.len() == 0
            &&& !perm.advanced
            &&& app@.mouse == (0u16, 0u16)
        }),
{
}

/// What the connection tells is heard while one is made, and while the server is
/// shared, and nowhere else.
pub proof fn law_the_connection_is_heard(app: TuiApp, heard: bool)
    requires
        call_ensures(TuiApp::hears_the_connection, (&app,), heard),
    ensures
        heard <==> app@.state is ServerLoading || app@.state is Running,
        !heard <==> app@.state is MainMenu || app@.state is Failed,
{
}

/// The address is marked as copied where it was, on the screen that shows it, and
/// that is drawn at once. A click takes the mark away again.
pub proof fn law_copying_is_marked(app: &mut TuiApp, done: bool, flow: Flow)
    requires
        call_ensures(TuiApp::copied, (app, done), flow),
    ensures
        old(app)@.state matches StateView::Running(s) ==> {
            &&& done ==> flow == Flow::Next && final(app)@ == (AppView {
                state: StateView::Running(RunningView { copied: true, ..s }),
                ..old(app)@
            })
            &&& !done ==> flow == Flow::Wait && final(app)@ == old(app)@
        },
        !(old(app)@.state is Running) ==> flow == Flow::Wait && final(app)@ == old(app)@,
{
}

/// A server that is found while the menu is shown is listed last, and changes
/// nothing else. It changes nothing while the menu is not shown.
pub proof fn law_found_servers_are_listed(app: &mut TuiApp, info: ServerInfo)
    requires
        call_ensures(TuiApp::found, (app, info), ()),
    ensures
        old(app)@.state matches StateView::MainMenu(temp) ==> {
            &&& final(app)@.perm == old(app)@.perm && final(app)@.mouse == old(app)@.mouse
            &&& final(app)@.state matches StateView::MainMenu(after) && {
                &&& after.servers.len() == temp.servers.len() + 1
                &&& after.servers.last() == (ServerView { motd: info.motd@, ip: info.ip@ })
                &&& after.servers.drop_last() == temp.servers
                &&& after.selected == temp.selected && after.cursor == temp.cursor && after.errors
                    == temp.errors && after.last_selected_server == temp.last_selected_server
            }
        },
        !(old(app)@.state is MainMenu) ==> final(app)@ == old(app)@,
{
    if let StateView::MainMenu(temp) = old(app)@.state {
        assert(temp.servers.push(info@).drop_last() =~= temp.servers);
    }
}

/// What the terminal tells the menu is worked into the menu, and drawn where it
/// has to be.
pub proof fn law_the_menu_takes_its_events(
    app: AppView,
    temp: TempView,
    boxes: MainMenuBoundingBoxes,
    redraw: bool,
    e: TerminalEvent,
    moment: Moment,
)
    requires
        app.state == StateView::MainMenu(temp),
    ensures
        ({
            let (m, result) = (MenuView { perm: app.perm, temp, mouse: app.mouse }).event(
                e,
                boxes,
            );
            let (after, drawing, reaction) = app.input(
                RenderResult::MainMenu { bounding_boxes: boxes },
                redraw,
                Input::Terminal(e),
                moment,
            );
            &&& after.perm == m.perm && after.mouse == m.mouse
            &&& result != MainMenuEventResult::Start ==> {
                &&& after.state == StateView::MainMenu(m.temp)
                &&& drawing == (redraw || result == MainMenuEventResult::Redraw)
                &&& reaction == (ReactionView {
                    flow: if result == MainMenuEventResult::Exit {
                        Flow::Exit
                    } else {
                        Flow::Wait
                    },
                    send: None,
                })
            }
            &&& result == MainMenuEventResult::Start ==> reaction.flow == Flow::Next && (
            reaction.send is None <==> after.state is MainMenu)
        }),
{
}

/// Whether a key is one that some screen but the menu reacts to.
pub open spec fn is_used(k: KeyEvent) -> bool {
    match k.code {
        KeyCode::Tab | KeyCode::BackTab | KeyCode::Esc | KeyCode::Enter => true,
        KeyCode::Char(c) => c == 'q' || (c == 'c' && k.control),
        _ => false,
    }
}

/// On the screens but the menu, no other keys do anything, nor does text that is
/// pasted, nor what else the terminal and the mouse do. On that of a shared
/// server, only Q, and Control with C, do anything at all.
pub proof fn law_other_inputs_do_nothing(
    app: AppView,
    boxes: RenderResult,
    redraw: bool,
    e: TerminalEvent,
    moment: Moment,
)
    requires
        !(app.state is MainMenu),
        match e {
            TerminalEvent::Key(k) => !is_used(k) || (app.state is Running && !(
            k.code is Char)),
            TerminalEvent::Mouse(m) => m.kind is Other || (!(app.state is Running) && (
            m.kind is ScrollUp || m.kind is ScrollDown)),
            _ => true,
        },
    ensures
        is_ignored(app, boxes, redraw, Input::Terminal(e), moment),
{
}

/// What does more than wait asks for nothing to be drawn at the end of the frame,
/// and the screen after a failure, which is drawn all the time, never does. What
/// was asked for is not taken back.
pub proof fn law_only_waiting_asks_for_drawing(
    app: AppView,
    boxes: RenderResult,
    redraw: bool,
    input: Input,
    moment: Moment,
)
    ensures
        ({
            let (_, drawing, reaction) = app.input(boxes, redraw, input, moment);
            &&& redraw ==> drawing
            &&& reaction.flow != Flow::Wait || app.state is Failed ==> drawing == redraw
        }),
{
}

/// After a failure, nothing that the connection tells is of interest.
pub proof fn law_failures_are_final(
    app: AppView,
    boxes: RenderResult,
    redraw: bool,
    e: ServerEvent,
    moment: Moment,
)
    requires
        app.state is Failed,
    ensures
        is_ignored(app, boxes, redraw, Input::Server(e), moment),
{
}

/// Where the mouse is, is known on every screen, and changes nothing else. Only
/// after a failure, whose screen is drawn all the time, does it not ask for being
/// drawn.
pub proof fn law_the_mouse_is_known_everywhere(
    app: AppView,
    boxes: RenderResult,
    redraw: bool,
    e: MouseEvent,
    moment: Moment,
)
    requires
        app.drawn(boxes),
        !(app.state is MainMenu),
        e.kind is Moved,
    ensures
        app.input(boxes, redraw, mouse(e), moment) == (
            AppView { mouse: (e.column, e.row), ..app },
            redraw || !(app.state is Failed),
            ReactionView { flow: Flow::Wait, send: None },
        ),
{
}

/// What was drawn of another screen is not reacted to.
pub proof fn law_only_the_screen_that_was_drawn_reacts(
    app: AppView,
    boxes: RenderResult,
    redraw: bool,
    input: Input,
    moment: Moment,
)
    requires
        boxes is Nothing || (boxes is MainMenu) != (app.state is MainMenu) || (boxes is Loading)
            != (app.state is ServerLoading) || (boxes is FailScreen) != (app.state is Failed),
    ensures
        is_ignored(app, boxes, redraw, input, moment),
{
}

/// On no screen does a key do anything when it is let go of.
pub proof fn law_keys_work_when_pressed(
    app: AppView,
    boxes: RenderResult,
    redraw: bool,
    k: KeyEvent,
    moment: Moment,
)
    requires
        k.release,
    ensures
        is_ignored(app, boxes, redraw, Input::Terminal(TerminalEvent::Key(k)), moment),
{
}

/// What is said here of the screens is said of every input that the app works in.
pub proof fn law_the_app_works_so(
    app: &mut TuiApp,
    boxes: RenderResult,
    redraw: &mut bool,
    input: Input,
    moment: Moment,
    reaction: Reaction,
)
    requires
        call_ensures(TuiApp::handle_events, (app, &boxes, redraw, input, &moment), reaction),
    ensures
        (final(app)@, *final(redraw), reaction@) == old(app)@.input(
            boxes,
            *old(redraw),
            input,
            moment,
        ),
{
}

} // verus!
