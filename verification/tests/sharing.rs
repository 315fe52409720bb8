//! The connection to the proxy.

use mineshare::client_impls::server::{
    check_answer, server_thread, ClientTable, Join, JoinAction, JoinEvent, Share, ShareAction,
    ShareEvent, Stage,
};
use mineshare::client_impls::types::{ClientStatusUpdate, ConnectOptions, ServerEvent, UiEvent};
use mineshare::message::{Addr, InitResponse, Message};
use mineshare::net::{IpAddr, SocketAddr};

fn options(domain: Option<&str>) -> ConnectOptions {
    ConnectOptions {
        proxy_server: "p.q".to_string(),
        proxy_server_play_port: 25564,
        proxy_server_init_port: 1,
        server_ip: "localhost:2".to_string(),
        request_domain: domain.map(|s| s.to_string()),
    }
}

fn addr(n: u32) -> SocketAddr {
    SocketAddr { ip: IpAddr::V4(n), port: 9 }
}

fn failed<T: std::fmt::Debug>(action: ShareAction<T>) -> String {
    match action {
        ShareAction::Fail(ServerEvent::ServerConnectionFailed(s)) => s,
        ShareAction::Stop(Some(ServerEvent::ServerConnectionFailed(s))) => s,
        other => panic!("{other:?}"),
    }
}

fn why(s: &str) -> String {
    s.to_string()
}

#[test]
fn addresses_of_the_proxy_are_written() {
    assert_eq!(options(None).init_address(), "p.q:1");
    assert_eq!(options(None).play_address(), "p.q:25564");
}

#[test]
fn only_a_start_matters_while_nothing_is_shared() {
    assert!(server_thread(UiEvent::Stop).is_none());
    assert!(server_thread(UiEvent::Disconnect(addr(1))).is_none());
    assert_eq!(server_thread(UiEvent::Start(options(None))).unwrap().server_ip, "localhost:2");
}

#[test]
fn answers_of_the_proxy_are_checked() {
    let answer = |version| InitResponse::new("a.b".to_string(), version);
    assert!(matches!(check_answer(&None, answer(4)), ServerEvent::Url(d) if d == "a.b"));
    assert!(matches!(check_answer(&None, answer(5)), ServerEvent::InvalidProtocolVersion(5)));
    let wanted = Some("a.b".to_string());
    assert!(matches!(check_answer(&wanted, answer(4)), ServerEvent::Url(d) if d == "a.b"));
    let other = Some("c.d".to_string());
    assert!(matches!(check_answer(&other, answer(4)), ServerEvent::DidntGetRequestedUrl(d) if d == "a.b"));
    assert!(matches!(check_answer(&other, answer(3)), ServerEvent::InvalidProtocolVersion(3)));
}

fn sharing() -> Share<u32> {
    let mut s = Share::new(options(None));
    assert!(matches!(s.step(ShareEvent::Connected), ShareAction::SendHello));
    assert!(matches!(s.step(ShareEvent::HelloSent), ShareAction::ReadAnswer));
    let answer = InitResponse::new("a.b".to_string(), 4);
    let action = s.step(ShareEvent::Answered(answer));
    assert!(matches!(action, ShareAction::Serve(ServerEvent::Url(d)) if d == "a.b"));
    assert_eq!(s.stage, Stage::Sharing);
    s
}

#[test]
fn connecting_can_fail() {
    let mut s: Share<u32> = Share::new(options(None));
    let action = s.step(ShareEvent::ConnectTimedOut);
    assert!(matches!(action, ShareAction::Fail(ServerEvent::ServerConnectionFailedTimeout)));
    assert_eq!(s.stage, Stage::Ended);
    assert!(matches!(s.step(ShareEvent::Connected), ShareAction::Wait));
    let mut s: Share<u32> = Share::new(options(None));
    assert_eq!(failed(s.step(ShareEvent::ConnectFailed(why("e")))), "Failed to connect to server: e");
    let mut s: Share<u32> = Share::new(options(None));
    s.step(ShareEvent::Connected);
    assert_eq!(failed(s.step(ShareEvent::HelloFailed(why("e")))), "Failed to send Hello: e");
    let mut s: Share<u32> = Share::new(options(Some("c.d")));
    s.step(ShareEvent::Connected);
    s.step(ShareEvent::HelloSent);
    let action = s.step(ShareEvent::Answered(InitResponse::new("a.b".to_string(), 4)));
    assert!(matches!(action, ShareAction::Fail(ServerEvent::DidntGetRequestedUrl(_))));
    let mut s: Share<u32> = Share::new(options(None));
    s.step(ShareEvent::Connected);
    s.step(ShareEvent::HelloSent);
    let action = s.step(ShareEvent::AnswerFailed(why("e")));
    assert_eq!(failed(action), "Failed to fetch domain from proxy server: e");
}

#[test]
fn messages_of_the_proxy_are_followed() {
    let mut s = sharing();
    let beat = ShareEvent::Received(Message::HeartBeat([3; 32]));
    assert!(matches!(s.step(beat), ShareAction::Echo(d) if d == [3; 32]));
    assert!(matches!(s.step(ShareEvent::Received(Message::NewClient(8))), ShareAction::Open(8)));
    let action = s.step(ShareEvent::ReceiveFailed(why("e")));
    assert_eq!(failed(action), "Error parsing message send by server: e");
    let mut s = sharing();
    let action = s.step(ShareEvent::EchoFailed(why("e")));
    assert_eq!(failed(action), "Sending heartbeat to server failed: e");
    assert_eq!(s.stage, Stage::Ended);
}

#[test]
fn players_are_registered_and_cut_off() {
    let mut s = sharing();
    s.step(ShareEvent::Client(ClientStatusUpdate::Connected { addr: addr(1), token: 11 }));
    s.step(ShareEvent::Client(ClientStatusUpdate::Connected { addr: addr(2), token: 22 }));
    assert!(matches!(s.step(ShareEvent::Ui(UiEvent::Disconnect(addr(2)))), ShareAction::Cut(22)));
    assert!(matches!(s.step(ShareEvent::Ui(UiEvent::Disconnect(addr(2)))), ShareAction::Wait));
    s.step(ShareEvent::Client(ClientStatusUpdate::Disconnected { addr: addr(1) }));
    assert!(matches!(s.step(ShareEvent::Ui(UiEvent::Disconnect(addr(1)))), ShareAction::Wait));
    assert!(matches!(s.step(ShareEvent::Ui(UiEvent::Start(options(None)))), ShareAction::Wait));
    assert!(matches!(s.step(ShareEvent::Ui(UiEvent::Stop)), ShareAction::Stop(None)));
    assert!(matches!(sharing().step(ShareEvent::Closed), ShareAction::Stop(None)));
}

#[test]
fn players_are_found_by_their_addresses() {
    let mut t = ClientTable::new();
    let v6 = SocketAddr { ip: IpAddr::V6(1), port: 9 };
    let other = SocketAddr { ip: IpAddr::V4(1), port: 10 };
    t.insert(addr(1), 1);
    t.insert(v6, 2);
    t.insert(other, 3);
    t.insert(addr(1), 4);
    assert_eq!(t.remove(addr(1)), Some(4));
    assert_eq!(t.remove(addr(1)), None);
    assert_eq!(t.remove(v6), Some(2));
    assert_eq!(t.remove(other), Some(3));
}

fn playing(username: Option<&str>) -> (Join, ServerEvent) {
    let mut j = Join::Dialing;
    assert!(matches!(j.step(JoinEvent::ProxyConnected), JoinAction::ConnectServer));
    assert!(matches!(j.step(JoinEvent::ServerConnected), JoinAction::SendId));
    assert!(matches!(j.step(JoinEvent::IdSent), JoinAction::ReadAddr));
    let who = Addr { addr: addr(3), username: username.map(|s| s.to_string()) };
    match j.step(JoinEvent::Met(who)) {
        JoinAction::Play(e) => (j, e),
        other => panic!("{other:?}"),
    }
}

#[test]
fn players_are_reported() {
    let (mut j, came) = playing(Some("Alex"));
    assert!(matches!(came, ServerEvent::PlayerConnected(a, n) if a == addr(3) && n == "Alex"));
    match j.step(JoinEvent::Finished) {
        JoinAction::Leave(Some(ServerEvent::PlayerDisconnected(a, n)), false) => {
            assert_eq!((a, n.as_str()), (addr(3), "Alex"));
        }
        other => panic!("{other:?}"),
    }
    assert!(matches!(j.step(JoinEvent::Finished), JoinAction::Nothing));
    let (mut j, came) = playing(None);
    assert!(matches!(came, ServerEvent::Pinged(a) if a == addr(3)));
    assert!(matches!(j.step(JoinEvent::Cancelled), JoinAction::Leave(None, true)));
}

fn minor(mut j: Join, e: JoinEvent) -> (String, bool) {
    match j.step(e) {
        JoinAction::Fail(ServerEvent::ServerNonCatastrophicError(s), shut) => (s, shut),
        other => panic!("{other:?}"),
    }
}

#[test]
fn a_player_can_fail_to_join() {
    let e = || why("e");
    let r = minor(Join::Dialing, JoinEvent::ProxyFailed(e()));
    assert_eq!(r, ("Failed to connect to proxy's PLAY port: e".to_string(), false));
    let r = minor(Join::Naming, JoinEvent::IdFailed(e()));
    assert_eq!(r, ("Failed to send id to server: e".to_string(), false));
    let r = minor(Join::Meeting, JoinEvent::MeetFailed(e()));
    assert_eq!(r, ("Error fetching player IP: e".to_string(), true));
    match Join::Reaching.step(JoinEvent::ServerFailed(e())) {
        JoinAction::Fail(ServerEvent::MCServerConnectionFailed(s), false) => assert_eq!(s, "e"),
        other => panic!("{other:?}"),
    }
}
