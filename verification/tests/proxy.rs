//! The proxy.

use mineshare::byte_map::ByteMap;
use mineshare::codec::{number16, octets16, StreamHelper};
use mineshare::limiter::{Limiter, Quota, LATEST};
use mineshare::message::{InitResponse, Message, ServerHello};
use mineshare::net::{IpAddr, Peer, SocketAddr};
use mineshare::proxy::{
    check_hello, check_usage, connected_message, disconnected_message, play_number, quota_exceeded,
    read_arrival, receive_server_hello, send_domain, server_label, Arrival, Duplex, DuplexAction,
    DuplexEvent, Entry, EntryAction, EntryEvent, Farewell, Session, SessionAction, SessionEvent,
    Shutdown, Side, Usage, Visit, VisitAction, VisitEvent, BETWEEN_HEARTBEATS,
    HEARTBEAT_RESPONSE_TIME, OPENING_LEN, SECOND, SILENCE, USAGE_INTERVAL,
};
use mineshare::reader::ByteReader;
use mineshare::router::{get_random_id, get_random_prefix, make_prefix, Router};
use std::collections::HashMap;

fn quota() -> Quota {
    Quota::new(1, 2)
}

fn words() -> Vec<String> {
    ["one", "two", "three"].iter().map(|s| s.to_string()).collect()
}

fn addr() -> Peer {
    Peer { addr: SocketAddr { ip: IpAddr::V4(0x01020304), port: 5 }, zone: 0 }
}

#[test]
fn a_map_holds_what_was_put_in() {
    let mut m: ByteMap<u32> = ByteMap::new();
    assert!(m.get(b"a").is_none());
    m.insert(b"a".to_vec(), 1);
    m.insert(b"b".to_vec(), 2);
    m.insert(b"c".to_vec(), 3);
    m.insert(b"b".to_vec(), 4);
    assert_eq!(m.get(b"a"), Some(&1));
    assert_eq!(m.get(b"b"), Some(&4));
    assert!(m.contains_key(b"c"));
    assert_eq!(m.remove(b"a"), Some(1));
    assert_eq!(m.remove(b"a"), None);
    assert!(!m.contains_key(b"a"));
    assert_eq!(m.get(b"c"), Some(&3));
}

#[test]
fn requested_domains_are_granted_once() {
    let mut r: Router<u32, ()> = Router::new("mineshare.dev", quota());
    let w = words();
    assert_eq!(r.add_server(1, Some("me.mineshare.dev"), &w).unwrap(), "me.mineshare.dev");
    assert_eq!(r.get_domain(b"me.mineshare.dev"), Some(&1));
    let second = r.add_server(2, Some("me.mineshare.dev"), &w).unwrap();
    assert_ne!(second, "me.mineshare.dev");
    assert_eq!(r.get_domain(b"me.mineshare.dev"), Some(&1));
    assert_eq!(r.get_domain(second.as_bytes()), Some(&2));
    let third = r.add_server(3, Some("me.example.com"), &w).unwrap();
    assert!(third.ends_with(".mineshare.dev"));
    assert_eq!(r.remove_prefix(b"me.mineshare.dev"), Some(1));
    assert_eq!(r.get_domain(b"me.mineshare.dev"), None);
    assert_eq!(r.remove_prefix(b"me.mineshare.dev"), None);
    assert_eq!(r.add_server(4, Some("me.mineshare.dev"), &w).unwrap(), "me.mineshare.dev");
}

#[test]
fn domains_are_made_of_three_words() {
    let mut r: Router<u32, ()> = Router::new("base", quota());
    let w = words();
    for i in 0..20 {
        let domain = r.add_server(i, None, &w).unwrap();
        let prefix = domain.strip_suffix(".base").unwrap();
        let parts: Vec<&str> = prefix.split('-').collect();
        assert_eq!(parts.len(), 3);
        assert!(parts.iter().all(|p| w.iter().any(|x| x == p)));
    }
    assert_eq!(make_prefix("a", "b", "c"), "a-b-c");
}

#[test]
fn drawn_words_are_used_as_they_are() {
    let mut r: Router<u32, ()> = Router::new("base", quota());
    assert_eq!(r.add_drawn(1, None, "a", "b", "c").unwrap(), "a-b-c.base");
    assert_eq!(r.get_domain(b"a-b-c.base"), Some(&1));
    assert_eq!(r.add_drawn(2, Some("x.base"), "a", "b", "c").unwrap(), "x.base");
    assert_eq!(r.add_drawn(3, None, "a", "b", "c"), None);
    assert_eq!(r.get_domain(b"a-b-c.base"), Some(&1));
    assert_eq!(r.add_drawn(4, Some("a-b-c"), "d", "b", "c").unwrap(), "d-b-c.base");
    assert_eq!(r.add_drawn(5, Some("x.base"), "a", "b", "c"), None);
    assert_eq!(r.get_domain(b"x.base"), Some(&2));
}

#[test]
fn a_free_prefix_and_a_free_number_are_drawn() {
    let mut m: ByteMap<()> = ByteMap::new();
    m.insert(b"one-one-one.base".to_vec(), ());
    let w = vec!["one".to_string(), "two".to_string()];
    for _ in 0..50 {
        let p = get_random_prefix(&m, "base", &w).unwrap();
        assert_ne!(p, "one-one-one");
    }
    assert_eq!(get_random_prefix(&m, "base", &vec!["one".to_string()]), None);
    assert_eq!(get_random_prefix(&m, "other", &vec!["one".to_string()]).unwrap(), "one-one-one");
    assert_eq!(get_random_prefix(&m, "base", &vec![]), None);
    let mut m: HashMap<u128, ()> = HashMap::new();
    let a = get_random_id(&m);
    m.insert(a, ());
    let b = get_random_id(&m);
    assert_ne!(a, b);
}

#[test]
fn a_domain_in_use_is_not_given_away() {
    let mut r: Router<u32, ()> = Router::new("base", quota());
    let w = vec!["one".to_string(), "two".to_string()];
    let domains: Vec<String> = (0..8).map(|i| r.add_server(i, None, &w).unwrap()).collect();
    for (i, domain) in domains.iter().enumerate() {
        assert_eq!(r.get_domain(domain.as_bytes()), Some(&(i as u32)));
    }
    assert_eq!(r.add_server(8, None, &w), None);
    assert_eq!(r.add_server(9, Some("three.base"), &w).unwrap(), "three.base");
    assert_eq!(r.remove_prefix(domains[3].as_bytes()), Some(3));
    assert_eq!(r.add_server(10, None, &w).unwrap(), domains[3]);
}

#[test]
fn connections_are_waited_for_by_number() {
    let mut r: Router<(), u32> = Router::new("base", quota());
    let a = r.add_random_id(1);
    let b = r.add_random_id(2);
    assert_ne!(a, b);
    assert_eq!(r.get_id(a), Some(1));
    assert_eq!(r.get_id(a), None);
    assert_eq!(r.remove_id(b), Some(2));
    assert_eq!(r.remove_id(b), None);
    assert_eq!(r.add_id(3, 77), Ok(()));
    assert_eq!(r.add_id(4, 77), Err(4));
    assert_eq!(r.get_id(77), Some(3));
}

#[test]
fn numbers_sent_back_lead_to_the_client() {
    let mut r: Router<(), u32> = Router::new("base", quota());
    let id = r.add_random_id(7);
    assert_eq!(r.get_id(number16(&octets16(id))), Some(7));
    let id = r.add_random_id(8);
    assert_eq!(play_number(Some(octets16(id))), (Some(id), 16));
    assert_eq!(play_number(None), (None, 16));
}

#[test]
fn hosts_are_limited() {
    let mut r: Router<(), ()> = Router::new("base", quota());
    let now = 5 * SECOND;
    for ip in [IpAddr::V4(1), IpAddr::V6(1)] {
        assert!(!r.check_ratelimit(ip, now));
        assert!(!r.check_ratelimit(ip, now));
        assert!(r.check_ratelimit(ip, now));
        assert!(r.check_ratelimit(ip, now + SECOND - 1));
        assert!(!r.check_ratelimit(ip, now + SECOND));
        assert!(r.check_ratelimit(ip, now + SECOND));
        assert!(r.check_ratelimit(ip, 0));
    }
    assert!(!r.check_ratelimit(IpAddr::V4(2), now));
}

#[test]
fn as_many_come_at_once_as_may() {
    for (recharge, burst) in [(1, 1), (1, 10), (3, 7), (1000, 64), (u32::MAX, 5), (1, u32::MAX)] {
        for now in [0, 1, SECOND, LATEST] {
            let mut limiter = Limiter::new(Quota::new(recharge, burst));
            for i in 0..70 {
                let (next, through) = limiter.ask(now);
                limiter = next;
                assert_eq!(through, i < burst);
            }
        }
    }
}

#[test]
fn connections_are_replenished() {
    let mut limiter = Limiter::new(Quota::new(4, 3));
    let mut through = Vec::new();
    for tenth in 0..20 {
        let (next, ok) = limiter.ask(tenth * SECOND / 10);
        limiter = next;
        if ok {
            through.push(tenth);
        }
    }
    assert_eq!(through, [0, 1, 2, 3, 5, 8, 10, 13, 15, 18]);
}

#[test]
fn clients_are_handed_over() {
    let mut opening = vec![7, 0, 0, 1, b'h', 0x63, 0xdd, 1];
    let mut v = Visit::Arriving;
    assert!(matches!(v.step(VisitEvent::Limited(false)), VisitAction::Read(OPENING_LEN)));
    assert!(matches!(v.step(VisitEvent::Received(opening[..3].to_vec())), VisitAction::Read(2045)));
    assert!(matches!(v.step(VisitEvent::Known(true)), VisitAction::Nothing));
    match v.step(VisitEvent::Received(opening[3..].to_vec())) {
        VisitAction::Look(host) => assert_eq!(host, "h"),
        other => panic!("{other:?}"),
    }
    match v.step(VisitEvent::Known(true)) {
        VisitAction::HandOver { username, data } => {
            assert_eq!(username, None);
            assert_eq!(data, opening);
        }
        other => panic!("{other:?}"),
    }
    assert!(matches!(v.step(VisitEvent::TimedOut), VisitAction::Nothing));
    opening[7] = 9;
    let mut v = Visit::Reading(vec![]);
    assert!(matches!(v.step(VisitEvent::Received(opening)), VisitAction::Drop));
}

#[test]
fn clients_are_turned_away() {
    let mut v = Visit::Arriving;
    let limited = v.step(VisitEvent::Limited(true));
    assert!(matches!(limited, VisitAction::TurnAway(Farewell::RateLimited)));
    let mut v = Visit::Looking { username: None, data: vec![1] };
    assert!(matches!(v.step(VisitEvent::Known(false)), VisitAction::Drop));
    for event in [VisitEvent::ReceiveFailed, VisitEvent::TimedOut, VisitEvent::Received(vec![])] {
        let mut v = Visit::Reading(vec![1]);
        assert!(matches!(v.step(event), VisitAction::Drop));
        assert!(matches!(v, Visit::Over));
    }
}

#[test]
fn zones_are_written() {
    let ip = IpAddr::V6(0xfe80 << 112 | 1);
    let mut peer = Peer { addr: SocketAddr { ip, port: 80 }, zone: 3 };
    assert_eq!(peer.to_text(), "[fe80::1%3]:80");
    assert_eq!(server_label("d", peer), "[d @ [fe80::1%3]:80]");
    peer.zone = 0;
    assert_eq!(peer.to_text(), "[fe80::1]:80");
    peer = Peer { zone: 3, ..addr() };
    assert_eq!(peer.to_text(), "1.2.3.4:5");
}

#[test]
fn a_hello_has_to_be_that_of_a_server() {
    let mut out = Vec::new();
    let mut buf = [0u8; 64];
    ServerHello::new(Some("d")).encode(&mut out, &mut buf).unwrap();
    let mut r = ByteReader::new(out);
    let mut buf = [0u8; 64];
    assert_eq!(receive_server_hello(&mut r, &mut buf), Ok(Some("d")));
    let mut out = Vec::new();
    let mut buf = [0u8; 64];
    let wrong = ServerHello { hello_string: "other", requested_domain: None };
    wrong.encode(&mut out, &mut buf).unwrap();
    let mut r = ByteReader::new(out);
    let mut buf = [0u8; 64];
    assert_eq!(receive_server_hello(&mut r, &mut buf), Err(()));
    let mut r = ByteReader::new(vec![0, 0]);
    let mut buf = [0u8; 64];
    assert_eq!(receive_server_hello(&mut r, &mut buf), Err(()));
    assert_eq!(check_hello(ServerHello::new(None)), Ok(None));
}

#[test]
fn a_server_is_told_its_domain() {
    let mut out = Vec::new();
    let mut buf = [0u8; 64];
    assert_eq!(send_domain("d.e".to_string(), &mut out, &mut buf).unwrap(), out.len());
    let mut r = ByteReader::new(out);
    let mut buf = [0u8; 64];
    let response = InitResponse::decode(&mut r, &mut buf).unwrap();
    assert_eq!((response.domain.as_str(), response.protocol_version), ("d.e", 4));
    let mut out = Vec::new();
    let mut buf = [0u8; 2];
    assert!(send_domain("d.e".to_string(), &mut out, &mut buf).is_err());
}

fn session() -> Session {
    Session::with_data("d.e", addr(), [7; 32], 100)
}

fn why(action: SessionAction) -> String {
    match action {
        SessionAction::Close(Some(s)) => s,
        other => panic!("{other:?}"),
    }
}

#[test]
fn heartbeats_keep_a_server() {
    let mut s = session();
    assert_eq!(s.server, "[d.e @ 1.2.3.4:5]");
    assert_eq!(server_label("d.e", addr()), s.server);
    assert_eq!(s.timeout_at, 100 + SILENCE);
    assert_eq!(s.send_heartbeat_at, 100 + BETWEEN_HEARTBEATS);
    assert_eq!(SILENCE, 20 * SECOND);
    assert!(matches!(s.step(SessionEvent::Due, 200), (SessionAction::SendHeartbeat, 0)));
    assert!(matches!(s.heartbeat(), Message::HeartBeat(d) if d == [7; 32]));
    assert!(matches!(s.step(SessionEvent::Sent(37), 300), (SessionAction::Wait, 37)));
    assert_eq!(s.send_heartbeat_at, 300 + BETWEEN_HEARTBEATS);
    assert_eq!(s.timeout_at, 300 + HEARTBEAT_RESPONSE_TIME);
    let (action, _) = s.step(SessionEvent::Received(vec![7; 30]), 350);
    assert!(matches!(action, SessionAction::ReadRest(2)));
    assert_eq!(s.timeout_at, 300 + HEARTBEAT_RESPONSE_TIME);
    let (action, _) = s.step(SessionEvent::Received(vec![7; 2]), 400);
    assert!(matches!(action, SessionAction::Wait));
    assert_eq!(s.timeout_at, 400 + SILENCE);
    assert_eq!(s.send_heartbeat_at, 400 + BETWEEN_HEARTBEATS);
    let (action, _) = s.step(SessionEvent::Received(vec![7; 40]), 500);
    assert!(matches!(action, SessionAction::Wait));
}

#[test]
fn servers_are_disconnected() {
    let name = "[d.e @ 1.2.3.4:5]";
    let end = |e| why(session().step(e, 1).0);
    assert_eq!(end(SessionEvent::Silent), format!("Timed out: {name}"));
    assert_eq!(end(SessionEvent::RestFailed), format!("Timed out: {name}."));
    let cause = |s: &str| format!("Disconnected: {name}. Cause: {s}");
    assert_eq!(end(SessionEvent::SendFailed("x".to_string())), cause("x"));
    assert_eq!(end(SessionEvent::SendTimedOut), cause("Timeout sending heartbeat"));
    assert_eq!(end(SessionEvent::ReceiveFailed), cause("Heartbeat EOF"));
    let mut bad = vec![7; 32];
    bad[31] = 8;
    assert_eq!(end(SessionEvent::Received(bad)), cause("Invalid heartbeat"));
    assert!(matches!(session().step(SessionEvent::Aborted, 1), (SessionAction::Leave, 0)));
    assert!(matches!(session().step(SessionEvent::AnnounceFailed, 1), (SessionAction::Close(None), 0)));
    assert!(matches!(session().step(SessionEvent::Announced(9), 1), (SessionAction::Connect, 9)));
}

#[test]
fn the_bytes_of_heartbeats_are_drawn() {
    let a = Session::new("d", addr(), 0);
    let b = Session::new("d", addr(), 0);
    assert_ne!(a.data, b.data);
    assert_eq!(a.timeout_at, SILENCE);
}

#[test]
fn the_opening_of_a_connection_arrives_in_pieces() {
    let bytes = vec![8, 0, 4, 2, b'h', b'i', 0, 1, 1, 1, 0];
    assert!(matches!(read_arrival(bytes[..5].to_vec()), Arrival::Incomplete));
    match read_arrival(bytes.clone()) {
        Arrival::Complete { hostname, username, data } => {
            assert_eq!(hostname, "hi");
            assert_eq!(username, None);
            assert_eq!(data, bytes);
        }
        other => panic!("{other:?}"),
    }
    assert!(matches!(read_arrival(vec![8, 1]), Arrival::Refused));
}

fn end(action: DuplexAction) -> (bool, Option<Farewell>, Shutdown) {
    match action {
        DuplexAction::End { forget_id, farewell, shutdown } => (forget_id, farewell, shutdown),
        other => panic!("{other:?}"),
    }
}

#[test]
fn a_client_is_connected_and_passed_on() {
    let mut d = Duplex::Waiting;
    assert_eq!(d.step(DuplexEvent::Accepted), (DuplexAction::SendAddr, 0));
    assert_eq!(d.step(DuplexEvent::AddrSent(20)), (DuplexAction::SendOpening, 20));
    assert_eq!(d.step(DuplexEvent::OpeningSent), (DuplexAction::Relay, 0));
    for side in [Side::Client, Side::Server] {
        let forward = DuplexAction::Forward(side, 10);
        assert_eq!(d.step(DuplexEvent::Received(side, 10)), (forward, 10));
        assert_eq!(d.step(DuplexEvent::Forwarded), (DuplexAction::Relay, 0));
    }
    assert_eq!(d.step(DuplexEvent::Accepted), (DuplexAction::Nothing, 0));
    let (action, n) = d.step(DuplexEvent::Received(Side::Client, 0));
    assert_eq!((end(action), n), ((false, None, Shutdown::Neither), 0));
    assert_eq!(d, Duplex::Closed);
    assert_eq!(d.step(DuplexEvent::Aborted), (DuplexAction::Nothing, 0));
}

#[test]
fn a_client_is_turned_away() {
    let go = |mut d: Duplex, e| end(d.step(e).0);
    assert_eq!(go(Duplex::Waiting, DuplexEvent::Dropped), (true, None, Shutdown::Client));
    let late = (true, Some(Farewell::ServerTimedOut), Shutdown::Client);
    assert_eq!(go(Duplex::Waiting, DuplexEvent::TimedOut), late);
    let unaddressed = (false, Some(Farewell::AddrFailed), Shutdown::Neither);
    assert_eq!(go(Duplex::Addressing, DuplexEvent::AddrFailed), unaddressed);
    let unopened = (false, Some(Farewell::OpeningFailed), Shutdown::Neither);
    assert_eq!(go(Duplex::Opening, DuplexEvent::OpeningFailed), unopened);
    let both = |side| (false, None, Shutdown::Both(side));
    assert_eq!(go(Duplex::Relaying, DuplexEvent::Aborted), both(Side::Client));
    for side in [Side::Client, Side::Server] {
        assert_eq!(go(Duplex::Relaying, DuplexEvent::ReceiveFailed(side)), both(side));
        assert_eq!(go(Duplex::Forwarding(side), DuplexEvent::ForwardFailed), both(side));
    }
    assert_eq!(Farewell::ServerTimedOut.message(), "Timed out: Server failed to accept connection");
    assert_eq!(Farewell::AddrFailed.message(), "Failed to send socketaddr to server");
    assert_eq!(Farewell::OpeningFailed.message(), "Failed to send init packet to server");
    assert_eq!(Farewell::RateLimited.message(), "You have been rate limited");
}

#[test]
fn clients_are_logged() {
    assert_eq!(connected_message(addr(), "[s]"), "Client 1.2.3.4:5 connected to [s]");
    assert_eq!(disconnected_message(addr(), "[s]"), "Client 1.2.3.4:5 disconnected from [s]");
}

#[test]
fn the_use_of_the_network_is_limited() {
    assert!(!quota_exceeded(1 << 20, 1));
    assert!(quota_exceeded((1 << 20) + 1, 1));
    assert!(!quota_exceeded(u64::MAX, u64::MAX));
    assert!(!quota_exceeded(u64::MAX, 1 << 44));
    assert!(quota_exceeded(1, 0));
    let mut check = 50;
    assert!(matches!(check_usage(0, 9, &mut check, 50), Usage::Fine));
    match check_usage(3 << 20, 9, &mut check, 51) {
        Usage::Report(s) => assert_eq!(s, "Network usage: 3MiB/9MiB used/max"),
        other => panic!("{other:?}"),
    }
    assert_eq!(check, 51 + USAGE_INTERVAL);
    match check_usage((9 << 20) + 1, 9, &mut check, 60) {
        Usage::Stop(s) => assert_eq!(s, "MAX NETWORK QUOTA EXCEEDED! 9MiB > 9MiB"),
        other => panic!("{other:?}"),
    }
}

#[test]
fn a_server_enters() {
    let mut e = Entry::Arriving;
    assert!(matches!(e.step(EntryEvent::Limited(false)), (EntryAction::ReadHello, 0)));
    let hello = EntryEvent::Hello(Some("d.e".to_string()));
    assert!(matches!(e.step(hello), (EntryAction::Assign(Some(d)), 0) if d == "d.e"));
    let assigned = EntryEvent::Assigned(Some("x.e".to_string()));
    assert!(matches!(e.step(assigned), (EntryAction::SendDomain(d), 0) if d == "x.e"));
    assert!(matches!(e.step(EntryEvent::Limited(true)), (EntryAction::Nothing, 0)));
    assert!(matches!(e.step(EntryEvent::Answered(12)), (EntryAction::Serve(d), 12) if d == "x.e"));
    assert!(matches!(e.step(EntryEvent::NoHello), (EntryAction::Nothing, 0)));
}

#[test]
fn a_server_is_turned_away() {
    let mut e = Entry::Arriving;
    assert!(matches!(e.step(EntryEvent::Limited(true)), (EntryAction::Shutdown, 0)));
    assert!(matches!(e, Entry::Over));
    assert!(matches!(Entry::Greeting.step(EntryEvent::NoHello), (EntryAction::Drop, 0)));
    assert!(matches!(Entry::Assigning.step(EntryEvent::Assigned(None)), (EntryAction::Drop, 0)));
    let mut e = Entry::Answering("d".to_string());
    assert!(matches!(e.step(EntryEvent::AnswerFailed), (EntryAction::Drop, 0)));
}
