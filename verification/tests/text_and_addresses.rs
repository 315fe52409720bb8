//! Text, addresses, and the servers on the local network.

use mineshare::client_impls::lan::{is_in_order, read_announcement, Announcement, FoundServers};
use mineshare::client_impls::types::ServerInfo;
use mineshare::net::{IpAddr, SocketAddr};
use mineshare::text;
use mineshare::text::{bytes_eq, concat3, decimal, parse_u16, text_ends_with, text_eq};

#[test]
fn numbers_are_written_in_decimal() {
    for n in [0, 7, 10, 99, 100, 25565, u64::MAX] {
        assert_eq!(decimal(n), n.to_string());
    }
}

#[test]
fn written_ports_are_read_back() {
    for port in [0u16, 9, 10, 80, 25565, u16::MAX] {
        assert_eq!(parse_u16(&decimal(port as u64)), Some(port));
    }
}

#[test]
fn ports_are_parsed() {
    assert_eq!(parse_u16("25564"), Some(25564));
    assert_eq!(parse_u16("0"), Some(0));
    assert_eq!(parse_u16("+80"), Some(80));
    assert_eq!(parse_u16("0000080"), Some(80));
    assert_eq!(parse_u16("65535"), Some(65535));
    for s in ["", "+", "-1", "65536", "99999999999999999999", "12a", " 1", "1 ", "++1", "\u{0661}"] {
        assert_eq!(parse_u16(s), None);
        assert_eq!(s.parse::<u16>().ok(), None);
    }
}

#[test]
fn texts_are_compared_and_joined() {
    assert_eq!(text::concat("a", "b"), "ab");
    assert_eq!(concat3("a", "", "c"), "ac");
    assert!(text_eq("x", "x"));
    assert!(!text_eq("x", "xy"));
    assert!(bytes_eq(&[1, 2], &[1, 2]));
    assert!(!bytes_eq(&[1, 2], &[1, 3]));
    assert!(text_ends_with("a.b.dev", "b.dev"));
    assert!(text_ends_with("dev", "dev"));
    assert!(text_ends_with("dev", ""));
    assert!(!text_ends_with("ev", "dev"));
    assert!(!text_ends_with("a.b.com", "b.dev"));
}

#[test]
fn addresses_of_the_fourth_version_are_written() {
    assert_eq!(IpAddr::V4(0).to_text(), "0.0.0.0");
    assert_eq!(IpAddr::V4(0x7f000001).to_text(), "127.0.0.1");
    assert_eq!(IpAddr::V4(0xffff0a64).to_text(), "255.255.10.100");
    let addr = SocketAddr { ip: IpAddr::V4(0xc0a8013c), port: 5930 };
    assert_eq!(addr.to_text(), "192.168.1.60:5930");
}

#[test]
fn addresses_of_the_sixth_version_are_written() {
    let cases: [(u128, &str); 9] = [
        (0, "::"),
        (1, "::1"),
        (1 << 112, "1::"),
        (0xfe80_0000_0000_0000_0000_0000_0000_0001, "fe80::1"),
        (0x2001_0db8_0000_0000_0001_0000_0000_0001, "2001:db8::1:0:0:1"),
        (0x2001_0db8_0000_0001_0001_0001_0001_0001, "2001:db8:0:1:1:1:1:1"),
        (0x0001_0000_0000_0002_0000_0000_0000_0003, "1:0:0:2::3"),
        (0x0000_0000_0000_0000_0000_ffff_0102_0304, "::ffff:1.2.3.4"),
        (u128::MAX, "ffff:ffff:ffff:ffff:ffff:ffff:ffff:ffff"),
    ];
    for (v, text) in cases {
        assert_eq!(IpAddr::V6(v).to_text(), text);
        let addr = SocketAddr { ip: IpAddr::V6(v), port: 80 };
        assert_eq!(addr.to_text(), format!("[{text}]:80"));
    }
}

fn host() -> IpAddr {
    IpAddr::V4(0xc0a80002)
}

fn found(s: &str) -> ServerInfo {
    assert!(is_in_order(s.as_bytes()));
    match read_announcement(s.as_bytes(), host()) {
        Announcement::Found(info) => info,
        other => panic!("{other:?}"),
    }
}

#[test]
fn announcements_are_read() {
    let info = found("[MOTD]Steve - World[/MOTD][AD]54321[/AD]");
    assert_eq!(info.motd, "Steve - World");
    assert_eq!(info.ip, "192.168.0.2:54321");
    let info = found("[AD]1[/AD] x [MOTD]\u{00e9}\u{4e16}[/MOTD]");
    assert_eq!(info.motd, "\u{00e9}\u{4e16}");
    assert_eq!(info.ip, "192.168.0.2:1");
    let info = found("[MOTD][1.21] [/ [MOTD] [/MOTD[/MOTD][AD]54321[/AD]");
    assert_eq!(info.motd, "[1.21] [/ [MOTD] [/MOTD");
    let info = found("[MOTD][/MOTD][AD]not a port[/AD]");
    assert_eq!(info.motd, "");
    assert_eq!(info.ip, "192.168.0.2:25565");
    let info = found("[MOTD]a[/MOTD][AD]1[/AD][MOTD]b[/MOTD][AD]2[/AD]");
    assert_eq!((info.motd.as_str(), info.ip.as_str()), ("a", "192.168.0.2:1"));
}

#[test]
fn announcements_without_a_mark_end_the_search() {
    for s in ["", "[MOTD]a[AD]1[/AD]", "a[/MOTD][AD]1[/AD]", "[MOTD]a[/MOTD]1[/AD]", "[MOTD]a[/MOTD][AD]1"] {
        assert!(is_in_order(s.as_bytes()));
        assert!(matches!(read_announcement(s.as_bytes(), host()), Announcement::Broken));
    }
}

#[test]
fn announcements_that_are_no_text_are_passed_over() {
    let bytes = [0xff, 0xfe];
    assert!(is_in_order(&bytes));
    assert!(matches!(read_announcement(&bytes, host()), Announcement::Skipped));
}

#[test]
fn marks_can_be_out_of_order() {
    assert!(!is_in_order(b"[/MOTD][MOTD][AD]1[/AD]"));
    assert!(!is_in_order(b"[MOTD]a[/MOTD][/AD][AD]"));
    assert!(is_in_order(b"[MOTD][/MOTD][AD][/AD]"));
}

#[test]
fn servers_are_found_once() {
    let mut seen = FoundServers::new();
    let info = || ServerInfo { motd: "m".to_string(), ip: "1:2".to_string() };
    let other = ServerInfo { motd: "m".to_string(), ip: "1:3".to_string() };
    assert!(!seen.contains(&info()));
    seen.insert(info());
    assert!(seen.contains(&info()));
    assert!(!seen.contains(&other));
    seen.insert(other);
    assert!(seen.contains(&ServerInfo { motd: "m".to_string(), ip: "1:3".to_string() }));
    assert!(!seen.contains(&ServerInfo { motd: "n".to_string(), ip: "1:2".to_string() }));
}
