//! The wire formats: varints, frames and packets.

use mineshare::codec::{missing, number16, octets16, octets4, read_frame, StreamHelper};
use mineshare::disconnect::DisconnectMessage;
use mineshare::error::SharedError;
use mineshare::message::{Addr, InitResponse, Message, ServerHello, HELLO_STRING, PROTOCOL_VERSION};
use mineshare::net::{IpAddr, SocketAddr};
use mineshare::packet::try_parse_init_packet;
use mineshare::reader::ByteReader;
use mineshare::varint::{decode_varint, encode_varint};

fn reader(bytes: &[u8]) -> ByteReader {
    ByteReader::new(bytes.to_vec())
}

#[test]
fn varints_are_encoded() {
    let cases: [(u64, &[u8]); 6] = [
        (0, &[0]),
        (127, &[0x7f]),
        (128, &[0x80, 0x01]),
        (300, &[0xac, 0x02]),
        (25565, &[0xdd, 0xc7, 0x01]),
        (u64::MAX, &[0xff, 0xff, 0xff, 0xff, 0xff, 0xff, 0xff, 0xff, 0xff, 0x01]),
    ];
    for (value, bytes) in cases {
        let (buf, len) = encode_varint(value);
        assert_eq!(&buf[..len], bytes);
        assert!(buf[len..].iter().all(|&b| b == 0));
    }
}

#[test]
fn varints_are_decoded_as_they_were_encoded() {
    for value in [0, 1, 127, 128, 255, 16383, 16384, 1 << 35, u64::MAX - 1, u64::MAX] {
        let (buf, len) = encode_varint(value);
        let mut bytes = buf[..len].to_vec();
        bytes.push(9);
        let mut r = ByteReader::new(bytes);
        let mut kept = vec![7];
        assert_eq!(decode_varint(&mut r, &mut kept).unwrap(), (value, len));
        assert_eq!(r.remaining(), 1);
        assert_eq!(kept[0], 7);
        assert_eq!(&kept[1..], &buf[..len]);
    }
}

#[test]
fn varints_that_do_not_end_are_refused() {
    let mut r = reader(&[0x80; 11]);
    let mut kept = Vec::new();
    assert!(matches!(decode_varint(&mut r, &mut kept), Err(SharedError::VarIntDecode)));
    assert_eq!(kept, vec![0x80; 10]);
    assert_eq!(r.remaining(), 1);
    let mut r = reader(&[0x80, 0x80]);
    let mut kept = Vec::new();
    assert!(matches!(decode_varint(&mut r, &mut kept), Err(SharedError::Read(_))));
    assert_eq!(kept, vec![0x80, 0x80]);
}

fn framed(body: &[u8]) -> Vec<u8> {
    let mut v = (body.len() as u32).to_be_bytes().to_vec();
    v.extend_from_slice(body);
    v
}

#[test]
fn a_hello_is_framed_and_read_back() {
    let mut out = vec![1];
    let mut buf = [0u8; 64];
    let n = ServerHello::new(Some("a.b")).encode(&mut out, &mut buf).unwrap();
    let mut body = vec![9];
    body.extend_from_slice(b"mineshare");
    body.extend_from_slice(&[1, 3]);
    body.extend_from_slice(b"a.b");
    assert_eq!(n, body.len() + 4);
    assert_eq!(out[0], 1);
    assert_eq!(&out[1..], framed(&body));
    let mut r = reader(&out[1..]);
    let mut buf = [0u8; 64];
    let hello = ServerHello::decode(&mut r, &mut buf).unwrap();
    assert_eq!(hello.hello_string, HELLO_STRING);
    assert_eq!(hello.requested_domain, Some("a.b"));
    assert_eq!(r.remaining(), 0);
}

#[test]
fn a_hello_without_a_domain_is_read_back() {
    let mut out = Vec::new();
    let mut buf = [0u8; 64];
    ServerHello::new(None).encode(&mut out, &mut buf).unwrap();
    let mut body = vec![9];
    body.extend_from_slice(b"mineshare");
    body.push(0);
    assert_eq!(out, framed(&body));
    out.push(77);
    let mut r = ByteReader::new(out);
    let mut buf = [0u8; 64];
    let hello = ServerHello::decode(&mut r, &mut buf).unwrap();
    assert_eq!(hello.requested_domain, None);
    assert_eq!(r.remaining(), 1);
}

#[test]
fn a_domain_is_framed_and_read_back() {
    let mut out = Vec::new();
    let mut buf = [0u8; 64];
    let response = InitResponse::new("x.y".to_string(), 300);
    response.encode(&mut out, &mut buf).unwrap();
    assert_eq!(out, framed(&[3, b'x', b'.', b'y', 0xac, 0x02]));
    let mut r = ByteReader::new(out);
    let mut buf = [0u8; 64];
    let read = InitResponse::decode(&mut r, &mut buf).unwrap();
    assert_eq!(read.domain, "x.y");
    assert_eq!(read.protocol_version, 300);
    assert_eq!(PROTOCOL_VERSION, 4);
}

#[test]
fn messages_are_framed_and_read_back() {
    let mut out = Vec::new();
    let mut buf = [0u8; 64];
    let mut data = [0u8; 32];
    for (i, b) in data.iter_mut().enumerate() {
        *b = i as u8;
    }
    Message::HeartBeat(data).encode(&mut out, &mut buf).unwrap();
    let mut body = vec![0];
    body.extend_from_slice(&data);
    assert_eq!(out, framed(&body));
    Message::NewClient(300).encode(&mut out, &mut buf).unwrap();
    assert_eq!(&out[37..], framed(&[1, 0xac, 0x02]));
    Message::NewClient(u128::MAX).encode(&mut out, &mut buf).unwrap();
    let mut r = ByteReader::new(out);
    let mut buf = [0u8; 64];
    assert!(matches!(Message::decode(&mut r, &mut buf).unwrap(), Message::HeartBeat(d) if d == data));
    let mut buf = [0u8; 64];
    assert!(matches!(Message::decode(&mut r, &mut buf).unwrap(), Message::NewClient(300)));
    let mut buf = [0u8; 64];
    assert!(matches!(Message::decode(&mut r, &mut buf).unwrap(), Message::NewClient(u128::MAX)));
    assert_eq!(r.remaining(), 0);
}

#[test]
fn addresses_are_framed_and_read_back() {
    let v4 = SocketAddr { ip: IpAddr::V4(0x7f000001), port: 25565 };
    let v6 = SocketAddr { ip: IpAddr::V6(1), port: 80 };
    let mut out = Vec::new();
    let mut buf = [0u8; 64];
    Addr { addr: v4, username: Some("jo".to_string()) }.encode(&mut out, &mut buf).unwrap();
    assert_eq!(out, framed(&[0, 127, 0, 0, 1, 0xdd, 0xc7, 0x01, 1, 2, b'j', b'o']));
    let first = out.len();
    Addr { addr: v6, username: None }.encode(&mut out, &mut buf).unwrap();
    let mut body = vec![1];
    body.extend_from_slice(&[0; 15]);
    body.extend_from_slice(&[1, 80, 0]);
    assert_eq!(&out[first..], framed(&body));
    let mut r = ByteReader::new(out);
    let mut buf = [0u8; 64];
    let read = Addr::decode(&mut r, &mut buf).unwrap();
    assert_eq!(read.addr, v4);
    assert_eq!(read.username.as_deref(), Some("jo"));
    let mut buf = [0u8; 64];
    let read = Addr::decode(&mut r, &mut buf).unwrap();
    assert_eq!(read.addr, v6);
    assert_eq!(read.username, None);
}

#[test]
fn messages_that_do_not_fit_are_refused() {
    let mut out = vec![5];
    let mut buf = [0u8; 8];
    let r = ServerHello::new(None).encode(&mut out, &mut buf);
    assert!(matches!(r, Err(SharedError::DataSerialize(_))));
    assert_eq!(out, vec![5]);
}

#[test]
fn frames_that_cannot_be_read_are_refused() {
    let mut buf = [0u8; 4];
    let mut r = reader(&[0, 0, 0]);
    assert!(matches!(Message::decode(&mut r, &mut buf), Err(SharedError::Read(_))));
    let mut buf = [9u8, 8, 7, 6];
    let mut r = reader(&[0, 0, 0, 5, 1, 2, 3, 4, 5]);
    assert!(matches!(Message::decode(&mut r, &mut buf), Err(SharedError::BufSize)));
    assert_eq!(r.remaining(), 5);
    assert_eq!(buf, [9, 8, 7, 6]);
    let mut buf = [0u8; 4];
    let mut r = reader(&[0, 0, 0, 3, 1, 2]);
    assert!(matches!(Message::decode(&mut r, &mut buf), Err(SharedError::Read(_))));
    let mut buf = [0u8; 4];
    let mut r = reader(&[0, 0, 0, 2, 9, 9]);
    assert!(matches!(Message::decode(&mut r, &mut buf), Err(SharedError::DataDeserialize(_))));
}

#[test]
fn the_missing_bytes_of_a_frame_are_counted() {
    assert_eq!(missing(&[], 16), 4);
    assert_eq!(missing(&[0, 0], 16), 2);
    assert_eq!(missing(&[0, 0, 0, 3], 16), 3);
    assert_eq!(missing(&[0, 0, 0, 3, 1], 16), 2);
    assert_eq!(missing(&[0, 0, 0, 3, 1, 2, 3], 16), 0);
    assert_eq!(missing(&[0, 0, 0, 17], 16), 0);
    let mut buf = [9u8; 16];
    let mut r = reader(&[0, 0, 0, 2, 4, 5, 6]);
    assert_eq!(read_frame(&mut r, &mut buf).unwrap(), 2);
    assert_eq!(&buf[..3], &[4, 5, 9]);
    assert_eq!(r.remaining(), 1);
}

#[test]
fn numbers_are_read_as_they_were_written() {
    assert_eq!(octets4(0x01020304), [1, 2, 3, 4]);
    for id in [0u128, 1, 255, 256, u128::MAX, 0x0102030405060708090a0b0c0d0e0f10] {
        assert_eq!(octets16(id), id.to_be_bytes());
        assert_eq!(number16(&octets16(id)), id);
    }
}

fn string(s: &str) -> Vec<u8> {
    let mut v = vec![s.len() as u8];
    v.extend_from_slice(s.as_bytes());
    v
}

fn handshake(host: &str, intent: u8) -> Vec<u8> {
    let mut fields = vec![0, 0xff, 0x05];
    let (buf, len) = encode_varint(host.len() as u64);
    fields.extend_from_slice(&buf[..len]);
    fields.extend_from_slice(host.as_bytes());
    fields.extend_from_slice(&[0x63, 0xdd, intent]);
    let (buf, len) = encode_varint(fields.len() as u64);
    let mut v = buf[..len].to_vec();
    v.extend_from_slice(&fields);
    v
}

fn parse(bytes: &[u8]) -> (Result<(String, Option<String>), SharedError>, Vec<u8>) {
    let mut r = reader(bytes);
    let mut data = Vec::new();
    let res = try_parse_init_packet(&mut r, &mut data);
    (res, data)
}

#[test]
fn a_request_for_the_status_is_understood() {
    let mut bytes = handshake("test.mineshare.dev", 1);
    bytes.extend_from_slice(&[1, 0]);
    let (res, data) = parse(&bytes);
    assert_eq!(res.unwrap(), ("test.mineshare.dev".to_string(), None));
    assert_eq!(data, bytes);
}

#[test]
fn a_login_is_understood() {
    for intent in [2, 3] {
        let mut bytes = handshake("a-b-c.mineshare.dev", intent);
        bytes.extend_from_slice(&[30, 0]);
        bytes.extend_from_slice(&string("Herobrine"));
        bytes.extend_from_slice(&[1, 2, 3]);
        let (res, data) = parse(&bytes);
        let want = ("a-b-c.mineshare.dev".to_string(), Some("Herobrine".to_string()));
        assert_eq!(res.unwrap(), want);
        assert_eq!(data, bytes);
    }
}

fn refusal(bytes: &[u8]) -> String {
    match parse(bytes).0 {
        Err(SharedError::InvalidPacket(msg)) => msg,
        other => panic!("{other:?}"),
    }
}

#[test]
fn packets_of_another_form_are_refused() {
    let mut bytes = handshake("h", 1);
    bytes[1] = 1;
    assert_eq!(refusal(&bytes), "Client sent invalid protocol ID (Handshake)");
    let mut bytes = handshake("h", 1);
    bytes[0] += 1;
    assert_eq!(refusal(&bytes), "Received packet size different from packet size in header");
    assert_eq!(refusal(&handshake("h", 4)), "Invalid intent");
    let mut bytes = handshake("h", 2);
    bytes.extend_from_slice(&[30, 1]);
    assert_eq!(refusal(&bytes), "Client sent invalid protocol ID (Login)");
    assert_eq!(refusal(&handshake(&"h".repeat(256), 1)), "Length of string larger than max");
    let mut bytes = handshake("h", 2);
    bytes.extend_from_slice(&[30, 0, 17]);
    assert_eq!(refusal(&bytes), "Length of string larger than max");
    let mut bytes = handshake("h", 1);
    let at = bytes.iter().position(|&b| b == b'h').unwrap();
    bytes[at] = 0xff;
    assert_eq!(refusal(&bytes), "Expected String, but found non-utf8");
}

#[test]
fn a_packet_that_is_cut_off_lacks_bytes() {
    let mut bytes = handshake("h", 2);
    bytes.extend_from_slice(&[30, 0]);
    bytes.extend_from_slice(&string("Steve"));
    for n in 0..bytes.len() {
        assert!(matches!(parse(&bytes[..n]).0, Err(SharedError::Read(_))));
    }
    assert!(parse(&bytes).0.is_ok());
}

#[test]
fn a_client_is_turned_away_in_a_packet() {
    let mut out = vec![1];
    DisconnectMessage("no").encode(&mut out);
    let json = br#"{"text":"no"}"#;
    let mut want = vec![1, json.len() as u8 + 2, 0, json.len() as u8];
    want.extend_from_slice(json);
    assert_eq!(out, want);
    let long = "x".repeat(200);
    let mut out = Vec::new();
    DisconnectMessage(&long).encode(&mut out);
    assert_eq!(&out[..5], &[0xd6, 0x01, 0, 0xd3, 0x01]);
    assert_eq!(out.len(), 2 + 0xd6);
}
