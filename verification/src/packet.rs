//! The packets with which a Minecraft client opens a connection.
//!
//! The proxy reads the handshake, and the login that may follow it, to learn
//! which server the client asks for. Every byte that it reads is kept, because
//! the server has to get the same bytes.

use crate::error::{invalid_packet, ErrorView, SharedError};
use crate::reader;
use crate::reader::ByteReader;
use crate::text;
use crate::varint;
use vstd::prelude::*;
use vstd::utf8;

verus! {

/// A stream, and the buffer that keeps what was read of it.
pub struct Tap {
    /// What is left to read.
    pub rest: Seq<u8>,
    /// What the buffer holds.
    pub kept: Seq<u8>,
}

/// What reading an opening packet gives: the host name that was asked for, and
/// the name of the player where there is a login.
pub struct Opening {
    pub hostname: Seq<char>,
    pub username: Option<Seq<char>>,
}

/// The fields of a handshake that matter to the proxy.
pub struct Handshake {
    pub hostname: Seq<char>,
    pub intent: u64,
}

/// Reads a varint, and keeps its bytes.
pub open spec fn varint_step(t: Tap) -> (Result<(u64, nat), ErrorView>, Tap) {
    let n = varint::varint_used(t.rest) as int;
    (varint::varint_read(t.rest), Tap { rest: t.rest.skip(n), kept: t.kept + t.rest.take(n) })
}

/// Reads a string: a varint with its length in bytes, which is at most `max`,
/// and then its bytes. Beside it stands how long both are together.
pub open spec fn string_step(t: Tap, max: nat) -> (Result<(Seq<char>, nat), ErrorView>, Tap) {
    let (r, t1) = varint_step(t);
    match r {
        Err(e) => (Err(e), t1),
        Ok((wide, n)) => {
            let len = wide as usize;
            if len > max {
                (Err(ErrorView::InvalidPacket("Length of string larger than max"@)), t1)
            } else if len > t1.rest.len() {
                (
                    Err(ErrorView::Read),
                    Tap {
                        rest: Seq::<u8>::empty(),
                        kept: t1.kept + reader::short_read(t1.rest, len as nat),
                    },
                )
            } else {
                let body = t1.rest.take(len as int);
                let t2 = Tap { rest: t1.rest.skip(len as int), kept: t1.kept + body };
                if utf8::valid_utf8(body) {
                    (Ok((utf8::decode_utf8(body), len as nat + n)), t2)
                } else {
                    (Err(ErrorView::InvalidPacket("Expected String, but found non-utf8"@)), t2)
                }
            }
        },
    }
}

/// Reads a port, and keeps its two bytes.
pub open spec fn port_step(t: Tap) -> (Result<(), ErrorView>, Tap) {
    if t.rest.len() < 2 {
        (Err(ErrorView::Read), Tap { rest: Seq::<u8>::empty(), kept: t.kept })
    } else {
        (Ok(()), Tap { rest: t.rest.skip(2), kept: t.kept + t.rest.take(2) })
    }
}

/// Reads a handshake: its length, the packet id 0, the protocol version, the
/// host name, the port and the intent. The length has to be that of all the
/// fields behind it.
pub open spec fn handshake_step(t: Tap) -> (Result<Handshake, ErrorView>, Tap) {
    let (len, t1) = varint_step(t);
    if let Err(e) = len {
        (Err(e), t1)
    } else {
        let (id, t2) = varint_step(t1);
        if let Err(e) = id {
            (Err(e), t2)
        } else if id->Ok_0.0 != 0 {
            (Err(ErrorView::InvalidPacket("Client sent invalid protocol ID (Handshake)"@)), t2)
        } else {
            let (version, t3) = varint_step(t2);
            if let Err(e) = version {
                (Err(e), t3)
            } else {
                let (host, t4) = string_step(t3, 255);
                if let Err(e) = host {
                    (Err(e), t4)
                } else {
                    let (port, t5) = port_step(t4);
                    if let Err(e) = port {
                        (Err(e), t5)
                    } else {
                        let (intent, t6) = varint_step(t5);
                        if let Err(e) = intent {
                            (Err(e), t6)
                        } else if len->Ok_0.0 as usize != id->Ok_0.1 + version->Ok_0.1
                            + host->Ok_0.1 + 2 + intent->Ok_0.1 {
                            (
                                Err(
                                    ErrorView::InvalidPacket(
                                        "Received packet size different from packet size in header"@,
                                    ),
                                ),
                                t6,
                            )
                        } else {
                            (
                                Ok(
                                    Handshake {
                                        hostname: host->Ok_0.0,
                                        intent: intent->Ok_0.0,
                                    },
                                ),
                                t6,
                            )
                        }
                    }
                }
            }
        }
    }
}

/// Reads the front of a login: its length, the packet id 0 and the name of the
/// player. What follows the name differs between the versions of the game, so
/// the length goes unchecked.
pub open spec fn login_step(t: Tap) -> (Result<Seq<char>, ErrorView>, Tap) {
    let (len, t1) = varint_step(t);
    if let Err(e) = len {
        (Err(e), t1)
    } else {
        let (id, t2) = varint_step(t1);
        if let Err(e) = id {
            (Err(e), t2)
        } else if id->Ok_0.0 != 0 {
            (Err(ErrorView::InvalidPacket("Client sent invalid protocol ID (Login)"@)), t2)
        } else {
            let (name, t3) = string_step(t2, 16);
            match name {
                Err(e) => (Err(e), t3),
                Ok((s, _)) => (Ok(s), t3),
            }
        }
    }
}

/// Reads the opening of a connection: a handshake, and a login where the
/// intent is to log in (2) or to transfer (3). An intent to ask for the status
/// (1) comes without one. At the end, what has been received beyond these
/// packets is kept too.
pub open spec fn opening_step(t: Tap) -> (Result<Opening, ErrorView>, Tap) {
    let (shake, t1) = handshake_step(t);
    match shake {
        Err(e) => (Err(e), t1),
        Ok(h) => if h.intent == 1 {
            (Ok(Opening { hostname: h.hostname, username: None }), drain(t1))
        } else if h.intent == 2 || h.intent == 3 {
            let (name, t2) = login_step(t1);
            match name {
                Err(e) => (Err(e), t2),
                Ok(s) => (Ok(Opening { hostname: h.hostname, username: Some(s) }), drain(t2)),
            }
        } else {
            (Err(ErrorView::InvalidPacket("Invalid intent"@)), t1)
        },
    }
}

/// Keeps all that is left.
pub open spec fn drain(t: Tap) -> Tap {
    Tap { rest: Seq::<u8>::empty(), kept: t.kept + t.rest }
}

/// A string of a packet, of at most `N` bytes.
#[derive(Debug)]
pub struct MCString<const N: usize>(pub String);

impl<const N: usize> MCString<N> {
    /// Reads a string, and keeps its bytes in `data`. Beside the string stands
    /// how long it is with its length in front.
    pub fn decode(reader: &mut ByteReader, data: &mut Vec<u8>) -> (r: Result<
        (Self, usize),
        SharedError,
    >)
        requires
            N <= usize::MAX - 10,
        ensures
            ({
                let (want, t) = string_step(
                    Tap { rest: old(reader)@, kept: old(data)@ },
                    N as nat,
                );
                &&& final(reader)@ == t.rest
                &&& final(data)@ == t.kept
                &&& match r {
                    Ok((s, n)) => want == Ok::<(Seq<char>, nat), ErrorView>((s.0@, n as nat)),
                    Err(e) => want == Err::<(Seq<char>, nat), ErrorView>(e@),
                }
            }),
    {
        let (wide, len_len) = match varint::decode_varint(reader, data) {
            Ok(v) => v,
            Err(e) => return Err(e),
        };
        let len: usize = wide as usize;
        if len > N {
            return Err(invalid_packet("Length of string larger than max"));
        }
        let start: usize = data.len();
        let ghost before = data@;
        let ghost left = reader@;
        if let Err(e) = reader.read_exact(len, data) {
            return Err(e);
        }
        let body = vstd::slice::slice_subrange(data.as_slice(), start, data.len());
        assert(body@ =~= left.take(len as int));
        match text::utf8_text(body) {
            Some(s) => Ok((MCString(s.to_owned()), len + len_len)),
            None => Err(invalid_packet("Expected String, but found non-utf8")),
        }
    }
}

/// Reads a handshake.
fn read_handshake(stream: &mut ByteReader, data: &mut Vec<u8>) -> (r: Result<
    (String, u64),
    SharedError,
>)
    ensures
        ({
            let (want, t) = handshake_step(Tap { rest: old(stream)@, kept: old(data)@ });
            &&& final(stream)@ == t.rest
            &&& final(data)@ == t.kept
            &&& match r {
                Ok((hostname, intent)) => want == Ok::<Handshake, ErrorView>(
                    Handshake { hostname: hostname@, intent },
                ),
                Err(e) => want == Err::<Handshake, ErrorView>(e@),
            }
        }),
{
    let (pkt_len, _) = match varint::decode_varint(stream, data) {
        Ok(v) => v,
        Err(e) => return Err(e),
    };
    let (pkt_id, pkt_id_len) = match varint::decode_varint(stream, data) {
        Ok(v) => v,
        Err(e) => return Err(e),
    };
    if pkt_id != 0 {
        return Err(invalid_packet("Client sent invalid protocol ID (Handshake)"));
    }
    let (_, version_len) = match varint::decode_varint(stream, data) {
        Ok(v) => v,
        Err(e) => return Err(e),
    };
    let (hostname, hostname_len) = match MCString::<255>::decode(stream, data) {
        Ok(v) => v,
        Err(e) => return Err(e),
    };
    let ghost at_port = stream@;
    let ghost before = data@;
    let port = match stream.read_u16() {
        Ok(p) => p,
        Err(e) => return Err(e),
    };
    write_u16(data, port);
    proof {
        lemma_u16_bytes(at_port.take(2), port);
        assert(data@ =~= before + at_port.take(2));
    }
    let (intent, intent_len) = match varint::decode_varint(stream, data) {
        Ok(v) => v,
        Err(e) => return Err(e),
    };
    let total: usize = pkt_id_len + version_len + hostname_len + 2 + intent_len;
    if pkt_len as usize != total {
        return Err(
            invalid_packet("Received packet size different from packet size in header"),
        );
    }
    Ok((hostname.0, intent))
}

/// The two bytes of a number, the more significant first.
pub open spec fn u16_bytes(v: u16) -> Seq<u8> {
    seq![(v / 256) as u8, (v % 256) as u8]
}

/// Appends a number to a buffer, the more significant byte first.
fn write_u16(data: &mut Vec<u8>, v: u16)
    ensures
        final(data)@ == old(data)@ + u16_bytes(v),
{
    data.push((v / 256) as u8);
    data.push((v % 256) as u8);
    assert(data@ =~= old(data)@ + u16_bytes(v));
}

/// A number read from two bytes is written as the same two bytes.
proof fn lemma_u16_bytes(s: Seq<u8>, v: u16)
    requires
        s.len() == 2,
        v == reader::big_endian(s),
    ensures
        u16_bytes(v) == s,
{
    reveal_with_fuel(reader::big_endian, 3);
    assert(s.drop_last().drop_last() =~= Seq::<u8>::empty());
    assert(u16_bytes(v) =~= s);
}

/// Reads the front of a login.
fn read_login(stream: &mut ByteReader, data: &mut Vec<u8>) -> (r: Result<String, SharedError>)
    ensures
        ({
            let (want, t) = login_step(Tap { rest: old(stream)@, kept: old(data)@ });
            &&& final(stream)@ == t.rest
            &&& final(data)@ == t.kept
            &&& match r {
                Ok(name) => want == Ok::<Seq<char>, ErrorView>(name@),
                Err(e) => want == Err::<Seq<char>, ErrorView>(e@),
            }
        }),
{
    let _ = match varint::decode_varint(stream, data) {
        Ok(v) => v,
        Err(e) => return Err(e),
    };
    let (pkt_id, _) = match varint::decode_varint(stream, data) {
        Ok(v) => v,
        Err(e) => return Err(e),
    };
    if pkt_id != 0 {
        return Err(invalid_packet("Client sent invalid protocol ID (Login)"));
    }
    match MCString::<16>::decode(stream, data) {
        Ok((name, _)) => Ok(name.0),
        Err(e) => Err(e),
    }
}

/// Reads the opening of a connection from what a client has sent, and keeps
/// every byte in `data`. The result is the host name that was asked for, and
/// the name of the player where there is a login.
pub fn try_parse_init_packet(stream: &mut ByteReader, data: &mut Vec<u8>) -> (r: Result<
    (String, Option<String>),
    SharedError,
>)
    ensures
        ({
            let (want, t) = opening_step(Tap { rest: old(stream)@, kept: old(data)@ });
            &&& final(stream)@ == t.rest
            &&& final(data)@ == t.kept
            &&& match r {
                Ok((hostname, username)) => want == Ok::<Opening, ErrorView>(
                    Opening {
                        hostname: hostname@,
                        username: match username {
                            Some(s) => Some(s@),
                            None => None,
                        },
                    },
                ),
                Err(e) => want == Err::<Opening, ErrorView>(e@),
            }
        }),
{
    let (hostname, intent) = match read_handshake(stream, data) {
        Ok(v) => v,
        Err(e) => return Err(e),
    };
    let username = if intent == 1 {
        None
    } else if intent == 2 || intent == 3 {
        match read_login(stream, data) {
            Ok(name) => Some(name),
            Err(e) => return Err(e),
        }
    } else {
        return Err(invalid_packet("Invalid intent"));
    };
    stream.read_rest(data);
    Ok((hostname, username))
}

/// The same stream, with more behind what has been received.
pub open spec fn extended(t: Tap, more: Seq<u8>) -> Tap {
    Tap { rest: t.rest + more, kept: t.kept }
}

proof fn lemma_varint_step(t: Tap, more: Seq<u8>)
    ensures
        ({
            let (r, t1) = varint_step(t);
            &&& t1.kept + t1.rest == t.kept + t.rest
            &&& r != Err::<(u64, nat), ErrorView>(ErrorView::Read) ==> varint_step(
                extended(t, more),
            ) == (r, extended(t1, more))
        }),
{
    let (r, t1) = varint_step(t);
    let n = varint::varint_used(t.rest) as int;
    varint::law_varint_prefix(t.rest, more);
    assert(t1.kept + t1.rest =~= t.kept + t.rest);
    assert((t.rest + more).skip(n) =~= t.rest.skip(n) + more);
    assert((t.rest + more).take(n) =~= t.rest.take(n));
}

proof fn lemma_string_step(t: Tap, max: nat, more: Seq<u8>)
    ensures
        ({
            let (r, t1) = string_step(t, max);
            &&& r is Ok ==> t1.kept + t1.rest == t.kept + t.rest
            &&& r != Err::<(Seq<char>, nat), ErrorView>(ErrorView::Read) ==> string_step(
                extended(t, more),
                max,
            ) == (r, extended(t1, more))
        }),
{
    let (r, t1) = varint_step(t);
    lemma_varint_step(t, more);
    if let Ok((wide, n)) = r {
        let len = wide as usize as int;
        if len <= max && len <= t1.rest.len() {
            let body = t1.rest.take(len);
            assert((t1.kept + body) + t1.rest.skip(len) =~= t1.kept + t1.rest);
            assert((t1.rest + more).take(len) =~= body);
            assert((t1.rest + more).skip(len) =~= t1.rest.skip(len) + more);
        }
    }
}

proof fn lemma_port_step(t: Tap, more: Seq<u8>)
    ensures
        ({
            let (r, t1) = port_step(t);
            &&& r is Ok ==> t1.kept + t1.rest == t.kept + t.rest
            &&& r != Err::<(), ErrorView>(ErrorView::Read) ==> port_step(extended(t, more)) == (
                r,
                extended(t1, more),
            )
        }),
{
    if t.rest.len() >= 2 {
        assert((t.kept + t.rest.take(2)) + t.rest.skip(2) =~= t.kept + t.rest);
        assert((t.rest + more).take(2) =~= t.rest.take(2));
        assert((t.rest + more).skip(2) =~= t.rest.skip(2) + more);
    }
}

proof fn lemma_handshake_step(t: Tap, more: Seq<u8>)
    ensures
        ({
            let (r, t1) = handshake_step(t);
            &&& r is Ok ==> t1.kept + t1.rest == t.kept + t.rest
            &&& r != Err::<Handshake, ErrorView>(ErrorView::Read) ==> handshake_step(
                extended(t, more),
            ) == (r, extended(t1, more))
        }),
{
    let t1 = varint_step(t).1;
    let t2 = varint_step(t1).1;
    let t3 = varint_step(t2).1;
    let t4 = string_step(t3, 255).1;
    let t5 = port_step(t4).1;
    lemma_varint_step(t, more);
    lemma_varint_step(t1, more);
    lemma_varint_step(t2, more);
    lemma_string_step(t3, 255, more);
    lemma_port_step(t4, more);
    lemma_varint_step(t5, more);
}

proof fn lemma_login_step(t: Tap, more: Seq<u8>)
    ensures
        ({
            let (r, t1) = login_step(t);
            &&& r is Ok ==> t1.kept + t1.rest == t.kept + t.rest
            &&& r != Err::<Seq<char>, ErrorView>(ErrorView::Read) ==> login_step(
                extended(t, more),
            ) == (r, extended(t1, more))
        }),
{
    let t1 = varint_step(t).1;
    let t2 = varint_step(t1).1;
    lemma_varint_step(t, more);
    lemma_varint_step(t1, more);
    lemma_string_step(t2, 16, more);
}

/// What is kept of an opening that was read is what was kept before, and then
/// every byte that has been received: the server gets what the client sent.
pub proof fn law_opening_keeps_every_byte(t: Tap)
    ensures
        opening_step(t).0 is Ok ==> opening_step(t).1.kept == t.kept + t.rest,
{
    lemma_handshake_step(t, Seq::<u8>::empty());
    lemma_login_step(handshake_step(t).1, Seq::<u8>::empty());
}

/// An opening that is read, or refused for what it holds, is read or refused in
/// the same way once more has been received. Only one that runs into the end of
/// what has been received can change.
pub proof fn law_opening_prefix(t: Tap, more: Seq<u8>)
    ensures
        opening_step(t).0 != Err::<Opening, ErrorView>(ErrorView::Read) ==> opening_step(
            extended(t, more),
        ).0 == opening_step(t).0,
{
    lemma_handshake_step(t, more);
    lemma_login_step(handshake_step(t).1, more);
}

/// The bytes of a string in a packet.
pub open spec fn string_bytes(s: Seq<char>) -> Seq<u8> {
    varint::varint_bytes(utf8::encode_utf8(s).len()) + utf8::encode_utf8(s)
}

/// The fields of a handshake.
pub open spec fn handshake_fields(
    version: u64,
    hostname: Seq<char>,
    port: Seq<u8>,
    intent: u64,
) -> Seq<u8> {
    varint::varint_bytes(0) + varint::varint_bytes(version as nat) + string_bytes(hostname) + port
        + varint::varint_bytes(intent as nat)
}

/// A handshake, as a client sends it.
pub open spec fn handshake_bytes(
    version: u64,
    hostname: Seq<char>,
    port: Seq<u8>,
    intent: u64,
) -> Seq<u8> {
    let fields = handshake_fields(version, hostname, port, intent);
    varint::varint_bytes(fields.len()) + fields
}

/// The front of a login, as a client sends it.
pub open spec fn login_bytes(len: u64, username: Seq<char>) -> Seq<u8> {
    varint::varint_bytes(len as nat) + varint::varint_bytes(0) + string_bytes(username)
}

proof fn lemma_reads_varint(v: u64, after: Seq<u8>, kept: Seq<u8>)
    ensures
        varint_step(Tap { rest: varint::varint_bytes(v as nat) + after, kept }) == (
            Ok::<(u64, nat), ErrorView>((v, varint::varint_bytes(v as nat).len())),
            Tap { rest: after, kept: kept + varint::varint_bytes(v as nat) },
        ),
{
    let b = varint::varint_bytes(v as nat);
    varint::law_varint_round_trip(v, after);
    assert((b + after).skip(b.len() as int) =~= after);
    assert((b + after).take(b.len() as int) =~= b);
}

proof fn lemma_reads_string(s: Seq<char>, max: nat, after: Seq<u8>, kept: Seq<u8>)
    requires
        utf8::encode_utf8(s).len() <= max <= 0xffff,
    ensures
        string_step(Tap { rest: string_bytes(s) + after, kept }, max) == (
            Ok::<(Seq<char>, nat), ErrorView>((s, string_bytes(s).len())),
            Tap { rest: after, kept: kept + string_bytes(s) },
        ),
{
    let body = utf8::encode_utf8(s);
    let len = body.len() as u64;
    let b = varint::varint_bytes(len as nat);
    assert(string_bytes(s) + after =~= b + (body + after));
    lemma_reads_varint(len, body + after, kept);
    assert((body + after).take(len as int) =~= body);
    assert((body + after).skip(len as int) =~= after);
    utf8::encode_utf8_valid_utf8(s);
    utf8::encode_utf8_decode_utf8(s);
    assert((kept + b) + body =~= kept + string_bytes(s));
}

proof fn lemma_regroup(
    n: Seq<u8>,
    a: Seq<u8>,
    b: Seq<u8>,
    c: Seq<u8>,
    d: Seq<u8>,
    e: Seq<u8>,
    z: Seq<u8>,
)
    ensures
        (n + (a + b + c + d + e)) + z == n + (a + (b + (c + (d + (e + z))))),
        z + (n + (a + b + c + d + e)) == z + n + a + b + c + d + e,
{
    assert((n + (a + b + c + d + e)) + z =~= n + (a + (b + (c + (d + (e + z))))));
    assert(z + (n + (a + b + c + d + e)) =~= z + n + a + b + c + d + e);
}

proof fn lemma_regroup_login(a: Seq<u8>, b: Seq<u8>, c: Seq<u8>, z: Seq<u8>)
    ensures
        (a + b + c) + z == a + (b + (c + z)),
{
    assert((a + b + c) + z =~= a + (b + (c + z)));
}

proof fn lemma_reads_port(port: Seq<u8>, after: Seq<u8>, kept: Seq<u8>)
    requires
        port.len() == 2,
    ensures
        port_step(Tap { rest: port + after, kept }) == (
            Ok::<(), ErrorView>(()),
            Tap { rest: after, kept: kept + port },
        ),
{
    assert((port + after).take(2) =~= port);
    assert((port + after).skip(2) =~= after);
}

proof fn lemma_handshake_len(version: u64, hostname: Seq<char>, port: Seq<u8>, intent: u64)
    requires
        utf8::encode_utf8(hostname).len() <= 255,
        port.len() == 2,
    ensures
        handshake_fields(version, hostname, port, intent).len() == varint::varint_bytes(0).len()
            + varint::varint_bytes(version as nat).len() + string_bytes(hostname).len() + 2
            + varint::varint_bytes(intent as nat).len(),
        handshake_fields(version, hostname, port, intent).len() <= 300,
{
    varint::law_varint_length(0);
    varint::law_varint_length(version);
    varint::law_varint_length(utf8::encode_utf8(hostname).len() as u64);
    varint::law_varint_length(intent);
}

#[verifier::rlimit(60)]
#[verifier::spinoff_prover]
proof fn lemma_reads_handshake(
    version: u64,
    hostname: Seq<char>,
    port: Seq<u8>,
    intent: u64,
    after: Seq<u8>,
    kept: Seq<u8>,
)
    requires
        utf8::encode_utf8(hostname).len() <= 255,
        port.len() == 2,
    ensures
        handshake_step(
            Tap { rest: handshake_bytes(version, hostname, port, intent) + after, kept },
        ) == (
            Ok::<Handshake, ErrorView>(Handshake { hostname, intent }),
            Tap {
                rest: after,
                kept: kept + handshake_bytes(version, hostname, port, intent),
            },
        ),
{
    let fields = handshake_fields(version, hostname, port, intent);
    let b1 = varint::varint_bytes(0);
    let b2 = varint::varint_bytes(version as nat);
    let b3 = string_bytes(hostname);
    let b5 = varint::varint_bytes(intent as nat);
    lemma_handshake_len(version, hostname, port, intent);
    let len = fields.len() as u64;
    let b0 = varint::varint_bytes(len as nat);
    let r5 = b5 + after;
    let r4 = port + r5;
    let r3 = b3 + r4;
    let r2 = b2 + r3;
    let r1 = b1 + r2;
    lemma_regroup(b0, b1, b2, b3, port, b5, after);
    lemma_regroup(b0, b1, b2, b3, port, b5, kept);
    lemma_reads_varint(len, r1, kept);
    lemma_reads_varint(0, r2, kept + b0);
    lemma_reads_varint(version, r3, kept + b0 + b1);
    lemma_reads_string(hostname, 255, r4, kept + b0 + b1 + b2);
    lemma_reads_port(port, r5, kept + b0 + b1 + b2 + b3);
    lemma_reads_varint(intent, after, kept + b0 + b1 + b2 + b3 + port);
}

proof fn lemma_reads_login(len: u64, username: Seq<char>, after: Seq<u8>, kept: Seq<u8>)
    requires
        utf8::encode_utf8(username).len() <= 16,
    ensures
        login_step(Tap { rest: login_bytes(len, username) + after, kept }).0 == Ok::<
            Seq<char>,
            ErrorView,
        >(username),
        login_step(Tap { rest: login_bytes(len, username) + after, kept }).1.rest == after,
{
    let b0 = varint::varint_bytes(len as nat);
    let b1 = varint::varint_bytes(0);
    let b2 = string_bytes(username);
    lemma_regroup_login(b0, b1, b2, after);
    lemma_reads_varint(len, b1 + (b2 + after), kept);
    lemma_reads_varint(0, b2 + after, kept + b0);
    lemma_reads_string(username, 16, after, kept + b0 + b1);
}

/// A client that asks for the status of a server is understood: the host name
/// is the one that it sent, and there is no login.
pub proof fn law_status_is_understood(
    version: u64,
    hostname: Seq<char>,
    port: Seq<u8>,
    after: Seq<u8>,
    kept: Seq<u8>,
)
    requires
        utf8::encode_utf8(hostname).len() <= 255,
        port.len() == 2,
    ensures
        opening_step(
            Tap { rest: handshake_bytes(version, hostname, port, 1) + after, kept },
        ).0 == Ok::<Opening, ErrorView>(Opening { hostname, username: None }),
{
    lemma_reads_handshake(version, hostname, port, 1, after, kept);
}

/// A client that logs in or transfers is understood: the host name and the name
/// of the player are those that it sent, whatever follows the name.
pub proof fn law_login_is_understood(
    version: u64,
    hostname: Seq<char>,
    port: Seq<u8>,
    intent: u64,
    len: u64,
    username: Seq<char>,
    after: Seq<u8>,
    kept: Seq<u8>,
)
    requires
        utf8::encode_utf8(hostname).len() <= 255,
        port.len() == 2,
        intent == 2 || intent == 3,
        utf8::encode_utf8(username).len() <= 16,
    ensures
        opening_step(
            Tap {
                rest: handshake_bytes(version, hostname, port, intent) + (login_bytes(
                    len,
                    username,
                ) + after),
                kept,
            },
        ).0 == Ok::<Opening, ErrorView>(Opening { hostname, username: Some(username) }),
{
    let shake = handshake_bytes(version, hostname, port, intent);
    lemma_reads_handshake(version, hostname, port, intent, login_bytes(len, username) + after, kept);
    lemma_reads_login(len, username, after, kept + shake);
}

/// Of a login that is not complete, all that can be said is that more has to
/// come.
pub proof fn law_partial_login_is_incomplete(
    came: Seq<u8>,
    missing: Seq<u8>,
    version: u64,
    hostname: Seq<char>,
    port: Seq<u8>,
    intent: u64,
    len: u64,
    username: Seq<char>,
)
    requires
        utf8::encode_utf8(hostname).len() <= 255,
        port.len() == 2,
        intent == 2 || intent == 3,
        utf8::encode_utf8(username).len() <= 16,
        missing.len() > 0,
        came + missing == handshake_bytes(version, hostname, port, intent) + login_bytes(
            len,
            username,
        ),
    ensures
        opening_step(Tap { rest: came, kept: Seq::empty() }).0 == Err::<Opening, ErrorView>(
            ErrorView::Read,
        ),
        came.len() < 2048,
{
    let t = Tap { rest: came, kept: Seq::<u8>::empty() };
    let shake = handshake_bytes(version, hostname, port, intent);
    let login = login_bytes(len, username);
    lemma_handshake_len(version, hostname, port, intent);
    varint::law_varint_length(handshake_fields(version, hostname, port, intent).len() as u64);
    varint::law_varint_length(len);
    varint::law_varint_length(0);
    varint::law_varint_length(utf8::encode_utf8(username).len() as u64);
    assert(extended(t, missing).rest =~= shake + login);
    lemma_reads_handshake(version, hostname, port, intent, login, Seq::empty());
    lemma_handshake_step(t, missing);
    let (r1, t1) = handshake_step(t);
    if r1 != Err::<Handshake, ErrorView>(ErrorView::Read) {
        assert(extended(t1, missing).rest =~= login);
        assert(login + Seq::<u8>::empty() =~= login);
        lemma_reads_login(len, username, Seq::empty(), extended(t1, missing).kept);
        lemma_login_step(t1, missing);
        let (r2, t2) = login_step(t1);
        if r2 != Err::<Seq<char>, ErrorView>(ErrorView::Read) {
            assert((t2.rest + missing).len() > 0);
        }
    }
}

/// Of a handshake that is not complete, all that can be said is that more has to
/// come.
pub proof fn law_partial_handshake_is_incomplete(
    came: Seq<u8>,
    missing: Seq<u8>,
    version: u64,
    hostname: Seq<char>,
    port: Seq<u8>,
    intent: u64,
)
    requires
        utf8::encode_utf8(hostname).len() <= 255,
        port.len() == 2,
        missing.len() > 0,
        came + missing == handshake_bytes(version, hostname, port, intent),
    ensures
        opening_step(Tap { rest: came, kept: Seq::empty() }).0 == Err::<Opening, ErrorView>(
            ErrorView::Read,
        ),
        came.len() < 2048,
{
    let t = Tap { rest: came, kept: Seq::<u8>::empty() };
    let shake = handshake_bytes(version, hostname, port, intent);
    lemma_handshake_len(version, hostname, port, intent);
    varint::law_varint_length(handshake_fields(version, hostname, port, intent).len() as u64);
    assert(extended(t, missing).rest =~= shake + Seq::<u8>::empty());
    lemma_reads_handshake(version, hostname, port, intent, Seq::empty(), Seq::empty());
    lemma_handshake_step(t, missing);
    let (r1, t1) = handshake_step(t);
    if r1 != Err::<Handshake, ErrorView>(ErrorView::Read) {
        assert((t1.rest + missing).len() > 0);
    }
}

proof fn lemma_refuses_string(s: Seq<char>, max: nat, after: Seq<u8>, kept: Seq<u8>)
    requires
        max < utf8::encode_utf8(s).len() <= u32::MAX,
    ensures
        string_step(Tap { rest: string_bytes(s) + after, kept }, max).0 == Err::<
            (Seq<char>, nat),
            ErrorView,
        >(ErrorView::InvalidPacket("Length of string larger than max"@)),
{
    let body = utf8::encode_utf8(s);
    let b = varint::varint_bytes(body.len());
    assert(string_bytes(s) + after =~= b + (body + after));
    lemma_reads_varint(body.len() as u64, body + after, kept);
}

/// A packet that claims to be a handshake, with any length and number.
pub open spec fn claimed_handshake(
    len: u64,
    id: u64,
    version: u64,
    hostname: Seq<char>,
    port: Seq<u8>,
    intent: u64,
) -> Seq<u8> {
    varint::varint_bytes(len as nat) + (varint::varint_bytes(id as nat) + (varint::varint_bytes(
        version as nat,
    ) + (string_bytes(hostname) + (port + varint::varint_bytes(intent as nat)))))
}

/// A packet is no opening, and refused, where its number is not that of a
/// handshake, its host name is longer than 255 bytes, its length is not that of
/// its fields, or it wants something else than the status, a login or a transfer.
#[verifier::rlimit(60)]
#[verifier::spinoff_prover]
pub proof fn law_other_packets_are_refused(
    len: u64,
    id: u64,
    version: u64,
    hostname: Seq<char>,
    port: Seq<u8>,
    intent: u64,
    after: Seq<u8>,
)
    requires
        port.len() == 2,
        utf8::encode_utf8(hostname).len() <= u32::MAX,
        len <= u32::MAX,
        ({
            ||| id != 0
            ||| utf8::encode_utf8(hostname).len() > 255
            ||| len != handshake_fields(version, hostname, port, intent).len()
            ||| intent != 1 && intent != 2 && intent != 3
        }),
    ensures
        opening_step(
            Tap {
                rest: claimed_handshake(len, id, version, hostname, port, intent) + after,
                kept: Seq::empty(),
            },
        ).0 matches Err(ErrorView::InvalidPacket(_)),
{
    let kept = Seq::<u8>::empty();
    let b0 = varint::varint_bytes(len as nat);
    let b1 = varint::varint_bytes(id as nat);
    let b2 = varint::varint_bytes(version as nat);
    let b3 = string_bytes(hostname);
    let b5 = varint::varint_bytes(intent as nat);
    let r5 = b5 + after;
    let r4 = port + r5;
    let r3 = b3 + r4;
    let r2 = b2 + r3;
    let r1 = b1 + r2;
    assert(claimed_handshake(len, id, version, hostname, port, intent) + after =~= b0 + r1);
    lemma_reads_varint(len, r1, kept);
    lemma_reads_varint(id, r2, kept + b0);
    if id == 0 {
        lemma_reads_varint(version, r3, kept + b0 + b1);
        if utf8::encode_utf8(hostname).len() > 255 {
            lemma_refuses_string(hostname, 255, r4, kept + b0 + b1 + b2);
        } else {
            lemma_handshake_len(version, hostname, port, intent);
            lemma_reads_string(hostname, 255, r4, kept + b0 + b1 + b2);
            lemma_reads_port(port, r5, kept + b0 + b1 + b2 + b3);
            lemma_reads_varint(intent, after, kept + b0 + b1 + b2 + b3 + port);
        }
    }
}

proof fn lemma_refuses_login(
    len: u64,
    id: u64,
    username: Seq<char>,
    after: Seq<u8>,
    kept: Seq<u8>,
)
    requires
        utf8::encode_utf8(username).len() <= u32::MAX,
        id != 0 || utf8::encode_utf8(username).len() > 16,
    ensures
        login_step(
            Tap {
                rest: varint::varint_bytes(len as nat) + (varint::varint_bytes(id as nat) + (
                string_bytes(username) + after)),
                kept,
            },
        ).0 matches Err(ErrorView::InvalidPacket(_)),
{
    let b0 = varint::varint_bytes(len as nat);
    let b1 = varint::varint_bytes(id as nat);
    let r2 = string_bytes(username) + after;
    lemma_reads_varint(len, b1 + r2, kept);
    lemma_reads_varint(id, r2, kept + b0);
    if id == 0 {
        lemma_refuses_string(username, 16, after, kept + b0 + b1);
    }
}

/// What follows a handshake that wants to log in is refused where it is not a
/// login, or the name of the player is longer than sixteen bytes.
pub proof fn law_other_logins_are_refused(
    version: u64,
    hostname: Seq<char>,
    port: Seq<u8>,
    intent: u64,
    len: u64,
    id: u64,
    username: Seq<char>,
    after: Seq<u8>,
)
    requires
        utf8::encode_utf8(hostname).len() <= 255,
        port.len() == 2,
        intent == 2 || intent == 3,
        utf8::encode_utf8(username).len() <= u32::MAX,
        id != 0 || utf8::encode_utf8(username).len() > 16,
    ensures
        opening_step(
            Tap {
                rest: handshake_bytes(version, hostname, port, intent) + (varint::varint_bytes(
                    len as nat,
                ) + (varint::varint_bytes(id as nat) + (string_bytes(username) + after))),
                kept: Seq::empty(),
            },
        ).0 matches Err(ErrorView::InvalidPacket(_)),
{
    let shake = handshake_bytes(version, hostname, port, intent);
    let login = varint::varint_bytes(len as nat) + (varint::varint_bytes(id as nat) + (
    string_bytes(username) + after));
    lemma_reads_handshake(version, hostname, port, intent, login, Seq::empty());
    lemma_refuses_login(len, id, username, after, Seq::<u8>::empty() + shake);
}

/// A string is read as the text of as many bytes as its length says. It is refused
/// where these are more than there may be, or not text, and waited for where fewer
/// came.
pub proof fn law_strings_are_read(len: u64, body: Seq<u8>, after: Seq<u8>, max: nat)
    requires
        len <= usize::MAX,
        body.len() <= len,
        body.len() < len ==> after.len() == 0,
    ensures
        ({
            let head = varint::varint_bytes(len as nat);
            let (read, t) = string_step(
                Tap { rest: head + (body + after), kept: Seq::empty() },
                max,
            );
            if len > max {
                read == Err::<(Seq<char>, nat), ErrorView>(
                    ErrorView::InvalidPacket("Length of string larger than max"@),
                )
            } else if body.len() < len {
                read == Err::<(Seq<char>, nat), ErrorView>(ErrorView::Read)
            } else if utf8::valid_utf8(body) {
                &&& read == Ok::<(Seq<char>, nat), ErrorView>(
                    (utf8::decode_utf8(body), head.len() + len as nat),
                )
                &&& t.rest == after
                &&& t.kept == head + body
            } else {
                read == Err::<(Seq<char>, nat), ErrorView>(
                    ErrorView::InvalidPacket("Expected String, but found non-utf8"@),
                )
            }
        }),
{
    let head = varint::varint_bytes(len as nat);
    lemma_reads_varint(len, body + after, Seq::empty());
    if body.len() == len {
        assert((body + after).take(len as int) =~= body);
        assert((body + after).skip(len as int) =~= after);
        assert(Seq::<u8>::empty() + head + body =~= head + body);
    }
}

} // verus!
