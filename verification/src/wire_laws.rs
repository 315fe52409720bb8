//! What stands on the wire, and what is read from it.

use crate::codec;
use crate::codec::StreamHelper;
use crate::disconnect;
use crate::disconnect::DisconnectMessage;
use crate::error::{ErrorView, SharedError};
use crate::message::{Addr, InitResponse, Message, ServerHello};
use crate::net::IpAddr;
use crate::packet;
use crate::packet::try_parse_init_packet;
use crate::proxy::{receive_server_hello, send_domain};
use crate::reader;
use crate::reader::ByteReader;
use crate::varint;
use crate::varint::{decode_varint, encode_varint};
use vstd::prelude::*;
use vstd::utf8;

verus! {

/// The number that four bytes spell, the most significant first.
pub open spec fn spelled(b: Seq<u8>) -> nat {
    (b[0] * 0x1000000 + b[1] * 0x10000 + b[2] * 0x100 + b[3]) as nat
}

proof fn lemma_spelled(b: Seq<u8>)
    requires
        b.len() == 4,
    ensures
        reader::big_endian(b) == spelled(b),
{
    reveal_with_fuel(reader::big_endian, 5);
    assert(b.drop_last().drop_last().drop_last().drop_last() =~= Seq::<u8>::empty());
}

/// A frame whose length fits is read as the bytes behind its length, as many as
/// it says, and what follows it is left.
pub proof fn law_frames_are_read(head: Seq<u8>, body: Seq<u8>, rest: Seq<u8>, room: nat)
    requires
        head.len() == 4,
        body.len() == spelled(head),
        body.len() <= room,
    ensures
        codec::frame_read(head + body + rest, room) == (Ok::<Seq<u8>, ErrorView>(body), rest),
        codec::missing_bytes(head + body + rest, room) == 0,
{
    let s = head + body + rest;
    lemma_spelled(head);
    assert(s.take(4) =~= head);
    assert(s.subrange(4, (4 + body.len()) as int) =~= body);
    assert(s.skip((4 + body.len()) as int) =~= rest);
}

/// A frame that announces more bytes than there is room for is refused as soon as
/// its length came, and nothing behind the length is taken.
pub proof fn law_long_frames_are_refused(head: Seq<u8>, rest: Seq<u8>, room: nat)
    requires
        head.len() == 4,
        spelled(head) > room,
    ensures
        codec::frame_read(head + rest, room) == (
            Err::<Seq<u8>, ErrorView>(ErrorView::BufSize),
            rest,
        ),
        codec::missing_bytes(head + rest, room) == 0,
{
    let s = head + rest;
    lemma_spelled(head);
    assert(s.take(4) =~= head);
    assert(s.skip(4) =~= rest);
}

/// Of a frame that did not come whole, the bytes that are missing are counted,
/// and it is not read.
pub proof fn law_partial_frames_are_waited_for(head: Seq<u8>, body: Seq<u8>, room: nat)
    requires
        head.len() <= 4,
        head.len() < 4 ==> body.len() == 0,
        head.len() == 4 ==> body.len() < spelled(head) <= room,
    ensures
        codec::frame_read(head + body, room) == (
            Err::<Seq<u8>, ErrorView>(ErrorView::Read),
            Seq::<u8>::empty(),
        ),
        codec::missing_bytes(head + body, room) == if head.len() < 4 {
            4 - head.len()
        } else {
            spelled(head) - body.len()
        },
{
    let s = head + body;
    if head.len() == 4 {
        lemma_spelled(head);
        assert(s.take(4) =~= head);
    }
}

/// A frame is what it frames, behind its length in four bytes.
pub proof fn law_frames_say_their_length(wire: Seq<u8>)
    requires
        wire.len() <= u32::MAX,
    ensures
        ({
            let framed = codec::frame(wire);
            &&& framed.len() == wire.len() + 4
            &&& framed.skip(4) == wire
            &&& spelled(framed) == wire.len()
        }),
{
    codec::lemma_u32_bytes(wire.len() as u32);
    let framed = codec::frame(wire);
    assert(framed.take(4) =~= codec::u32_bytes(wire.len() as u32));
    lemma_spelled(framed.take(4));
    assert(framed.skip(4) =~= wire);
}

/// Text on the wire: how many bytes it takes, and its bytes.
pub open spec fn sized_text(s: Seq<char>) -> Seq<u8> {
    let bytes = utf8::encode_utf8(s);
    varint::varint_bytes(bytes.len()) + bytes
}

/// Text that may be missing.
pub open spec fn optional_text(o: Option<String>) -> Seq<u8> {
    match o {
        None => seq![0u8],
        Some(s) => seq![1u8] + sized_text(s@),
    }
}

/// A heartbeat is sent as a 0 and all its bytes, and a client as a 1 and its
/// number.
pub proof fn law_messages_on_the_wire(data: [u8; 32], id: u128)
    ensures
        Message::wire(Message::HeartBeat(data).plain()) == seq![0u8] + data@,
        Message::wire(Message::NewClient(id).plain()) == seq![1u8] + varint::varint_bytes(
            id as nat,
        ),
{
}

/// A hello is sent as its text, and then the requested domain. A response is sent
/// as the domain, and then the version.
pub proof fn law_openings_on_the_wire(hello: ServerHello<'_>, response: InitResponse)
    ensures
        ServerHello::wire(hello.plain()) == sized_text(hello.hello_string@) + match
            hello.requested_domain {
            None => seq![0u8],
            Some(s) => seq![1u8] + sized_text(s@),
        },
        InitResponse::wire(response.plain()) == sized_text(response.domain@)
            + varint::varint_bytes(response.protocol_version as nat),
{
}

/// The address of a client is sent as a 0 and four octets, or a 1 and sixteen,
/// the most significant first, then the port, and then the name of the player.
pub proof fn law_addresses_on_the_wire(a: Addr, octets: Seq<u8>)
    requires
        match a.addr.ip {
            IpAddr::V4(v) => octets.len() == 4 && reader::big_endian(octets) == v,
            IpAddr::V6(v) => octets.len() == 16 && reader::big_endian(octets) == v,
        },
    ensures
        Addr::wire(a.plain()) == seq![
            if a.addr.ip is V4 {
                0u8
            } else {
                1u8
            },
        ] + octets + varint::varint_bytes(a.addr.port as nat) + optional_text(a.username),
{
    codec::lemma_spelled(octets);
}

/// A client that is turned away is shown the message, as the text of a chat
/// component, in the packet with the number 0.
pub proof fn law_disconnect_shows_the_message(msg: Seq<char>)
    requires
        utf8::encode_utf8("{\"text\":\""@ + msg + "\"}"@).len() + 11 <= u64::MAX,
    ensures
        ({
            let shown = sized_text("{\"text\":\""@ + msg + "\"}"@);
            disconnect::disconnect_bytes(msg) == varint::varint_bytes(1 + shown.len()) + seq![0u8]
                + shown
        }),
{
    let shown = sized_text("{\"text\":\""@ + msg + "\"}"@);
    assert(disconnect::disconnect_body(msg) =~= seq![0u8] + shown);
    assert(disconnect::disconnect_bytes(msg) =~= varint::varint_bytes(1 + shown.len()) + seq![0u8]
        + shown);
}

/// A server is sent its domain, and the version of the protocol, in a frame behind
/// what was sent before, as long as there is room for it, and else nothing.
pub proof fn law_domains_are_sent(
    domain: String,
    w: &mut Vec<u8>,
    buf: &mut [u8],
    sent: Result<usize, SharedError>,
)
    requires
        call_ensures(send_domain, (domain, w, buf), sent),
    ensures
        ({
            let wire = sized_text(domain@) + varint::varint_bytes(4);
            &&& wire.len() <= old(buf)@.len() ==> sent == Ok::<usize, SharedError>(
                (wire.len() + 4) as usize,
            ) && final(w)@ == old(w)@ + codec::frame(wire)
            &&& wire.len() > old(buf)@.len() ==> sent is Err && final(w)@ == old(w)@
        }),
{
}

/// The hello of a server arrives with the domain that it requests, and nothing of
/// what follows it is taken.
pub proof fn law_hellos_arrive<'a>(
    stream: &mut ByteReader,
    buf: &'a mut [u8],
    requested: Option<Seq<char>>,
    rest: Seq<u8>,
    read: Result<Option<&'a str>, ()>,
)
    requires
        call_ensures(receive_server_hello, (stream, buf), read),
        ({
            let wire = sized_text("mineshare"@) + match requested {
                None => seq![0u8],
                Some(s) => seq![1u8] + sized_text(s),
            };
            &&& old(stream)@ == codec::frame(wire) + rest
            &&& wire.len() <= old(buf)@.len() && wire.len() <= u32::MAX
        }),
    ensures
        match requested {
            Some(s) => read matches Ok(Some(d)) && d@ == s,
            None => read == Ok::<Option<&'a str>, ()>(None),
        },
        final(stream)@ == rest,
{
    let wire = codec::hello_wire(("mineshare"@, requested));
    assert(old(stream)@ == codec::frame(wire) + rest);
}

/// Bytes are read in the order in which they came, and none twice: what was read
/// and what is left make up what was there.
pub proof fn law_bytes_are_read_in_order(
    one: &mut ByteReader,
    byte: Result<u8, SharedError>,
    more: &mut ByteReader,
    n: usize,
    out: &mut Vec<u8>,
    exact: Result<(), SharedError>,
    all: &mut ByteReader,
    rest: &mut Vec<u8>,
)
    requires
        call_ensures(ByteReader::read_u8, (one,), byte),
        call_ensures(ByteReader::read_exact, (more, n, out), exact),
        call_ensures(ByteReader::read_rest, (all, rest), ()),
    ensures
        byte is Ok <==> old(one)@.len() > 0,
        byte matches Ok(b) ==> seq![b] + final(one)@ == old(one)@,
        byte is Err ==> final(one)@ == old(one)@,
        exact is Ok <==> n <= old(more)@.len(),
        exact is Ok ==> final(out)@ + final(more)@ == old(out)@ + old(more)@ && final(out)@.len()
            == old(out)@.len() + n,
        exact is Err ==> final(more)@.len() == 0 && final(out)@.len() == old(out)@.len() + n
            && final(out)@.take((old(out)@.len() + old(more)@.len()) as int) == old(out)@
            + old(more)@,
        final(rest)@ == old(rest)@ + old(all)@ && final(all)@.len() == 0,
{
    if byte is Ok {
        assert(seq![byte->Ok_0] + final(one)@ =~= old(one)@);
    }
    if exact is Ok {
        assert(final(out)@ + final(more)@ =~= old(out)@ + old(more)@);
    } else {
        assert(final(out)@.take((old(out)@.len() + old(more)@.len()) as int) =~= old(out)@
            + old(more)@);
    }
}

/// Numbers of two and of four bytes are read with the most significant byte first.
pub proof fn law_numbers_are_read(
    two: &mut ByteReader,
    narrow: Result<u16, SharedError>,
    four: &mut ByteReader,
    wide: Result<u32, SharedError>,
)
    requires
        call_ensures(ByteReader::read_u16, (two,), narrow),
        call_ensures(ByteReader::read_u32, (four,), wide),
    ensures
        narrow is Ok <==> old(two)@.len() >= 2,
        narrow matches Ok(v) ==> v == old(two)@[0] * 0x100 + old(two)@[1] && final(two)@
            == old(two)@.skip(2),
        wide is Ok <==> old(four)@.len() >= 4,
        wide matches Ok(v) ==> v == spelled(old(four)@) && final(four)@ == old(four)@.skip(4),
{
    if wide is Ok {
        lemma_spelled(old(four)@.take(4));
    }
    if narrow is Ok {
        let b = old(two)@.take(2);
        reveal_with_fuel(reader::big_endian, 3);
        assert(b.drop_last().drop_last() =~= Seq::<u8>::empty());
    }
}

/// A varint that was written is read as the number that was written, its bytes are
/// handed on, and nothing of what follows it is taken.
pub proof fn law_varints_arrive(
    value: u64,
    written: ([u8; 10], usize),
    stream: &mut ByteReader,
    kept: &mut Vec<u8>,
    rest: Seq<u8>,
    read: Result<(u64, usize), SharedError>,
)
    requires
        call_ensures(encode_varint, (value,), written),
        call_ensures(decode_varint, (stream, kept), read),
        old(stream)@ == written.0@.take(written.1 as int) + rest,
    ensures
        read == Ok::<(u64, usize), SharedError>((value, written.1)),
        final(stream)@ == rest,
        final(kept)@ == old(kept)@ + written.0@.take(written.1 as int),
{
    let bytes = written.0@.take(written.1 as int);
    varint::law_varint_round_trip(value, rest);
    assert(bytes.len() == written.1);
    assert(old(stream)@.skip(written.1 as int) =~= rest);
    assert(old(stream)@.take(written.1 as int) =~= bytes);
}

/// A client that is turned away is sent the packet with the message, behind what
/// was sent before.
pub proof fn law_messages_are_sent(msg: DisconnectMessage<'_>, writer: &mut Vec<u8>)
    requires
        call_ensures(DisconnectMessage::encode, (&msg, writer), ()),
    ensures
        final(writer)@ == old(writer)@ + disconnect::disconnect_bytes(msg.0@),
{
}

/// What is said of an opening is said of what is read of it: the host name, the
/// name of the player, and every byte that came.
pub proof fn law_openings_are_read_so(
    stream: &mut ByteReader,
    data: &mut Vec<u8>,
    read: Result<(String, Option<String>), SharedError>,
)
    requires
        call_ensures(try_parse_init_packet, (stream, data), read),
    ensures
        ({
            let (opening, tap) = packet::opening_step(
                packet::Tap { rest: old(stream)@, kept: old(data)@ },
            );
            &&& read is Ok <==> opening is Ok
            &&& read matches Ok((hostname, username)) ==> {
                &&& opening->Ok_0.hostname == hostname@
                &&& opening->Ok_0.username == match username {
                    Some(name) => Some(name@),
                    None => None,
                }
                &&& final(data)@ == old(data)@ + old(stream)@
            }
            &&& read matches Err(e) ==> opening == Err::<packet::Opening, ErrorView>(e@)
        }),
{
    packet::law_opening_keeps_every_byte(packet::Tap { rest: old(stream)@, kept: old(data)@ });
}

} // verus!
