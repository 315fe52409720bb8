//! How messages are framed and serialized.
//!
//! A frame is the length of a serialized message in four bytes, the most
//! significant first, and then the message. The serialization is postcard's.

use crate::error::{ErrorView, SharedError};
use crate::message::{Addr, InitResponse, Message, ServerHello};
use crate::net;
use crate::net::{IpAddr, SocketAddr};
use crate::reader;
use crate::reader::ByteReader;
use crate::varint;
use vstd::prelude::*;
use vstd::utf8;

verus! {

/// Text on the wire: the length of its bytes as a varint, and its bytes.
pub open spec fn text_wire(s: Seq<char>) -> Seq<u8> {
    varint::varint_bytes(utf8::encode_utf8(s).len()) + utf8::encode_utf8(s)
}

/// Text that may be missing on the wire: 0, or 1 and the text.
pub open spec fn option_wire(o: Option<Seq<char>>) -> Seq<u8> {
    match o {
        None => seq![0u8],
        Some(s) => seq![1u8] + text_wire(s),
    }
}

/// A hello on the wire.
pub open spec fn hello_wire(hello: (Seq<char>, Option<Seq<char>>)) -> Seq<u8> {
    text_wire(hello.0) + option_wire(hello.1)
}

/// A response on the wire.
pub open spec fn init_wire(init: (Seq<char>, u64)) -> Seq<u8> {
    text_wire(init.0) + varint::varint_bytes(init.1 as nat)
}

/// A message on the wire: 0 and the bytes to echo, or 1 and the id of a client.
pub open spec fn message_wire(m: Result<[u8; 32], u128>) -> Seq<u8> {
    match m {
        Ok(data) => seq![0u8] + data@,
        Err(id) => seq![1u8] + varint::varint_bytes(id as nat),
    }
}

/// An address with its port: four octets, or sixteen.
pub type RawAddr = Result<(Seq<u8>, u16), (Seq<u8>, u16)>;

/// The address of a client on the wire: 0 and four octets or 1 and sixteen, the
/// port, and the name of the player.
pub open spec fn addr_wire(a: (RawAddr, Option<Seq<char>>)) -> Seq<u8> {
    let ip = match a.0 {
        Ok((o, port)) => seq![0u8] + o + varint::varint_bytes(port as nat),
        Err((o, port)) => seq![1u8] + o + varint::varint_bytes(port as nat),
    };
    ip + option_wire(a.1)
}

/// Whether the octets of an address are as many as there have to be.
pub open spec fn raw_valid(a: RawAddr) -> bool {
    match a {
        Ok((o, _)) => o.len() == 4,
        Err((o, _)) => o.len() == 16,
    }
}

/// The octets and the port of an address.
pub open spec fn raw_addr(a: SocketAddr) -> RawAddr {
    match a.ip {
        IpAddr::V4(v) => Ok((net::octets(v as nat, 4), a.port)),
        IpAddr::V6(v) => Err((net::octets(v as nat, 16), a.port)),
    }
}

/// The address that has these octets and this port.
pub open spec fn addr_of(a: RawAddr) -> SocketAddr {
    match a {
        Ok((o, port)) => SocketAddr { ip: IpAddr::V4(reader::big_endian(o) as u32), port },
        Err((o, port)) => SocketAddr { ip: IpAddr::V6(reader::big_endian(o) as u128), port },
    }
}

/// The view of text that may be missing.
pub open spec fn opt_view(o: Option<&str>) -> Option<Seq<char>> {
    match o {
        Some(s) => Some(s@),
        None => None,
    }
}

/// The view of owned text that may be missing.
pub open spec fn opt_string(o: Option<String>) -> Option<Seq<char>> {
    match o {
        Some(s) => Some(s@),
        None => None,
    }
}

/// What serializing to `buf` does: where `wire` fits, it stands at the front;
/// where it does not, that is an error.
pub open spec fn serialized(
    wire: Seq<u8>,
    before: Seq<u8>,
    after: Seq<u8>,
    r: Result<usize, postcard::Error>,
) -> bool {
    &&& after.len() == before.len()
    &&& match r {
        Ok(n) => n == wire.len() && n <= before.len() && after.take(n as int) == wire
            && after.skip(n as int) == before.skip(n as int),
        Err(_) => wire.len() > before.len(),
    }
}

/// `postcard::to_slice` on a pair of texts, the second optional: it writes the
/// fields one behind the other, as postcard's wire format lays them down, and
/// fails where the buffer is too small.
#[verifier::external_body]
fn to_slice_hello(hello: &str, requested: Option<&str>, buf: &mut [u8]) -> (r: Result<
    usize,
    postcard::Error,
>)
    ensures
        serialized(hello_wire((hello@, opt_view(requested))), old(buf)@, final(buf)@, r),
{
    postcard::to_slice(&(hello, requested), buf).map(|s| s.len())
}

/// What `postcard::from_bytes` reads as a pair of texts, the second optional.
pub uninterp spec fn hello_read(bytes: Seq<u8>) -> Option<(Seq<char>, Option<Seq<char>>)>;

/// A hello that was read, without how it is held.
pub open spec fn hello_plain(r: Result<(&str, Option<&str>), postcard::Error>) -> Option<
    (Seq<char>, Option<Seq<char>>),
> {
    match r {
        Ok((hello, requested)) => Some((hello@, opt_view(requested))),
        Err(_) => None,
    }
}

/// `postcard::from_bytes` on a pair of texts, the second optional. What it reads
/// is a function of the bytes, and what was written is read back, whatever
/// stands behind it.
#[verifier::external_body]
fn from_bytes_hello(bytes: &[u8]) -> (r: Result<(&str, Option<&str>), postcard::Error>)
    ensures
        hello_plain(r) == hello_read(bytes@),
        forall|hello: (Seq<char>, Option<Seq<char>>), rest: Seq<u8>|
            bytes@ == #[trigger] (hello_wire(hello) + rest) ==> hello_plain(r) == Some(hello),
{
    postcard::from_bytes(bytes)
}

/// `postcard::to_slice` on a text and a number: it writes one behind the other,
/// as postcard's wire format lays them down, and fails where the buffer is too
/// small.
#[verifier::external_body]
fn to_slice_init(domain: &str, version: u64, buf: &mut [u8]) -> (r: Result<
    usize,
    postcard::Error,
>)
    ensures
        serialized(init_wire((domain@, version)), old(buf)@, final(buf)@, r),
{
    postcard::to_slice(&(domain, version), buf).map(|s| s.len())
}

/// What `postcard::from_bytes` reads as a text and a number.
pub uninterp spec fn init_read(bytes: Seq<u8>) -> Option<(Seq<char>, u64)>;

/// A response that was read, without how it is held.
pub open spec fn init_plain(r: Result<(String, u64), postcard::Error>) -> Option<
    (Seq<char>, u64),
> {
    match r {
        Ok((domain, version)) => Some((domain@, version)),
        Err(_) => None,
    }
}

/// `postcard::from_bytes` on a text and a number. What it reads is a function of
/// the bytes, and what was written is read back, whatever stands behind it.
#[verifier::external_body]
fn from_bytes_init(bytes: &[u8]) -> (r: Result<(String, u64), postcard::Error>)
    ensures
        init_plain(r) == init_read(bytes@),
        forall|init: (Seq<char>, u64), rest: Seq<u8>|
            bytes@ == #[trigger] (init_wire(init) + rest) ==> init_plain(r) == Some(init),
{
    postcard::from_bytes(bytes)
}

/// `postcard::to_slice` on one of two: it writes which, and then thirty-two bytes
/// or a number, as postcard's wire format lays them down, and fails where the
/// buffer is too small.
#[verifier::external_body]
fn to_slice_message(message: &Result<[u8; 32], u128>, buf: &mut [u8]) -> (r: Result<
    usize,
    postcard::Error,
>)
    ensures
        serialized(message_wire(*message), old(buf)@, final(buf)@, r),
{
    postcard::to_slice(message, buf).map(|s| s.len())
}

/// What `postcard::from_bytes` reads as thirty-two bytes or a number.
pub uninterp spec fn message_read(bytes: Seq<u8>) -> Option<Result<[u8; 32], u128>>;

/// A message that was read.
pub open spec fn message_plain(r: Result<Result<[u8; 32], u128>, postcard::Error>) -> Option<
    Result<[u8; 32], u128>,
> {
    match r {
        Ok(m) => Some(m),
        Err(_) => None,
    }
}

/// `postcard::from_bytes` on thirty-two bytes or a number. What it reads is a
/// function of the bytes, and what was written is read back, whatever stands
/// behind it.
#[verifier::external_body]
fn from_bytes_message(bytes: &[u8]) -> (r: Result<Result<[u8; 32], u128>, postcard::Error>)
    ensures
        message_plain(r) == message_read(bytes@),
        forall|m: Result<[u8; 32], u128>, rest: Seq<u8>|
            bytes@ == #[trigger] (message_wire(m) + rest) ==> message_plain(r) == Some(m),
{
    postcard::from_bytes(bytes)
}

/// An address as arrays of octets.
pub type ArrayAddr = Result<([u8; 4], u16), ([u8; 16], u16)>;

/// The octets of an address in arrays.
pub open spec fn array_raw(a: ArrayAddr) -> RawAddr {
    match a {
        Ok((o, port)) => Ok((o@, port)),
        Err((o, port)) => Err((o@, port)),
    }
}

/// `postcard::to_slice` on an address and an optional text: it writes which kind
/// of address it is, its octets, its port and the text, as postcard's wire
/// format lays them down, and fails where the buffer is too small.
#[verifier::external_body]
fn to_slice_addr(addr: &ArrayAddr, username: Option<&str>, buf: &mut [u8]) -> (r: Result<
    usize,
    postcard::Error,
>)
    ensures
        serialized(addr_wire((array_raw(*addr), opt_view(username))), old(buf)@, final(buf)@, r),
{
    postcard::to_slice(&(addr, username), buf).map(|s| s.len())
}

/// What `postcard::from_bytes` reads as an address and an optional text.
pub uninterp spec fn addr_read(bytes: Seq<u8>) -> Option<
    (Result<(Seq<u8>, u16), (Seq<u8>, u16)>, Option<Seq<char>>),
>;

/// An address that was read, without how it is held.
pub open spec fn addr_plain(r: Result<(ArrayAddr, Option<String>), postcard::Error>) -> Option<
    (RawAddr, Option<Seq<char>>),
> {
    match r {
        Ok((addr, username)) => Some((array_raw(addr), opt_string(username))),
        Err(_) => None,
    }
}

/// `postcard::from_bytes` on an address and an optional text. What it reads is a
/// function of the bytes, and what was written is read back, whatever stands
/// behind it.
#[verifier::external_body]
fn from_bytes_addr(bytes: &[u8]) -> (r: Result<(ArrayAddr, Option<String>), postcard::Error>)
    ensures
        addr_plain(r) == addr_read(bytes@),
        forall|a: (RawAddr, Option<Seq<char>>), rest: Seq<u8>|
            raw_valid(a.0) && bytes@ == #[trigger] (addr_wire(a) + rest) ==> addr_plain(r)
                == Some(a),
{
    postcard::from_bytes(bytes)
}

/// A message that is sent in frames.
pub trait StreamHelper<'a>: Sized {
    /// What a message says, without how it is held.
    type Plain;

    spec fn plain(&self) -> Self::Plain;

    /// A message on the wire.
    spec fn wire(plain: Self::Plain) -> Seq<u8>;

    /// What is read from the wire.
    spec fn read(bytes: Seq<u8>) -> Option<Self::Plain>;

    /// Serializes the message to the front of `buf`.
    fn to_slice(&self, buf: &mut [u8]) -> (r: Result<usize, postcard::Error>)
        ensures
            serialized(Self::wire(self.plain()), old(buf)@, final(buf)@, r),
    ;

    /// Deserializes a message.
    fn from_bytes(bytes: &'a [u8]) -> (r: Result<Self, postcard::Error>)
        ensures
            match r {
                Ok(m) => Self::read(bytes@) == Some(m.plain()),
                Err(_) => Self::read(bytes@) is None,
            },
            forall|plain: Self::Plain, rest: Seq<u8>|
                bytes@ == #[trigger] (Self::wire(plain) + rest) ==> Self::read(bytes@) == Some(
                    plain,
                ),
    ;

    /// Appends the frame of the message to `w`. The result is its length.
    fn encode(&self, w: &mut Vec<u8>, buf: &mut [u8]) -> (r: Result<usize, SharedError>)
        requires
            old(buf)@.len() + 4 <= usize::MAX,
        ensures
            ({
                let wire = Self::wire(self.plain());
                match r {
                    Ok(n) => wire.len() <= old(buf)@.len() && n == wire.len() + 4 && final(w)@
                        == old(w)@ + frame(wire),
                    Err(e) => wire.len() > old(buf)@.len() && e@ == ErrorView::DataSerialize
                        && final(w)@ == old(w)@,
                }
            }),
    {
        match self.to_slice(buf) {
            Err(e) => Err(SharedError::DataSerialize(e)),
            Ok(n) => {
                write_u32(w, n as u32);
                let body = vstd::slice::slice_subrange(buf, 0, n);
                w.extend_from_slice(body);
                Ok(n + 4)
            },
        }
    }

    /// Reads a frame from `r` to the front of `buf`, and the message from it.
    fn decode(r: &mut ByteReader, buf: &'a mut [u8]) -> (res: Result<Self, SharedError>)
        ensures
            ({
                let (want, rest) = frame_read(old(r)@, old(buf)@.len());
                &&& final(r)@ == rest
                &&& match want {
                    Err(e) => res matches Err(e2) && e2@ == e,
                    Ok(body) => match Self::read(body) {
                        Some(plain) => res matches Ok(m) && m.plain() == plain,
                        None => res matches Err(e2) && e2@ == ErrorView::DataDeserialize,
                    },
                }
                &&& final(buf)@.len() == old(buf)@.len()
                &&& match want {
                    Ok(body) => final(buf)@ == body + old(buf)@.skip(body.len() as int),
                    Err(_) => final(buf)@ == old(buf)@,
                }
            }),
            forall|plain: Self::Plain, rest: Seq<u8>|
                old(r)@ == #[trigger] (frame(Self::wire(plain)) + rest) && Self::wire(plain).len()
                    <= old(buf)@.len() && Self::wire(plain).len() <= u32::MAX ==> (res matches Ok(
                    m,
                ) && m.plain() == plain && final(r)@ == rest),
    {
        proof {
            lemma_frames(r@, buf@.len());
        }
        let n = match read_frame(r, buf) {
            Ok(n) => n,
            Err(e) => return Err(e),
        };
        let body = vstd::slice::slice_subrange(buf, 0, n);
        assert forall|plain: Self::Plain| body@ == #[trigger] Self::wire(plain) implies body@
            == Self::wire(plain) + Seq::<u8>::empty() by {
            assert(body@ =~= Self::wire(plain) + Seq::<u8>::empty());
        }
        match Self::from_bytes(body) {
            Ok(m) => Ok(m),
            Err(e) => Err(SharedError::DataDeserialize(e)),
        }
    }
}

/// The body of the frame at the front of `s`, where it has at most `room` bytes,
/// and what is left to read.
pub open spec fn frame_read(s: Seq<u8>, room: nat) -> (Result<Seq<u8>, ErrorView>, Seq<u8>) {
    let len = reader::big_endian(s.take(4));
    if s.len() < 4 {
        (Err(ErrorView::Read), Seq::empty())
    } else if len > room {
        (Err(ErrorView::BufSize), s.skip(4))
    } else if len > s.len() - 4 {
        (Err(ErrorView::Read), Seq::empty())
    } else {
        (Ok(s.subrange(4, (4 + len) as int)), s.skip((4 + len) as int))
    }
}

/// How many bytes of the frame at the front of a stream are known to be missing
/// after `s` came.
pub open spec fn missing_bytes(s: Seq<u8>, room: nat) -> nat {
    let len = reader::big_endian(s.take(4));
    if s.len() < 4 {
        (4 - s.len()) as nat
    } else if len > room || len <= s.len() - 4 {
        0
    } else {
        (len + 4 - s.len()) as nat
    }
}

/// How many bytes of the frame at the front of a stream are known to be missing
/// after `received` came.
pub fn missing(received: &[u8], room: usize) -> (r: usize)
    ensures
        r == missing_bytes(received@, room as nat),
{
    if received.len() < 4 {
        return 4 - received.len();
    }
    let head: [u8; 4] = [received[0], received[1], received[2], received[3]];
    assert(head@ =~= received@.take(4));
    let len: usize = number4(&head) as usize;
    if len > room || len <= received.len() - 4 {
        0
    } else {
        len - (received.len() - 4)
    }
}

/// As long as bytes are missing, and no longer, a frame cannot be read. When
/// those that were missing came, nothing of what follows the frame was taken.
pub proof fn law_missing_bytes(s: Seq<u8>, more: Seq<u8>, room: nat)
    requires
        more.len() == missing_bytes(s, room),
    ensures
        missing_bytes(s, room) > 0 <==> frame_read(s, room).0 == Err::<Seq<u8>, ErrorView>(
            ErrorView::Read,
        ),
        s.len() >= 4 && more.len() > 0 ==> frame_read(s + more, room).0 is Ok && frame_read(
            s + more,
            room,
        ).1 == Seq::<u8>::empty(),
{
    if s.len() >= 4 && more.len() > 0 {
        let len = reader::big_endian(s.take(4));
        assert((s + more).take(4) =~= s.take(4));
        assert((s + more).skip((4 + len) as int) =~= Seq::<u8>::empty());
    }
}

/// A frame that fits is read as the message that it was made of.
proof fn lemma_frames(s: Seq<u8>, room: nat)
    ensures
        forall|wire: Seq<u8>, rest: Seq<u8>|
            s == #[trigger] (frame(wire) + rest) && wire.len() <= room && wire.len() <= u32::MAX
                ==> frame_read(s, room) == (Ok::<Seq<u8>, ErrorView>(wire), rest),
{
    assert forall|wire: Seq<u8>, rest: Seq<u8>|
        s == #[trigger] (frame(wire) + rest) && wire.len() <= room && wire.len()
            <= u32::MAX implies frame_read(s, room) == (Ok::<Seq<u8>, ErrorView>(wire), rest) by {
        let b = u32_bytes(wire.len() as u32);
        lemma_u32_bytes(wire.len() as u32);
        assert(s.take(4) =~= b);
        assert(s.subrange(4, (4 + wire.len()) as int) =~= wire);
        assert(s.skip((4 + wire.len()) as int) =~= rest);
    }
}

/// Four bytes spell the number that they are made of.
pub proof fn lemma_u32_bytes(v: u32)
    ensures
        u32_bytes(v).len() == 4,
        reader::big_endian(u32_bytes(v)) == v,
{
    reveal_with_fuel(net::octets, 5);
    reveal_with_fuel(reader::big_endian, 5);
    let o = u32_bytes(v);
    assert(o.drop_last() =~= net::octets(v as nat / 0x100, 3));
    assert(o.drop_last().drop_last() =~= net::octets(v as nat / 0x10000, 2));
    assert(o.drop_last().drop_last().drop_last() =~= net::octets(v as nat / 0x1000000, 1));
    assert(o.drop_last().drop_last().drop_last().drop_last() =~= Seq::<u8>::empty());
}

/// Reads a frame to the front of `buf`. The result is the length of its body.
pub fn read_frame(r: &mut ByteReader, buf: &mut [u8]) -> (res: Result<usize, SharedError>)
    ensures
        final(buf)@.len() == old(buf)@.len(),
        ({
            let (want, rest) = frame_read(old(r)@, old(buf)@.len());
            &&& final(r)@ == rest
            &&& match res {
                Ok(n) => n <= old(buf)@.len() && want == Ok::<Seq<u8>, ErrorView>(
                    final(buf)@.take(n as int),
                ) && final(buf)@.skip(n as int) == old(buf)@.skip(n as int),
                Err(e) => want == Err::<Seq<u8>, ErrorView>(e@) && final(buf)@ == old(buf)@,
            }
        }),
{
    let ghost s = r@;
    let wide = match r.read_u32() {
        Ok(v) => v,
        Err(e) => return Err(e),
    };
    let len: usize = wide as usize;
    if len > buf.len() {
        return Err(SharedError::BufSize);
    }
    let mut body: Vec<u8> = Vec::new();
    if let Err(e) = r.read_exact(len, &mut body) {
        return Err(e);
    }
    assert(body@ =~= s.subrange(4, 4 + len));
    assert(r@ =~= s.skip(4 + len));
    let mut i: usize = 0;
    while i < len
        invariant
            i <= len,
            len == body@.len(),
            len <= old(buf)@.len(),
            buf@.len() == old(buf)@.len(),
            buf@.take(i as int) == body@.take(i as int),
            buf@.skip(i as int) == old(buf)@.skip(i as int),
        decreases len - i,
    {
        let ghost before = buf@;
        buf[i] = body[i];
        i = i + 1;
        assert(buf@.take(i as int) =~= before.take(i - 1).push(body@[i - 1]));
        assert(body@.take(i as int) =~= body@.take(i - 1).push(body@[i - 1]));
        assert(buf@.skip(i as int) =~= before.skip(i - 1).skip(1));
        assert(old(buf)@.skip(i as int) =~= old(buf)@.skip(i - 1).skip(1));
    }
    assert(body@.take(len as int) =~= body@);
    Ok(len)
}

/// The four bytes of a number, the most significant first.
pub open spec fn u32_bytes(v: u32) -> Seq<u8> {
    net::octets(v as nat, 4)
}

/// The frame of a serialized message.
pub open spec fn frame(wire: Seq<u8>) -> Seq<u8> {
    u32_bytes(wire.len() as u32) + wire
}

/// Appends a number to a buffer, the most significant byte first.
fn write_u32(data: &mut Vec<u8>, v: u32)
    ensures
        final(data)@ == old(data)@ + u32_bytes(v),
{
    data.push((v / 0x1000000 % 0x100) as u8);
    data.push((v / 0x10000 % 0x100) as u8);
    data.push((v / 0x100 % 0x100) as u8);
    data.push((v % 0x100) as u8);
    proof {
        reveal_with_fuel(net::octets, 5);
    }
    assert(data@ =~= old(data)@ + u32_bytes(v));
}

impl<'a> StreamHelper<'a> for ServerHello<'a> {
    type Plain = (Seq<char>, Option<Seq<char>>);

    open spec fn plain(&self) -> (Seq<char>, Option<Seq<char>>) {
        (self.hello_string@, opt_view(self.requested_domain))
    }

    open spec fn wire(plain: (Seq<char>, Option<Seq<char>>)) -> Seq<u8> {
        hello_wire(plain)
    }

    open spec fn read(bytes: Seq<u8>) -> Option<(Seq<char>, Option<Seq<char>>)> {
        hello_read(bytes)
    }

    fn to_slice(&self, buf: &mut [u8]) -> (r: Result<usize, postcard::Error>) {
        to_slice_hello(self.hello_string, self.requested_domain, buf)
    }

    fn from_bytes(bytes: &'a [u8]) -> (r: Result<Self, postcard::Error>) {
        match from_bytes_hello(bytes) {
            Ok((hello_string, requested_domain)) => Ok(
                ServerHello { hello_string, requested_domain },
            ),
            Err(e) => Err(e),
        }
    }
}

impl<'a> StreamHelper<'a> for InitResponse {
    type Plain = (Seq<char>, u64);

    open spec fn plain(&self) -> (Seq<char>, u64) {
        (self.domain@, self.protocol_version)
    }

    open spec fn wire(plain: (Seq<char>, u64)) -> Seq<u8> {
        init_wire(plain)
    }

    open spec fn read(bytes: Seq<u8>) -> Option<(Seq<char>, u64)> {
        init_read(bytes)
    }

    fn to_slice(&self, buf: &mut [u8]) -> (r: Result<usize, postcard::Error>) {
        to_slice_init(self.domain.as_str(), self.protocol_version, buf)
    }

    fn from_bytes(bytes: &'a [u8]) -> (r: Result<Self, postcard::Error>) {
        match from_bytes_init(bytes) {
            Ok((domain, protocol_version)) => Ok(InitResponse::new(domain, protocol_version)),
            Err(e) => Err(e),
        }
    }
}

impl<'a> StreamHelper<'a> for Message {
    type Plain = Result<[u8; 32], u128>;

    open spec fn plain(&self) -> Result<[u8; 32], u128> {
        match *self {
            Message::HeartBeat(data) => Ok(data),
            Message::NewClient(id) => Err(id),
        }
    }

    open spec fn wire(plain: Result<[u8; 32], u128>) -> Seq<u8> {
        message_wire(plain)
    }

    open spec fn read(bytes: Seq<u8>) -> Option<Result<[u8; 32], u128>> {
        message_read(bytes)
    }

    fn to_slice(&self, buf: &mut [u8]) -> (r: Result<usize, postcard::Error>) {
        let plain: Result<[u8; 32], u128> = match self {
            Message::HeartBeat(data) => Ok(*data),
            Message::NewClient(id) => Err(*id),
        };
        to_slice_message(&plain, buf)
    }

    fn from_bytes(bytes: &'a [u8]) -> (r: Result<Self, postcard::Error>) {
        match from_bytes_message(bytes) {
            Ok(Ok(data)) => Ok(Message::HeartBeat(data)),
            Ok(Err(id)) => Ok(Message::NewClient(id)),
            Err(e) => Err(e),
        }
    }
}

/// A number is what its octets spell.
proof fn lemma_octets(v: nat, n: nat)
    requires
        v < vstd::arithmetic::power2::pow2(8 * n),
    ensures
        net::octets(v, n).len() == n,
        reader::big_endian(net::octets(v, n)) == v,
    decreases n,
{
    vstd::arithmetic::power2::lemma2_to64();
    if n > 0 {
        let m = (n - 1) as nat;
        vstd::arithmetic::power2::lemma_pow2_adds(8 * m, 8);
        assert(v / 0x100 < vstd::arithmetic::power2::pow2(8 * m));
        lemma_octets(v / 0x100, m);
        assert(net::octets(v, n).drop_last() =~= net::octets(v / 0x100, m));
    }
}

/// A number of octets is as many octets.
pub proof fn lemma_octets_len(v: nat, n: nat)
    ensures
        net::octets(v, n).len() == n,
    decreases n,
{
    if n > 0 {
        lemma_octets_len(v / 0x100, (n - 1) as nat);
    }
}

/// Numbers that fit into their octets are equal where these are.
pub proof fn lemma_octets_injective(a: nat, b: nat, n: nat)
    requires
        a < vstd::arithmetic::power2::pow2(8 * n),
        b < vstd::arithmetic::power2::pow2(8 * n),
    ensures
        net::octets(a, n).len() == n,
        net::octets(b, n).len() == n,
        net::octets(a, n) == net::octets(b, n) ==> a == b,
{
    lemma_octets(a, n);
    lemma_octets(b, n);
}

/// The number of a connection is read as it was sent.
pub proof fn law_id_round_trip(id: u128)
    ensures
        net::octets(id as nat, 16).len() == 16,
        reader::big_endian(net::octets(id as nat, 16)) == id,
{
    vstd::arithmetic::power2::lemma2_to64();
    vstd::arithmetic::power2::lemma2_to64_rest();
    vstd::arithmetic::power2::lemma_pow2_adds(64, 64);
    lemma_octets(id as nat, 16);
}

/// Octets are those of the number that they spell.
pub proof fn lemma_spelled(s: Seq<u8>)
    ensures
        net::octets(reader::big_endian(s), s.len()) == s,
        reader::big_endian(s) < vstd::arithmetic::power2::pow2(8 * s.len()),
    decreases s.len(),
{
    vstd::arithmetic::power2::lemma2_to64();
    if s.len() > 0 {
        lemma_spelled(s.drop_last());
        vstd::arithmetic::power2::lemma_pow2_adds(8 * s.drop_last().len(), 8);
        let v = reader::big_endian(s);
        assert(v / 0x100 == reader::big_endian(s.drop_last()));
        assert(v % 0x100 == s.last());
        assert(net::octets(v, s.len()) =~= s);
    } else {
        assert(net::octets(0, 0) =~= s);
    }
}

/// The four octets of a number, the most significant first.
pub fn octets4(v: u32) -> (r: [u8; 4])
    ensures
        r@ == net::octets(v as nat, 4),
{
    let r: [u8; 4] = [
        (v / 0x1000000 % 0x100) as u8,
        (v / 0x10000 % 0x100) as u8,
        (v / 0x100 % 0x100) as u8,
        (v % 0x100) as u8,
    ];
    proof {
        reveal_with_fuel(net::octets, 5);
    }
    assert(r@ =~= net::octets(v as nat, 4));
    r
}

/// The sixteen octets of a number, the most significant first, as the number of
/// a connection is sent.
pub fn octets16(v: u128) -> (r: [u8; 16])
    ensures
        r@ == net::octets(v as nat, 16),
{
    let mut r: [u8; 16] = [0u8; 16];
    let mut rest: u128 = v;
    let mut n: usize = 16;
    assert(r@.skip(16) =~= Seq::<u8>::empty());
    assert(net::octets(v as nat, 16) + Seq::<u8>::empty() =~= net::octets(v as nat, 16));
    while n > 0
        invariant
            n <= 16,
            net::octets(rest as nat, n as nat) + r@.skip(n as int) == net::octets(v as nat, 16),
        decreases n,
    {
        let ghost before = r@;
        let low: u8 = (rest % 0x100) as u8;
        r[n - 1] = low;
        assert(net::octets(rest as nat, n as nat) + before.skip(n as int) =~= net::octets(
            (rest / 0x100) as nat,
            (n - 1) as nat,
        ) + r@.skip(n - 1));
        rest = rest / 0x100;
        n = n - 1;
    }
    assert(net::octets(rest as nat, 0) + r@.skip(0) =~= r@);
    r
}

fn number4(o: &[u8; 4]) -> (r: u32)
    ensures
        r == reader::big_endian(o@),
{
    proof {
        reveal_with_fuel(reader::big_endian, 5);
        let s = o@;
        assert(s.drop_last().drop_last().drop_last().drop_last() =~= Seq::<u8>::empty());
    }
    o[0] as u32 * 0x1000000 + o[1] as u32 * 0x10000 + o[2] as u32 * 0x100 + o[3] as u32
}

/// The number with these sixteen octets, as the number of a connection is read.
pub fn number16(o: &[u8; 16]) -> (r: u128)
    ensures
        r == reader::big_endian(o@),
{
    let mut r: u128 = 0;
    let mut i: usize = 0;
    assert(o@.take(0) =~= Seq::<u8>::empty());
    proof {
        vstd::arithmetic::power2::lemma2_to64();
    }
    while i < 16
        invariant
            i <= 16,
            r == reader::big_endian(o@.take(i as int)),
            r < vstd::arithmetic::power2::pow2((8 * i) as nat),
        decreases 16 - i,
    {
        let ghost front = o@.take(i + 1);
        assert(front.drop_last() =~= o@.take(i as int));
        proof {
            lemma_spelled(front);
            vstd::arithmetic::power2::lemma2_to64();
            vstd::arithmetic::power2::lemma2_to64_rest();
            vstd::arithmetic::power2::lemma_pow2_adds(64, 64);
            if i < 15 {
                vstd::arithmetic::power2::lemma_pow2_strictly_increases((8 * (i + 1)) as nat, 128);
            }
        }
        r = r * 0x100 + o[i] as u128;
        i = i + 1;
    }
    assert(o@.take(16) =~= o@);
    r
}

impl<'a> StreamHelper<'a> for Addr {
    type Plain = (SocketAddr, Option<Seq<char>>);

    open spec fn plain(&self) -> (SocketAddr, Option<Seq<char>>) {
        (self.addr, opt_string(self.username))
    }

    open spec fn wire(plain: (SocketAddr, Option<Seq<char>>)) -> Seq<u8> {
        addr_wire((raw_addr(plain.0), plain.1))
    }

    open spec fn read(bytes: Seq<u8>) -> Option<(SocketAddr, Option<Seq<char>>)> {
        match addr_read(bytes) {
            Some((raw, username)) => Some((addr_of(raw), username)),
            None => None,
        }
    }

    fn to_slice(&self, buf: &mut [u8]) -> (r: Result<usize, postcard::Error>) {
        let raw: ArrayAddr = match self.addr.ip {
            IpAddr::V4(v) => Ok((octets4(v), self.addr.port)),
            IpAddr::V6(v) => Err((octets16(v), self.addr.port)),
        };
        let username = match &self.username {
            Some(s) => Some(s.as_str()),
            None => None,
        };
        to_slice_addr(&raw, username, buf)
    }

    fn from_bytes(bytes: &'a [u8]) -> (r: Result<Self, postcard::Error>) {
        let read = from_bytes_addr(bytes);
        proof {
            assert forall|plain: (SocketAddr, Option<Seq<char>>), rest: Seq<u8>|
                bytes@ == #[trigger] (Self::wire(plain) + rest) implies Self::read(bytes@) == Some(
                plain,
            ) by {
                lemma_addr(plain.0);
                assert(bytes@ == addr_wire((raw_addr(plain.0), plain.1)) + rest);
            }
        }
        match read {
            Ok((raw, username)) => {
                let addr = match raw {
                    Ok((o, port)) => SocketAddr { ip: IpAddr::V4(number4(&o)), port },
                    Err((o, port)) => SocketAddr { ip: IpAddr::V6(number16(&o)), port },
                };
                Ok(Addr { addr, username })
            },
            Err(e) => Err(e),
        }
    }
}

/// An address is the one that has its octets and its port.
proof fn lemma_addr(a: SocketAddr)
    ensures
        raw_valid(raw_addr(a)),
        addr_of(raw_addr(a)) == a,
{
    vstd::arithmetic::power2::lemma2_to64();
    vstd::arithmetic::power2::lemma2_to64_rest();
    vstd::arithmetic::power2::lemma_pow2_adds(64, 64);
    match a.ip {
        IpAddr::V4(v) => lemma_octets(v as nat, 4),
        IpAddr::V6(v) => lemma_octets(v as nat, 16),
    }
}

} // verus!
