//! The packet with which a client is turned away.

use crate::text::concat3;
use crate::varint;
use crate::varint::encode_varint;
use vstd::prelude::*;
use vstd::utf8;

verus! {

/// The number of the packet.
pub const DISCONNECT_PACKET_ID: u8 = 0;

/// Why a client is turned away.
#[derive(Debug, Clone)]
pub struct DisconnectMessage<'a>(pub &'a str);

/// What the client is shown, as JSON. The message is taken over as it is.
pub open spec fn disconnect_json(msg: Seq<char>) -> Seq<char> {
    "{\"text\":\""@ + msg + "\"}"@
}

/// What follows the length of the packet: its number, and the text behind its
/// length.
pub open spec fn disconnect_body(msg: Seq<char>) -> Seq<u8> {
    let json = utf8::encode_utf8(disconnect_json(msg));
    seq![DISCONNECT_PACKET_ID] + varint::varint_bytes(json.len()) + json
}

/// The packet, behind its length.
pub open spec fn disconnect_bytes(msg: Seq<char>) -> Seq<u8> {
    varint::varint_bytes(disconnect_body(msg).len()) + disconnect_body(msg)
}

/// Appends a number as a varint.
fn append_varint(writer: &mut Vec<u8>, value: u64)
    ensures
        final(writer)@ == old(writer)@ + varint::varint_bytes(value as nat),
{
    let (arr, len) = encode_varint(value);
    let used = vstd::slice::slice_subrange(vstd::array::array_as_slice(&arr), 0, len);
    assert(used@ =~= arr@.take(len as int));
    writer.extend_from_slice(used);
}

impl<'a> DisconnectMessage<'a> {
    /// Appends the packet.
    pub fn encode(&self, writer: &mut Vec<u8>)
        requires
            utf8::encode_utf8(disconnect_json(self.0@)).len() + 11 <= usize::MAX,
        ensures
            final(writer)@ == old(writer)@ + disconnect_bytes(self.0@),
    {
        let s = concat3("{\"text\":\"", self.0, "\"}");
        let json = s.as_str().as_bytes();
        let s_len: usize = json.len();
        let (arr, len) = encode_varint(s_len as u64);
        assert(varint::varint_bytes(s_len as nat).len() == len) by {
            assert(arr@.take(len as int).len() == len);
        }
        append_varint(writer, (1 + len + s_len) as u64);
        writer.push(DISCONNECT_PACKET_ID);
        append_varint(writer, s_len as u64);
        writer.extend_from_slice(json);
        assert(writer@ =~= old(writer)@ + disconnect_bytes(self.0@));
    }
}

/// A client reads the length of the packet, and then finds exactly as many bytes
/// as it says: the number of the packet, and the text behind its length.
pub proof fn law_disconnect_is_understood(msg: Seq<char>)
    requires
        utf8::encode_utf8(disconnect_json(msg)).len() + 11 <= u64::MAX,
    ensures
        ({
            let packet = disconnect_bytes(msg);
            let json = utf8::encode_utf8(disconnect_json(msg));
            &&& varint::varint_read(packet) matches Ok((len, used))
            &&& packet.len() == used + len
            &&& packet[used as int] == DISCONNECT_PACKET_ID
            &&& varint::varint_read(packet.skip((used + 1) as int)) matches Ok((n, used2))
            &&& packet.skip((used + 1 + used2) as int) == json
            &&& n == json.len()
        }),
{
    let json = utf8::encode_utf8(disconnect_json(msg));
    let body = disconnect_body(msg);
    let packet = disconnect_bytes(msg);
    varint::law_varint_length(json.len() as u64);
    varint::law_varint_round_trip(body.len() as u64, body);
    varint::law_varint_round_trip(json.len() as u64, json);
    let used = varint::varint_bytes(body.len()).len() as int;
    assert(packet.skip(used + 1) =~= varint::varint_bytes(json.len()) + json);
    assert(packet.skip(used + 1 + varint::varint_bytes(json.len()).len()) =~= json);
}

} // verus!
