//! The messages between the proxy and a server.

use crate::net::SocketAddr;
use vstd::prelude::*;

verus! {

/// The number of the protocol. It is incremented every time the protocol
/// changes.
pub const PROTOCOL_VERSION: u64 = 4;

/// What every server says first.
pub const HELLO_STRING: &'static str = "mineshare";

/// Messages that the proxy sends to a server through their first connection.
#[derive(Debug, Clone)]
pub enum Message {
    /// Request to the server to echo back these bytes.
    HeartBeat([u8; 32]),
    /// Request to the server to open the stream through which the connection of
    /// a client will be proxied.
    NewClient(u128),
}

/// Response to the first connection, sent from the proxy to the server: the
/// domain that it is assigned, and the proxy's protocol number.
#[derive(Debug, Clone)]
pub struct InitResponse {
    /// The domain that was assigned to the server.
    pub domain: String,
    /// Protocol version of the proxy, not of Minecraft.
    pub protocol_version: u64,
}

impl InitResponse {
    /// A response with this domain and version.
    #[must_use]
    pub fn new(domain: String, protocol_version: u64) -> (r: Self)
        ensures
            r.domain == domain,
            r.protocol_version == protocol_version,
    {
        Self { domain, protocol_version }
    }
}

/// The address of a client, and the name of its player where it is known.
#[derive(Debug, Clone)]
pub struct Addr {
    pub addr: SocketAddr,
    pub username: Option<String>,
}

/// A simple hello string from server to proxy, which shows that the server is a
/// valid mineshare server, and an optional domain that the server requests.
#[derive(Debug, Clone)]
pub struct ServerHello<'a> {
    pub hello_string: &'a str,
    pub requested_domain: Option<&'a str>,
}

impl<'a> ServerHello<'a> {
    /// The hello of a valid server, with the domain that it requests.
    #[must_use]
    pub fn new(requested_domain: Option<&'a str>) -> (r: ServerHello<'a>)
        ensures
            r.hello_string@ == HELLO_STRING@,
            r.requested_domain == requested_domain,
    {
        ServerHello { hello_string: HELLO_STRING, requested_domain }
    }
}

} // verus!
