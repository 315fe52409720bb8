//! The connection to the proxy, through which a server is shared.

use crate::byte_map::ByteMap;
use crate::client_impls::types::{
    ClientStatusUpdate, ConnectOptions, ConnectView, ServerEvent, ServerEventView, UiEvent,
};
use crate::codec;
use crate::message::{Addr, InitResponse, Message, PROTOCOL_VERSION};
use crate::net;
use crate::net::{IpAddr, SocketAddr};
use crate::proxy;
use crate::proxy::{SessionActionView, SessionEvent, SessionView};
use crate::text;
use crate::text::{concat, concat3, decimal, text_eq};
use vstd::prelude::*;

verus! {

/// The octets of an address and of its port, by which a player is found.
pub open spec fn addr_key(addr: SocketAddr) -> Seq<u8> {
    match addr.ip {
        IpAddr::V4(v) => net::octets(v as nat, 4) + net::octets(addr.port as nat, 2),
        IpAddr::V6(v) => net::octets(v as nat, 16) + net::octets(addr.port as nat, 2),
    }
}

/// Where the octets of the host end, those of the port follow.
proof fn lemma_split(host1: nat, port1: u16, host2: nat, port2: u16, n: nat)
    requires
        host1 < vstd::arithmetic::power2::pow2(8 * n),
        host2 < vstd::arithmetic::power2::pow2(8 * n),
        net::octets(host1, n) + net::octets(port1 as nat, 2) == net::octets(host2, n) + net::octets(
            port2 as nat,
            2,
        ),
    ensures
        host1 == host2,
        port1 == port2,
{
    vstd::arithmetic::power2::lemma2_to64();
    let key1 = net::octets(host1, n) + net::octets(port1 as nat, 2);
    let key2 = net::octets(host2, n) + net::octets(port2 as nat, 2);
    codec::lemma_octets_injective(host1, host2, n);
    codec::lemma_octets_injective(port1 as nat, port2 as nat, 2);
    assert(key1.take(n as int) =~= net::octets(host1, n));
    assert(key2.take(n as int) =~= net::octets(host2, n));
    assert(key1.skip(n as int) =~= net::octets(port1 as nat, 2));
    assert(key2.skip(n as int) =~= net::octets(port2 as nat, 2));
}

/// No two addresses have the same octets.
pub proof fn lemma_addr_key(a: SocketAddr, b: SocketAddr)
    ensures
        addr_key(a) == addr_key(b) ==> a == b,
{
    vstd::arithmetic::power2::lemma2_to64();
    vstd::arithmetic::power2::lemma2_to64_rest();
    vstd::arithmetic::power2::lemma_pow2_adds(64, 64);
    codec::lemma_octets_len(a.port as nat, 2);
    codec::lemma_octets_len(b.port as nat, 2);
    if addr_key(a) == addr_key(b) {
        match (a.ip, b.ip) {
            (IpAddr::V4(x), IpAddr::V4(y)) => lemma_split(x as nat, a.port, y as nat, b.port, 4),
            (IpAddr::V6(x), IpAddr::V6(y)) => lemma_split(x as nat, a.port, y as nat, b.port, 16),
            (IpAddr::V4(x), IpAddr::V6(y)) => {
                codec::lemma_octets_len(x as nat, 4);
                codec::lemma_octets_len(y as nat, 16);
                assert(addr_key(a).len() != addr_key(b).len());
            },
            (IpAddr::V6(x), IpAddr::V4(y)) => {
                codec::lemma_octets_len(x as nat, 16);
                codec::lemma_octets_len(y as nat, 4);
                assert(addr_key(a).len() != addr_key(b).len());
            },
        }
    }
}

/// Writes the octets of an address and of its port.
fn make_key(addr: SocketAddr) -> (r: Vec<u8>)
    ensures
        r@ == addr_key(addr),
{
    let mut key: Vec<u8> = Vec::new();
    match addr.ip {
        IpAddr::V4(v) => {
            let o = codec::octets4(v);
            key.extend_from_slice(vstd::array::array_as_slice(&o));
        },
        IpAddr::V6(v) => {
            let o = codec::octets16(v);
            key.extend_from_slice(vstd::array::array_as_slice(&o));
        },
    }
    key.push((addr.port / 0x100) as u8);
    key.push((addr.port % 0x100) as u8);
    proof {
        reveal_with_fuel(net::octets, 3);
        assert(net::octets(addr.port as nat, 2) =~= seq![
            (addr.port / 0x100) as u8,
            (addr.port % 0x100) as u8,
        ]);
    }
    assert(key@ =~= addr_key(addr));
    key
}

/// The players that are connected, each with what cuts it off.
#[derive(Debug)]
#[verifier::reject_recursive_types(T)]
pub struct ClientTable<T> {
    tokens: ByteMap<T>,
}

impl<T> ClientTable<T> {
    /// The players that are connected, each with what cuts it off.
    pub closed spec fn view(&self) -> Map<SocketAddr, T> {
        Map::new(
            |a: SocketAddr| self.tokens@.dom().contains(addr_key(a)),
            |a: SocketAddr| self.tokens@[addr_key(a)],
        )
    }

    /// No players.
    pub fn new() -> (r: Self)
        ensures
            r@ == Map::<SocketAddr, T>::empty(),
    {
        let r = ClientTable { tokens: ByteMap::new() };
        assert(r@ =~= Map::<SocketAddr, T>::empty());
        r
    }

    /// Takes in a player.
    pub fn insert(&mut self, addr: SocketAddr, token: T)
        ensures
            final(self)@ == old(self)@.insert(addr, token),
    {
        self.tokens.insert(make_key(addr), token);
        assert forall|a: SocketAddr| addr_key(a) == addr_key(addr) implies a == addr by {
            lemma_addr_key(a, addr);
        }
        assert(self@ =~= old(self)@.insert(addr, token));
    }

    /// Takes out a player. The result is what cuts it off.
    pub fn remove(&mut self, addr: SocketAddr) -> (r: Option<T>)
        ensures
            final(self)@ == old(self)@.remove(addr),
            match r {
                Some(token) => old(self)@.dom().contains(addr) && token == old(self)@[addr],
                None => !old(self)@.dom().contains(addr),
            },
    {
        let key = make_key(addr);
        let r = self.tokens.remove(key.as_slice());
        assert forall|a: SocketAddr| addr_key(a) == addr_key(addr) implies a == addr by {
            lemma_addr_key(a, addr);
        }
        assert(self@ =~= old(self)@.remove(addr));
        r
    }
}

/// How far the connection is.
#[derive(Debug, Clone, Copy, PartialEq, Eq, Structural)]
pub enum Stage {
    /// The proxy is being connected to.
    Connecting,
    /// The proxy is being greeted.
    Greeting,
    /// The proxy has to assign a domain.
    Waiting,
    /// The server is shared.
    Sharing,
    /// The connection ended.
    Ended,
}

/// The connection to the proxy.
#[derive(Debug)]
#[verifier::reject_recursive_types(T)]
pub struct Share<T> {
    pub stage: Stage,
    pub options: ConnectOptions,
    pub clients: ClientTable<T>,
}

/// A [`Share`] with its parts as sequences and maps.
#[verifier::reject_recursive_types(T)]
pub struct ShareView<T> {
    pub stage: Stage,
    pub options: ConnectView,
    pub clients: Map<SocketAddr, T>,
}

impl<T> Share<T> {
    pub open spec fn view(&self) -> ShareView<T> {
        ShareView { stage: self.stage, options: self.options@, clients: self.clients@ }
    }
}

/// What happens to the connection. A reason is given as text.
#[derive(Debug)]
pub enum ShareEvent<T> {
    /// The proxy was connected to.
    Connected,
    /// The proxy was not connected to in time.
    ConnectTimedOut,
    /// The proxy could not be connected to.
    ConnectFailed(String),
    /// The proxy was greeted.
    HelloSent,
    /// The proxy could not be greeted.
    HelloFailed(String),
    /// The proxy answered.
    Answered(InitResponse),
    /// The answer of the proxy could not be read.
    AnswerFailed(String),
    /// A message of the proxy came.
    Received(Message),
    /// A message of the proxy could not be read.
    ReceiveFailed(String),
    /// A heartbeat could not be answered.
    EchoFailed(String),
    /// The screens tell something.
    Ui(UiEvent),
    /// The connection of a player tells something.
    Client(ClientStatusUpdate<T>),
    /// The screens, or the connections of the players, will tell nothing more.
    Closed,
}

/// What is done next.
#[derive(Debug)]
pub enum ShareAction<T> {
    /// Wait for what happens.
    Wait,
    /// Greet the proxy.
    SendHello,
    /// Read the answer of the proxy.
    ReadAnswer,
    /// Report this, and share.
    Serve(ServerEvent),
    /// Send these bytes back.
    Echo([u8; 32]),
    /// Open the connection of a player with this number.
    Open(u128),
    /// Cut off a player.
    Cut(T),
    /// Report this, and end.
    Fail(ServerEvent),
    /// Report this if there is anything, cut off all players, report that
    /// sharing stopped, and end.
    Stop(Option<ServerEvent>),
}

/// A [`ShareAction`] with its texts as sequences.
#[verifier::reject_recursive_types(T)]
pub enum ShareActionView<T> {
    Wait,
    SendHello,
    ReadAnswer,
    Serve(ServerEventView),
    Echo([u8; 32]),
    Open(u128),
    Cut(T),
    Fail(ServerEventView),
    Stop(Option<ServerEventView>),
}

impl<T> ShareAction<T> {
    pub open spec fn view(&self) -> ShareActionView<T> {
        match *self {
            ShareAction::Wait => ShareActionView::Wait,
            ShareAction::SendHello => ShareActionView::SendHello,
            ShareAction::ReadAnswer => ShareActionView::ReadAnswer,
            ShareAction::Serve(e) => ShareActionView::Serve(e@),
            ShareAction::Echo(data) => ShareActionView::Echo(data),
            ShareAction::Open(id) => ShareActionView::Open(id),
            ShareAction::Cut(token) => ShareActionView::Cut(token),
            ShareAction::Fail(e) => ShareActionView::Fail(e@),
            ShareAction::Stop(e) => ShareActionView::Stop(
                match e {
                    Some(e) => Some(e@),
                    None => None,
                },
            ),
        }
    }
}

/// What an answer of the proxy leads to, where a domain was requested or not.
pub open spec fn answered(
    request_domain: Option<Seq<char>>,
    domain: Seq<char>,
    protocol_version: u64,
) -> ServerEventView {
    if protocol_version != PROTOCOL_VERSION {
        ServerEventView::InvalidProtocolVersion(protocol_version)
    } else if request_domain is Some && request_domain != Some(domain) {
        ServerEventView::DidntGetRequestedUrl(domain)
    } else {
        ServerEventView::Url(domain)
    }
}

/// What an event leads to: the connection, and what is done. What comes out of
/// turn changes nothing.
pub open spec fn share_step<T>(s: ShareView<T>, event: ShareEvent<T>) -> (
    ShareView<T>,
    ShareActionView<T>,
) {
    let at = |stage: Stage| ShareView { stage, ..s };
    let fail = |e: ServerEventView| (at(Stage::Ended), ShareActionView::<T>::Fail(e));
    let failed = |front: Seq<char>, e: Seq<char>|
        fail(ServerEventView::ServerConnectionFailed(front + e));
    let stop = |e: Option<ServerEventView>| (at(Stage::Ended), ShareActionView::<T>::Stop(e));
    match (s.stage, event) {
        (Stage::Connecting, ShareEvent::Connected) => (
            at(Stage::Greeting),
            ShareActionView::SendHello,
        ),
        (Stage::Connecting, ShareEvent::ConnectTimedOut) => fail(
            ServerEventView::ServerConnectionFailedTimeout,
        ),
        (Stage::Connecting, ShareEvent::ConnectFailed(e)) => failed(
            "Failed to connect to server: "@,
            e@,
        ),
        (Stage::Greeting, ShareEvent::HelloSent) => (
            at(Stage::Waiting),
            ShareActionView::ReadAnswer,
        ),
        (Stage::Greeting, ShareEvent::HelloFailed(e)) => failed("Failed to send Hello: "@, e@),
        (Stage::Waiting, ShareEvent::AnswerFailed(e)) => failed(
            "Failed to fetch domain from proxy server: "@,
            e@,
        ),
        (Stage::Waiting, ShareEvent::Answered(r)) => {
            let e = answered(s.options.request_domain, r.domain@, r.protocol_version);
            if e is Url {
                (at(Stage::Sharing), ShareActionView::Serve(e))
            } else {
                fail(e)
            }
        },
        (Stage::Sharing, ShareEvent::Received(Message::HeartBeat(data))) => (
            s,
            ShareActionView::Echo(data),
        ),
        (Stage::Sharing, ShareEvent::Received(Message::NewClient(id))) => (
            s,
            ShareActionView::Open(id),
        ),
        (Stage::Sharing, ShareEvent::ReceiveFailed(e)) => stop(
            Some(
                ServerEventView::ServerConnectionFailed(
                    "Error parsing message send by server: "@ + e@,
                ),
            ),
        ),
        (Stage::Sharing, ShareEvent::EchoFailed(e)) => stop(
            Some(
                ServerEventView::ServerConnectionFailed(
                    "Sending heartbeat to server failed: "@ + e@,
                ),
            ),
        ),
        (Stage::Sharing, ShareEvent::Ui(UiEvent::Stop)) => stop(None),
        (Stage::Sharing, ShareEvent::Closed) => stop(None),
        (Stage::Sharing, ShareEvent::Ui(UiEvent::Disconnect(addr))) => (
            ShareView { clients: s.clients.remove(addr), ..s },
            if s.clients.dom().contains(addr) {
                ShareActionView::Cut(s.clients[addr])
            } else {
                ShareActionView::Wait
            },
        ),
        (Stage::Sharing, ShareEvent::Client(ClientStatusUpdate::Connected { addr, token })) => (
            ShareView { clients: s.clients.insert(addr, token), ..s },
            ShareActionView::Wait,
        ),
        (Stage::Sharing, ShareEvent::Client(ClientStatusUpdate::Disconnected { addr })) => (
            ShareView { clients: s.clients.remove(addr), ..s },
            ShareActionView::Wait,
        ),
        _ => (s, ShareActionView::Wait),
    }
}

/// The event of a connection that failed.
fn failed_event(front: &str, reason: &String) -> (r: ServerEvent)
    ensures
        r@ == ServerEventView::ServerConnectionFailed(front@ + reason@),
{
    ServerEvent::ServerConnectionFailed(concat(front, reason.as_str()))
}

/// What an answer of the proxy leads to, where a domain was requested or not.
pub fn check_answer(request_domain: &Option<String>, response: InitResponse) -> (r: ServerEvent)
    ensures
        r@ == answered(
            codec::opt_string(*request_domain),
            response.domain@,
            response.protocol_version,
        ),
{
    if response.protocol_version != PROTOCOL_VERSION {
        return ServerEvent::InvalidProtocolVersion(response.protocol_version);
    }
    if let Some(d) = request_domain {
        if !text_eq(d.as_str(), response.domain.as_str()) {
            return ServerEvent::DidntGetRequestedUrl(response.domain);
        }
    }
    ServerEvent::Url(response.domain)
}

impl<T> Share<T> {
    /// A connection that is about to be made.
    pub fn new(options: ConnectOptions) -> (r: Self)
        ensures
            r@ == (ShareView {
                stage: Stage::Connecting,
                options: options@,
                clients: Map::<SocketAddr, T>::empty(),
            }),
    {
        Share { stage: Stage::Connecting, options, clients: ClientTable::new() }
    }

    /// Works an event into the connection.
    pub fn step(&mut self, event: ShareEvent<T>) -> (r: ShareAction<T>)
        ensures
            (final(self)@, r@) == share_step(old(self)@, event),
    {
        match (self.stage, event) {
            (Stage::Connecting, ShareEvent::Connected) => {
                self.stage = Stage::Greeting;
                ShareAction::SendHello
            },
            (Stage::Connecting, ShareEvent::ConnectTimedOut) => {
                self.stage = Stage::Ended;
                ShareAction::Fail(ServerEvent::ServerConnectionFailedTimeout)
            },
            (Stage::Connecting, ShareEvent::ConnectFailed(e)) => {
                self.stage = Stage::Ended;
                ShareAction::Fail(failed_event("Failed to connect to server: ", &e))
            },
            (Stage::Greeting, ShareEvent::HelloSent) => {
                self.stage = Stage::Waiting;
                ShareAction::ReadAnswer
            },
            (Stage::Greeting, ShareEvent::HelloFailed(e)) => {
                self.stage = Stage::Ended;
                ShareAction::Fail(failed_event("Failed to send Hello: ", &e))
            },
            (Stage::Waiting, ShareEvent::AnswerFailed(e)) => {
                self.stage = Stage::Ended;
                ShareAction::Fail(failed_event("Failed to fetch domain from proxy server: ", &e))
            },
            (Stage::Waiting, ShareEvent::Answered(response)) => {
                let e = check_answer(&self.options.request_domain, response);
                if let ServerEvent::Url(_) = &e {
                    self.stage = Stage::Sharing;
                    ShareAction::Serve(e)
                } else {
                    self.stage = Stage::Ended;
                    ShareAction::Fail(e)
                }
            },
            (Stage::Sharing, ShareEvent::Received(Message::HeartBeat(data))) => ShareAction::Echo(
                data,
            ),
            (Stage::Sharing, ShareEvent::Received(Message::NewClient(id))) => ShareAction::Open(id),
            (Stage::Sharing, ShareEvent::ReceiveFailed(e)) => {
                self.stage = Stage::Ended;
                ShareAction::Stop(
                    Some(failed_event("Error parsing message send by server: ", &e)),
                )
            },
            (Stage::Sharing, ShareEvent::EchoFailed(e)) => {
                self.stage = Stage::Ended;
                ShareAction::Stop(Some(failed_event("Sending heartbeat to server failed: ", &e)))
            },
            (Stage::Sharing, ShareEvent::Ui(UiEvent::Stop)) => {
                self.stage = Stage::Ended;
                ShareAction::Stop(None)
            },
            (Stage::Sharing, ShareEvent::Closed) => {
                self.stage = Stage::Ended;
                ShareAction::Stop(None)
            },
            (Stage::Sharing, ShareEvent::Ui(UiEvent::Disconnect(addr))) => {
                match self.clients.remove(addr) {
                    Some(token) => ShareAction::Cut(token),
                    None => ShareAction::Wait,
                }
            },
            (
                Stage::Sharing,
                ShareEvent::Client(ClientStatusUpdate::Connected { addr, token }),
            ) => {
                self.clients.insert(addr, token);
                ShareAction::Wait
            },
            (Stage::Sharing, ShareEvent::Client(ClientStatusUpdate::Disconnected { addr })) => {
                let _gone = self.clients.remove(addr);
                ShareAction::Wait
            },
            _ => ShareAction::Wait,
        }
    }
}

/// What the screens ask for while nothing is shared. All but the start of
/// sharing changes nothing then.
pub fn server_thread(event: UiEvent) -> (r: Option<ConnectOptions>)
    ensures
        r == match event {
            UiEvent::Start(options) => Some(options),
            _ => None,
        },
{
    match event {
        UiEvent::Start(options) => Some(options),
        UiEvent::Stop => None,
        UiEvent::Disconnect(_) => None,
    }
}

/// A host with a port.
pub open spec fn host_port(host: Seq<char>, port: u16) -> Seq<char> {
    host + ":"@ + text::decimal_text(port as nat)
}

fn with_port(host: &str, port: u16) -> (r: String)
    ensures
        r@ == host_port(host@, port),
{
    let number = decimal(port as u64);
    concat3(host, ":", number.as_str())
}

impl ConnectOptions {
    /// Where the proxy is greeted.
    pub fn init_address(&self) -> (r: String)
        ensures
            r@ == host_port(self.proxy_server@, self.proxy_server_init_port),
    {
        with_port(self.proxy_server.as_str(), self.proxy_server_init_port)
    }

    /// Where the proxy expects the connections of players.
    pub fn play_address(&self) -> (r: String)
        ensures
            r@ == host_port(self.proxy_server@, self.proxy_server_play_port),
    {
        with_port(self.proxy_server.as_str(), self.proxy_server_play_port)
    }
}

/// How far the connection of a player is.
#[derive(Debug)]
pub enum Join {
    /// The proxy is being connected to.
    Dialing,
    /// The Minecraft server is being connected to.
    Reaching,
    /// The proxy has to be told the number of the connection.
    Naming,
    /// The proxy has to say who the player is.
    Meeting,
    /// The player plays.
    Playing(Addr),
    /// The connection ended.
    Gone,
}

/// A [`Join`] with its text as a sequence.
pub enum JoinView {
    Dialing,
    Reaching,
    Naming,
    Meeting,
    Playing(SocketAddr, Option<Seq<char>>),
    Gone,
}

impl View for Join {
    type V = JoinView;

    open spec fn view(&self) -> JoinView {
        match *self {
            Join::Dialing => JoinView::Dialing,
            Join::Reaching => JoinView::Reaching,
            Join::Naming => JoinView::Naming,
            Join::Meeting => JoinView::Meeting,
            Join::Playing(addr) => JoinView::Playing(addr.addr, codec::opt_string(addr.username)),
            Join::Gone => JoinView::Gone,
        }
    }
}

/// What happens to the connection of a player. A reason is given as text.
#[derive(Debug)]
pub enum JoinEvent {
    /// The proxy was connected to.
    ProxyConnected,
    /// The proxy could not be connected to.
    ProxyFailed(String),
    /// The Minecraft server was connected to.
    ServerConnected,
    /// The Minecraft server could not be connected to.
    ServerFailed(String),
    /// The proxy was told the number of the connection.
    IdSent,
    /// The proxy could not be told the number of the connection.
    IdFailed(String),
    /// The proxy said who the player is.
    Met(Addr),
    /// It could not be read who the player is.
    MeetFailed(String),
    /// The player is to be cut off.
    Cancelled,
    /// One side ended.
    Finished,
}

/// What is done next for a player.
#[derive(Debug)]
pub enum JoinAction {
    /// Nothing.
    Nothing,
    /// Connect to the Minecraft server.
    ConnectServer,
    /// Tell the proxy the number of the connection.
    SendId,
    /// Read who the player is.
    ReadAddr,
    /// Register the player, report this, and pass on what both sides send.
    Play(ServerEvent),
    /// Report this, shut both sides down where it is asked for, and end.
    Fail(ServerEvent, bool),
    /// Shut both sides down where it is asked for, report this if there is
    /// anything, unregister the player, and end.
    Leave(Option<ServerEvent>, bool),
}

/// A [`JoinAction`] with its texts as sequences.
pub enum JoinActionView {
    Nothing,
    ConnectServer,
    SendId,
    ReadAddr,
    Play(ServerEventView),
    Fail(ServerEventView, bool),
    Leave(Option<ServerEventView>, bool),
}

impl View for JoinAction {
    type V = JoinActionView;

    open spec fn view(&self) -> JoinActionView {
        match *self {
            JoinAction::Nothing => JoinActionView::Nothing,
            JoinAction::ConnectServer => JoinActionView::ConnectServer,
            JoinAction::SendId => JoinActionView::SendId,
            JoinAction::ReadAddr => JoinActionView::ReadAddr,
            JoinAction::Play(e) => JoinActionView::Play(e@),
            JoinAction::Fail(e, shutdown) => JoinActionView::Fail(e@, shutdown),
            JoinAction::Leave(e, shutdown) => JoinActionView::Leave(
                match e {
                    Some(e) => Some(e@),
                    None => None,
                },
                shutdown,
            ),
        }
    }
}

/// What is reported of somebody who came: a player, or somebody without a name
/// who only asks for the status.
pub open spec fn came(addr: SocketAddr, username: Option<Seq<char>>) -> ServerEventView {
    match username {
        Some(name) => ServerEventView::PlayerConnected(addr, name),
        None => ServerEventView::Pinged(addr),
    }
}

/// What is reported of somebody who left, if it was a player.
pub open spec fn left(addr: SocketAddr, username: Option<Seq<char>>) -> Option<ServerEventView> {
    match username {
        Some(name) => Some(ServerEventView::PlayerDisconnected(addr, name)),
        None => None,
    }
}

/// What an event leads to: how far the connection of a player is, and what is
/// done. What comes out of turn changes nothing.
pub open spec fn join_step(j: JoinView, event: JoinEvent) -> (JoinView, JoinActionView) {
    let minor = |front: Seq<char>, e: Seq<char>, shutdown: bool|
        (
            JoinView::Gone,
            JoinActionView::Fail(ServerEventView::ServerNonCatastrophicError(front + e), shutdown),
        );
    match (j, event) {
        (JoinView::Dialing, JoinEvent::ProxyConnected) => (
            JoinView::Reaching,
            JoinActionView::ConnectServer,
        ),
        (JoinView::Dialing, JoinEvent::ProxyFailed(e)) => minor(
            "Failed to connect to proxy's PLAY port: "@,
            e@,
            false,
        ),
        (JoinView::Reaching, JoinEvent::ServerConnected) => (
            JoinView::Naming,
            JoinActionView::SendId,
        ),
        (JoinView::Reaching, JoinEvent::ServerFailed(e)) => (
            JoinView::Gone,
            JoinActionView::Fail(ServerEventView::MCServerConnectionFailed(e@), false),
        ),
        (JoinView::Naming, JoinEvent::IdSent) => (JoinView::Meeting, JoinActionView::ReadAddr),
        (JoinView::Naming, JoinEvent::IdFailed(e)) => minor(
            "Failed to send id to server: "@,
            e@,
            false,
        ),
        (JoinView::Meeting, JoinEvent::Met(addr)) => {
            let name = codec::opt_string(addr.username);
            (JoinView::Playing(addr.addr, name), JoinActionView::Play(came(addr.addr, name)))
        },
        (JoinView::Meeting, JoinEvent::MeetFailed(e)) => minor(
            "Error fetching player IP: "@,
            e@,
            true,
        ),
        (JoinView::Playing(addr, name), JoinEvent::Cancelled) => (
            JoinView::Gone,
            JoinActionView::Leave(left(addr, name), true),
        ),
        (JoinView::Playing(addr, name), JoinEvent::Finished) => (
            JoinView::Gone,
            JoinActionView::Leave(left(addr, name), false),
        ),
        _ => (j, JoinActionView::Nothing),
    }
}

/// The report of a failure that concerns one player.
fn minor_event(front: &str, reason: &String) -> (r: ServerEvent)
    ensures
        r@ == ServerEventView::ServerNonCatastrophicError(front@ + reason@),
{
    ServerEvent::ServerNonCatastrophicError(concat(front, reason.as_str()))
}

/// The same text, held on its own.
fn copied_name(name: &Option<String>) -> (r: Option<String>)
    ensures
        codec::opt_string(r) == codec::opt_string(*name),
{
    match name {
        Some(s) => Some(s.clone()),
        None => None,
    }
}

/// What is reported of somebody who came.
fn came_event(addr: SocketAddr, username: Option<String>) -> (r: ServerEvent)
    ensures
        r@ == came(addr, codec::opt_string(username)),
{
    match username {
        Some(name) => ServerEvent::PlayerConnected(addr, name),
        None => ServerEvent::Pinged(addr),
    }
}

/// What is reported of somebody who left.
fn left_event(addr: &Addr) -> (r: Option<ServerEvent>)
    ensures
        match r {
            Some(e) => Some(e@),
            None => None,
        } == left(addr.addr, codec::opt_string(addr.username)),
{
    match copied_name(&addr.username) {
        Some(name) => Some(ServerEvent::PlayerDisconnected(addr.addr, name)),
        None => None,
    }
}

impl Join {
    /// Works an event into the connection of a player.
    pub fn step(&mut self, event: JoinEvent) -> (r: JoinAction)
        ensures
            (final(self)@, r@) == join_step(old(self)@, event),
    {
        let (next, action) = match (&*self, event) {
            (Join::Dialing, JoinEvent::ProxyConnected) => (
                Join::Reaching,
                JoinAction::ConnectServer,
            ),
            (Join::Dialing, JoinEvent::ProxyFailed(e)) => (
                Join::Gone,
                JoinAction::Fail(minor_event("Failed to connect to proxy's PLAY port: ", &e), false),
            ),
            (Join::Reaching, JoinEvent::ServerConnected) => (Join::Naming, JoinAction::SendId),
            (Join::Reaching, JoinEvent::ServerFailed(e)) => (
                Join::Gone,
                JoinAction::Fail(ServerEvent::MCServerConnectionFailed(e), false),
            ),
            (Join::Naming, JoinEvent::IdSent) => (Join::Meeting, JoinAction::ReadAddr),
            (Join::Naming, JoinEvent::IdFailed(e)) => (
                Join::Gone,
                JoinAction::Fail(minor_event("Failed to send id to server: ", &e), false),
            ),
            (Join::Meeting, JoinEvent::Met(addr)) => {
                let report = came_event(addr.addr, copied_name(&addr.username));
                (Join::Playing(addr), JoinAction::Play(report))
            },
            (Join::Meeting, JoinEvent::MeetFailed(e)) => (
                Join::Gone,
                JoinAction::Fail(minor_event("Error fetching player IP: ", &e), true),
            ),
            (Join::Playing(addr), JoinEvent::Cancelled) => (
                Join::Gone,
                JoinAction::Leave(left_event(addr), true),
            ),
            (Join::Playing(addr), JoinEvent::Finished) => (
                Join::Gone,
                JoinAction::Leave(left_event(addr), false),
            ),
            _ => {
                return JoinAction::Nothing;
            },
        };
        *self = next;
        action
    }
}

/// A domain that was requested is served, or sharing fails.
pub proof fn law_requested_domain_is_served<T>(s: ShareView<T>, response: InitResponse)
    requires
        s.stage == Stage::Waiting,
        s.options.request_domain is Some,
    ensures
        share_step(s, ShareEvent::Answered(response)).1 matches ShareActionView::Serve(e) ==> e
            == ServerEventView::Url(s.options.request_domain->Some_0),
{
}

/// A player that is registered and then cut off from the screens is cut off with
/// its own token, and is not registered any more.
pub proof fn law_disconnect_cuts_the_player<T>(s: ShareView<T>, addr: SocketAddr, token: T)
    requires
        s.stage == Stage::Sharing,
    ensures
        ({
            let (s1, _) = share_step(
                s,
                ShareEvent::Client(ClientStatusUpdate::Connected { addr, token }),
            );
            let (s2, action) = share_step(s1, ShareEvent::Ui(UiEvent::Disconnect(addr)));
            &&& action == ShareActionView::Cut(token)
            &&& s2.clients == s.clients.remove(addr)
            &&& s2.stage == Stage::Sharing
        }),
{
    assert(s.clients.insert(addr, token).remove(addr) =~= s.clients.remove(addr));
}

/// A connection that ended stays ended, whatever still comes.
pub proof fn law_ended_share_stays_ended<T>(s: ShareView<T>, event: ShareEvent<T>)
    requires
        s.stage == Stage::Ended,
    ensures
        share_step(s, event) == (s, ShareActionView::<T>::Wait),
{
}

/// Whoever is reported to have come is reported to have left under the same
/// name, and whoever only asked for the status is not.
pub proof fn law_players_leave_as_they_came(addr: Addr, end: JoinEvent)
    requires
        end is Cancelled || end is Finished,
    ensures
        ({
            let (j1, action1) = join_step(JoinView::Meeting, JoinEvent::Met(addr));
            let (j2, action2) = join_step(j1, end);
            &&& action1 matches JoinActionView::Play(came)
            &&& action2 matches JoinActionView::Leave(left, _)
            &&& j2 == JoinView::Gone
            &&& match came {
                ServerEventView::PlayerConnected(a, name) => left == Some(
                    ServerEventView::PlayerDisconnected(a, name),
                ),
                _ => left is None,
            }
        }),
{
}

/// While a server is shared, what is sent back for a heartbeat is what the proxy
/// waits for: it keeps the connection open.
pub proof fn law_heartbeat_is_answered<T>(
    share: ShareView<T>,
    session: SessionView,
    data: [u8; 32],
    answer: SessionEvent,
    now: u64,
)
    requires
        share.stage == Stage::Sharing,
        session.data == data@,
        session.partial.len() == 0,
        answer is Received,
        share_step(share, ShareEvent::Received(Message::HeartBeat(data))).1 matches
            ShareActionView::Echo(sent) ==> answer->Received_0@ == sent@,
        now + proxy::SILENCE <= u64::MAX,
    ensures
        share_step(share, ShareEvent::Received(Message::HeartBeat(data))).0 == share,
        proxy::session_step(session, answer, now).1 == SessionActionView::Wait,
        proxy::session_step(session, answer, now).0.timeout_at == now + proxy::SILENCE,
{
    let bytes = session.partial + answer->Received_0@;
    assert(bytes =~= data@);
    assert(bytes.take(proxy::HEARTBEAT_LEN as int) =~= data@);
}

} // verus!
