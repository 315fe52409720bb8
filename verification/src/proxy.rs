//! What the proxy decides while it serves servers and clients.

use crate::codec;
use crate::codec::{number16, StreamHelper};
#[allow(unused_imports)]
use crate::error::ErrorView;
use crate::error::SharedError;
use crate::message::{InitResponse, Message, ServerHello, HELLO_STRING, PROTOCOL_VERSION};
use crate::net::Peer;
use crate::packet;
use crate::packet::try_parse_init_packet;
use crate::random::random_bytes;
use crate::reader;
use crate::reader::ByteReader;
use crate::text;
use crate::text::{bytes_eq, concat, concat3, decimal, text_eq};
use vstd::prelude::*;

verus! {

/// Times are counted in nanoseconds. This is one second.
pub const SECOND: u64 = 1000000000;

/// How long a server may take to answer a heartbeat.
pub const HEARTBEAT_RESPONSE_TIME: u64 = 5000000000;

/// How long the proxy waits from one heartbeat to the next.
pub const BETWEEN_HEARTBEATS: u64 = 15000000000;

/// How long both take together.
pub const SILENCE: u64 = 20000000000;

/// How long the proxy waits for what a server or a client has to send, or to take.
pub const PATIENCE: u64 = 5000000000;

/// How long a server may take to connect for a client.
pub const ACCEPT_TIME: u64 = 10000000000;

/// How often the use of the network is looked at.
pub const USAGE_CHECK: u64 = 5000000000;

/// How many bytes a heartbeat has.
pub const HEARTBEAT_LEN: usize = 32;

/// Reads what a server says first. The result is the domain that it requests.
pub fn receive_server_hello<'a>(stream: &mut ByteReader, buf: &'a mut [u8]) -> (r: Result<
    Option<&'a str>,
    (),
>)
    ensures
        ({
            let (want, rest) = codec::frame_read(old(stream)@, old(buf)@.len());
            let hello = match want {
                Ok(body) => codec::hello_read(body),
                Err(_) => None,
            };
            &&& final(stream)@ == rest
            &&& match r {
                Ok(domain) => hello == Some((HELLO_STRING@, codec::opt_view(domain))),
                Err(()) => hello is None || hello->Some_0.0 != HELLO_STRING@,
            }
        }),
        forall|domain: Option<Seq<char>>, rest: Seq<u8>|
            #![trigger codec::frame(codec::hello_wire((HELLO_STRING@, domain))) + rest]
            {
                let wire = codec::hello_wire((HELLO_STRING@, domain));
                old(stream)@ == codec::frame(wire) + rest && wire.len() <= old(buf)@.len()
                    && wire.len() <= u32::MAX ==> (r matches Ok(d) && codec::opt_view(d) == domain
                    && final(stream)@ == rest)
            },
{
    let decoded = ServerHello::decode(stream, buf);
    proof {
        assert forall|domain: Option<Seq<char>>, rest: Seq<u8>|
            #![trigger codec::frame(codec::hello_wire((HELLO_STRING@, domain))) + rest]
            {
                let wire = codec::hello_wire((HELLO_STRING@, domain));
                old(stream)@ == codec::frame(wire) + rest && wire.len() <= old(buf)@.len()
                    && wire.len() <= u32::MAX
            } implies (decoded matches Ok(m) && m.plain() == (HELLO_STRING@, domain) && stream@
            == rest) by {
            let plain = (HELLO_STRING@, domain);
            assert(ServerHello::<'a>::wire(plain) == codec::hello_wire(plain));
            assert(old(stream)@ == codec::frame(ServerHello::<'a>::wire(plain)) + rest);
        }
    }
    match decoded {
        Ok(hello) => check_hello(hello),
        Err(_) => Err(()),
    }
}

/// Whether a hello is that of a valid server. The result is the domain that it
/// requests.
pub fn check_hello<'a>(hello: ServerHello<'a>) -> (r: Result<Option<&'a str>, ()>)
    ensures
        match r {
            Ok(domain) => hello.hello_string@ == HELLO_STRING@ && domain == hello.requested_domain,
            Err(()) => hello.hello_string@ != HELLO_STRING@,
        },
{
    if text_eq(hello.hello_string, HELLO_STRING) {
        Ok(hello.requested_domain)
    } else {
        Err(())
    }
}

/// The frame that tells a server its domain.
pub open spec fn init_frame(domain: Seq<char>) -> Seq<u8> {
    codec::frame(codec::init_wire((domain, PROTOCOL_VERSION)))
}

/// Appends the frame that tells a server its domain. The result is its length.
pub fn send_domain(domain: String, w: &mut Vec<u8>, buf: &mut [u8]) -> (r: Result<
    usize,
    SharedError,
>)
    requires
        old(buf)@.len() + 4 <= usize::MAX,
    ensures
        match r {
            Ok(n) => codec::init_wire((domain@, PROTOCOL_VERSION)).len() <= old(buf)@.len()
                && final(w)@ == old(w)@ + init_frame(domain@) && n == codec::init_wire(
                (domain@, PROTOCOL_VERSION),
            ).len() + 4,
            Err(e) => codec::init_wire((domain@, PROTOCOL_VERSION)).len() > old(buf)@.len() && e@
                == ErrorView::DataSerialize && final(w)@ == old(w)@,
        },
{
    InitResponse::new(domain, PROTOCOL_VERSION).encode(w, buf)
}

/// How far the proxy is with a server that connects.
#[derive(Debug)]
pub enum Entry {
    /// Its host may have connected too often.
    Arriving,
    /// It has to say hello.
    Greeting,
    /// It has to be assigned a domain.
    Assigning,
    /// It has to be told this domain.
    Answering(String),
    /// It is served, or was turned away.
    Over,
}

/// An [`Entry`] with its text as a sequence.
pub enum EntryView {
    Arriving,
    Greeting,
    Assigning,
    Answering(Seq<char>),
    Over,
}

impl View for Entry {
    type V = EntryView;

    open spec fn view(&self) -> EntryView {
        match *self {
            Entry::Arriving => EntryView::Arriving,
            Entry::Greeting => EntryView::Greeting,
            Entry::Assigning => EntryView::Assigning,
            Entry::Answering(domain) => EntryView::Answering(domain@),
            Entry::Over => EntryView::Over,
        }
    }
}

/// What happens to a server that connects.
#[derive(Debug)]
pub enum EntryEvent {
    /// Whether its host connected too often.
    Limited(bool),
    /// It said hello, and requests this domain.
    Hello(Option<String>),
    /// It did not say hello, or not in time.
    NoHello,
    /// It was assigned this domain, if any was free.
    Assigned(Option<String>),
    /// It was told its domain, in a frame of this many bytes.
    Answered(usize),
    /// It could not be told its domain.
    AnswerFailed,
}

/// What the proxy does next for a server that connects.
#[derive(Debug)]
pub enum EntryAction {
    /// Nothing.
    Nothing,
    /// Shut the connection down.
    Shutdown,
    /// Drop the connection.
    Drop,
    /// Read the hello.
    ReadHello,
    /// Assign a domain, where this one is requested.
    Assign(Option<String>),
    /// Tell the server its domain.
    SendDomain(String),
    /// Serve the server with this domain.
    Serve(String),
}

/// An [`EntryAction`] with its text as a sequence.
pub enum EntryActionView {
    Nothing,
    Shutdown,
    Drop,
    ReadHello,
    Assign(Option<Seq<char>>),
    SendDomain(Seq<char>),
    Serve(Seq<char>),
}

impl View for EntryAction {
    type V = EntryActionView;

    open spec fn view(&self) -> EntryActionView {
        match *self {
            EntryAction::Nothing => EntryActionView::Nothing,
            EntryAction::Shutdown => EntryActionView::Shutdown,
            EntryAction::Drop => EntryActionView::Drop,
            EntryAction::ReadHello => EntryActionView::ReadHello,
            EntryAction::Assign(requested) => EntryActionView::Assign(codec::opt_string(requested)),
            EntryAction::SendDomain(domain) => EntryActionView::SendDomain(domain@),
            EntryAction::Serve(domain) => EntryActionView::Serve(domain@),
        }
    }
}

/// What an event leads to: how far the proxy is with a server that connects,
/// what it does, and how many bytes are counted. What comes out of turn changes
/// nothing.
pub open spec fn entry_step(e: EntryView, event: EntryEvent) -> (EntryView, EntryActionView, u64) {
    match (e, event) {
        (EntryView::Arriving, EntryEvent::Limited(limited)) => if limited {
            (EntryView::Over, EntryActionView::Shutdown, 0)
        } else {
            (EntryView::Greeting, EntryActionView::ReadHello, 0)
        },
        (EntryView::Greeting, EntryEvent::Hello(requested)) => (
            EntryView::Assigning,
            EntryActionView::Assign(codec::opt_string(requested)),
            0,
        ),
        (EntryView::Greeting, EntryEvent::NoHello) => (
            EntryView::Over,
            EntryActionView::Drop,
            0,
        ),
        (EntryView::Assigning, EntryEvent::Assigned(Some(domain))) => (
            EntryView::Answering(domain@),
            EntryActionView::SendDomain(domain@),
            0,
        ),
        (EntryView::Assigning, EntryEvent::Assigned(None)) => (
            EntryView::Over,
            EntryActionView::Drop,
            0,
        ),
        (EntryView::Answering(domain), EntryEvent::Answered(n)) => (
            EntryView::Over,
            EntryActionView::Serve(domain),
            n as u64,
        ),
        (EntryView::Answering(_), EntryEvent::AnswerFailed) => (
            EntryView::Over,
            EntryActionView::Drop,
            0,
        ),
        _ => (e, EntryActionView::Nothing, 0),
    }
}

impl Entry {
    /// Works an event into the entry of a server.
    pub fn step(&mut self, event: EntryEvent) -> (r: (EntryAction, u64))
        ensures
            (final(self)@, r.0@, r.1) == entry_step(old(self)@, event),
    {
        let (next, action, counted): (Entry, EntryAction, u64) = match (&*self, event) {
            (Entry::Arriving, EntryEvent::Limited(limited)) => {
                if limited {
                    (Entry::Over, EntryAction::Shutdown, 0)
                } else {
                    (Entry::Greeting, EntryAction::ReadHello, 0)
                }
            },
            (Entry::Greeting, EntryEvent::Hello(requested)) => (
                Entry::Assigning,
                EntryAction::Assign(requested),
                0,
            ),
            (Entry::Greeting, EntryEvent::NoHello) => (Entry::Over, EntryAction::Drop, 0),
            (Entry::Assigning, EntryEvent::Assigned(Some(domain))) => (
                Entry::Answering(domain.clone()),
                EntryAction::SendDomain(domain),
                0,
            ),
            (Entry::Assigning, EntryEvent::Assigned(None)) => (Entry::Over, EntryAction::Drop, 0),
            (Entry::Answering(domain), EntryEvent::Answered(n)) => (
                Entry::Over,
                EntryAction::Serve(domain.clone()),
                n as u64,
            ),
            (Entry::Answering(_), EntryEvent::AnswerFailed) => (Entry::Over, EntryAction::Drop, 0),
            _ => {
                return (EntryAction::Nothing, 0);
            },
        };
        *self = next;
        (action, counted)
    }
}

/// A server is served under the domain that it was told.
pub proof fn law_served_as_told(domain: String, answered: EntryEvent)
    requires
        answered is Answered,
    ensures
        ({
            let (e1, action1, _) = entry_step(
                EntryView::Assigning,
                EntryEvent::Assigned(Some(domain)),
            );
            let (_, action2, _) = entry_step(e1, answered);
            action1 == EntryActionView::SendDomain(domain@) && action2 == EntryActionView::Serve(
                domain@,
            )
        }),
{
}

/// A host that connected too often is not listened to.
pub proof fn law_limited_hosts_are_turned_away(event: EntryEvent)
    ensures
        ({
            let (e, action, _) = entry_step(EntryView::Arriving, EntryEvent::Limited(true));
            action == EntryActionView::Shutdown && entry_step(e, event) == (
                EntryView::Over,
                EntryActionView::Nothing,
                0u64,
            )
        }),
{
}

/// A server that is connected, as it is called in the log.
pub open spec fn server_text(domain: Seq<char>, addr: Peer) -> Seq<char> {
    "["@ + domain + " @ "@ + addr.text() + "]"@
}

/// Writes a server that is connected, as it is called in the log.
pub fn server_label(domain: &str, addr: Peer) -> (r: String)
    ensures
        r@ == server_text(domain@, addr),
{
    let shown = addr.to_text();
    let front = concat3("[", domain, " @ ");
    concat3(front.as_str(), shown.as_str(), "]")
}

/// The connection to a server, while it is shared.
#[derive(Debug)]
pub struct Session {
    /// How the server is called in the log.
    pub server: String,
    /// The bytes of the heartbeats.
    pub data: [u8; 32],
    /// When the server has been silent for too long.
    pub timeout_at: u64,
    /// When the next heartbeat is due.
    pub send_heartbeat_at: u64,
    /// What came of an answer that is not complete.
    pub partial: Vec<u8>,
}

/// A [`Session`] with its parts as sequences.
#[verifier::ext_equal]
pub struct SessionView {
    pub server: Seq<char>,
    pub data: Seq<u8>,
    pub timeout_at: u64,
    pub send_heartbeat_at: u64,
    pub partial: Seq<u8>,
}

impl View for Session {
    type V = SessionView;

    open spec fn view(&self) -> SessionView {
        SessionView {
            server: self.server@,
            data: self.data@,
            timeout_at: self.timeout_at,
            send_heartbeat_at: self.send_heartbeat_at,
            partial: self.partial@,
        }
    }
}

/// What happens to the connection to a server.
#[derive(Debug)]
pub enum SessionEvent {
    /// All connections of the server are to end.
    Aborted,
    /// The server has been silent for too long.
    Silent,
    /// The next heartbeat is due.
    Due,
    /// A heartbeat was sent, in a frame of this many bytes.
    Sent(usize),
    /// A heartbeat could not be sent, for this reason.
    SendFailed(String),
    /// A heartbeat was not sent in time.
    SendTimedOut,
    /// These bytes came.
    Received(Vec<u8>),
    /// Reading failed.
    ReceiveFailed,
    /// What was missing of an answer did not come in time.
    RestFailed,
    /// The server was told of a client, in a frame of this many bytes.
    Announced(usize),
    /// The server could not be told of a client.
    AnnounceFailed,
}

/// What the proxy does next for a server.
#[derive(Debug)]
pub enum SessionAction {
    /// Wait for what happens.
    Wait,
    /// Send a heartbeat.
    SendHeartbeat,
    /// Read this many bytes, which are missing of an answer.
    ReadRest(usize),
    /// Connect the client that the server was told of.
    Connect,
    /// End the connection, and all connections of the server, and log why.
    Close(Option<String>),
    /// End the connection.
    Leave,
}

/// A [`SessionAction`] with its text as a sequence.
pub enum SessionActionView {
    Wait,
    SendHeartbeat,
    ReadRest(usize),
    Connect,
    Close(Option<Seq<char>>),
    Leave,
}

impl View for SessionAction {
    type V = SessionActionView;

    open spec fn view(&self) -> SessionActionView {
        match *self {
            SessionAction::Wait => SessionActionView::Wait,
            SessionAction::SendHeartbeat => SessionActionView::SendHeartbeat,
            SessionAction::ReadRest(n) => SessionActionView::ReadRest(n),
            SessionAction::Connect => SessionActionView::Connect,
            SessionAction::Close(log) => SessionActionView::Close(codec::opt_string(log)),
            SessionAction::Leave => SessionActionView::Leave,
        }
    }
}

/// A connection to a server that was just opened.
pub open spec fn new_session(server: Seq<char>, data: Seq<u8>, now: u64) -> SessionView {
    SessionView {
        server,
        data,
        timeout_at: (now + SILENCE) as u64,
        send_heartbeat_at: (now + BETWEEN_HEARTBEATS) as u64,
        partial: Seq::empty(),
    }
}

/// What is said of a server that is disconnected, and why.
pub open spec fn cause_text(server: Seq<char>, cause: Seq<char>) -> Seq<char> {
    "Disconnected: "@ + server + ". Cause: "@ + cause
}

/// What an event leads to: the connection, what the proxy does, and how many
/// bytes are counted.
pub open spec fn session_step(s: SessionView, event: SessionEvent, now: u64) -> (
    SessionView,
    SessionActionView,
    u64,
) {
    let close = |why: Seq<char>| (s, SessionActionView::Close(Some(why)), 0u64);
    match event {
        SessionEvent::Aborted => (s, SessionActionView::Leave, 0),
        SessionEvent::Silent => close("Timed out: "@ + s.server),
        SessionEvent::Due => (s, SessionActionView::SendHeartbeat, 0),
        SessionEvent::Sent(n) => (
            SessionView {
                send_heartbeat_at: (now + BETWEEN_HEARTBEATS) as u64,
                timeout_at: (now + HEARTBEAT_RESPONSE_TIME) as u64,
                ..s
            },
            SessionActionView::Wait,
            n as u64,
        ),
        SessionEvent::SendFailed(e) => close(cause_text(s.server, e@)),
        SessionEvent::SendTimedOut => close(cause_text(s.server, "Timeout sending heartbeat"@)),
        SessionEvent::ReceiveFailed => close(cause_text(s.server, "Heartbeat EOF"@)),
        SessionEvent::RestFailed => close("Timed out: "@ + s.server + "."@),
        SessionEvent::Received(bytes) => {
            let answer = s.partial + bytes@;
            if answer.len() < HEARTBEAT_LEN {
                (
                    SessionView { partial: answer, ..s },
                    SessionActionView::ReadRest((HEARTBEAT_LEN - answer.len()) as usize),
                    0,
                )
            } else if answer.take(HEARTBEAT_LEN as int) != s.data {
                close(cause_text(s.server, "Invalid heartbeat"@))
            } else {
                (
                    SessionView {
                        send_heartbeat_at: (now + BETWEEN_HEARTBEATS) as u64,
                        timeout_at: (now + SILENCE) as u64,
                        partial: Seq::empty(),
                        ..s
                    },
                    SessionActionView::Wait,
                    0,
                )
            }
        },
        SessionEvent::Announced(n) => (s, SessionActionView::Connect, n as u64),
        SessionEvent::AnnounceFailed => (s, SessionActionView::Close(None), 0),
    }
}

impl Session {
    /// A connection to a server that was just opened, with these bytes in its
    /// heartbeats.
    pub fn with_data(domain: &str, addr: Peer, data: [u8; 32], now: u64) -> (r: Session)
        requires
            now + SILENCE <= u64::MAX,
        ensures
            r@ == new_session(server_text(domain@, addr), data@, now),
    {
        let r = Session {
            server: server_label(domain, addr),
            data,
            timeout_at: now + SILENCE,
            send_heartbeat_at: now + BETWEEN_HEARTBEATS,
            partial: Vec::new(),
        };
        assert(r@ =~= new_session(server_text(domain@, addr), data@, now));
        r
    }

    /// A connection to a server that was just opened. The bytes of its
    /// heartbeats are left to chance.
    pub fn new(domain: &str, addr: Peer, now: u64) -> (r: Session)
        requires
            now + SILENCE <= u64::MAX,
        ensures
            r@ == new_session(server_text(domain@, addr), r.data@, now),
    {
        Session::with_data(domain, addr, random_bytes(), now)
    }

    /// The message of a heartbeat.
    pub fn heartbeat(&self) -> (r: Message)
        ensures
            r == Message::HeartBeat(self.data),
    {
        Message::HeartBeat(self.data)
    }

    /// Works an event into the connection.
    pub fn step(&mut self, event: SessionEvent, now: u64) -> (r: (SessionAction, u64))
        requires
            now + SILENCE <= u64::MAX,
        ensures
            (final(self)@, r.0@, r.1) == session_step(old(self)@, event, now),
    {
        let ghost before = self@;
        match event {
            SessionEvent::Aborted => (SessionAction::Leave, 0),
            SessionEvent::Silent => {
                let why = concat("Timed out: ", self.server.as_str());
                (SessionAction::Close(Some(why)), 0)
            },
            SessionEvent::Due => (SessionAction::SendHeartbeat, 0),
            SessionEvent::Sent(n) => {
                self.send_heartbeat_at = now + BETWEEN_HEARTBEATS;
                self.timeout_at = now + HEARTBEAT_RESPONSE_TIME;
                (SessionAction::Wait, n as u64)
            },
            SessionEvent::SendFailed(e) => (self.close(e.as_str()), 0),
            SessionEvent::SendTimedOut => (self.close("Timeout sending heartbeat"), 0),
            SessionEvent::ReceiveFailed => (self.close("Heartbeat EOF"), 0),
            SessionEvent::RestFailed => {
                let why = concat3("Timed out: ", self.server.as_str(), ".");
                (SessionAction::Close(Some(why)), 0)
            },
            SessionEvent::Received(bytes) => {
                let mut answer: Vec<u8> = Vec::new();
                answer.extend_from_slice(self.partial.as_slice());
                answer.extend_from_slice(bytes.as_slice());
                assert(answer@ =~= before.partial + bytes@);
                if answer.len() < HEARTBEAT_LEN {
                    let left: usize = HEARTBEAT_LEN - answer.len();
                    self.partial = answer;
                    return (SessionAction::ReadRest(left), 0);
                }
                let head = vstd::slice::slice_subrange(answer.as_slice(), 0, HEARTBEAT_LEN);
                assert(head@ =~= answer@.take(HEARTBEAT_LEN as int));
                if !bytes_eq(head, vstd::array::array_as_slice(&self.data)) {
                    return (self.close("Invalid heartbeat"), 0);
                }
                self.send_heartbeat_at = now + BETWEEN_HEARTBEATS;
                self.timeout_at = now + SILENCE;
                self.partial = Vec::new();
                assert(self.partial@ =~= Seq::<u8>::empty());
                (SessionAction::Wait, 0)
            },
            SessionEvent::Announced(n) => (SessionAction::Connect, n as u64),
            SessionEvent::AnnounceFailed => (SessionAction::Close(None), 0),
        }
    }

    /// Ends the connection for this reason.
    fn close(&self, cause: &str) -> (r: SessionAction)
        ensures
            r@ == SessionActionView::Close(Some(cause_text(self@.server, cause@))),
    {
        let front = concat3("Disconnected: ", self.server.as_str(), ". Cause: ");
        SessionAction::Close(Some(concat(front.as_str(), cause)))
    }
}

/// A heartbeat that the server echoes keeps the connection open, in however many
/// pieces the echo comes.
pub proof fn law_echo_keeps_the_session(
    s: SessionView,
    first: SessionEvent,
    second: SessionEvent,
    now1: u64,
    now2: u64,
)
    requires
        s.partial.len() == 0,
        s.data.len() == HEARTBEAT_LEN,
        first is Received,
        second is Received,
        0 < first->Received_0@.len() < HEARTBEAT_LEN,
        first->Received_0@ + second->Received_0@ == s.data,
        now2 + SILENCE <= u64::MAX,
    ensures
        ({
            let (s1, action1, _) = session_step(s, first, now1);
            let (s2, action2, _) = session_step(s1, second, now2);
            &&& action1 == SessionActionView::ReadRest(second->Received_0@.len() as usize)
            &&& action2 == SessionActionView::Wait
            &&& s2.timeout_at == now2 + SILENCE
            &&& s2.partial == Seq::<u8>::empty()
            &&& s2.data == s.data
        }),
{
    let a = first->Received_0@;
    let b = second->Received_0@;
    assert(s.partial + a =~= a);
    assert((a + b).take(HEARTBEAT_LEN as int) =~= s.data);
}

/// A server always has as long to be heard of as the answer to a heartbeat may
/// take, and never longer than that after the next heartbeat is due.
pub proof fn law_session_times(s: SessionView, event: SessionEvent, now: u64)
    requires
        now + SILENCE <= u64::MAX,
        s.timeout_at <= s.send_heartbeat_at + HEARTBEAT_RESPONSE_TIME,
    ensures
        ({
            let (after, action, _) = session_step(s, event, now);
            &&& after.timeout_at <= after.send_heartbeat_at + HEARTBEAT_RESPONSE_TIME
            &&& after.timeout_at != s.timeout_at ==> after.timeout_at >= now
                + HEARTBEAT_RESPONSE_TIME
        }),
{
}

/// What came of the opening of a connection so far.
#[derive(Debug)]
pub enum Arrival {
    /// More has to come.
    Incomplete,
    /// It is not the opening of a connection.
    Refused,
    /// The host name that was asked for, the name of the player where there is a
    /// login, and all that came.
    Complete { hostname: String, username: Option<String>, data: Vec<u8> },
}

/// An [`Arrival`] with its texts and bytes as sequences.
pub enum ArrivalView {
    Incomplete,
    Refused,
    Complete { hostname: Seq<char>, username: Option<Seq<char>>, data: Seq<u8> },
}

impl View for Arrival {
    type V = ArrivalView;

    open spec fn view(&self) -> ArrivalView {
        match *self {
            Arrival::Incomplete => ArrivalView::Incomplete,
            Arrival::Refused => ArrivalView::Refused,
            Arrival::Complete { hostname, username, data } => ArrivalView::Complete {
                hostname: hostname@,
                username: codec::opt_string(username),
                data: data@,
            },
        }
    }
}

/// What came of the opening of a connection so far.
#[verifier::opaque]
pub open spec fn arrival(received: Seq<u8>) -> ArrivalView {
    match packet::opening_step(packet::Tap { rest: received, kept: Seq::empty() }).0 {
        Ok(opening) => ArrivalView::Complete {
            hostname: opening.hostname,
            username: opening.username,
            data: received,
        },
        Err(ErrorView::Read) => ArrivalView::Incomplete,
        Err(_) => ArrivalView::Refused,
    }
}

/// Reads what came of the opening of a connection so far.
pub fn read_arrival(received: Vec<u8>) -> (r: Arrival)
    ensures
        r@ == arrival(received@),
{
    let mut data: Vec<u8> = Vec::new();
    let mut stream = ByteReader::new(received);
    proof {
        reveal(arrival);
        let t = packet::Tap { rest: received@, kept: Seq::empty() };
        packet::law_opening_keeps_every_byte(t);
        assert(Seq::<u8>::empty() + received@ =~= received@);
        assert(data@ =~= Seq::<u8>::empty());
    }
    match try_parse_init_packet(&mut stream, &mut data) {
        Ok((hostname, username)) => Arrival::Complete { hostname, username, data },
        Err(SharedError::Read(_)) => Arrival::Incomplete,
        Err(_) => Arrival::Refused,
    }
}

/// How many bytes a client may send before it has to have asked for a host.
pub const OPENING_LEN: usize = 2048;

/// How far the proxy is with a client that connects.
#[derive(Debug)]
pub enum Visit {
    /// Its host may have connected too often.
    Arriving,
    /// It has to ask for a host. This came so far.
    Reading(Vec<u8>),
    /// The server of that host has to be found.
    Looking {
        /// The name of the player, where there is a login.
        username: Option<String>,
        /// All that came.
        data: Vec<u8>,
    },
    /// It was handed over, or turned away.
    Over,
}

/// A [`Visit`] with its texts and bytes as sequences.
#[verifier::ext_equal]
pub enum VisitView {
    Arriving,
    Reading(Seq<u8>),
    Looking { username: Option<Seq<char>>, data: Seq<u8> },
    Over,
}

impl View for Visit {
    type V = VisitView;

    open spec fn view(&self) -> VisitView {
        match *self {
            Visit::Arriving => VisitView::Arriving,
            Visit::Reading(received) => VisitView::Reading(received@),
            Visit::Looking { username, data } => VisitView::Looking {
                username: codec::opt_string(username),
                data: data@,
            },
            Visit::Over => VisitView::Over,
        }
    }
}

/// What happens to a client that connects.
#[derive(Debug)]
pub enum VisitEvent {
    /// Whether its host connected too often.
    Limited(bool),
    /// It sent these bytes. None mean that it sends no more.
    Received(Vec<u8>),
    /// Nothing could be read from it.
    ReceiveFailed,
    /// It took too long.
    TimedOut,
    /// Whether a server has the host that it asked for.
    Known(bool),
}

/// What the proxy does next for a client that connects.
#[derive(Debug)]
pub enum VisitAction {
    /// Nothing.
    Nothing,
    /// Tell the client why it is turned away, and drop the connection.
    TurnAway(Farewell),
    /// Drop the connection.
    Drop,
    /// Read at most this many bytes.
    Read(usize),
    /// Find the server of this host.
    Look(String),
    /// Hand the client over to the server.
    HandOver { username: Option<String>, data: Vec<u8> },
}

/// A [`VisitAction`] with its texts and bytes as sequences.
#[verifier::ext_equal]
pub enum VisitActionView {
    Nothing,
    TurnAway(Farewell),
    Drop,
    Read(usize),
    Look(Seq<char>),
    HandOver { username: Option<Seq<char>>, data: Seq<u8> },
}

impl View for VisitAction {
    type V = VisitActionView;

    open spec fn view(&self) -> VisitActionView {
        match *self {
            VisitAction::Nothing => VisitActionView::Nothing,
            VisitAction::TurnAway(why) => VisitActionView::TurnAway(why),
            VisitAction::Drop => VisitActionView::Drop,
            VisitAction::Read(n) => VisitActionView::Read(n),
            VisitAction::Look(hostname) => VisitActionView::Look(hostname@),
            VisitAction::HandOver { username, data } => VisitActionView::HandOver {
                username: codec::opt_string(username),
                data: data@,
            },
        }
    }
}

/// What bytes lead to that came from a client, after others.
pub open spec fn opening_received(received: Seq<u8>) -> (VisitView, VisitActionView) {
    match arrival(received) {
        ArrivalView::Complete { hostname, username, data } => (
            VisitView::Looking { username, data },
            VisitActionView::Look(hostname),
        ),
        ArrivalView::Incomplete if received.len() < OPENING_LEN => (
            VisitView::Reading(received),
            VisitActionView::Read((OPENING_LEN - received.len()) as usize),
        ),
        _ => (VisitView::Over, VisitActionView::Drop),
    }
}

/// What an event leads to: how far the proxy is with a client that connects, and
/// what it does. What comes out of turn changes nothing.
pub open spec fn visit_step(v: VisitView, event: VisitEvent) -> (VisitView, VisitActionView) {
    match (v, event) {
        (VisitView::Arriving, VisitEvent::Limited(limited)) => if limited {
            (VisitView::Over, VisitActionView::TurnAway(Farewell::RateLimited))
        } else {
            (VisitView::Reading(Seq::empty()), VisitActionView::Read(OPENING_LEN))
        },
        (VisitView::Reading(received), VisitEvent::Received(bytes)) => if bytes@.len() == 0 {
            (VisitView::Over, VisitActionView::Drop)
        } else {
            opening_received(received + bytes@)
        },
        (VisitView::Reading(_), VisitEvent::ReceiveFailed) => (
            VisitView::Over,
            VisitActionView::Drop,
        ),
        (VisitView::Reading(_), VisitEvent::TimedOut) => (VisitView::Over, VisitActionView::Drop),
        (VisitView::Looking { username, data }, VisitEvent::Known(known)) => if known {
            (VisitView::Over, VisitActionView::HandOver { username, data })
        } else {
            (VisitView::Over, VisitActionView::Drop)
        },
        _ => (v, VisitActionView::Nothing),
    }
}

/// Works in what came from a client so far.
fn receive_opening(received: Vec<u8>) -> (r: (Visit, VisitAction))
    ensures
        (r.0@, r.1@) == opening_received(received@),
{
    let mut all: Vec<u8> = Vec::new();
    all.extend_from_slice(received.as_slice());
    assert(all@ =~= received@);
    match read_arrival(all) {
        Arrival::Complete { hostname, username, data } => (
            Visit::Looking { username, data },
            VisitAction::Look(hostname),
        ),
        Arrival::Incomplete => {
            if received.len() < OPENING_LEN {
                let room: usize = OPENING_LEN - received.len();
                (Visit::Reading(received), VisitAction::Read(room))
            } else {
                (Visit::Over, VisitAction::Drop)
            }
        },
        Arrival::Refused => (Visit::Over, VisitAction::Drop),
    }
}

impl Visit {
    /// Works an event into the visit of a client.
    pub fn step(&mut self, event: VisitEvent) -> (r: VisitAction)
        ensures
            (final(self)@, r@) == visit_step(old(self)@, event),
    {
        let mut before = Visit::Over;
        std::mem::swap(&mut before, self);
        let (next, action) = match (before, event) {
            (Visit::Arriving, VisitEvent::Limited(limited)) => {
                if limited {
                    (Visit::Over, VisitAction::TurnAway(Farewell::RateLimited))
                } else {
                    (Visit::Reading(Vec::new()), VisitAction::Read(OPENING_LEN))
                }
            },
            (Visit::Reading(received), VisitEvent::Received(bytes)) => {
                if bytes.len() == 0 {
                    (Visit::Over, VisitAction::Drop)
                } else {
                    let mut all = received;
                    let ghost want = all@ + bytes@;
                    all.extend_from_slice(bytes.as_slice());
                    assert(all@ =~= want);
                    receive_opening(all)
                }
            },
            (Visit::Reading(_), VisitEvent::ReceiveFailed) => (Visit::Over, VisitAction::Drop),
            (Visit::Reading(_), VisitEvent::TimedOut) => (Visit::Over, VisitAction::Drop),
            (Visit::Looking { username, data }, VisitEvent::Known(known)) => {
                if known {
                    (Visit::Over, VisitAction::HandOver { username, data })
                } else {
                    (Visit::Over, VisitAction::Drop)
                }
            },
            (other, _) => (other, VisitAction::Nothing),
        };
        *self = next;
        action
    }
}

/// A client whose host connected too often is told so, and one that asks for a
/// host that no server has is told nothing. Neither is listened to any longer.
pub proof fn law_unwanted_clients_are_turned_away(v: VisitView, event: VisitEvent)
    requires
        v == VisitView::Arriving && event == VisitEvent::Limited(true) || v is Looking && event
            == VisitEvent::Known(false),
    ensures
        visit_step(v, event) == (
            VisitView::Over,
            if v is Arriving {
                VisitActionView::TurnAway(Farewell::RateLimited)
            } else {
                VisitActionView::Drop
            },
        ),
        forall|later: VisitEvent|
            visit_step(VisitView::Over, later) == (VisitView::Over, VisitActionView::Nothing),
{
}

/// A client is handed over with every byte that it sent.
pub proof fn law_visits_keep_every_byte(received: Seq<u8>, bytes: Vec<u8>, known: VisitEvent)
    requires
        visit_step(VisitView::Reading(received), VisitEvent::Received(bytes)).1 is Look,
        known == VisitEvent::Known(true),
    ensures
        ({
            let (v, _) = visit_step(VisitView::Reading(received), VisitEvent::Received(bytes));
            visit_step(v, known).1 matches VisitActionView::HandOver { data, .. } && data
                == received + bytes@
        }),
{
    reveal(arrival);
}

/// How many bytes are counted for a server that connects for a client.
pub const NUMBER_LEN: u64 = 16;

/// The number of the client that a server connects for, from the bytes that came
/// in time, and how many bytes are counted.
pub fn play_number(came: Option<[u8; 16]>) -> (r: (Option<u128>, u64))
    ensures
        r.0 == match came {
            Some(bytes) => Some(reader::big_endian(bytes@) as u128),
            None => None,
        },
        r.1 == NUMBER_LEN,
{
    match came {
        Some(bytes) => (Some(number16(&bytes)), NUMBER_LEN),
        None => (None, NUMBER_LEN),
    }
}

/// The two ends of a connection that is passed on.
#[derive(Debug, Clone, Copy, PartialEq, Eq, Structural)]
pub enum Side {
    Client,
    Server,
}

/// How far the proxy is with the connection of a client.
#[derive(Debug, Clone, Copy, PartialEq, Eq, Structural)]
pub enum Duplex {
    /// It waits for the server to connect.
    Waiting,
    /// It tells the server who the client is.
    Addressing,
    /// It passes on what the client sent first.
    Opening,
    /// It passes on what both send.
    Relaying,
    /// It passes on what came from this side.
    Forwarding(Side),
    /// The connection ended.
    Closed,
}

/// What happens to the connection of a client.
#[derive(Debug, Clone, Copy, PartialEq, Eq, Structural)]
pub enum DuplexEvent {
    /// The server connected.
    Accepted,
    /// Nobody waits for the server any more.
    Dropped,
    /// The server did not connect in time.
    TimedOut,
    /// The server was told who the client is, in a frame of this many bytes.
    AddrSent(usize),
    /// The server could not be told who the client is.
    AddrFailed,
    /// What the client sent first was passed on.
    OpeningSent,
    /// What the client sent first could not be passed on.
    OpeningFailed,
    /// All connections of the server are to end.
    Aborted,
    /// This many bytes came from a side. None mean that it ended.
    Received(Side, usize),
    /// Reading from a side failed.
    ReceiveFailed(Side),
    /// What came was passed on.
    Forwarded,
    /// What came could not be passed on.
    ForwardFailed,
}

/// Which ends of a connection are shut down.
#[derive(Debug, Clone, Copy, PartialEq, Eq, Structural)]
pub enum Shutdown {
    Neither,
    Client,
    /// Both, this side first.
    Both(Side),
}

/// Why a client is turned away.
#[derive(Debug, Clone, Copy, PartialEq, Eq, Structural)]
pub enum Farewell {
    ServerTimedOut,
    AddrFailed,
    OpeningFailed,
    RateLimited,
}

/// What a client that is turned away is told.
pub open spec fn farewell_text(why: Farewell) -> Seq<char> {
    match why {
        Farewell::ServerTimedOut => "Timed out: Server failed to accept connection"@,
        Farewell::AddrFailed => "Failed to send socketaddr to server"@,
        Farewell::OpeningFailed => "Failed to send init packet to server"@,
        Farewell::RateLimited => "You have been rate limited"@,
    }
}

impl Farewell {
    /// What a client that is turned away is told.
    pub fn message(self) -> (r: &'static str)
        ensures
            r@ == farewell_text(self),
    {
        match self {
            Farewell::ServerTimedOut => "Timed out: Server failed to accept connection",
            Farewell::AddrFailed => "Failed to send socketaddr to server",
            Farewell::OpeningFailed => "Failed to send init packet to server",
            Farewell::RateLimited => "You have been rate limited",
        }
    }
}

/// What the proxy does next for a client.
#[derive(Debug, Clone, Copy, PartialEq, Eq, Structural)]
pub enum DuplexAction {
    /// Nothing.
    Nothing,
    /// Tell the server who the client is.
    SendAddr,
    /// Pass on what the client sent first.
    SendOpening,
    /// Wait for either side.
    Relay,
    /// Wait until this many bytes may pass, and pass on what came from a side.
    Forward(Side, usize),
    /// End the connection.
    End {
        /// Whether the number of the connection is given up.
        forget_id: bool,
        /// What the client is told first.
        farewell: Option<Farewell>,
        /// What is shut down.
        shutdown: Shutdown,
    },
}

/// The end of a connection that was never passed on.
pub open spec fn ended(forget_id: bool, farewell: Option<Farewell>, shutdown: Shutdown) -> (
    Duplex,
    DuplexAction,
    u64,
) {
    (Duplex::Closed, DuplexAction::End { forget_id, farewell, shutdown }, 0)
}

/// What an event leads to: how far the proxy is, what it does, and how many
/// bytes are counted. What comes out of turn changes nothing.
pub open spec fn duplex_step(d: Duplex, event: DuplexEvent) -> (Duplex, DuplexAction, u64) {
    match (d, event) {
        (Duplex::Waiting, DuplexEvent::Accepted) => (
            Duplex::Addressing,
            DuplexAction::SendAddr,
            0,
        ),
        (Duplex::Waiting, DuplexEvent::Dropped) => ended(true, None, Shutdown::Client),
        (Duplex::Waiting, DuplexEvent::TimedOut) => ended(
            true,
            Some(Farewell::ServerTimedOut),
            Shutdown::Client,
        ),
        (Duplex::Addressing, DuplexEvent::AddrSent(n)) => (
            Duplex::Opening,
            DuplexAction::SendOpening,
            n as u64,
        ),
        (Duplex::Addressing, DuplexEvent::AddrFailed) => ended(
            false,
            Some(Farewell::AddrFailed),
            Shutdown::Neither,
        ),
        (Duplex::Opening, DuplexEvent::OpeningSent) => (Duplex::Relaying, DuplexAction::Relay, 0),
        (Duplex::Opening, DuplexEvent::OpeningFailed) => ended(
            false,
            Some(Farewell::OpeningFailed),
            Shutdown::Neither,
        ),
        (Duplex::Relaying, DuplexEvent::Aborted) => ended(
            false,
            None,
            Shutdown::Both(Side::Client),
        ),
        (Duplex::Relaying, DuplexEvent::Received(side, n)) => if n == 0 {
            ended(false, None, Shutdown::Neither)
        } else {
            (Duplex::Forwarding(side), DuplexAction::Forward(side, n), n as u64)
        },
        (Duplex::Relaying, DuplexEvent::ReceiveFailed(side)) => ended(
            false,
            None,
            Shutdown::Both(side),
        ),
        (Duplex::Forwarding(_), DuplexEvent::Forwarded) => (
            Duplex::Relaying,
            DuplexAction::Relay,
            0,
        ),
        (Duplex::Forwarding(side), DuplexEvent::ForwardFailed) => ended(
            false,
            None,
            Shutdown::Both(side),
        ),
        _ => (d, DuplexAction::Nothing, 0),
    }
}

impl Duplex {
    /// Ends the connection.
    fn end(&mut self, forget_id: bool, farewell: Option<Farewell>, shutdown: Shutdown) -> (r: (
        DuplexAction,
        u64,
    ))
        ensures
            (*final(self), r.0, r.1) == ended(forget_id, farewell, shutdown),
    {
        *self = Duplex::Closed;
        (DuplexAction::End { forget_id, farewell, shutdown }, 0)
    }

    /// Works an event into the connection.
    pub fn step(&mut self, event: DuplexEvent) -> (r: (DuplexAction, u64))
        ensures
            (*final(self), r.0, r.1) == duplex_step(*old(self), event),
    {
        match (*self, event) {
            (Duplex::Waiting, DuplexEvent::Accepted) => {
                *self = Duplex::Addressing;
                (DuplexAction::SendAddr, 0)
            },
            (Duplex::Waiting, DuplexEvent::Dropped) => self.end(true, None, Shutdown::Client),
            (Duplex::Waiting, DuplexEvent::TimedOut) => self.end(
                true,
                Some(Farewell::ServerTimedOut),
                Shutdown::Client,
            ),
            (Duplex::Addressing, DuplexEvent::AddrSent(n)) => {
                *self = Duplex::Opening;
                (DuplexAction::SendOpening, n as u64)
            },
            (Duplex::Addressing, DuplexEvent::AddrFailed) => self.end(
                false,
                Some(Farewell::AddrFailed),
                Shutdown::Neither,
            ),
            (Duplex::Opening, DuplexEvent::OpeningSent) => {
                *self = Duplex::Relaying;
                (DuplexAction::Relay, 0)
            },
            (Duplex::Opening, DuplexEvent::OpeningFailed) => self.end(
                false,
                Some(Farewell::OpeningFailed),
                Shutdown::Neither,
            ),
            (Duplex::Relaying, DuplexEvent::Aborted) => self.end(
                false,
                None,
                Shutdown::Both(Side::Client),
            ),
            (Duplex::Relaying, DuplexEvent::Received(side, n)) => {
                if n == 0 {
                    self.end(false, None, Shutdown::Neither)
                } else {
                    *self = Duplex::Forwarding(side);
                    (DuplexAction::Forward(side, n), n as u64)
                }
            },
            (Duplex::Relaying, DuplexEvent::ReceiveFailed(side)) => self.end(
                false,
                None,
                Shutdown::Both(side),
            ),
            (Duplex::Forwarding(_), DuplexEvent::Forwarded) => {
                *self = Duplex::Relaying;
                (DuplexAction::Relay, 0)
            },
            (Duplex::Forwarding(side), DuplexEvent::ForwardFailed) => self.end(
                false,
                None,
                Shutdown::Both(side),
            ),
            _ => (DuplexAction::Nothing, 0),
        }
    }
}

/// A connection that ended stays ended, and nothing more is counted.
pub proof fn law_duplex_stays_closed(event: DuplexEvent)
    ensures
        duplex_step(Duplex::Closed, event) == (Duplex::Closed, DuplexAction::Nothing, 0u64),
{
}

/// If one side fails, the other is shut down too.
pub proof fn law_failure_ends_both_sides(side: Side)
    ensures
        duplex_step(Duplex::Relaying, DuplexEvent::ReceiveFailed(side)) == ended(
            false,
            None,
            Shutdown::Both(side),
        ),
        duplex_step(Duplex::Forwarding(side), DuplexEvent::ForwardFailed) == ended(
            false,
            None,
            Shutdown::Both(side),
        ),
{
}

/// The number of a connection is given up exactly where the server never
/// connected, so that no number is given up that was taken.
pub proof fn law_ids_are_forgotten_while_waiting(d: Duplex, event: DuplexEvent)
    ensures
        ({
            let (after, action, _) = duplex_step(d, event);
            &&& action matches DuplexAction::End { forget_id, .. } ==> after == Duplex::Closed
                && forget_id == (d == Duplex::Waiting)
            &&& after == Duplex::Closed && d != Duplex::Closed ==> action is End
        }),
{
}

/// Every byte that is passed on is counted, and none that is not.
pub proof fn law_relayed_bytes_are_counted(d: Duplex, event: DuplexEvent)
    ensures
        ({
            let (_, action, counted) = duplex_step(d, event);
            counted == match action {
                DuplexAction::Forward(_, n) => n as u64,
                DuplexAction::SendOpening => event->AddrSent_0 as u64,
                _ => 0,
            }
        }),
{
}

/// What is said of a client that came or left.
pub open spec fn client_text(addr: Peer, verb: Seq<char>, server: Seq<char>) -> Seq<char> {
    "Client "@ + addr.text() + verb + server
}

/// Writes that a client connected to a server.
pub fn connected_message(addr: Peer, server: &str) -> (r: String)
    ensures
        r@ == client_text(addr, " connected to "@, server@),
{
    let shown = addr.to_text();
    let front = concat3("Client ", shown.as_str(), " connected to ");
    concat(front.as_str(), server)
}

/// Writes that a client disconnected from a server.
pub fn disconnected_message(addr: Peer, server: &str) -> (r: String)
    ensures
        r@ == client_text(addr, " disconnected from "@, server@),
{
    let shown = addr.to_text();
    let front = concat3("Client ", shown.as_str(), " disconnected from ");
    concat(front.as_str(), server)
}

/// One mebibyte.
pub const MEBIBYTE: u64 = 1048576;

/// How often the use of the network is logged.
pub const USAGE_INTERVAL: u64 = 1800000000000;

/// Whether more bytes were counted than this many mebibytes.
pub open spec fn exceeded(counted: u64, max_network: u64) -> bool {
    counted > max_network * MEBIBYTE
}

/// Whether more bytes were counted than this many mebibytes.
pub fn quota_exceeded(counted: u64, max_network: u64) -> (r: bool)
    ensures
        r == exceeded(counted, max_network),
{
    if max_network > u64::MAX / MEBIBYTE {
        false
    } else {
        counted > max_network * MEBIBYTE
    }
}

/// What the proxy does about the use of the network.
#[derive(Debug)]
pub enum Usage {
    /// Nothing.
    Fine,
    /// Log this.
    Report(String),
    /// Say this, and stop.
    Stop(String),
}

/// A [`Usage`] with its text as a sequence.
pub enum UsageView {
    Fine,
    Report(Seq<char>),
    Stop(Seq<char>),
}

impl View for Usage {
    type V = UsageView;

    open spec fn view(&self) -> UsageView {
        match *self {
            Usage::Fine => UsageView::Fine,
            Usage::Report(s) => UsageView::Report(s@),
            Usage::Stop(s) => UsageView::Stop(s@),
        }
    }
}

/// What is said of the use of the network.
pub open spec fn usage_text(
    front: Seq<char>,
    counted: u64,
    middle: Seq<char>,
    max_network: u64,
    end: Seq<char>,
) -> Seq<char> {
    front + text::decimal_text((counted / MEBIBYTE) as nat) + middle + text::decimal_text(
        max_network as nat,
    ) + end
}

fn usage_message(front: &str, counted: u64, middle: &str, max_network: u64, end: &str) -> (r:
    String)
    ensures
        r@ == usage_text(front@, counted, middle@, max_network, end@),
{
    let used = decimal(counted / MEBIBYTE);
    let max = decimal(max_network);
    let a = concat3(front, used.as_str(), middle);
    concat3(a.as_str(), max.as_str(), end)
}

/// What the proxy does about the use of the network, when it was reported last
/// so that the next report is due after `check`. Beside it stands when the next
/// is due.
pub open spec fn usage_step(counted: u64, max_network: u64, check: u64, now: u64) -> (
    UsageView,
    u64,
) {
    if exceeded(counted, max_network) {
        (
            UsageView::Stop(
                usage_text(
                    "MAX NETWORK QUOTA EXCEEDED! "@,
                    counted,
                    "MiB > "@,
                    max_network,
                    "MiB"@,
                ),
            ),
            check,
        )
    } else if now > check {
        (
            UsageView::Report(
                usage_text("Network usage: "@, counted, "MiB/"@, max_network, "MiB used/max"@),
            ),
            (now + USAGE_INTERVAL) as u64,
        )
    } else {
        (UsageView::Fine, check)
    }
}

/// Looks at the use of the network.
pub fn check_usage(counted: u64, max_network: u64, check: &mut u64, now: u64) -> (r: Usage)
    requires
        now + USAGE_INTERVAL <= u64::MAX,
    ensures
        (r@, *final(check)) == usage_step(counted, max_network, *old(check), now),
{
    if quota_exceeded(counted, max_network) {
        Usage::Stop(
            usage_message(
                "MAX NETWORK QUOTA EXCEEDED! ",
                counted,
                "MiB > ",
                max_network,
                "MiB",
            ),
        )
    } else if now > *check {
        *check = now + USAGE_INTERVAL;
        Usage::Report(
            usage_message("Network usage: ", counted, "MiB/", max_network, "MiB used/max"),
        )
    } else {
        Usage::Fine
    }
}

} // verus!
