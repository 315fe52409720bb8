//! What the proxy is for: how servers and clients fare with it, from the first
//! byte to the last.

use crate::codec;
use crate::codec::octets16;
use crate::error::ErrorView;
use crate::message::{Message, ServerHello};
use crate::net::Peer;
use crate::packet;
use crate::proxy::{
    arrival, check_hello, check_usage, client_text, connected_message, disconnected_message,
    duplex_step, entry_step, farewell_text, init_frame, new_session, play_number, server_label,
    server_text, session_step, usage_step, visit_step, ArrivalView, Duplex, DuplexAction,
    DuplexEvent, Entry, EntryAction, EntryActionView, EntryEvent, EntryView, Farewell, Session,
    SessionAction, SessionActionView, SessionEvent, SessionView, Shutdown, Side, Usage, UsageView,
    Visit, VisitAction, VisitActionView, VisitEvent, VisitView,
};
use crate::text;
use crate::varint;
use crate::wire_laws;
use vstd::prelude::*;
use vstd::utf8;

verus! {

// Servers that connect.

/// Every server that says hello is served: whatever domain it requests, or none,
/// exactly that is asked for, and the domain that it is assigned is the one that
/// it is told and served under. Only the bytes of the answer are counted.
pub proof fn law_every_server_is_served(requested: Option<String>, domain: String, n: usize)
    ensures
        ({
            let (e1, a1, n1) = entry_step(EntryView::Arriving, EntryEvent::Limited(false));
            let (e2, a2, n2) = entry_step(e1, EntryEvent::Hello(requested));
            let (e3, a3, n3) = entry_step(e2, EntryEvent::Assigned(Some(domain)));
            let (e4, a4, n4) = entry_step(e3, EntryEvent::Answered(n));
            &&& a1 == EntryActionView::ReadHello
            &&& a2 matches EntryActionView::Assign(asked) && match requested {
                Some(wish) => asked == Some(wish@),
                None => asked is None,
            }
            &&& a3 == EntryActionView::SendDomain(domain@)
            &&& a4 == EntryActionView::Serve(domain@)
            &&& e4 == EntryView::Over
            &&& (n1, n2, n3, n4) == (0u64, 0u64, 0u64, n as u64)
        }),
{
}

/// A server that comes too often is shut out. One that does not say hello, that
/// no domain is left for, or that cannot be told its domain is dropped. Nothing
/// is counted, and nothing follows.
pub proof fn law_servers_that_fail_are_dropped(
    requested: Option<String>,
    domain: String,
    later: EntryEvent,
)
    ensures
        ({
            let greeting = entry_step(EntryView::Arriving, EntryEvent::Limited(false)).0;
            let assigning = entry_step(greeting, EntryEvent::Hello(requested)).0;
            let answering = entry_step(assigning, EntryEvent::Assigned(Some(domain))).0;
            let dropped = (EntryView::Over, EntryActionView::Drop, 0u64);
            &&& entry_step(EntryView::Arriving, EntryEvent::Limited(true)) == (
                EntryView::Over,
                EntryActionView::Shutdown,
                0u64,
            )
            &&& entry_step(greeting, EntryEvent::NoHello) == dropped
            &&& entry_step(assigning, EntryEvent::Assigned(None)) == dropped
            &&& entry_step(answering, EntryEvent::AnswerFailed) == dropped
            &&& entry_step(EntryView::Over, later) == (
                EntryView::Over,
                EntryActionView::Nothing,
                0u64,
            )
        }),
{
}

/// A server is kept waiting for one thing at a time: whatever else happens
/// changes nothing.
pub proof fn law_servers_wait_their_turn(e: EntryView, event: EntryEvent)
    requires
        e is Arriving ==> !(event is Limited),
        e is Greeting ==> !(event is Hello || event is NoHello),
        e is Assigning ==> !(event is Assigned),
        e is Answering ==> !(event is Answered || event is AnswerFailed),
    ensures
        entry_step(e, event) == (e, EntryActionView::Nothing, 0u64),
{
}

// Clients that connect.

/// What a client sends that logs in as a player.
pub open spec fn login_opening(
    version: u64,
    hostname: Seq<char>,
    port: Seq<u8>,
    intent: u64,
    len: u64,
    username: Seq<char>,
) -> Seq<u8> {
    packet::handshake_bytes(version, hostname, port, intent) + packet::login_bytes(len, username)
}

/// Whether these are the fields of a login that a proxy can read.
pub open spec fn is_login(
    hostname: Seq<char>,
    port: Seq<u8>,
    intent: u64,
    username: Seq<char>,
) -> bool {
    &&& utf8::encode_utf8(hostname).len() <= 255
    &&& port.len() == 2
    &&& intent == 2 || intent == 3
    &&& utf8::encode_utf8(username).len() <= 16
}

proof fn lemma_login_arrives(
    all: Seq<u8>,
    version: u64,
    hostname: Seq<char>,
    port: Seq<u8>,
    intent: u64,
    len: u64,
    username: Seq<char>,
    more: Seq<u8>,
)
    requires
        is_login(hostname, port, intent, username),
        all == login_opening(version, hostname, port, intent, len, username) + more,
    ensures
        arrival(all) == (ArrivalView::Complete { hostname, username: Some(username), data: all }),
{
    let shake = packet::handshake_bytes(version, hostname, port, intent);
    let login = packet::login_bytes(len, username);
    assert(all =~= shake + (login + more));
    packet::law_login_is_understood(
        version,
        hostname,
        port,
        intent,
        len,
        username,
        more,
        Seq::empty(),
    );
    reveal(arrival);
}

/// A player who logs in is handed over to the server of the host that was asked
/// for, under the player's name and with every byte that came.
pub proof fn law_players_are_handed_over(
    received: Seq<u8>,
    bytes: Vec<u8>,
    version: u64,
    hostname: Seq<char>,
    port: Seq<u8>,
    intent: u64,
    len: u64,
    username: Seq<char>,
    more: Seq<u8>,
)
    requires
        is_login(hostname, port, intent, username),
        bytes@.len() > 0,
        received + bytes@ == login_opening(version, hostname, port, intent, len, username) + more,
    ensures
        ({
            let (v1, a1) = visit_step(VisitView::Reading(received), VisitEvent::Received(bytes));
            let (v2, a2) = visit_step(v1, VisitEvent::Known(true));
            &&& a1 == VisitActionView::Look(hostname)
            &&& a2 == (VisitActionView::HandOver {
                username: Some(username),
                data: received + bytes@,
            })
            &&& v2 == VisitView::Over
        }),
{
    lemma_login_arrives(
        received + bytes@,
        version,
        hostname,
        port,
        intent,
        len,
        username,
        more,
    );
}

/// A client that asks for the status is handed over to the server of the host
/// that was asked for, without a name and with every byte that came.
pub proof fn law_status_requests_are_handed_over(
    received: Seq<u8>,
    bytes: Vec<u8>,
    version: u64,
    hostname: Seq<char>,
    port: Seq<u8>,
    more: Seq<u8>,
)
    requires
        utf8::encode_utf8(hostname).len() <= 255,
        port.len() == 2,
        bytes@.len() > 0,
        received + bytes@ == packet::handshake_bytes(version, hostname, port, 1) + more,
    ensures
        ({
            let (v1, a1) = visit_step(VisitView::Reading(received), VisitEvent::Received(bytes));
            let (v2, a2) = visit_step(v1, VisitEvent::Known(true));
            &&& a1 == VisitActionView::Look(hostname)
            &&& a2 == (VisitActionView::HandOver { username: None, data: received + bytes@ })
            &&& v2 == VisitView::Over
        }),
{
    reveal(arrival);
    packet::law_status_is_understood(version, hostname, port, more, Seq::empty());
}

/// A player may send the opening in pieces: as long as some of it is missing,
/// what came is kept and the proxy reads on, as far as its buffer of 2048 bytes
/// reaches.
pub proof fn law_openings_come_in_pieces(
    received: Seq<u8>,
    bytes: Vec<u8>,
    version: u64,
    hostname: Seq<char>,
    port: Seq<u8>,
    intent: u64,
    len: u64,
    username: Seq<char>,
    missing: Seq<u8>,
)
    requires
        is_login(hostname, port, intent, username),
        bytes@.len() > 0,
        missing.len() > 0,
        received + bytes@ + missing == login_opening(
            version,
            hostname,
            port,
            intent,
            len,
            username,
        ),
    ensures
        ({
            let all = received + bytes@;
            visit_step(VisitView::Reading(received), VisitEvent::Received(bytes)) == (
                VisitView::Reading(all),
                VisitActionView::Read((2048 - all.len()) as usize),
            ) && all.len() < 2048
        }),
{
    reveal(arrival);
    packet::law_partial_login_is_incomplete(
        received + bytes@,
        missing,
        version,
        hostname,
        port,
        intent,
        len,
        username,
    );
}

/// A client that asks for the status may send its handshake in pieces, too.
pub proof fn law_status_requests_come_in_pieces(
    received: Seq<u8>,
    bytes: Vec<u8>,
    version: u64,
    hostname: Seq<char>,
    port: Seq<u8>,
    intent: u64,
    missing: Seq<u8>,
)
    requires
        utf8::encode_utf8(hostname).len() <= 255,
        port.len() == 2,
        bytes@.len() > 0,
        missing.len() > 0,
        received + bytes@ + missing == packet::handshake_bytes(version, hostname, port, intent),
    ensures
        ({
            let all = received + bytes@;
            visit_step(VisitView::Reading(received), VisitEvent::Received(bytes)) == (
                VisitView::Reading(all),
                VisitActionView::Read((2048 - all.len()) as usize),
            ) && all.len() < 2048
        }),
{
    reveal(arrival);
    packet::law_partial_handshake_is_incomplete(
        received + bytes@,
        missing,
        version,
        hostname,
        port,
        intent,
    );
}

/// A client that comes in time is read from the first byte on. One that comes too
/// often is told so.
pub proof fn law_clients_are_let_in_or_told_why()
    ensures
        visit_step(VisitView::Arriving, VisitEvent::Limited(false)) == (
            VisitView::Reading(Seq::empty()),
            VisitActionView::Read(2048),
        ),
        visit_step(VisitView::Arriving, VisitEvent::Limited(true)) == (
            VisitView::Over,
            VisitActionView::TurnAway(Farewell::RateLimited),
        ),
{
}

/// A client is dropped that sends no more, that cannot be read from, that takes
/// too long, that sends something else than an opening, that fills the buffer
/// without one, or that asks for a host that no server has.
pub proof fn law_clients_that_fail_are_dropped(
    received: Seq<u8>,
    bytes: Vec<u8>,
    username: Option<Seq<char>>,
    data: Seq<u8>,
)
    ensures
        ({
            let dropped = (VisitView::Over, VisitActionView::Drop);
            let reading = VisitView::Reading(received);
            let opening = packet::opening_step(
                packet::Tap { rest: received + bytes@, kept: Seq::empty() },
            ).0;
            &&& visit_step(reading, VisitEvent::ReceiveFailed) == dropped
            &&& visit_step(reading, VisitEvent::TimedOut) == dropped
            &&& bytes@.len() == 0 ==> visit_step(reading, VisitEvent::Received(bytes)) == dropped
            &&& opening is Err && (opening->Err_0 != ErrorView::Read || received.len()
                + bytes@.len() >= 2048) ==> visit_step(reading, VisitEvent::Received(bytes)) == dropped
            &&& visit_step(VisitView::Looking { username, data }, VisitEvent::Known(false))
                == dropped
        }),
{
    reveal(arrival);
}

/// A client is kept waiting for one thing at a time: whatever else happens
/// changes nothing.
pub proof fn law_clients_wait_their_turn(v: VisitView, event: VisitEvent)
    requires
        v is Arriving ==> !(event is Limited),
        v is Reading ==> !(event is Received || event is ReceiveFailed || event is TimedOut),
        v is Looking ==> !(event is Known),
    ensures
        visit_step(v, event) == (v, VisitActionView::Nothing),
{
}

// Servers that are shared.

/// A server that was just connected has fifteen seconds until the first
/// heartbeat, and five more to echo it.
pub proof fn law_sessions_start_with_a_heartbeat_ahead(
    server: Seq<char>,
    data: Seq<u8>,
    now: u64,
)
    requires
        now + 20_000_000_000 <= u64::MAX,
    ensures
        ({
            let s = new_session(server, data, now);
            &&& s.server == server && s.data == data && s.partial.len() == 0
            &&& s.send_heartbeat_at == now + 15_000_000_000
            &&& s.timeout_at == now + 20_000_000_000
        }),
{
}

/// Only a heartbeat that was sent, and an echo that is complete, change when the
/// next heartbeat is due and when the server has been silent for too long. What
/// the server is called, and the bytes of its heartbeats, never change, and only
/// what comes from the server changes what is kept of an echo.
pub proof fn law_only_heartbeats_change_the_times(s: SessionView, event: SessionEvent, now: u64)
    requires
        now + 20_000_000_000 <= u64::MAX,
    ensures
        ({
            let (after, action, _) = session_step(s, event, now);
            let echoed = event is Received && action is Wait;
            &&& after.server == s.server && after.data == s.data
            &&& !(event is Sent) && !echoed ==> after.timeout_at == s.timeout_at
                && after.send_heartbeat_at == s.send_heartbeat_at
            &&& !(event is Received) ==> after.partial == s.partial
            &&& event is Sent ==> after.timeout_at == now + 5_000_000_000
                && after.send_heartbeat_at == now + 15_000_000_000
            &&& echoed ==> after.timeout_at == now + 20_000_000_000 && after.send_heartbeat_at
                == now + 15_000_000_000
        }),
{
}

/// A server is asked for an echo before it is given up: the time at which it is
/// given up lies before the next heartbeat only from when a heartbeat was sent
/// until its echo came.
pub proof fn law_silence_is_measured_from_a_heartbeat(
    s: SessionView,
    event: SessionEvent,
    now: u64,
)
    requires
        now + 20_000_000_000 <= u64::MAX,
    ensures
        ({
            let (after, action, _) = session_step(s, event, now);
            let waits = after.timeout_at < after.send_heartbeat_at;
            let waited = s.timeout_at < s.send_heartbeat_at;
            &&& event is Sent ==> waits
            &&& event is Received && action is Wait ==> !waits
            &&& waits && !waited ==> event is Sent
            &&& waited && !waits ==> event is Received && action is Wait
        }),
{
}

/// A server that echoes its heartbeat, in however many pieces, goes on being
/// served. Until all thirty-two bytes came, exactly those that are missing are
/// read; when they came and are others, the server is disconnected.
pub proof fn law_echoes_are_compared(s: SessionView, bytes: Vec<u8>, now: u64)
    requires
        s.data.len() == 32,
    ensures
        ({
            let echo = s.partial + bytes@;
            let (after, action, counted) = session_step(s, SessionEvent::Received(bytes), now);
            &&& counted == 0
            &&& echo.len() < 32 ==> action == SessionActionView::ReadRest(
                (32 - echo.len()) as usize,
            ) && after.partial == echo
            &&& echo.len() >= 32 && s.data.is_prefix_of(echo) ==> action
                == SessionActionView::Wait && after.partial.len() == 0
            &&& echo.len() >= 32 && !s.data.is_prefix_of(echo) ==> action
                == SessionActionView::Close(
                Some("Disconnected: "@ + s.server + ". Cause: "@ + "Invalid heartbeat"@),
            )
        }),
{
    let echo = s.partial + bytes@;
    if echo.len() >= 32 {
        if echo.take(32) == s.data {
            assert(echo.subrange(0, 32) =~= s.data);
        }
        if s.data.is_prefix_of(echo) {
            assert(echo.take(32) =~= s.data);
        }
    }
}

/// A heartbeat is sent when it is due, and what was sent is counted. A client
/// that the server was told of is connected, and what told it is counted. Where
/// all connections of the server end, so does this one.
pub proof fn law_sessions_do_what_is_due(s: SessionView, n: usize, now: u64)
    ensures
        session_step(s, SessionEvent::Due, now) == (s, SessionActionView::SendHeartbeat, 0u64),
        session_step(s, SessionEvent::Announced(n), now) == (
            s,
            SessionActionView::Connect,
            n as u64,
        ),
        session_step(s, SessionEvent::Sent(n), now).1 == SessionActionView::Wait,
        session_step(s, SessionEvent::Sent(n), now).2 == n as u64,
        session_step(s, SessionEvent::Aborted, now) == (s, SessionActionView::Leave, 0u64),
{
}

/// A server that is silent, that cannot be reached or that cannot be read from is
/// disconnected, and the log says why. Nothing is counted then.
pub proof fn law_lost_servers_are_disconnected(s: SessionView, e: String, now: u64)
    ensures
        ({
            let closed = |event: SessionEvent, why: Option<Seq<char>>|
                session_step(s, event, now) == (s, SessionActionView::Close(why), 0u64);
            let because = |why: Seq<char>| Some("Disconnected: "@ + s.server + ". Cause: "@ + why);
            &&& closed(SessionEvent::Silent, Some("Timed out: "@ + s.server))
            &&& closed(SessionEvent::RestFailed, Some("Timed out: "@ + s.server + "."@))
            &&& closed(SessionEvent::SendFailed(e), because(e@))
            &&& closed(SessionEvent::SendTimedOut, because("Timeout sending heartbeat"@))
            &&& closed(SessionEvent::ReceiveFailed, because("Heartbeat EOF"@))
            &&& closed(SessionEvent::AnnounceFailed, None)
        }),
{
}

// Players that play.

/// A player is connected in three steps: the server is told who it is, then gets
/// what the player sent first, and then both are passed on. What tells the server
/// is counted.
pub proof fn law_players_are_connected(n: usize)
    ensures
        ({
            let (d1, a1, n1) = duplex_step(Duplex::Waiting, DuplexEvent::Accepted);
            let (d2, a2, n2) = duplex_step(d1, DuplexEvent::AddrSent(n));
            let (d3, a3, n3) = duplex_step(d2, DuplexEvent::OpeningSent);
            &&& (a1, n1) == (DuplexAction::SendAddr, 0u64)
            &&& (a2, n2) == (DuplexAction::SendOpening, n as u64)
            &&& (a3, n3) == (DuplexAction::Relay, 0u64)
            &&& d3 == Duplex::Relaying
        }),
{
}

/// Exactly the bytes that came from a side are passed on to the other, and
/// counted. After that both sides are listened to again.
pub proof fn law_everything_is_passed_on(side: Side, n: usize)
    requires
        n > 0,
    ensures
        ({
            let (d1, a1, n1) = duplex_step(Duplex::Relaying, DuplexEvent::Received(side, n));
            let (d2, a2, n2) = duplex_step(d1, DuplexEvent::Forwarded);
            &&& a1 == DuplexAction::Forward(side, n)
            &&& n1 == n as u64
            &&& (d2, a2, n2) == (Duplex::Relaying, DuplexAction::Relay, 0u64)
        }),
{
}

/// A connection ends when a side ends. When a side fails, or all connections of
/// the server end, both sides are shut down, the failed one first. Nothing more
/// is counted.
pub proof fn law_both_sides_end_together(side: Side, n: usize)
    requires
        n > 0,
    ensures
        ({
            let end = |d: Duplex, event: DuplexEvent, shutdown: Shutdown|
                duplex_step(d, event) == (
                    Duplex::Closed,
                    DuplexAction::End { forget_id: false, farewell: None, shutdown },
                    0u64,
                );
            let forwarding = duplex_step(Duplex::Relaying, DuplexEvent::Received(side, n)).0;
            &&& end(Duplex::Relaying, DuplexEvent::Received(side, 0), Shutdown::Neither)
            &&& end(Duplex::Relaying, DuplexEvent::ReceiveFailed(side), Shutdown::Both(side))
            &&& end(forwarding, DuplexEvent::ForwardFailed, Shutdown::Both(side))
            &&& end(Duplex::Relaying, DuplexEvent::Aborted, Shutdown::Both(Side::Client))
        }),
{
}

/// A player whose server does not come, or cannot be reached, is told so, and the
/// connection ends. The number is given up as long as the server did not come.
pub proof fn law_unconnected_players_are_told(n: usize)
    ensures
        ({
            let end = |d: Duplex, event: DuplexEvent, forget_id: bool, farewell: Option<Farewell>,
                       shutdown: Shutdown|
                duplex_step(d, event) == (
                    Duplex::Closed,
                    DuplexAction::End { forget_id, farewell, shutdown },
                    0u64,
                );
            let addressing = duplex_step(Duplex::Waiting, DuplexEvent::Accepted).0;
            let opening = duplex_step(addressing, DuplexEvent::AddrSent(n)).0;
            &&& end(Duplex::Waiting, DuplexEvent::Dropped, true, None, Shutdown::Client)
            &&& end(
                Duplex::Waiting,
                DuplexEvent::TimedOut,
                true,
                Some(Farewell::ServerTimedOut),
                Shutdown::Client,
            )
            &&& end(
                addressing,
                DuplexEvent::AddrFailed,
                false,
                Some(Farewell::AddrFailed),
                Shutdown::Neither,
            )
            &&& end(
                opening,
                DuplexEvent::OpeningFailed,
                false,
                Some(Farewell::OpeningFailed),
                Shutdown::Neither,
            )
        }),
{
}

/// A connection waits for one thing at a time: whatever else happens changes
/// nothing.
pub proof fn law_connections_wait_their_turn(d: Duplex, event: DuplexEvent)
    requires
        d is Waiting ==> !(event is Accepted || event is Dropped || event is TimedOut),
        d is Addressing ==> !(event is AddrSent || event is AddrFailed),
        d is Opening ==> !(event is OpeningSent || event is OpeningFailed),
        d is Relaying ==> !(event is Aborted || event is Received || event is ReceiveFailed),
        d is Forwarding ==> !(event is Forwarded || event is ForwardFailed),
    ensures
        duplex_step(d, event) == (d, DuplexAction::Nothing, 0u64),
{
}

/// What a client is told says why it is turned away, and no two reasons read the
/// same.
pub proof fn law_farewells_say_why(a: Farewell, b: Farewell)
    ensures
        a is RateLimited ==> farewell_text(a) == "You have been rate limited"@,
        a is ServerTimedOut ==> farewell_text(a)
            == "Timed out: Server failed to accept connection"@,
        a is AddrFailed ==> farewell_text(a) == "Failed to send socketaddr to server"@,
        a is OpeningFailed ==> farewell_text(a) == "Failed to send init packet to server"@,
        farewell_text(a) == farewell_text(b) ==> a == b,
{
    reveal_strlit("You have been rate limited");
    reveal_strlit("Timed out: Server failed to accept connection");
    reveal_strlit("Failed to send socketaddr to server");
    reveal_strlit("Failed to send init packet to server");
    assert("You have been rate limited"@.len() == 26);
    assert("Timed out: Server failed to accept connection"@.len() == 45);
    assert("Failed to send socketaddr to server"@.len() == 35);
    assert("Failed to send init packet to server"@.len() == 36);
}

// What is sent to servers, and what is logged.

/// A server is one where it says hello in the words of one, and then what it
/// requests is taken as it is.
pub proof fn law_hellos_are_checked<'a>(
    hello: ServerHello<'a>,
    checked: Result<Option<&'a str>, ()>,
)
    requires
        call_ensures(check_hello, (hello,), checked),
    ensures
        checked is Ok <==> hello.hello_string@ == "mineshare"@,
        checked matches Ok(requested) ==> requested == hello.requested_domain,
{
}

/// What a server says hello with is what the proxy takes for the hello of one, with
/// the domain that it requests.
pub proof fn law_servers_say_hello<'a>(
    requested: Option<&'a str>,
    hello: ServerHello<'a>,
    checked: Result<Option<&'a str>, ()>,
)
    requires
        call_ensures(ServerHello::new, (requested,), hello),
        call_ensures(check_hello, (hello,), checked),
    ensures
        checked == Ok::<Option<&'a str>, ()>(requested),
{
}

/// A heartbeat carries the bytes of the session, which are those that it was
/// opened with, and a session is called by the domain and the address of its
/// server.
pub proof fn law_heartbeats_carry_the_data(
    domain: &str,
    addr: Peer,
    data: [u8; 32],
    now: u64,
    session: Session,
    message: Message,
)
    requires
        call_ensures(Session::with_data, (domain, addr, data, now), session),
        call_ensures(Session::heartbeat, (&session,), message),
    ensures
        session.server@ == "["@ + domain@ + " @ "@ + addr.text() + "]"@,
        session.data@ == data@,
        message matches Message::HeartBeat(sent) && sent@ == data@,
{
}

/// The log says who came, and who left.
pub proof fn law_comings_and_goings_are_logged(
    addr: Peer,
    server: &str,
    came: String,
    left: String,
)
    requires
        call_ensures(connected_message, (addr, server), came),
        call_ensures(disconnected_message, (addr, server), left),
    ensures
        came@ == "Client "@ + addr.text() + " connected to "@ + server@,
        left@ == "Client "@ + addr.text() + " disconnected from "@ + server@,
{
}

/// The number that a server sends in sixteen octets is the one that it was sent,
/// and its octets are counted, whether they came or not.
pub proof fn law_numbers_come_back(
    id: u128,
    bytes: [u8; 16],
    came: Option<[u8; 16]>,
    read: (Option<u128>, u64),
)
    requires
        call_ensures(octets16, (id,), bytes),
        call_ensures(play_number, (came,), read),
    ensures
        read.1 == 16,
        came == Some(bytes) ==> read.0 == Some(id),
        came is None <==> read.0 is None,
{
    codec::law_id_round_trip(id);
}

/// A server is told its domain, and that the proxy speaks the fourth version of
/// the protocol.
pub proof fn law_servers_are_told_their_domain(domain: Seq<char>)
    ensures
        init_frame(domain) == codec::frame(
            wire_laws::sized_text(domain) + varint::varint_bytes(4),
        ),
{
}

/// The log says of whom it speaks: a server by its domain and its address, and a
/// client by its address, whether it came or left, and the server.
pub proof fn law_the_log_says_who(
    domain: Seq<char>,
    addr: Peer,
    server: Seq<char>,
    verb: Seq<char>,
)
    ensures
        server_text(domain, addr) == "["@ + domain + " @ "@ + addr.text() + "]"@,
        client_text(addr, verb, server) == "Client "@ + addr.text() + verb + server,
{
}

// The use of the network.

/// The proxy stops exactly when more was passed on than the limit allows, in
/// mebibytes. Until then it reports the use every half hour.
pub proof fn law_the_network_limit_is_kept(counted: u64, max_network: u64, check: u64, now: u64)
    requires
        now + 1_800_000_000_000 <= u64::MAX,
    ensures
        ({
            let (usage, next) = usage_step(counted, max_network, check, now);
            let over = counted > max_network * 1024 * 1024;
            let used = text::decimal_text(counted as nat / 1_048_576);
            let max = text::decimal_text(max_network as nat);
            &&& over <==> usage is Stop
            &&& !over && now > check <==> usage is Report
            &&& usage is Report ==> next == now + 1_800_000_000_000
            &&& !(usage is Report) ==> next == check
            &&& usage matches UsageView::Stop(s) ==> s == "MAX NETWORK QUOTA EXCEEDED! "@ + used
                + "MiB > "@ + max + "MiB"@
            &&& usage matches UsageView::Report(s) ==> s == "Network usage: "@ + used + "MiB/"@
                + max + "MiB used/max"@
        }),
{
    assert(max_network * 1024 * 1024 == max_network * 1048576) by (nonlinear_arith);
}

// What the proxy does.

/// What is said here of servers, clients and their connections is said of every
/// step that the proxy takes with them.
pub proof fn law_the_proxy_takes_these_steps(
    entry: &mut Entry,
    said: EntryEvent,
    next: (EntryAction, u64),
    visit: &mut Visit,
    came: VisitEvent,
    then: VisitAction,
    session: &mut Session,
    heard: SessionEvent,
    now: u64,
    done: (SessionAction, u64),
    duplex: &mut Duplex,
    passed: DuplexEvent,
    after: (DuplexAction, u64),
)
    requires
        call_ensures(Entry::step, (entry, said), next),
        call_ensures(Visit::step, (visit, came), then),
        call_ensures(Session::step, (session, heard, now), done),
        call_ensures(Duplex::step, (duplex, passed), after),
    ensures
        (final(entry)@, next.0@, next.1) == entry_step(old(entry)@, said),
        (final(visit)@, then@) == visit_step(old(visit)@, came),
        (final(session)@, done.0@, done.1) == session_step(old(session)@, heard, now),
        (*final(duplex), after.0, after.1) == duplex_step(*old(duplex), passed),
{
}

/// What is said here of the use of the network, and of what clients are told, is
/// said of what the proxy does about it.
pub proof fn law_the_proxy_says_so(
    counted: u64,
    max_network: u64,
    check: &mut u64,
    now: u64,
    usage: Usage,
    why: Farewell,
    said: &'static str,
    domain: &str,
    addr: Peer,
    label: String,
)
    requires
        call_ensures(check_usage, (counted, max_network, check, now), usage),
        call_ensures(Farewell::message, (why,), said),
        call_ensures(server_label, (domain, addr), label),
    ensures
        (usage@, *final(check)) == usage_step(counted, max_network, *old(check), now),
        said@ == farewell_text(why),
        label@ == server_text(domain@, addr),
{
}

} // verus!
