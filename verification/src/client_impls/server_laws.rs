//! What sharing a server is for: how the connection to the proxy and those of the
//! players fare, from the first message to the last.

use crate::client_impls::server::{
    host_port, join_step, share_step, Join, JoinAction, JoinActionView, JoinEvent, JoinView, Share,
    ShareAction, ShareActionView, ShareEvent, ShareView, Stage,
};
use crate::client_impls::types::{ClientStatusUpdate, ConnectOptions, ServerEventView, UiEvent};
use crate::message::{Addr, InitResponse, Message, PROTOCOL_VERSION};
use crate::net::SocketAddr;
use crate::text;
use vstd::prelude::*;

verus! {

// The connection to the proxy.

/// A server is shared: the proxy is connected to and greeted, its answer is read,
/// and if the proxy speaks the same protocol and assigned the requested domain,
/// or any where none was requested, that domain is reported and served. What was
/// asked for, and who is connected, stays as it is.
pub proof fn law_servers_are_shared<T>(s: ShareView<T>, response: InitResponse)
    requires
        s.stage == Stage::Connecting,
        response.protocol_version == PROTOCOL_VERSION,
        s.options.request_domain is Some ==> s.options.request_domain == Some(response.domain@),
    ensures
        ({
            let (s1, a1) = share_step(s, ShareEvent::Connected);
            let (s2, a2) = share_step(s1, ShareEvent::HelloSent);
            let (s3, a3) = share_step(s2, ShareEvent::Answered(response));
            &&& a1 == ShareActionView::<T>::SendHello
            &&& a2 == ShareActionView::<T>::ReadAnswer
            &&& a3 == ShareActionView::<T>::Serve(ServerEventView::Url(response.domain@))
            &&& s3.stage == Stage::Sharing
            &&& s3.options == s.options && s3.clients == s.clients
        }),
{
}

/// The answer of the proxy decides: a server is shared exactly where the proxy
/// speaks the same protocol and assigned the domain that was requested, if one
/// was. Else the connection ends, and it is reported what was wrong, another
/// protocol before another domain.
pub proof fn law_the_answer_decides<T>(s: ShareView<T>, response: InitResponse)
    requires
        s.stage == Stage::Waiting,
    ensures
        ({
            let (after, action) = share_step(s, ShareEvent::Answered(response));
            let same = response.protocol_version == PROTOCOL_VERSION;
            let granted = match s.options.request_domain {
                Some(wish) => wish == response.domain@,
                None => true,
            };
            &&& same && granted <==> after.stage == Stage::Sharing
            &&& same && granted <==> action == ShareActionView::<T>::Serve(
                ServerEventView::Url(response.domain@),
            )
            &&& !same <==> action == ShareActionView::<T>::Fail(
                ServerEventView::InvalidProtocolVersion(response.protocol_version),
            )
            &&& same && !granted <==> action == ShareActionView::<T>::Fail(
                ServerEventView::DidntGetRequestedUrl(response.domain@),
            )
            &&& !(same && granted) ==> after.stage == Stage::Ended
            &&& after.options == s.options && after.clients == s.clients
        }),
{
}

/// Before a server is shared, whatever fails ends the connection, and it is
/// reported what failed.
pub proof fn law_failed_connections_are_reported<T>(s: ShareView<T>, e: String)
    ensures
        ({
            let fails = |event: ShareEvent<T>, report: ServerEventView|
                share_step(s, event) == (
                    ShareView { stage: Stage::Ended, ..s },
                    ShareActionView::<T>::Fail(report),
                );
            let because = |front: Seq<char>|
                ServerEventView::ServerConnectionFailed(front + e@);
            &&& s.stage == Stage::Connecting ==> fails(
                ShareEvent::ConnectTimedOut,
                ServerEventView::ServerConnectionFailedTimeout,
            )
            &&& s.stage == Stage::Connecting ==> fails(
                ShareEvent::ConnectFailed(e),
                because("Failed to connect to server: "@),
            )
            &&& s.stage == Stage::Greeting ==> fails(
                ShareEvent::HelloFailed(e),
                because("Failed to send Hello: "@),
            )
            &&& s.stage == Stage::Waiting ==> fails(
                ShareEvent::AnswerFailed(e),
                because("Failed to fetch domain from proxy server: "@),
            )
        }),
{
}

/// While a server is shared, every heartbeat is sent back as it came, and a
/// connection is opened for every player under the number that the proxy sent.
/// Neither changes anything else.
pub proof fn law_the_proxy_is_followed<T>(s: ShareView<T>, data: [u8; 32], id: u128)
    requires
        s.stage == Stage::Sharing,
    ensures
        share_step(s, ShareEvent::Received(Message::HeartBeat(data))) == (
            s,
            ShareActionView::<T>::Echo(data),
        ),
        share_step(s, ShareEvent::Received(Message::NewClient(id))) == (
            s,
            ShareActionView::<T>::Open(id),
        ),
{
}

/// While a server is shared, the players who are registered are those who came
/// and did not leave: a player who comes is registered with what cuts the player
/// off, one who leaves is not registered any more, and one whom the screens cut
/// off is cut off with just that. No other player is touched, and sharing goes on.
pub proof fn law_players_come_and_go<T>(
    s: ShareView<T>,
    addr: SocketAddr,
    token: T,
    other: SocketAddr,
)
    requires
        s.stage == Stage::Sharing,
        other != addr,
    ensures
        ({
            let (came, a1) = share_step(
                s,
                ShareEvent::Client(ClientStatusUpdate::Connected { addr, token }),
            );
            let (left, a2) = share_step(
                s,
                ShareEvent::Client(ClientStatusUpdate::Disconnected { addr }),
            );
            let (cut, a3) = share_step(s, ShareEvent::Ui(UiEvent::Disconnect(addr)));
            let same = |t: ShareView<T>|
                {
                    &&& t.stage == Stage::Sharing && t.options == s.options
                    &&& t.clients.dom().contains(other) == s.clients.dom().contains(other)
                    &&& s.clients.dom().contains(other) ==> t.clients[other] == s.clients[other]
                };
            &&& same(came) && same(left) && same(cut)
            &&& came.clients.dom().contains(addr) && came.clients[addr] == token
            &&& !left.clients.dom().contains(addr)
            &&& !cut.clients.dom().contains(addr)
            &&& a1 == ShareActionView::<T>::Wait
            &&& a2 == ShareActionView::<T>::Wait
            &&& s.clients.dom().contains(addr) ==> a3 == ShareActionView::<T>::Cut(
                s.clients[addr],
            )
            &&& !s.clients.dom().contains(addr) ==> a3 == ShareActionView::<T>::Wait
        }),
{
}

/// Sharing stops when the screens ask for it, when nobody is left to ask, and
/// when the proxy cannot be read from or answered. Only the last two are
/// reported.
pub proof fn law_sharing_stops<T>(s: ShareView<T>, e: String)
    requires
        s.stage == Stage::Sharing,
    ensures
        ({
            let stops = |event: ShareEvent<T>, report: Option<ServerEventView>|
                share_step(s, event) == (
                    ShareView { stage: Stage::Ended, ..s },
                    ShareActionView::<T>::Stop(report),
                );
            let because = |front: Seq<char>|
                Some(ServerEventView::ServerConnectionFailed(front + e@));
            &&& stops(ShareEvent::Ui(UiEvent::Stop), None)
            &&& stops(ShareEvent::Closed, None)
            &&& stops(
                ShareEvent::ReceiveFailed(e),
                because("Error parsing message send by server: "@),
            )
            &&& stops(
                ShareEvent::EchoFailed(e),
                because("Sending heartbeat to server failed: "@),
            )
        }),
{
}

/// The connection waits for one thing at a time: whatever else happens changes
/// nothing.
pub proof fn law_shares_wait_their_turn<T>(s: ShareView<T>, event: ShareEvent<T>)
    requires
        s.stage == Stage::Connecting ==> !(event is Connected || event is ConnectTimedOut
            || event is ConnectFailed),
        s.stage == Stage::Greeting ==> !(event is HelloSent || event is HelloFailed),
        s.stage == Stage::Waiting ==> !(event is Answered || event is AnswerFailed),
        s.stage == Stage::Sharing ==> !(event is Received || event is ReceiveFailed
            || event is EchoFailed || event is Client || event is Closed) && (
        event matches ShareEvent::Ui(ui) ==> ui is Start),
    ensures
        share_step(s, event) == (s, ShareActionView::<T>::Wait),
{
}

// The connections of players.

/// A player gets to the Minecraft server: the proxy and the server are connected
/// to, the proxy is told the number and says who the player is, and from then on
/// the player plays. A player with a name is reported as one, and reported again,
/// under the same name and address, when the player leaves. Somebody without a
/// name is reported as a ping, and not when they leave.
pub proof fn law_players_get_to_the_server(who: Addr, end: JoinEvent)
    requires
        end is Cancelled || end is Finished,
    ensures
        ({
            let (j1, a1) = join_step(JoinView::Dialing, JoinEvent::ProxyConnected);
            let (j2, a2) = join_step(j1, JoinEvent::ServerConnected);
            let (j3, a3) = join_step(j2, JoinEvent::IdSent);
            let (j4, a4) = join_step(j3, JoinEvent::Met(who));
            let (j5, a5) = join_step(j4, end);
            &&& a1 == JoinActionView::ConnectServer
            &&& a2 == JoinActionView::SendId
            &&& a3 == JoinActionView::ReadAddr
            &&& j5 == JoinView::Gone
            &&& match who.username {
                Some(name) => {
                    &&& a4 == JoinActionView::Play(
                        ServerEventView::PlayerConnected(who.addr, name@),
                    )
                    &&& a5 == JoinActionView::Leave(
                        Some(ServerEventView::PlayerDisconnected(who.addr, name@)),
                        end is Cancelled,
                    )
                },
                None => {
                    &&& a4 == JoinActionView::Play(ServerEventView::Pinged(who.addr))
                    &&& a5 == JoinActionView::Leave(None, end is Cancelled)
                },
            }
        }),
{
}

/// A player who does not get to the Minecraft server is given up, and it is
/// reported why. Only where both sides were connected to, both are shut down.
pub proof fn law_lost_players_are_reported(e: String)
    ensures
        ({
            let reaching = join_step(JoinView::Dialing, JoinEvent::ProxyConnected).0;
            let naming = join_step(reaching, JoinEvent::ServerConnected).0;
            let meeting = join_step(naming, JoinEvent::IdSent).0;
            let fails = |j: JoinView, event: JoinEvent, report: ServerEventView, shutdown: bool|
                join_step(j, event) == (JoinView::Gone, JoinActionView::Fail(report, shutdown));
            let minor = |front: Seq<char>|
                ServerEventView::ServerNonCatastrophicError(front + e@);
            &&& fails(
                JoinView::Dialing,
                JoinEvent::ProxyFailed(e),
                minor("Failed to connect to proxy's PLAY port: "@),
                false,
            )
            &&& fails(
                reaching,
                JoinEvent::ServerFailed(e),
                ServerEventView::MCServerConnectionFailed(e@),
                false,
            )
            &&& fails(
                naming,
                JoinEvent::IdFailed(e),
                minor("Failed to send id to server: "@),
                false,
            )
            &&& fails(
                meeting,
                JoinEvent::MeetFailed(e),
                minor("Error fetching player IP: "@),
                true,
            )
        }),
{
}

/// The connection of a player waits for one thing at a time: whatever else
/// happens changes nothing.
pub proof fn law_joins_wait_their_turn(j: JoinView, event: JoinEvent)
    requires
        j is Dialing ==> !(event is ProxyConnected || event is ProxyFailed),
        j is Reaching ==> !(event is ServerConnected || event is ServerFailed),
        j is Naming ==> !(event is IdSent || event is IdFailed),
        j is Meeting ==> !(event is Met || event is MeetFailed),
        j is Playing ==> !(event is Cancelled || event is Finished),
    ensures
        join_step(j, event) == (j, JoinActionView::Nothing),
{
}

/// The proxy is reached at its host, and a port behind a colon.
pub proof fn law_ports_stand_behind_the_host(host: Seq<char>, port: u16)
    ensures
        host_port(host, port) == host + ":"@ + text::decimal_text(port as nat),
{
}

/// The proxy is greeted at one port, and expects the connections of players at the
/// other. A connection begins with what was asked for, and nobody connected.
pub proof fn law_connections_begin_as_asked<T>(
    options: ConnectOptions,
    greeted: String,
    played: String,
    share: Share<T>,
)
    requires
        call_ensures(ConnectOptions::init_address, (&options,), greeted),
        call_ensures(ConnectOptions::play_address, (&options,), played),
        call_ensures(Share::<T>::new, (options,), share),
    ensures
        greeted@ == options.proxy_server@ + ":"@ + text::decimal_text(
            options.proxy_server_init_port as nat,
        ),
        played@ == options.proxy_server@ + ":"@ + text::decimal_text(
            options.proxy_server_play_port as nat,
        ),
        share@.stage == Stage::Connecting,
        share@.options == options@,
        share@.clients == Map::<SocketAddr, T>::empty(),
{
}

/// What is said here of sharing a server is said of every step that is taken with
/// the connection to the proxy, and with those of the players.
pub proof fn law_sharing_takes_these_steps<T>(
    share: &mut Share<T>,
    event: ShareEvent<T>,
    action: ShareAction<T>,
    join: &mut Join,
    met: JoinEvent,
    then: JoinAction,
)
    requires
        call_ensures(Share::<T>::step, (share, event), action),
        call_ensures(Join::step, (join, met), then),
    ensures
        (final(share)@, action@) == share_step(old(share)@, event),
        (final(join)@, then@) == join_step(old(join)@, met),
{
}

} // verus!
