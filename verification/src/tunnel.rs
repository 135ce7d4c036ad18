//! A tunnel: the two relays between the client and its peer, each of which goes its own
//! way, and the end of the one and the other.

use vstd::prelude::*;

use crate::handler::{Action, ActionView, Event, EventView, ForwardRequest};
use crate::relay::{
    all_answered, bytes_read, bytes_written, chunks_read, chunks_written, law_relay_is_transparent,
    law_relay_keeps_chunks, relay_actions, relay_state, relay_step, Direction, Relay, RelayAction,
    RelayActionView, RelayEvent, RelayEventView, RelayState,
};

verus! {

/// One of the two directions of a tunnel.
#[derive(Clone, Copy, Debug, PartialEq, Eq, Structural)]
pub enum Side {
    /// From the client to its peer.
    ToPeer,
    /// From the peer to the client.
    ToClient,
}

/// The peer that a tunnel goes to.
#[derive(Clone, Copy, Debug, PartialEq, Eq, Structural)]
pub enum Peer {
    /// A TCP connection.
    Tcp,
    /// A UDP socket.
    Udp,
}

/// The relay of each side of a tunnel.
pub open spec fn direction_of(peer: Peer, side: Side) -> Direction {
    match (peer, side) {
        (Peer::Tcp, Side::ToPeer) => Direction::ClientToTcp,
        (Peer::Tcp, Side::ToClient) => Direction::TcpToClient,
        (Peer::Udp, Side::ToPeer) => Direction::ClientToUdp,
        (Peer::Udp, Side::ToClient) => Direction::UdpToClient,
    }
}

/// The peer of the tunnel that an action asks for, where it asks for one.
pub open spec fn peer_of(action: ActionView) -> Option<Peer> {
    match action {
        ActionView::TunnelTcp => Some(Peer::Tcp),
        ActionView::TunnelUdp => Some(Peer::Udp),
        _ => None,
    }
}

/// One relay of a tunnel: where its bytes come from and go, and what it is waiting for.
pub struct RelayView {
    pub direction: Direction,
    pub state: RelayState,
}

/// A tunnel: the relay of each side.
pub struct TunnelView {
    pub to_peer: RelayView,
    pub to_client: RelayView,
}

impl TunnelView {
    /// The relay of a side.
    pub open spec fn relay(self, side: Side) -> RelayView {
        match side {
            Side::ToPeer => self.to_peer,
            Side::ToClient => self.to_client,
        }
    }

    /// The relays of both sides have stopped.
    pub open spec fn is_over(self) -> bool {
        self.to_peer.state == RelayState::Stopped && self.to_client.state == RelayState::Stopped
    }

    /// What the exchange is told of the tunnel: that it has ended, when it is over, and
    /// nothing before.
    pub open spec fn news(self) -> Option<EventView> {
        if self.is_over() {
            Some(EventView::TunnelEnded)
        } else {
            None
        }
    }
}

/// A tunnel that begins with reading on both sides.
pub open spec fn new_tunnel(peer: Peer) -> TunnelView {
    TunnelView {
        to_peer: RelayView {
            direction: direction_of(peer, Side::ToPeer),
            state: RelayState::Reading,
        },
        to_client: RelayView {
            direction: direction_of(peer, Side::ToClient),
            state: RelayState::Reading,
        },
    }
}

/// What a tunnel does when something is reported of one of its sides: the relay of that
/// side goes on, and the other one stays as it is.
pub open spec fn tunnel_step(t: TunnelView, side: Side, e: RelayEventView) -> (
    TunnelView,
    RelayActionView,
) {
    let relay = t.relay(side);
    let (state, action) = relay_step(relay.direction, relay.state, e);
    match side {
        Side::ToPeer => (TunnelView { to_peer: RelayView { state, ..relay }, ..t }, action),
        Side::ToClient => (TunnelView { to_client: RelayView { state, ..relay }, ..t }, action),
    }
}

/// The contents of an event that may be missing.
pub open spec fn maybe_event(event: Option<Event>) -> Option<EventView> {
    match event {
        Some(event) => Some(event@),
        None => None,
    }
}

/// A tunnel between the client and its peer.
pub struct Tunnel {
    to_peer: Relay,
    to_client: Relay,
}

impl View for Tunnel {
    type V = TunnelView;

    closed spec fn view(&self) -> TunnelView {
        TunnelView {
            to_peer: RelayView {
                direction: self.to_peer.direction(),
                state: self.to_peer.state(),
            },
            to_client: RelayView {
                direction: self.to_client.direction(),
                state: self.to_client.state(),
            },
        }
    }
}

impl Tunnel {
    /// The tunnel that an action asks for, where it asks for one. Both of its sides begin
    /// with reading.
    pub fn open(action: &Action) -> (r: Option<Tunnel>)
        ensures
            r is Some <==> peer_of(action@) is Some,
            r matches Some(tunnel) ==> tunnel@ == new_tunnel(peer_of(action@)->0),
    {
        match action {
            Action::TunnelTcp => {
                let (to_peer, _) = Relay::start(Direction::ClientToTcp);
                let (to_client, _) = Relay::start(Direction::TcpToClient);
                Some(Tunnel { to_peer, to_client })
            },
            Action::TunnelUdp => {
                let (to_peer, _) = Relay::start(Direction::ClientToUdp);
                let (to_client, _) = Relay::start(Direction::UdpToClient);
                Some(Tunnel { to_peer, to_client })
            },
            _ => None,
        }
    }

    /// Takes in what came of the last action of a side, and says what to do next on that
    /// side and what the exchange is to be told of the tunnel.
    pub fn step(&mut self, side: Side, event: RelayEvent) -> (r: (RelayAction, Option<Event>))
        ensures
            (final(self)@, r.0@) == tunnel_step(old(self)@, side, event@),
            maybe_event(r.1) == final(self)@.news(),
    {
        let action = match side {
            Side::ToPeer => self.to_peer.step(event),
            Side::ToClient => self.to_client.step(event),
        };
        let news = if self.to_peer.is_stopped() && self.to_client.is_stopped() {
            Some(Event::TunnelEnded)
        } else {
            None
        };
        (action, news)
    }
}

/// The relay that brings the client's body to the upstream server, beside a request whose
/// body was not collected, and its first action.
pub fn body_relay(request: &ForwardRequest) -> (r: Option<(Relay, RelayAction)>)
    ensures
        r is Some <==> request@.body is None,
        r matches Some((relay, action)) ==> {
            &&& relay.direction() == Direction::ClientToUpstream
            &&& relay.state() == RelayState::Reading
            &&& action@ == RelayActionView::Read
        },
{
    match &request.body {
        Some(_) => None,
        None => Some(Relay::start(Direction::ClientToUpstream)),
    }
}

/// What is reported of one side, among what is reported of both.
pub open spec fn of_side(events: Seq<(Side, RelayEventView)>, side: Side) -> Seq<RelayEventView>
    decreases events.len(),
{
    if events.len() == 0 {
        Seq::empty()
    } else if events.last().0 == side {
        of_side(events.drop_last(), side).push(events.last().1)
    } else {
        of_side(events.drop_last(), side)
    }
}

/// The state of a tunnel after what is reported of both sides, in whatever order.
pub open spec fn tunnel_state(peer: Peer, events: Seq<(Side, RelayEventView)>) -> TunnelView
    decreases events.len(),
{
    if events.len() == 0 {
        new_tunnel(peer)
    } else {
        tunnel_step(tunnel_state(peer, events.drop_last()), events.last().0, events.last().1).0
    }
}

/// What a tunnel asks for on one side in the course of what is reported of both.
pub open spec fn tunnel_actions(
    peer: Peer,
    events: Seq<(Side, RelayEventView)>,
    side: Side,
) -> Seq<RelayActionView>
    decreases events.len(),
{
    if events.len() == 0 {
        Seq::empty()
    } else {
        let front = tunnel_actions(peer, events.drop_last(), side);
        if events.last().0 == side {
            front.push(
                tunnel_step(
                    tunnel_state(peer, events.drop_last()),
                    events.last().0,
                    events.last().1,
                ).1,
            )
        } else {
            front
        }
    }
}

/// Each side of a tunnel is a relay of its own: however the reports of the two sides come
/// to lie between one another, each side does what its relay does on its own reports.
pub proof fn law_sides_are_independent(
    peer: Peer,
    events: Seq<(Side, RelayEventView)>,
    side: Side,
)
    ensures
        tunnel_state(peer, events).relay(side).direction == direction_of(peer, side),
        tunnel_state(peer, events).relay(side).state == relay_state(
            direction_of(peer, side),
            of_side(events, side),
        ),
        tunnel_actions(peer, events, side) == relay_actions(
            direction_of(peer, side),
            of_side(events, side),
        ),
    decreases events.len(),
{
    if events.len() > 0 {
        let front = events.drop_last();
        law_sides_are_independent(peer, front, side);
        if events.last().0 == side {
            assert(of_side(events, side).drop_last() =~= of_side(front, side));
        }
    }
}

/// A tunnel is over exactly when the relays of both sides have stopped, and the exchange is
/// told so then and not before.
pub proof fn law_tunnel_ends_with_both_sides(peer: Peer, events: Seq<(Side, RelayEventView)>)
    ensures
        tunnel_state(peer, events).news() == Some(EventView::TunnelEnded) <==> {
            &&& relay_state(direction_of(peer, Side::ToPeer), of_side(events, Side::ToPeer))
                == RelayState::Stopped
            &&& relay_state(direction_of(peer, Side::ToClient), of_side(events, Side::ToClient))
                == RelayState::Stopped
        },
        tunnel_state(peer, events).news() is Some ==> tunnel_state(peer, events).news() == Some(
            EventView::TunnelEnded,
        ),
{
    law_sides_are_independent(peer, events, Side::ToPeer);
    law_sides_are_independent(peer, events, Side::ToClient);
}

/// The end of one side leaves the other going on: what is reported of a side changes
/// nothing on the other, and while the other has not stopped the tunnel is not over.
pub proof fn law_one_end_leaves_the_other(t: TunnelView, side: Side, e: RelayEventView)
    ensures
        match side {
            Side::ToPeer => tunnel_step(t, side, e).0.to_client == t.to_client,
            Side::ToClient => tunnel_step(t, side, e).0.to_peer == t.to_peer,
        },
        side == Side::ToPeer && t.to_client.state != RelayState::Stopped ==> tunnel_step(
            t,
            side,
            e,
        ).0.news() is None,
        side == Side::ToClient && t.to_peer.state != RelayState::Stopped ==> tunnel_step(
            t,
            side,
            e,
        ).0.news() is None,
{
}

/// A tunnel hands on exactly what it reads: on each side the chunks that were to be written
/// are the chunks that were read, one for one and byte for byte.
pub proof fn law_tunnel_is_transparent(
    peer: Peer,
    events: Seq<(Side, RelayEventView)>,
    side: Side,
)
    requires
        all_answered(tunnel_actions(peer, events, side)),
    ensures
        bytes_written(tunnel_actions(peer, events, side)) == bytes_read(of_side(events, side)),
        chunks_written(tunnel_actions(peer, events, side)) == chunks_read(
            direction_of(peer, side),
            of_side(events, side),
        ),
{
    law_sides_are_independent(peer, events, side);
    law_relay_is_transparent(direction_of(peer, side), of_side(events, side));
    law_relay_keeps_chunks(direction_of(peer, side), of_side(events, side));
}

/// A tunnel for a TCP connection relays from the client to the connection and from the
/// connection to the client, one for a UDP socket from the client to the socket and from the
/// socket to the client, and both sides begin with reading. Nothing else is a tunnel.
pub proof fn law_ends_of_tunnels(action: ActionView)
    ensures
        peer_of(action) is Some <==> action is TunnelTcp || action is TunnelUdp,
        action is TunnelTcp ==> {
            let t = new_tunnel(peer_of(action)->0);
            &&& t.to_peer.direction == Direction::ClientToTcp
            &&& t.to_client.direction == Direction::TcpToClient
            &&& t.to_peer.state == RelayState::Reading
            &&& t.to_client.state == RelayState::Reading
        },
        action is TunnelUdp ==> {
            let t = new_tunnel(peer_of(action)->0);
            &&& t.to_peer.direction == Direction::ClientToUdp
            &&& t.to_client.direction == Direction::UdpToClient
            &&& t.to_peer.state == RelayState::Reading
            &&& t.to_client.state == RelayState::Reading
        },
{
}

} // verus!
