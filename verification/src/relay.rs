//! One direction of a stream of bytes between the client and its peer.
//!
//! A relay reads a chunk from its source, writes it to its sink, and so on until
//! the source ends or the sink refuses a chunk. The caller performs the [`RelayAction`]
//! that the relay asks for and reports what came of it as a [`RelayEvent`].

use vstd::prelude::*;

use crate::chunk::chunk_bytes;

verus! {

/// Where the bytes come from and where they go.
#[derive(Clone, Copy, Debug, PartialEq, Eq, Structural)]
pub enum Direction {
    /// From the client's stream to a TCP connection.
    ClientToTcp,
    /// From a TCP connection to the client's stream.
    TcpToClient,
    /// From the client's stream to a UDP socket.
    ClientToUdp,
    /// From a UDP socket to the client's stream.
    UdpToClient,
    /// From the client's stream to the body of the request to the upstream server.
    ClientToUpstream,
}

/// What a relay asks for.
pub enum RelayAction {
    /// Read the next chunk from the source.
    Read,
    /// Write the chunk to the sink.
    Write(bytes::Bytes),
    /// Close the sink: shut down the TCP connection, or finish the client's stream.
    Close,
    /// The relay is done.
    Stop,
    /// The event was not the answer to what had been asked; nothing changes.
    Ignore,
}

/// What came of the action.
pub enum RelayEvent {
    /// A chunk was read. A TCP connection gives an empty one at its end.
    Data(bytes::Bytes),
    /// There is no more to read: the source has ended or failed.
    Ended,
    /// The chunk was written, or the sink refused it.
    Written(bool),
    /// The sink was closed, or could not be.
    Closed,
}

/// What a relay is waiting for.
#[derive(Clone, Copy, Debug, PartialEq, Eq, Structural)]
pub enum RelayState {
    Reading,
    Writing,
    Closing,
    Stopped,
}

/// The contents of a [`RelayAction`].
pub enum RelayActionView {
    Read,
    Write(Seq<u8>),
    Close,
    Stop,
    Ignore,
}

/// The contents of a [`RelayEvent`].
pub enum RelayEventView {
    Data(Seq<u8>),
    Ended,
    Written(bool),
    Closed,
}

impl View for RelayAction {
    type V = RelayActionView;

    open spec fn view(&self) -> RelayActionView {
        match *self {
            RelayAction::Read => RelayActionView::Read,
            RelayAction::Write(chunk) => RelayActionView::Write(chunk_bytes(chunk)),
            RelayAction::Close => RelayActionView::Close,
            RelayAction::Stop => RelayActionView::Stop,
            RelayAction::Ignore => RelayActionView::Ignore,
        }
    }
}

impl View for RelayEvent {
    type V = RelayEventView;

    open spec fn view(&self) -> RelayEventView {
        match *self {
            RelayEvent::Data(chunk) => RelayEventView::Data(chunk_bytes(chunk)),
            RelayEvent::Ended => RelayEventView::Ended,
            RelayEvent::Written(ok) => RelayEventView::Written(ok),
            RelayEvent::Closed => RelayEventView::Closed,
        }
    }
}

impl Direction {
    /// Whether an empty chunk means that the source has ended. It does for a TCP
    /// connection; a datagram may be empty.
    pub open spec fn empty_ends(self) -> bool {
        self == Direction::TcpToClient
    }

    /// Whether the sink is closed at the end.
    pub open spec fn closes(self) -> bool {
        self == Direction::ClientToTcp || self == Direction::TcpToClient || self
            == Direction::UdpToClient
    }

    /// The size of the buffer that a socket is read with.
    pub fn buffer_size(self) -> (r: usize)
        ensures
            r == (if self == Direction::UdpToClient {
                65535usize
            } else {
                8192usize
            }),
    {
        match self {
            Direction::UdpToClient => 65535,
            _ => 8192,
        }
    }
}

/// What happens when a relay comes to its end.
pub open spec fn ending(d: Direction) -> (RelayState, RelayActionView) {
    if d.closes() {
        (RelayState::Closing, RelayActionView::Close)
    } else {
        (RelayState::Stopped, RelayActionView::Stop)
    }
}

/// What a relay does next.
pub open spec fn relay_step(d: Direction, s: RelayState, e: RelayEventView) -> (
    RelayState,
    RelayActionView,
) {
    match (s, e) {
        (RelayState::Reading, RelayEventView::Data(data)) => if d.empty_ends() && data.len() == 0 {
            ending(d)
        } else {
            (RelayState::Writing, RelayActionView::Write(data))
        },
        (RelayState::Reading, RelayEventView::Ended) => ending(d),
        (RelayState::Writing, RelayEventView::Written(ok)) => if ok {
            (RelayState::Reading, RelayActionView::Read)
        } else {
            ending(d)
        },
        (RelayState::Closing, RelayEventView::Closed) => (
            RelayState::Stopped,
            RelayActionView::Stop,
        ),
        _ => (s, RelayActionView::Ignore),
    }
}

/// One direction of a tunnel, or the body of a forwarded request.
pub struct Relay {
    direction: Direction,
    state: RelayState,
}

impl Relay {
    /// Where the bytes come from and where they go.
    pub closed spec fn direction(self) -> Direction {
        self.direction
    }

    /// What the relay is waiting for.
    pub closed spec fn state(self) -> RelayState {
        self.state
    }

    /// A relay that begins with reading.
    pub fn start(direction: Direction) -> (r: (Relay, RelayAction))
        ensures
            r.0.direction() == direction,
            r.0.state() == RelayState::Reading,
            r.1@ == RelayActionView::Read,
    {
        (Relay { direction, state: RelayState::Reading }, RelayAction::Read)
    }

    /// Whether the relay is done.
    pub fn is_stopped(&self) -> (r: bool)
        ensures
            r == (self.state() == RelayState::Stopped),
    {
        self.state == RelayState::Stopped
    }

    fn end(&mut self) -> (r: RelayAction)
        ensures
            final(self).direction() == old(self).direction(),
            (final(self).state(), r@) == ending(old(self).direction()),
    {
        match self.direction {
            Direction::ClientToTcp | Direction::TcpToClient | Direction::UdpToClient => {
                self.state = RelayState::Closing;
                RelayAction::Close
            },
            _ => {
                self.state = RelayState::Stopped;
                RelayAction::Stop
            },
        }
    }

    /// Takes in what came of the last action and says what to do next.
    pub fn step(&mut self, event: RelayEvent) -> (r: RelayAction)
        ensures
            final(self).direction() == old(self).direction(),
            (final(self).state(), r@) == relay_step(
                old(self).direction(),
                old(self).state(),
                event@,
            ),
    {
        match (self.state, event) {
            (RelayState::Reading, RelayEvent::Data(chunk)) => {
                if self.direction == Direction::TcpToClient && chunk.is_empty() {
                    self.end()
                } else {
                    self.state = RelayState::Writing;
                    RelayAction::Write(chunk)
                }
            },
            (RelayState::Reading, RelayEvent::Ended) => self.end(),
            (RelayState::Writing, RelayEvent::Written(ok)) => {
                if ok {
                    self.state = RelayState::Reading;
                    RelayAction::Read
                } else {
                    self.end()
                }
            },
            (RelayState::Closing, RelayEvent::Closed) => {
                self.state = RelayState::Stopped;
                RelayAction::Stop
            },
            _ => RelayAction::Ignore,
        }
    }
}

/// The state of a relay after a sequence of events.
pub open spec fn relay_state(d: Direction, events: Seq<RelayEventView>) -> RelayState
    decreases events.len(),
{
    if events.len() == 0 {
        RelayState::Reading
    } else {
        relay_step(d, relay_state(d, events.drop_last()), events.last()).0
    }
}

/// What a relay has asked for in the course of a sequence of events, after the
/// first read.
pub open spec fn relay_actions(d: Direction, events: Seq<RelayEventView>) -> Seq<RelayActionView>
    decreases events.len(),
{
    if events.len() == 0 {
        Seq::empty()
    } else {
        relay_actions(d, events.drop_last()).push(
            relay_step(d, relay_state(d, events.drop_last()), events.last()).1,
        )
    }
}

/// All the bytes that were read.
pub open spec fn bytes_read(events: Seq<RelayEventView>) -> Seq<u8>
    decreases events.len(),
{
    if events.len() == 0 {
        Seq::empty()
    } else {
        match events.last() {
            RelayEventView::Data(data) => bytes_read(events.drop_last()) + data,
            _ => bytes_read(events.drop_last()),
        }
    }
}

/// All the bytes that were to be written.
pub open spec fn bytes_written(actions: Seq<RelayActionView>) -> Seq<u8>
    decreases actions.len(),
{
    if actions.len() == 0 {
        Seq::empty()
    } else {
        match actions.last() {
            RelayActionView::Write(data) => bytes_written(actions.drop_last()) + data,
            _ => bytes_written(actions.drop_last()),
        }
    }
}

/// The chunks that were read, one by one, but for the empty one that ends a TCP
/// connection.
pub open spec fn chunks_read(d: Direction, events: Seq<RelayEventView>) -> Seq<Seq<u8>>
    decreases events.len(),
{
    if events.len() == 0 {
        Seq::empty()
    } else {
        match events.last() {
            RelayEventView::Data(data) => if d.empty_ends() && data.len() == 0 {
                chunks_read(d, events.drop_last())
            } else {
                chunks_read(d, events.drop_last()).push(data)
            },
            _ => chunks_read(d, events.drop_last()),
        }
    }
}

/// The chunks that were to be written, one by one.
pub open spec fn chunks_written(actions: Seq<RelayActionView>) -> Seq<Seq<u8>>
    decreases actions.len(),
{
    if actions.len() == 0 {
        Seq::empty()
    } else {
        match actions.last() {
            RelayActionView::Write(data) => chunks_written(actions.drop_last()).push(data),
            _ => chunks_written(actions.drop_last()),
        }
    }
}

/// Each event is the answer to the action before it.
pub open spec fn all_answered(actions: Seq<RelayActionView>) -> bool {
    forall|i: int| 0 <= i < actions.len() ==> (#[trigger] actions[i]) != RelayActionView::Ignore
}

/// How many times the sink has been closed.
pub open spec fn closings(actions: Seq<RelayActionView>) -> nat
    decreases actions.len(),
{
    if actions.len() == 0 {
        0
    } else if actions.last() == RelayActionView::Close {
        closings(actions.drop_last()) + 1
    } else {
        closings(actions.drop_last())
    }
}

/// A relay hands on exactly the bytes that it reads, in their order: at every
/// moment what was to be written is what was read.
pub proof fn law_relay_is_transparent(d: Direction, events: Seq<RelayEventView>)
    requires
        all_answered(relay_actions(d, events)),
    ensures
        bytes_written(relay_actions(d, events)) == bytes_read(events),
    decreases events.len(),
{
    if events.len() > 0 {
        let front = events.drop_last();
        let actions = relay_actions(d, events);
        assert(actions.drop_last() =~= relay_actions(d, front));
        assert forall|i: int| 0 <= i < relay_actions(d, front).len() implies (
        #[trigger] relay_actions(d, front)[i]) != RelayActionView::Ignore by {
            assert(actions[i] == relay_actions(d, front)[i]);
        }
        law_relay_is_transparent(d, front);
        assert(actions.last() != RelayActionView::Ignore) by {
            assert(actions[actions.len() - 1] == actions.last());
        }
        assert(bytes_written(actions) =~= bytes_read(events));
    }
}

/// A relay keeps the bounds of what it reads: each chunk, and so each datagram, is written
/// as one chunk, in order, none is split or joined with another, and none is added.
pub proof fn law_relay_keeps_chunks(d: Direction, events: Seq<RelayEventView>)
    requires
        all_answered(relay_actions(d, events)),
    ensures
        chunks_written(relay_actions(d, events)) == chunks_read(d, events),
    decreases events.len(),
{
    if events.len() > 0 {
        let front = events.drop_last();
        let actions = relay_actions(d, events);
        assert(actions.drop_last() =~= relay_actions(d, front));
        assert forall|i: int| 0 <= i < relay_actions(d, front).len() implies (
        #[trigger] relay_actions(d, front)[i]) != RelayActionView::Ignore by {
            assert(actions[i] == relay_actions(d, front)[i]);
        }
        law_relay_keeps_chunks(d, front);
        assert(actions.last() != RelayActionView::Ignore) by {
            assert(actions[actions.len() - 1] == actions.last());
        }
    }
}

/// A relay closes its sink at most once, and when it has stopped it has closed the
/// sink once if the sink is to be closed, and never otherwise.
pub proof fn law_relay_closes_once(d: Direction, events: Seq<RelayEventView>)
    ensures
        closings(relay_actions(d, events)) == (if d.closes() && (relay_state(d, events)
            == RelayState::Closing || relay_state(d, events) == RelayState::Stopped) {
            1nat
        } else {
            0nat
        }),
    decreases events.len(),
{
    if events.len() > 0 {
        law_relay_closes_once(d, events.drop_last());
        assert(relay_actions(d, events).drop_last() =~= relay_actions(d, events.drop_last()));
    }
}

/// A relay that has stopped stays stopped, whatever is reported to it.
pub proof fn law_relay_stays_stopped(d: Direction, e: RelayEventView)
    ensures
        relay_step(d, RelayState::Stopped, e) == (RelayState::Stopped, RelayActionView::Ignore),
{
}

/// What is reported to a relay that reads these chunks and whose sink takes each of them.
pub open spec fn taken(chunks: Seq<Seq<u8>>) -> Seq<RelayEventView>
    decreases chunks.len(),
{
    if chunks.len() == 0 {
        Seq::empty()
    } else {
        taken(chunks.drop_last()).push(RelayEventView::Data(chunks.last())).push(
            RelayEventView::Written(true),
        )
    }
}

proof fn lemma_taken(d: Direction, chunks: Seq<Seq<u8>>, i: int)
    requires
        d == Direction::TcpToClient ==> forall|j: int|
            0 <= j < chunks.len() ==> (#[trigger] chunks[j]).len() > 0,
    ensures
        relay_state(d, taken(chunks)) == RelayState::Reading,
        relay_actions(d, taken(chunks)).len() == 2 * chunks.len(),
        0 <= i < chunks.len() ==> relay_actions(d, taken(chunks))[2 * i]
            == RelayActionView::Write(chunks[i]),
        0 <= i < chunks.len() ==> relay_actions(d, taken(chunks))[2 * i + 1]
            == RelayActionView::Read,
    decreases chunks.len(),
{
    if chunks.len() > 0 {
        let front = chunks.drop_last();
        assert forall|j: int| 0 <= j < front.len() && d == Direction::TcpToClient implies (
        #[trigger] front[j]).len() > 0 by {
            assert(chunks[j] == front[j]);
        }
        lemma_taken(d, front, i);
        assert(chunks[chunks.len() - 1] == chunks.last());
        let before = taken(front);
        let half = before.push(RelayEventView::Data(chunks.last()));
        let all = half.push(RelayEventView::Written(true));
        assert(half.drop_last() =~= before);
        assert(all.drop_last() =~= half);
        assert(taken(chunks) == all);
        assert(relay_state(d, half) == RelayState::Writing);
        assert(relay_actions(d, half) == relay_actions(d, before).push(
            RelayActionView::Write(chunks.last()),
        ));
        assert(relay_actions(d, all) == relay_actions(d, half).push(RelayActionView::Read));
        if 0 <= i < chunks.len() - 1 {
            assert(chunks[i] == front[i]);
        }
    }
}

/// A relay goes on for as long as there is something to read and its sink takes it, however
/// many chunks that is: each chunk is written as it was read, and after each the next one is
/// read. When the source has ended, or the sink refuses a chunk, the sink is closed, where it
/// is a TCP connection or the client's stream, and the relay stops. An empty chunk is the end
/// of a TCP connection, and a chunk like any other on every other way.
pub proof fn law_relay_goes_on_to_the_end(
    d: Direction,
    chunks: Seq<Seq<u8>>,
    i: int,
    last: Seq<u8>,
)
    requires
        d == Direction::TcpToClient ==> forall|j: int|
            0 <= j < chunks.len() ==> (#[trigger] chunks[j]).len() > 0,
    ensures
        0 <= i < chunks.len() ==> relay_actions(d, taken(chunks))[2 * i]
            == RelayActionView::Write(chunks[i]),
        0 <= i < chunks.len() ==> relay_actions(d, taken(chunks))[2 * i + 1]
            == RelayActionView::Read,
        ({
            let end = if d == Direction::ClientToUdp || d == Direction::ClientToUpstream {
                (RelayState::Stopped, RelayActionView::Stop)
            } else {
                (RelayState::Closing, RelayActionView::Close)
            };
            let s = relay_state(d, taken(chunks));
            &&& relay_step(d, s, RelayEventView::Ended) == end
            &&& d == Direction::TcpToClient ==> relay_step(
                d,
                s,
                RelayEventView::Data(Seq::empty()),
            ) == end
            &&& d != Direction::TcpToClient || last.len() > 0 ==> {
                &&& relay_step(d, s, RelayEventView::Data(last)).1 == RelayActionView::Write(last)
                &&& relay_step(
                    d,
                    relay_step(d, s, RelayEventView::Data(last)).0,
                    RelayEventView::Written(false),
                ) == end
            }
            &&& relay_step(d, RelayState::Closing, RelayEventView::Closed) == (
                RelayState::Stopped,
                RelayActionView::Stop,
            )
        }),
{
    lemma_taken(d, chunks, i);
}

/// An event that is no answer to what a relay waits for changes nothing, and one that is an
/// answer is taken up.
pub proof fn law_relay_heeds_answers_only(d: Direction, s: RelayState, e: RelayEventView)
    ensures
        relay_step(d, s, e).1 is Ignore ==> relay_step(d, s, e).0 == s,
        relay_step(d, s, e).1 is Ignore <==> match s {
            RelayState::Reading => e is Written || e is Closed,
            RelayState::Writing => !(e is Written),
            RelayState::Closing => !(e is Closed),
            RelayState::Stopped => true,
        },
{
}

} // verus!
