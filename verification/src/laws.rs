//! What holds of every exchange, however long it runs and whatever is reported to it.

use vstd::prelude::*;

use crate::error::ErrorView;
use crate::handler::{
    begins, forwarded, goes_on, verdict_on, ActionView, EventView, ExchangeView, ForwardView,
    HeadView, Mode, PhaseView, Then,
};
use crate::headers::{
    cannot_copy, copied_lists, is_field_name, is_field_value, well_formed, ROOMY,
};
use crate::request::{
    asks_udp, goes_to, law_absolute_upstream, law_connect_target, law_connect_udp_short_path,
    law_connect_udp_target, law_connect_without_authority, law_relative_upstream,
    named_authority, names, names_nothing, opening, tcp_target, udp_target, upstream_of, wants_udp, OpeningView,
    RequestView, UpstreamView,
};
use crate::uri::{uri_parts, UriView};

verus! {

/// The record of an exchange: its states, what was reported in each of them, and what
/// it asked for. The first action comes with the first state, and each event leads to
/// the next state and the next action.
pub struct Record {
    pub states: Seq<ExchangeView>,
    pub events: Seq<EventView>,
    pub actions: Seq<ActionView>,
}

impl Record {
    /// The record is one of an exchange that the request `r` begins.
    pub open spec fn is_of(self, r: RequestView, udp: bool, mode: Mode) -> bool {
        &&& self.states.len() == self.events.len() + 1
        &&& self.actions.len() == self.events.len() + 1
        &&& self.states[0].mode == mode
        &&& begins(r, udp, mode, self.states[0].phase, self.actions[0])
        &&& forall|i: int|
            0 <= i < self.events.len() ==> #[trigger] self.leads_on(i)
    }

    /// The event at `i` leads from the state at `i` to the next.
    pub open spec fn leads_on(self, i: int) -> bool {
        goes_on(self.states[i], self.events[i], self.states[i + 1], self.actions[i + 1])
    }

    /// Each event was the answer to the action before it.
    pub open spec fn all_answered(self) -> bool {
        forall|i: int| 0 <= i < self.actions.len() ==> !((#[trigger] self.actions[i]) is Ignore)
    }

    /// The part of the record up to the event at `n`.
    pub open spec fn take(self, n: int) -> Record {
        Record {
            states: self.states.take(n + 1),
            events: self.events.take(n),
            actions: self.actions.take(n + 1),
        }
    }
}

/// The action sends the client a response head.
pub open spec fn sends_head(a: ActionView) -> bool {
    a is Answer || a is SendHead
}

/// The action ends the exchange.
pub open spec fn ends(a: ActionView) -> bool {
    a is Close || a is Abort || a is Fail
}

/// The action reaches out to a server or sends the client data.
pub open spec fn reaches_out(a: ActionView) -> bool {
    ||| a is OpenTcp
    ||| a is BindUdp
    ||| a is ConnectUdp
    ||| a is TunnelTcp
    ||| a is TunnelUdp
    ||| a is SendUpstream
    ||| a is SendHead
    ||| a is SendData
    ||| a is Finish
    ||| a is Answer
}

/// The bytes of the frames that were reported.
pub open spec fn frame_bytes(events: Seq<EventView>) -> Seq<u8>
    decreases events.len(),
{
    if events.len() == 0 {
        Seq::empty()
    } else {
        match events.last() {
            EventView::Frame(data) => frame_bytes(events.drop_last()) + data,
            _ => frame_bytes(events.drop_last()),
        }
    }
}

/// The bytes of the client's body that were reported.
pub open spec fn body_bytes(events: Seq<EventView>) -> Seq<u8>
    decreases events.len(),
{
    if events.len() == 0 {
        Seq::empty()
    } else {
        match events.last() {
            EventView::BodyChunk(data) => body_bytes(events.drop_last()) + data,
            _ => body_bytes(events.drop_last()),
        }
    }
}

/// The bytes that were sent to the client as the body of the response.
pub open spec fn sent_bytes(actions: Seq<ActionView>) -> Seq<u8>
    decreases actions.len(),
{
    if actions.len() == 0 {
        Seq::empty()
    } else {
        match actions.last() {
            ActionView::SendData(data) => sent_bytes(actions.drop_last()) + data,
            _ => sent_bytes(actions.drop_last()),
        }
    }
}

/// The client has been sent a response head, or never will be.
spec fn past_head(p: PhaseView) -> bool {
    ||| p is Answering
    ||| p is Tunnelling
    ||| p is SendingHead
    ||| p is PullingFrame
    ||| p is SendingData
    ||| p is Finishing
    ||| p is Closed
}

proof fn lemma_past_head(rec: Record, r: RequestView, udp: bool, mode: Mode, i: int, j: int)
    requires
        rec.is_of(r, udp, mode),
        0 <= i <= j < rec.states.len(),
        past_head(rec.states[i].phase),
    ensures
        past_head(rec.states[j].phase),
        i < j ==> !sends_head(rec.actions[j]),
    decreases j - i,
{
    if i < j {
        lemma_past_head(rec, r, udp, mode, i, j - 1);
        assert(rec.leads_on(j - 1));
    }
}

/// An action that sends a head leaves the exchange past its head.
proof fn lemma_head_sent(rec: Record, r: RequestView, udp: bool, mode: Mode, i: int)
    requires
        rec.is_of(r, udp, mode),
        0 <= i < rec.actions.len(),
        sends_head(rec.actions[i]),
    ensures
        past_head(rec.states[i].phase),
        rec.actions[i] matches ActionView::Answer(status) ==> {
            &&& (status == 200 || status == 400 || status == 500 || status == 502)
            &&& (status != 200 ==> rec.states[i].phase == PhaseView::Answering(Then::Close))
        },
{
    if i > 0 {
        assert(rec.leads_on(i - 1));
    }
}

/// The client is sent at most one response head.
pub proof fn law_one_answer(rec: Record, r: RequestView, udp: bool, mode: Mode, i: int, j: int)
    requires
        rec.is_of(r, udp, mode),
        0 <= i < j < rec.actions.len(),
        sends_head(rec.actions[i]),
    ensures
        !sends_head(rec.actions[j]),
{
    lemma_head_sent(rec, r, udp, mode, i);
    lemma_past_head(rec, r, udp, mode, i, j);
}

spec fn is_over(p: PhaseView) -> bool {
    p is Closed || p == PhaseView::Answering(Then::Close)
}

proof fn lemma_over(rec: Record, r: RequestView, udp: bool, mode: Mode, i: int, j: int)
    requires
        rec.is_of(r, udp, mode),
        0 <= i <= j < rec.states.len(),
        is_over(rec.states[i].phase),
    ensures
        is_over(rec.states[j].phase),
        rec.states[i].phase is Closed ==> rec.states[j].phase is Closed,
        i < j ==> rec.actions[j] is Close || rec.actions[j] is Abort || rec.actions[j] is Ignore,
        i < j && rec.states[i].phase is Closed ==> rec.actions[j] is Ignore,
    decreases j - i,
{
    if i < j {
        lemma_over(rec, r, udp, mode, i, j - 1);
        assert(rec.leads_on(j - 1));
    }
}

/// A request that is answered with any status but 200 by the proxy itself is refused:
/// the status is 400, 500 or 502, and after it no server is reached out to and the
/// client is sent nothing.
pub proof fn law_refusal_is_final(
    rec: Record,
    r: RequestView,
    udp: bool,
    mode: Mode,
    i: int,
    j: int,
    status: u16,
)
    requires
        rec.is_of(r, udp, mode),
        0 <= i < j < rec.actions.len(),
        rec.actions[i] == ActionView::Answer(status),
        status != 200,
    ensures
        status == 400 || status == 500 || status == 502,
        !reaches_out(rec.actions[j]),
{
    lemma_head_sent(rec, r, udp, mode, i);
    lemma_over(rec, r, udp, mode, i, j);
}

/// An exchange that has ended asks for nothing more.
pub proof fn law_end_is_final(rec: Record, r: RequestView, udp: bool, mode: Mode, i: int, j: int)
    requires
        rec.is_of(r, udp, mode),
        0 <= i < j < rec.actions.len(),
        ends(rec.actions[i]),
    ensures
        rec.actions[j] is Ignore,
{
    if i > 0 {
        assert(rec.leads_on(i - 1));
    }
    lemma_over(rec, r, udp, mode, i, j);
}

/// A CONNECT request that names no authority, and one for UDP whose path has too few
/// pieces, is answered with 400 and nothing else is done for it.
pub proof fn law_malformed_connect_is_refused(
    rec: Record,
    r: RequestView,
    udp: bool,
    mode: Mode,
    j: int,
)
    requires
        rec.is_of(r, udp, mode),
        r.method == "CONNECT"@,
        if udp && wants_udp(r) {
            udp_target(r.uri.path) is None
        } else {
            named_authority(r).len() == 0
        },
        0 < j < rec.actions.len(),
    ensures
        rec.actions[0] == ActionView::Answer(400),
        !reaches_out(rec.actions[j]),
{
    law_refusal_is_final(rec, r, udp, mode, 0, j, 400);
}

/// Where the state of an exchange for a TCP address can be.
spec fn on_tcp_way(p: PhaseView) -> bool {
    ||| p is OpeningTcp
    ||| p == PhaseView::Answering(Then::TunnelTcp)
    ||| p == PhaseView::Answering(Then::Close)
    ||| p is Tunnelling
    ||| p is Closed
}

/// Where the state of an exchange for a UDP address can be.
spec fn on_udp_way(p: PhaseView, target: Seq<char>) -> bool {
    ||| p == PhaseView::BindingUdp(target)
    ||| p is ConnectingUdp
    ||| p == PhaseView::Answering(Then::TunnelUdp)
    ||| p == PhaseView::Answering(Then::Close)
    ||| p is Tunnelling
    ||| p is Closed
}

/// Where the state of an exchange for a plain request can be.
spec fn on_plain_way(p: PhaseView) -> bool {
    ||| p is Collecting
    ||| p is AwaitingUpstream
    ||| p is SendingHead
    ||| p is PullingFrame
    ||| p is SendingData
    ||| p is Finishing
    ||| p is Closed
}

proof fn lemma_ways(rec: Record, r: RequestView, udp: bool, mode: Mode, j: int)
    requires
        rec.is_of(r, udp, mode),
        0 <= j < rec.states.len(),
    ensures
        rec.states[j].mode == mode,
        match opening(r, udp) {
            OpeningView::Tcp(_) => on_tcp_way(rec.states[j].phase),
            OpeningView::Udp(target) => on_udp_way(rec.states[j].phase, target),
            OpeningView::Refuse => is_over(rec.states[j].phase),
            OpeningView::Forward(_) => on_plain_way(rec.states[j].phase),
        },
    decreases j,
{
    if j > 0 {
        lemma_ways(rec, r, udp, mode, j - 1);
        assert(rec.leads_on(j - 1));
    }
}

/// Where the answer that precedes a tunnel was asked for.
proof fn lemma_tcp_answer(rec: Record, r: RequestView, udp: bool, mode: Mode, j: int) -> (i: int)
    requires
        rec.is_of(r, udp, mode),
        0 <= j < rec.states.len(),
        rec.states[j].phase == PhaseView::Answering(Then::TunnelTcp),
    ensures
        0 <= i < j,
        rec.events[i] == EventView::TcpOpened(true),
        rec.actions[i + 1] == ActionView::Answer(200),
    decreases j,
{
    assert(j > 0);
    assert(rec.leads_on(j - 1));
    if rec.states[j - 1].phase == rec.states[j].phase {
        lemma_tcp_answer(rec, r, udp, mode, j - 1)
    } else {
        j - 1
    }
}

proof fn lemma_udp_answer(rec: Record, r: RequestView, udp: bool, mode: Mode, j: int) -> (i: int)
    requires
        rec.is_of(r, udp, mode),
        0 <= j < rec.states.len(),
        rec.states[j].phase == PhaseView::Answering(Then::TunnelUdp),
    ensures
        0 <= i < j,
        rec.events[i] == EventView::UdpConnected(true),
        rec.actions[i + 1] == ActionView::Answer(200),
    decreases j,
{
    assert(j > 0);
    assert(rec.leads_on(j - 1));
    if rec.states[j - 1].phase == rec.states[j].phase {
        lemma_udp_answer(rec, r, udp, mode, j - 1)
    } else {
        j - 1
    }
}

/// A tunnel to a TCP address is only ever the one that the request names: the
/// connection to the address of its authority was opened, and the client was told so
/// with status 200 before the tunnel began.
pub proof fn law_tcp_tunnel(rec: Record, r: RequestView, udp: bool, mode: Mode, j: int)
    requires
        rec.is_of(r, udp, mode),
        0 <= j < rec.actions.len(),
        rec.actions[j] is TunnelTcp,
    ensures
        r.method == "CONNECT"@,
        rec.actions[0] == ActionView::OpenTcp(tcp_target(named_authority(r))),
        exists|i: int|
            #![trigger rec.events[i]]
            0 <= i < j - 1 && rec.events[i] == EventView::TcpOpened(true) && rec.actions[i + 1]
                == ActionView::Answer(200),
{
    assert(j > 0);
    assert(rec.leads_on(j - 1));
    lemma_ways(rec, r, udp, mode, j - 1);
    let i = lemma_tcp_answer(rec, r, udp, mode, j - 1);
    assert(rec.events[i] == EventView::TcpOpened(true));
}

/// A tunnel to a UDP address is only ever the one that the request's path names: the
/// socket was connected, and the client was told so with status 200 before the tunnel
/// began.
pub proof fn law_udp_tunnel(rec: Record, r: RequestView, udp: bool, mode: Mode, j: int)
    requires
        rec.is_of(r, udp, mode),
        0 <= j < rec.actions.len(),
        rec.actions[j] is TunnelUdp,
    ensures
        r.method == "CONNECT"@ && udp && wants_udp(r),
        udp_target(r.uri.path) is Some,
        rec.actions[0] == ActionView::BindUdp("0.0.0.0:0"@),
        exists|i: int|
            #![trigger rec.events[i]]
            0 <= i < j - 1 && rec.events[i] == EventView::UdpConnected(true) && rec.actions[i + 1]
                == ActionView::Answer(200),
{
    assert(j > 0);
    assert(rec.leads_on(j - 1));
    lemma_ways(rec, r, udp, mode, j - 1);
    let i = lemma_udp_answer(rec, r, udp, mode, j - 1);
    assert(rec.events[i] == EventView::UdpConnected(true));
}

/// A UDP socket is only ever connected to the address that the request's path names.
pub proof fn law_udp_address(
    rec: Record,
    r: RequestView,
    udp: bool,
    mode: Mode,
    j: int,
    target: Seq<char>,
)
    requires
        rec.is_of(r, udp, mode),
        0 <= j < rec.actions.len(),
        rec.actions[j] == ActionView::ConnectUdp(target),
    ensures
        udp_target(r.uri.path) == Some(target),
{
    assert(j > 0);
    assert(rec.leads_on(j - 1));
    lemma_ways(rec, r, udp, mode, j - 1);
}

/// A server that cannot be reached is answered with 502, and a socket that cannot be
/// bound with 500.
pub proof fn law_unreachable(rec: Record, r: RequestView, udp: bool, mode: Mode)
    requires
        rec.is_of(r, udp, mode),
        rec.events.len() > 0,
    ensures
        opening(r, udp) is Tcp && rec.events[0] == EventView::TcpOpened(false) ==> rec.actions[1]
            == ActionView::Answer(502),
        opening(r, udp) is Udp && rec.events[0] == EventView::UdpBound(false) ==> rec.actions[1]
            == ActionView::Answer(500),
        opening(r, udp) is Udp && rec.events.len() > 1 && rec.events[0] == EventView::UdpBound(true)
            && rec.events[1] == EventView::UdpConnected(false) ==> rec.actions[2]
            == ActionView::Answer(502),
{
    assert(rec.leads_on(0));
    if rec.events.len() > 1 {
        assert(rec.leads_on(1));
    }
}

/// The state of a collected body: the request is the one to be forwarded and the body
/// is what was reported so far.
proof fn lemma_collecting(rec: Record, r: RequestView, udp: bool, mode: Mode, j: int)
    requires
        rec.is_of(r, udp, mode),
        rec.all_answered(),
        0 <= j < rec.states.len(),
    ensures
        match rec.states[j].phase {
            PhaseView::Collecting(request, body) => {
                &&& mode == Mode::Buffered
                &&& body == body_bytes(rec.events.take(j))
                &&& match request {
                    Ok(request) => request == forwarded(r, upstream_of(r), None),
                    Err(e) => cannot_copy(copied_lists(r.headers, true), e),
                }
            },
            _ => true,
        },
    decreases j,
{
    if j > 0 {
        lemma_collecting(rec, r, udp, mode, j - 1);
        assert(rec.leads_on(j - 1));
        assert(rec.actions[j] !is Ignore);
        assert(rec.events.take(j).drop_last() =~= rec.events.take(j - 1));
        lemma_ways(rec, r, udp, mode, j - 1);
    } else {
        assert(rec.events.take(0) =~= Seq::empty());
    }
}

/// What is sent to the upstream server is the client's request: its method, all of
/// its header fields but `content-length`, the server that it names, and, where the
/// body is collected, exactly the bytes of its body.
pub proof fn law_forwarded_request(
    rec: Record,
    r: RequestView,
    udp: bool,
    mode: Mode,
    j: int,
    request: ForwardView,
)
    requires
        rec.is_of(r, udp, mode),
        rec.all_answered(),
        0 <= j < rec.actions.len(),
        rec.actions[j] == ActionView::SendUpstream(request),
    ensures
        r.method != "CONNECT"@,
        request.method == r.method,
        request.headers == r.headers.remove("content-length"@),
        request.upstream == upstream_of(r),
        request.body == (match mode {
            Mode::Streaming => None,
            Mode::Buffered => Some(body_bytes(rec.events.take(j))),
        }),
{
    if j > 0 {
        assert(rec.leads_on(j - 1));
        lemma_ways(rec, r, udp, mode, j - 1);
        lemma_collecting(rec, r, udp, mode, j - 1);
        assert(rec.events.take(j).drop_last() =~= rec.events.take(j - 1));
    }
}

/// The head that the client is sent is the one that the upstream server answered
/// with.
pub proof fn law_response_head(
    rec: Record,
    r: RequestView,
    udp: bool,
    mode: Mode,
    j: int,
    head: HeadView,
)
    requires
        rec.is_of(r, udp, mode),
        0 <= j < rec.actions.len(),
        rec.actions[j] == ActionView::SendHead(head),
    ensures
        j > 0,
        rec.events[j - 1] == EventView::Responded(head),
{
    if j > 0 {
        assert(rec.leads_on(j - 1));
    }
}

/// What the upstream server answers is handed back: its head, unless the header fields
/// are not well formed or too many.
pub proof fn law_answer_is_handed_back(
    rec: Record,
    r: RequestView,
    udp: bool,
    mode: Mode,
    i: int,
    head: HeadView,
)
    requires
        rec.is_of(r, udp, mode),
        0 <= i < rec.events.len(),
        rec.actions[i] is SendUpstream,
        rec.events[i] == EventView::Responded(head),
        well_formed(head.headers),
        head.headers.dom().len() <= ROOMY,
    ensures
        rec.actions[i + 1] == ActionView::SendHead(head),
{
    if i > 0 {
        assert(rec.leads_on(i - 1));
    }
    assert(rec.leads_on(i));
}

/// The body that the client is sent is the body that the upstream server sent, byte
/// for byte: at every moment what was sent is what was received.
pub proof fn law_response_body(rec: Record, r: RequestView, udp: bool, mode: Mode)
    requires
        rec.is_of(r, udp, mode),
        rec.all_answered(),
    ensures
        sent_bytes(rec.actions) == frame_bytes(rec.events),
    decreases rec.events.len(),
{
    let n = rec.events.len() as int;
    if n == 0 {
        assert(rec.actions.drop_last() =~= Seq::empty());
        assert(sent_bytes(rec.actions.drop_last()) =~= Seq::empty());
        assert(sent_bytes(rec.actions) =~= frame_bytes(rec.events));
    } else {
        let front = rec.take(n - 1);
        assert forall|i: int| 0 <= i < front.events.len() implies #[trigger] front.leads_on(i) by {
            assert(rec.leads_on(i));
        }
        assert forall|i: int| 0 <= i < front.actions.len() implies !((
        #[trigger] front.actions[i]) is Ignore) by {
            assert(rec.actions[i] == front.actions[i]);
        }
        law_response_body(front, r, udp, mode);
        assert(rec.leads_on(n - 1));
        assert(rec.actions[n] !is Ignore);
        assert(front.actions =~= rec.actions.drop_last());
        assert(front.events =~= rec.events.drop_last());
        assert(sent_bytes(rec.actions) =~= frame_bytes(rec.events));
    }
}

/// The header fields can be taken over and the upstream server's URI can be read.
pub open spec fn can_be_forwarded(r: RequestView) -> bool {
    &&& verdict_on(upstream_of(r)) is Ok
    &&& well_formed(copied_lists(r.headers, true))
    &&& copied_lists(r.headers, true).dom().len() <= ROOMY
}

/// A plain request is sent to its upstream server at once, unless the URI built from
/// its `host` field is none, or its header fields are not well formed or too many.
pub proof fn law_plain_request_is_forwarded(rec: Record, r: RequestView, udp: bool)
    requires
        rec.is_of(r, udp, Mode::Streaming),
        r.method != "CONNECT"@,
        can_be_forwarded(r),
    ensures
        rec.actions[0] == ActionView::SendUpstream(forwarded(r, upstream_of(r), None)),
{
}

/// Where bodies are collected, a plain request is sent to its upstream server when its
/// body has ended, together with the whole body.
pub proof fn law_collected_request_is_forwarded(rec: Record, r: RequestView, udp: bool)
    requires
        rec.is_of(r, udp, Mode::Buffered),
        r.method != "CONNECT"@,
        can_be_forwarded(r),
        rec.events.len() > 0,
        rec.events.last() is BodyEnded,
        forall|i: int| 0 <= i < rec.events.len() - 1 ==> (#[trigger] rec.events[i]) is BodyChunk,
    ensures
        rec.actions.last() == ActionView::SendUpstream(
            forwarded(r, upstream_of(r), Some(body_bytes(rec.events))),
        ),
{
    let n = rec.events.len() - 1;
    lemma_chunks(rec, r, udp, n);
    assert(rec.leads_on(n));
    assert(rec.events.drop_last() =~= rec.events.take(n));
}

proof fn lemma_chunks(rec: Record, r: RequestView, udp: bool, j: int)
    requires
        rec.is_of(r, udp, Mode::Buffered),
        r.method != "CONNECT"@,
        can_be_forwarded(r),
        0 <= j <= rec.events.len(),
        forall|i: int| 0 <= i < j ==> (#[trigger] rec.events[i]) is BodyChunk,
    ensures
        rec.states[j].phase == PhaseView::Collecting(
            Ok(forwarded(r, upstream_of(r), None)),
            body_bytes(rec.events.take(j)),
        ),
    decreases j,
{
    if j > 0 {
        lemma_chunks(rec, r, udp, j - 1);
        assert(rec.leads_on(j - 1));
        assert(rec.events[j - 1] is BodyChunk);
        assert(rec.events.take(j).drop_last() =~= rec.events.take(j - 1));
    } else {
        assert(rec.events.take(0) =~= Seq::empty());
        assert(rec.states[0].phase->Collecting_1 =~= Seq::empty());
    }
}

/// A CONNECT request that names an authority, and is not for UDP, comes to a tunnel to
/// the address of that authority as soon as the address is reached and the client has
/// been told so.
pub proof fn law_connect_opens_tunnel(rec: Record, r: RequestView, udp: bool, mode: Mode)
    requires
        rec.is_of(r, udp, mode),
        r.method == "CONNECT"@,
        !(udp && wants_udp(r)),
        named_authority(r).len() > 0,
        rec.events.len() > 1,
        rec.events[0] == EventView::TcpOpened(true),
        rec.events[1] == EventView::HeadSent(true),
    ensures
        rec.actions[0] == ActionView::OpenTcp(tcp_target(named_authority(r))),
        rec.actions[1] == ActionView::Answer(200),
        rec.actions[2] is TunnelTcp,
{
    assert(rec.leads_on(0));
    assert(rec.leads_on(1));
}

/// A CONNECT request for UDP comes to a tunnel to the address that its path names as
/// soon as a socket is connected to it and the client has been told so.
pub proof fn law_connect_opens_udp_tunnel(
    rec: Record,
    r: RequestView,
    mode: Mode,
    target: Seq<char>,
)
    requires
        rec.is_of(r, true, mode),
        r.method == "CONNECT"@,
        wants_udp(r),
        udp_target(r.uri.path) == Some(target),
        rec.events.len() > 2,
        rec.events[0] == EventView::UdpBound(true),
        rec.events[1] == EventView::UdpConnected(true),
        rec.events[2] == EventView::HeadSent(true),
    ensures
        rec.actions[0] == ActionView::BindUdp("0.0.0.0:0"@),
        rec.actions[1] == ActionView::ConnectUdp(target),
        rec.actions[2] == ActionView::Answer(200),
        rec.actions[3] is TunnelUdp,
{
    assert(rec.leads_on(0));
    assert(rec.leads_on(1));
    assert(rec.leads_on(2));
}

/// A plain request whose upstream URI cannot be read fails without any answer, with the
/// words that the URI was refused with.
pub proof fn law_unreadable_upstream(
    rec: Record,
    r: RequestView,
    udp: bool,
    mode: Mode,
    text: Seq<char>,
    words: Seq<char>,
)
    requires
        rec.is_of(r, udp, mode),
        r.method != "CONNECT"@,
        upstream_of(r) == UpstreamView::Rebuilt(text),
        uri_parts(text) == Err::<UriView, Seq<char>>(words),
    ensures
        rec.actions[0] == ActionView::Fail(ErrorView::Uri(words)),
{
}

/// The course of a CONNECT request that is not for UDP and names an authority: the address
/// of that authority is connected to, at port 443 where it names none, and the client is
/// told what came of it; then the tunnel begins, or all is over.
pub proof fn law_course_of_connect(
    rec: Record,
    r: RequestView,
    udp: bool,
    mode: Mode,
    authority: Seq<char>,
)
    requires
        rec.is_of(r, udp, mode),
        r.method == "CONNECT"@,
        !(udp && asks_udp(r)),
        names(r, authority),
        authority.len() > 0,
    ensures
        authority.contains(':') ==> rec.actions[0] == ActionView::OpenTcp(authority),
        !authority.contains(':') ==> rec.actions[0] == ActionView::OpenTcp(authority + ":443"@),
        rec.events.len() > 0 && rec.events[0] == EventView::TcpOpened(true) ==> rec.actions[1]
            == ActionView::Answer(200),
        rec.events.len() > 0 && rec.events[0] == EventView::TcpOpened(false) ==> rec.actions[1]
            == ActionView::Answer(502),
        rec.events.len() > 1 && rec.events[0] == EventView::TcpOpened(true) && rec.events[1]
            == EventView::HeadSent(true) ==> rec.actions[2] is TunnelTcp,
        rec.events.len() > 1 && rec.events[0] == EventView::TcpOpened(false) && rec.events[1]
            == EventView::HeadSent(true) ==> rec.actions[2] is Close,
        rec.events.len() > 2 && rec.actions[2] is TunnelTcp && rec.events[2] is TunnelEnded
            ==> rec.actions[3] is Close,
{
    law_connect_target(r, udp, authority);
    if rec.events.len() > 0 {
        assert(rec.leads_on(0));
    }
    if rec.events.len() > 1 {
        assert(rec.leads_on(1));
    }
    if rec.events.len() > 2 {
        assert(rec.leads_on(2));
    }
}

/// The course of a CONNECT request for UDP whose path names a host and a port behind its
/// fourth and fifth slash: a socket is bound to any local address and connected to that host
/// and port, and the client is told what came of it; then the tunnel begins, or all is over.
pub proof fn law_course_of_connect_udp(
    rec: Record,
    r: RequestView,
    mode: Mode,
    before: Seq<Seq<char>>,
    host: Seq<char>,
    port: Seq<char>,
    rest: Seq<char>,
)
    requires
        rec.is_of(r, true, mode),
        r.method == "CONNECT"@,
        asks_udp(r),
        before.len() == 4,
        forall|i: int| 0 <= i < 4 ==> !(#[trigger] before[i]).contains('/'),
        !host.contains('/') && !port.contains('/'),
        rest.len() == 0 || rest[0] == '/',
        r.uri.path == before[0] + seq!['/'] + before[1] + seq!['/'] + before[2] + seq!['/']
            + before[3] + seq!['/'] + host + seq!['/'] + port + rest,
    ensures
        rec.actions[0] == ActionView::BindUdp("0.0.0.0:0"@),
        rec.events.len() > 0 && rec.events[0] == EventView::UdpBound(false) ==> rec.actions[1]
            == ActionView::Answer(500),
        rec.events.len() > 0 && rec.events[0] == EventView::UdpBound(true) ==> rec.actions[1]
            == ActionView::ConnectUdp(host + seq![':'] + port),
        rec.events.len() > 1 && rec.events[0] == EventView::UdpBound(true) && rec.events[1]
            == EventView::UdpConnected(true) ==> rec.actions[2] == ActionView::Answer(200),
        rec.events.len() > 1 && rec.events[0] == EventView::UdpBound(true) && rec.events[1]
            == EventView::UdpConnected(false) ==> rec.actions[2] == ActionView::Answer(502),
        rec.events.len() > 2 && rec.actions[2] == ActionView::Answer(200) && rec.events[2]
            == EventView::HeadSent(true) ==> rec.actions[3] is TunnelUdp,
        rec.events.len() > 2 && rec.actions[2] == ActionView::Answer(502) && rec.events[2]
            == EventView::HeadSent(true) ==> rec.actions[3] is Close,
        rec.events.len() > 3 && rec.actions[3] is TunnelUdp && rec.events[3] is TunnelEnded
            ==> rec.actions[4] is Close,
{
    assert(!before[0].contains('/') && !before[1].contains('/'));
    assert(!before[2].contains('/') && !before[3].contains('/'));
    law_connect_udp_target(r, before[0], before[1], before[2], before[3], host, port, rest);
    if rec.events.len() > 0 {
        assert(rec.leads_on(0));
    }
    if rec.events.len() > 1 {
        assert(rec.leads_on(1));
    }
    if rec.events.len() > 2 {
        assert(rec.leads_on(2));
    }
    if rec.events.len() > 3 {
        assert(rec.leads_on(3));
    }
}

/// The course of a CONNECT request that is not well formed: one that names no authority, or
/// one for UDP whose path has fewer than five slashes, is answered with 400, and that is all.
pub proof fn law_course_of_malformed_connect(rec: Record, r: RequestView, udp: bool, mode: Mode)
    requires
        rec.is_of(r, udp, mode),
        r.method == "CONNECT"@,
        if udp && asks_udp(r) {
            r.uri.path.filter(|c: char| c == '/').len() < 5
        } else {
            names_nothing(r)
        },
    ensures
        rec.actions[0] == ActionView::Answer(400),
        rec.events.len() > 0 && rec.events[0] == EventView::HeadSent(true) ==> rec.actions[1]
            is Close,
{
    if udp && asks_udp(r) {
        law_connect_udp_short_path(r);
    } else {
        law_connect_without_authority(r, udp);
    }
    if rec.events.len() > 0 {
        assert(rec.leads_on(0));
    }
}

/// Each name of a map of fields is a field name, and each value a field value.
pub open spec fn has_good_fields(lists: Map<Seq<char>, Seq<Seq<u8>>>) -> bool {
    forall|name: Seq<char>, i: int|
        #![trigger lists[name][i]]
        lists.contains_key(name) && 0 <= i < lists[name].len() ==> is_field_value(lists[name][i])
}

/// Each name of a map of fields is a field name.
pub open spec fn has_good_names(lists: Map<Seq<char>, Seq<Seq<u8>>>) -> bool {
    forall|name: Seq<char>| #[trigger] lists.contains_key(name) ==> is_field_name(name)
}

/// The course of a plain request whose fields are in order: it is sent to its own URI, or to
/// the one made of its `host` field and its path, with its method and all of its fields but
/// `content-length`. Where bodies are collected it is sent when the body has ended, with the
/// whole of it; else it is sent at once.
pub proof fn law_course_of_plain_request(
    rec: Record,
    r: RequestView,
    udp: bool,
    mode: Mode,
    host: Seq<char>,
    path: Seq<char>,
    upstream: UpstreamView,
)
    requires
        rec.is_of(r, udp, mode),
        r.method != "CONNECT"@,
        goes_to(r, host, path, upstream),
        upstream matches UpstreamView::Rebuilt(text) ==> uri_parts(text) is Ok,
        has_good_names(r.headers.remove("content-length"@)),
        has_good_fields(r.headers.remove("content-length"@)),
        r.headers.remove("content-length"@).dom().len() <= 6553,
    ensures
        mode == Mode::Streaming ==> rec.actions[0] == ActionView::SendUpstream(
            ForwardView {
                method: r.method,
                upstream,
                headers: r.headers.remove("content-length"@),
                body: None,
            },
        ),
        mode == Mode::Buffered ==> rec.actions[0] is ReadBody,
        mode == Mode::Buffered && rec.events.len() > 0 && rec.events.last() is BodyEnded && (
        forall|i: int|
            0 <= i < rec.events.len() - 1 ==> (#[trigger] rec.events[i]) is BodyChunk)
            ==> rec.actions.last() == ActionView::SendUpstream(
            ForwardView {
                method: r.method,
                upstream,
                headers: r.headers.remove("content-length"@),
                body: Some(body_bytes(rec.events)),
            },
        ),
{
    let kept = r.headers.remove("content-length"@);
    if r.uri.scheme is Some && r.uri.host is Some {
        law_absolute_upstream(r, udp);
    } else {
        law_relative_upstream(r, udp, host, path);
    }
    assert(upstream_of(r) == upstream);
    assert(well_formed(kept)) by {
        assert forall|name: Seq<char>| #[trigger] kept.contains_key(name) implies is_field_name(
            name,
        ) && forall|i: int| 0 <= i < kept[name].len() ==> is_field_value(#[trigger] kept[name][i]) by {}
    }
    assert(can_be_forwarded(r));
    if mode == Mode::Streaming {
        law_plain_request_is_forwarded(rec, r, udp);
    } else if rec.events.len() > 0 && rec.events.last() is BodyEnded && (forall|i: int|
        0 <= i < rec.events.len() - 1 ==> (#[trigger] rec.events[i]) is BodyChunk) {
        law_collected_request_is_forwarded(rec, r, udp);
    }
}

/// A plain request whose upstream URI is made of its `host` field and its path, and is none,
/// fails with the words that it was refused with.
pub proof fn law_course_of_unreadable_request(
    rec: Record,
    r: RequestView,
    udp: bool,
    mode: Mode,
    host: Seq<char>,
    path: Seq<char>,
    words: Seq<char>,
)
    requires
        rec.is_of(r, udp, mode),
        r.method != "CONNECT"@,
        r.uri.scheme is None || r.uri.host is None,
        goes_to(r, host, path, UpstreamView::Rebuilt("http://"@ + host + path)),
        uri_parts("http://"@ + host + path) == Err::<UriView, Seq<char>>(words),
    ensures
        rec.actions[0] == ActionView::Fail(ErrorView::Uri(words)),
{
    law_relative_upstream(r, udp, host, path);
}

/// The event says that the action went well. A broken frame goes well where frames that are
/// broken are left out.
pub open spec fn went_well(a: ActionView, e: EventView, mode: Mode) -> bool {
    match a {
        ActionView::SendHead(_) => e == EventView::HeadSent(true),
        ActionView::PullFrame => {
            ||| e is Frame
            ||| e is OtherFrame
            ||| e is FramesEnded
            ||| e is FrameBroken && mode == Mode::Streaming
        },
        ActionView::SendData(_) => e == EventView::DataSent(true),
        ActionView::Finish => e == EventView::Finished(true),
        _ => true,
    }
}

/// Where a response stands whose head is at `s`: the parts sent since then are those of the
/// frames since then.
proof fn lemma_response(rec: Record, r: RequestView, udp: bool, mode: Mode, s: int, n: int)
    requires
        rec.is_of(r, udp, mode),
        0 <= s <= n <= rec.events.len(),
        rec.actions[s] is SendHead,
        forall|k: int|
            s <= k < n ==> went_well(#[trigger] rec.actions[k], rec.events[k], mode),
    ensures
        rec.states[n].mode == mode,
        match rec.states[n].phase {
            PhaseView::SendingHead => n == s && rec.actions[n] is SendHead,
            PhaseView::PullingFrame => rec.actions[n] is PullFrame,
            PhaseView::SendingData => rec.actions[n] is SendData,
            PhaseView::Finishing => rec.actions[n] is Finish,
            PhaseView::Closed => rec.actions[n] is Close || rec.actions[n] is Ignore,
            _ => false,
        },
        !(rec.states[n].phase is Closed) ==> sent_bytes(rec.actions.subrange(s, n + 1))
            == frame_bytes(rec.events.subrange(s, n)),
    decreases n - s,
{
    lemma_ways(rec, r, udp, mode, n);
    if n == s {
        if s > 0 {
            assert(rec.leads_on(s - 1));
        }
        let sent = rec.actions.subrange(s, n + 1);
        assert(sent.drop_last() =~= Seq::empty());
        assert(sent_bytes(sent.drop_last()) =~= Seq::empty());
        assert(sent.last() == rec.actions[s]);
        assert(rec.events.subrange(s, n) =~= Seq::empty());
    } else {
        lemma_response(rec, r, udp, mode, s, n - 1);
        assert(rec.leads_on(n - 1));
        assert(went_well(rec.actions[n - 1], rec.events[n - 1], mode));
        assert(rec.actions.subrange(s, n + 1).drop_last() =~= rec.actions.subrange(s, n));
        assert(rec.events.subrange(s, n).drop_last() =~= rec.events.subrange(s, n - 1));
    }
}

/// The response is handed back whole, in both modes: while all goes well, the next frame is
/// taken after the head and after each part that was sent, the data of each frame is sent at
/// once, the stream is finished when the frames have ended and not before, by then the client
/// has been sent all the data of all the frames in their order, and after that the exchange
/// is closed.
pub proof fn law_response_is_whole(
    rec: Record,
    r: RequestView,
    udp: bool,
    mode: Mode,
    s: int,
    k: int,
)
    requires
        rec.is_of(r, udp, mode),
        0 <= s <= k < rec.events.len(),
        rec.actions[s] is SendHead,
        forall|j: int|
            s <= j <= k ==> went_well(#[trigger] rec.actions[j], rec.events[j], mode),
    ensures
        k == s ==> rec.actions[k + 1] is PullFrame,
        rec.actions[k] is PullFrame ==> match rec.events[k] {
            EventView::Frame(data) => rec.actions[k + 1] == ActionView::SendData(data),
            EventView::FramesEnded => rec.actions[k + 1] is Finish,
            _ => rec.actions[k + 1] is PullFrame,
        },
        rec.actions[k] is SendData ==> rec.actions[k + 1] is PullFrame,
        rec.actions[k] is Finish ==> rec.actions[k + 1] is Close,
        rec.actions[k + 1] is Finish ==> {
            &&& rec.actions[k] is PullFrame
            &&& rec.events[k] is FramesEnded
            &&& sent_bytes(rec.actions.subrange(s, k + 2)) == frame_bytes(
                rec.events.subrange(s, k + 1),
            )
        },
        rec.actions[k + 1] is Close ==> rec.actions[k] is Finish,
        ends(rec.actions[k + 1]) ==> rec.actions[k + 1] is Close,
{
    lemma_response(rec, r, udp, mode, s, k);
    lemma_response(rec, r, udp, mode, s, k + 1);
    assert(rec.leads_on(k));
    assert(went_well(rec.actions[k], rec.events[k], mode));
}

/// What fails ends the exchange with that failure; what does not goes on. A response head
/// that could not be sent, a broken body, a server that does not answer, data that could not
/// be sent and a stream that could not be finished end it, and so does a broken frame where
/// such frames are not left out.
pub proof fn law_failure_ends_the_exchange(
    rec: Record,
    r: RequestView,
    udp: bool,
    mode: Mode,
    k: int,
)
    requires
        rec.is_of(r, udp, mode),
        0 <= k < rec.events.len(),
    ensures
        sends_head(rec.actions[k]) && rec.events[k] == EventView::HeadSent(false) ==> rec.actions[k
            + 1] is Abort,
        rec.actions[k] is ReadBody && rec.events[k] is BodyBroken ==> rec.actions[k + 1] is Abort,
        rec.actions[k] is SendUpstream && rec.events[k] is NoResponse ==> rec.actions[k + 1]
            is Abort,
        rec.actions[k] is PullFrame && rec.events[k] is FrameBroken && mode == Mode::Buffered
            ==> rec.actions[k + 1] is Abort,
        rec.actions[k] is SendData && rec.events[k] == EventView::DataSent(false)
            ==> rec.actions[k + 1] is Abort,
        rec.actions[k] is Finish && rec.events[k] == EventView::Finished(false) ==> rec.actions[k
            + 1] is Abort,
        rec.actions[k] is ReadBody && rec.events[k] is BodyChunk ==> rec.actions[k + 1]
            is ReadBody,
        rec.actions[k + 1] is Abort ==> {
            ||| rec.events[k] == EventView::HeadSent(false)
            ||| rec.events[k] is BodyBroken
            ||| rec.events[k] is NoResponse
            ||| rec.events[k] is FrameBroken && mode == Mode::Buffered
            ||| rec.events[k] == EventView::DataSent(false)
            ||| rec.events[k] == EventView::Finished(false)
        },
{
    lemma_ways(rec, r, udp, mode, k);
    if k > 0 {
        assert(rec.leads_on(k - 1));
    }
    assert(rec.leads_on(k));
}

/// A response head whose fields are in order is handed back as it is: the same status, and
/// all of the fields, `content-length` among them.
pub proof fn law_good_head_is_handed_back(
    rec: Record,
    r: RequestView,
    udp: bool,
    mode: Mode,
    k: int,
    status: u16,
    fields: Map<Seq<char>, Seq<Seq<u8>>>,
)
    requires
        rec.is_of(r, udp, mode),
        0 <= k < rec.events.len(),
        rec.actions[k] is SendUpstream,
        rec.events[k] == EventView::Responded(HeadView { status, headers: fields }),
        has_good_names(fields),
        has_good_fields(fields),
        fields.dom().len() <= 6553,
    ensures
        rec.actions[k + 1] == ActionView::SendHead(HeadView { status, headers: fields }),
{
    assert(well_formed(fields)) by {
        assert forall|name: Seq<char>| #[trigger] fields.contains_key(name) implies is_field_name(
            name,
        ) && forall|i: int|
            0 <= i < fields[name].len() ==> is_field_value(#[trigger] fields[name][i]) by {}
    }
    law_answer_is_handed_back(rec, r, udp, mode, k, HeadView { status, headers: fields });
}

/// A plain request with a field that cannot be taken over is not sent anywhere: where bodies
/// are not collected it fails at once, and where they are it fails when the body has ended.
pub proof fn law_bad_fields_are_not_forwarded(
    rec: Record,
    r: RequestView,
    udp: bool,
    mode: Mode,
    j: int,
)
    requires
        rec.is_of(r, udp, mode),
        r.method != "CONNECT"@,
        verdict_on(upstream_of(r)) is Ok,
        !has_good_names(r.headers.remove("content-length"@)) || !has_good_fields(
            r.headers.remove("content-length"@),
        ),
        0 <= j < rec.actions.len(),
    ensures
        rec.actions[j] !is SendUpstream,
        mode == Mode::Streaming ==> rec.actions[0] matches ActionView::Fail(ErrorView::Header(_)),
        mode == Mode::Buffered ==> rec.actions[0] is ReadBody,
        mode == Mode::Buffered && j > 0 && rec.actions[j - 1] is ReadBody && rec.events[j - 1]
            is BodyEnded ==> rec.actions[j] matches ActionView::Fail(ErrorView::Header(_)),
{
    let kept = r.headers.remove("content-length"@);
    assert(!well_formed(kept)) by {
        if well_formed(kept) {
            assert(has_good_names(kept));
            assert forall|name: Seq<char>, i: int|
                #![trigger kept[name][i]]
                kept.contains_key(name) && 0 <= i < kept[name].len() implies is_field_value(
                kept[name][i],
            ) by {
                assert(kept.contains_key(name));
            }
            assert(has_good_fields(kept));
        }
    }
    lemma_in_vain(rec, r, udp, mode, j);
    if j > 0 {
        lemma_in_vain(rec, r, udp, mode, j - 1);
        assert(rec.leads_on(j - 1));
        if j > 1 {
            assert(rec.leads_on(j - 2));
        }
    }
}

/// Where a plain request can be whose fields cannot be taken over.
proof fn lemma_in_vain(rec: Record, r: RequestView, udp: bool, mode: Mode, j: int)
    requires
        rec.is_of(r, udp, mode),
        r.method != "CONNECT"@,
        verdict_on(upstream_of(r)) is Ok,
        !well_formed(copied_lists(r.headers, true)),
        0 <= j < rec.states.len(),
    ensures
        rec.states[j].phase is Closed || (rec.states[j].phase matches PhaseView::Collecting(
            request,
            _,
        ) && request is Err && mode == Mode::Buffered),
    decreases j,
{
    if j > 0 {
        lemma_in_vain(rec, r, udp, mode, j - 1);
        assert(rec.leads_on(j - 1));
    }
}

/// The event is an answer to the action, for good or ill.
pub open spec fn is_answer(a: ActionView, e: EventView) -> bool {
    match a {
        ActionView::OpenTcp(_) => e is TcpOpened,
        ActionView::BindUdp(_) => e is UdpBound,
        ActionView::ConnectUdp(_) => e is UdpConnected,
        ActionView::Answer(_) => e is HeadSent,
        ActionView::TunnelTcp => e is TunnelEnded,
        ActionView::TunnelUdp => e is TunnelEnded,
        ActionView::ReadBody => e is BodyChunk || e is BodyBroken || e is BodyEnded,
        ActionView::SendUpstream(_) => e is Responded || e is NoResponse,
        ActionView::SendHead(_) => e is HeadSent,
        ActionView::PullFrame => {
            e is Frame || e is OtherFrame || e is FrameBroken || e is FramesEnded
        },
        ActionView::SendData(_) => e is DataSent,
        ActionView::Finish => e is Finished,
        _ => false,
    }
}

/// An event that is no answer to what was asked changes nothing, and one that is an answer
/// is taken up.
pub proof fn law_only_answers_count(rec: Record, r: RequestView, udp: bool, mode: Mode, k: int)
    requires
        rec.is_of(r, udp, mode),
        0 <= k < rec.events.len(),
    ensures
        rec.actions[k + 1] is Ignore ==> rec.states[k + 1] == rec.states[k],
        rec.actions[k] !is Ignore ==> (rec.actions[k + 1] is Ignore <==> !is_answer(
            rec.actions[k],
            rec.events[k],
        )),
{
    lemma_ways(rec, r, udp, mode, k);
    if k > 0 {
        assert(rec.leads_on(k - 1));
    }
    assert(rec.leads_on(k));
}

} // verus!
