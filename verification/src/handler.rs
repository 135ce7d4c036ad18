//! The life of one request, from its head to the end of its answer.
//!
//! An [`Exchange`] decides; the caller performs the [`Action`] that it asks for and
//! reports what came of it as an [`Event`].

use vstd::prelude::*;

use crate::chunk::{chunk_bytes, extend_body};
use crate::error::{ErrorView, ProxyError};
use crate::headers::{cannot_copy, copied_lists, copy_headers, header_lists, well_formed, HeaderError};
use crate::request::{opening, Opening, OpeningView, ProxyRequest, RequestView, Upstream, UpstreamView};
use crate::uri::{parse_uri, uri_parts};

verus! {

/// A request to an upstream server.
pub struct ForwardRequest {
    /// The method of the client's request.
    pub method: String,
    /// The server that it goes to.
    pub upstream: Upstream,
    /// The header fields.
    pub headers: http::HeaderMap<http::HeaderValue>,
    /// The body, where it has been collected. Otherwise the body is passed on as it
    /// comes from the client.
    pub body: Option<Vec<u8>>,
}

/// The contents of a [`ForwardRequest`].
pub struct ForwardView {
    pub method: Seq<char>,
    pub upstream: UpstreamView,
    pub headers: Map<Seq<char>, Seq<Seq<u8>>>,
    pub body: Option<Seq<u8>>,
}

impl View for ForwardRequest {
    type V = ForwardView;

    open spec fn view(&self) -> ForwardView {
        ForwardView {
            method: self.method@,
            upstream: self.upstream@,
            headers: header_lists(self.headers),
            body: match self.body {
                Some(body) => Some(body@),
                None => None,
            },
        }
    }
}

/// The head of a response.
pub struct ResponseHead {
    /// The status code.
    pub status: u16,
    /// The header fields.
    pub headers: http::HeaderMap<http::HeaderValue>,
}

/// The contents of a [`ResponseHead`].
pub struct HeadView {
    pub status: u16,
    pub headers: Map<Seq<char>, Seq<Seq<u8>>>,
}

impl View for ResponseHead {
    type V = HeadView;

    open spec fn view(&self) -> HeadView {
        HeadView { status: self.status, headers: header_lists(self.headers) }
    }
}

/// What follows an answer that has no body.
#[derive(Clone, Copy, Debug, PartialEq, Eq, Structural)]
pub enum Then {
    /// A tunnel to the TCP connection.
    TunnelTcp,
    /// A tunnel to the UDP socket.
    TunnelUdp,
    /// Nothing.
    Close,
}

/// What an exchange asks for.
pub enum Action {
    /// Connect to this TCP address.
    OpenTcp(String),
    /// Bind a UDP socket to this local address.
    BindUdp(String),
    /// Connect the UDP socket to this address.
    ConnectUdp(String),
    /// Send the client a response head with this status and no fields.
    Answer(u16),
    /// Relay between the client and the TCP connection until both directions end.
    TunnelTcp,
    /// Relay between the client and the UDP socket until both directions end.
    TunnelUdp,
    /// Read the next chunk of the client's body.
    ReadBody,
    /// Send this request to the upstream server.
    SendUpstream(ForwardRequest),
    /// Send the client this response head.
    SendHead(ResponseHead),
    /// Take the next frame of the upstream server's response.
    PullFrame,
    /// Send the client this part of the response's body.
    SendData(bytes::Bytes),
    /// Finish the client's stream.
    Finish,
    /// The exchange is over.
    Close,
    /// Give up with the error that was reported.
    Abort,
    /// Give up with this error.
    Fail(ProxyError),
    /// The event was not the answer to what had been asked; nothing changes.
    Ignore,
}

/// The contents of an [`Action`].
pub enum ActionView {
    OpenTcp(Seq<char>),
    BindUdp(Seq<char>),
    ConnectUdp(Seq<char>),
    Answer(u16),
    TunnelTcp,
    TunnelUdp,
    ReadBody,
    SendUpstream(ForwardView),
    SendHead(HeadView),
    PullFrame,
    SendData(Seq<u8>),
    Finish,
    Close,
    Abort,
    Fail(ErrorView),
    Ignore,
}

impl View for Action {
    type V = ActionView;

    open spec fn view(&self) -> ActionView {
        match *self {
            Action::OpenTcp(target) => ActionView::OpenTcp(target@),
            Action::BindUdp(local) => ActionView::BindUdp(local@),
            Action::ConnectUdp(target) => ActionView::ConnectUdp(target@),
            Action::Answer(status) => ActionView::Answer(status),
            Action::TunnelTcp => ActionView::TunnelTcp,
            Action::TunnelUdp => ActionView::TunnelUdp,
            Action::ReadBody => ActionView::ReadBody,
            Action::SendUpstream(request) => ActionView::SendUpstream(request@),
            Action::SendHead(head) => ActionView::SendHead(head@),
            Action::PullFrame => ActionView::PullFrame,
            Action::SendData(chunk) => ActionView::SendData(chunk_bytes(chunk)),
            Action::Finish => ActionView::Finish,
            Action::Close => ActionView::Close,
            Action::Abort => ActionView::Abort,
            Action::Fail(error) => ActionView::Fail(error@),
            Action::Ignore => ActionView::Ignore,
        }
    }
}

/// What came of an action.
pub enum Event {
    /// The TCP connection was opened, or could not be.
    TcpOpened(bool),
    /// The UDP socket was bound, or could not be.
    UdpBound(bool),
    /// The UDP socket was connected, or could not be.
    UdpConnected(bool),
    /// The response head was sent, or could not be.
    HeadSent(bool),
    /// Both directions of the tunnel have ended.
    TunnelEnded,
    /// A chunk of the client's body was read.
    BodyChunk(bytes::Bytes),
    /// A chunk of the client's body was broken.
    BodyBroken,
    /// There is no more of the client's body.
    BodyEnded,
    /// The upstream server has answered.
    Responded(ResponseHead),
    /// The upstream server could not be reached or did not answer.
    NoResponse,
    /// A frame with a part of the response's body.
    Frame(bytes::Bytes),
    /// A frame with something else.
    OtherFrame,
    /// A frame was broken.
    FrameBroken,
    /// There are no more frames.
    FramesEnded,
    /// The data was sent, or could not be.
    DataSent(bool),
    /// The client's stream was finished, or could not be.
    Finished(bool),
}

/// The contents of an [`Event`].
pub enum EventView {
    TcpOpened(bool),
    UdpBound(bool),
    UdpConnected(bool),
    HeadSent(bool),
    TunnelEnded,
    BodyChunk(Seq<u8>),
    BodyBroken,
    BodyEnded,
    Responded(HeadView),
    NoResponse,
    Frame(Seq<u8>),
    OtherFrame,
    FrameBroken,
    FramesEnded,
    DataSent(bool),
    Finished(bool),
}

impl View for Event {
    type V = EventView;

    open spec fn view(&self) -> EventView {
        match *self {
            Event::TcpOpened(ok) => EventView::TcpOpened(ok),
            Event::UdpBound(ok) => EventView::UdpBound(ok),
            Event::UdpConnected(ok) => EventView::UdpConnected(ok),
            Event::HeadSent(ok) => EventView::HeadSent(ok),
            Event::TunnelEnded => EventView::TunnelEnded,
            Event::BodyChunk(chunk) => EventView::BodyChunk(chunk_bytes(chunk)),
            Event::BodyBroken => EventView::BodyBroken,
            Event::BodyEnded => EventView::BodyEnded,
            Event::Responded(head) => EventView::Responded(head@),
            Event::NoResponse => EventView::NoResponse,
            Event::Frame(chunk) => EventView::Frame(chunk_bytes(chunk)),
            Event::OtherFrame => EventView::OtherFrame,
            Event::FrameBroken => EventView::FrameBroken,
            Event::FramesEnded => EventView::FramesEnded,
            Event::DataSent(ok) => EventView::DataSent(ok),
            Event::Finished(ok) => EventView::Finished(ok),
        }
    }
}

/// How plain requests are treated.
#[derive(Clone, Copy, Debug, PartialEq, Eq, Structural)]
pub enum Mode {
    /// The client's body is passed on as it comes, and a broken frame of the response
    /// is left out.
    Streaming,
    /// The client's body is collected first, and a broken frame of the response ends
    /// the exchange.
    Buffered,
}

/// What an exchange is waiting for.
pub enum Phase {
    /// For the TCP connection.
    OpeningTcp,
    /// For the UDP socket that is to be connected to this address.
    BindingUdp(String),
    /// For the UDP socket to be connected.
    ConnectingUdp,
    /// For an answer without a body to be sent.
    Answering(Then),
    /// For the tunnel to end.
    Tunnelling,
    /// For the rest of the body of this request, or of one whose header fields cannot be
    /// taken over; the body so far is with it.
    Collecting(Result<ForwardRequest, HeaderError>, Vec<u8>),
    /// For the upstream server's answer.
    AwaitingUpstream,
    /// For the response head to be sent.
    SendingHead,
    /// For the next frame of the response.
    PullingFrame,
    /// For a part of the response's body to be sent.
    SendingData,
    /// For the client's stream to be finished.
    Finishing,
    /// For nothing any more.
    Closed,
}

/// The contents of a [`Phase`].
pub enum PhaseView {
    OpeningTcp,
    BindingUdp(Seq<char>),
    ConnectingUdp,
    Answering(Then),
    Tunnelling,
    Collecting(Result<ForwardView, HeaderError>, Seq<u8>),
    AwaitingUpstream,
    SendingHead,
    PullingFrame,
    SendingData,
    Finishing,
    Closed,
}

impl View for Phase {
    type V = PhaseView;

    open spec fn view(&self) -> PhaseView {
        match *self {
            Phase::OpeningTcp => PhaseView::OpeningTcp,
            Phase::BindingUdp(target) => PhaseView::BindingUdp(target@),
            Phase::ConnectingUdp => PhaseView::ConnectingUdp,
            Phase::Answering(next) => PhaseView::Answering(next),
            Phase::Tunnelling => PhaseView::Tunnelling,
            Phase::Collecting(Ok(request), body) => PhaseView::Collecting(Ok(request@), body@),
            Phase::Collecting(Err(e), body) => PhaseView::Collecting(Err(e), body@),
            Phase::AwaitingUpstream => PhaseView::AwaitingUpstream,
            Phase::SendingHead => PhaseView::SendingHead,
            Phase::PullingFrame => PhaseView::PullingFrame,
            Phase::SendingData => PhaseView::SendingData,
            Phase::Finishing => PhaseView::Finishing,
            Phase::Closed => PhaseView::Closed,
        }
    }
}

/// The exchange that a request begins.
pub struct Exchange {
    mode: Mode,
    phase: Phase,
}

/// The contents of an [`Exchange`].
pub struct ExchangeView {
    pub mode: Mode,
    pub phase: PhaseView,
}

impl View for Exchange {
    type V = ExchangeView;

    closed spec fn view(&self) -> ExchangeView {
        ExchangeView { mode: self.mode, phase: self.phase@ }
    }
}

/// An exchange may give up with this action because the headers cannot be taken over.
pub open spec fn gives_up_on(lists: Map<Seq<char>, Seq<Seq<u8>>>, a: ActionView) -> bool {
    a matches ActionView::Fail(ErrorView::Header(e)) && cannot_copy(lists, e)
}

/// Whether the upstream server's URI is one that the http crate reads, or the words with
/// which it refuses it.
pub open spec fn verdict_on(upstream: UpstreamView) -> Result<(), Seq<char>> {
    match upstream {
        UpstreamView::Original => Ok(()),
        UpstreamView::Rebuilt(text) => match uri_parts(text) {
            Ok(_) => Ok(()),
            Err(words) => Err(words),
        },
    }
}

/// The contents of a verdict.
pub open spec fn verdict_view(verdict: Result<(), String>) -> Result<(), Seq<char>> {
    match verdict {
        Ok(_) => Ok(()),
        Err(words) => Err(words@),
    }
}

/// The request that is sent to the upstream server: the method and the header fields
/// of the client's request, without `content-length`.
pub open spec fn forwarded(
    r: RequestView,
    upstream: UpstreamView,
    body: Option<Seq<u8>>,
) -> ForwardView {
    ForwardView {
        method: r.method,
        upstream,
        headers: copied_lists(r.headers, true),
        body,
    }
}

/// How a plain request begins. The verdict says whether the upstream server's URI is
/// one that the http crate reads.
pub open spec fn forwards(
    r: RequestView,
    upstream: UpstreamView,
    verdict: Result<(), Seq<char>>,
    mode: Mode,
    p: PhaseView,
    a: ActionView,
) -> bool {
    match verdict {
        Err(words) => p is Closed && a == ActionView::Fail(ErrorView::Uri(words)),
        Ok(_) => match mode {
            Mode::Streaming => {
                ||| {
                    &&& well_formed(copied_lists(r.headers, true))
                    &&& p is AwaitingUpstream
                    &&& a == ActionView::SendUpstream(forwarded(r, upstream, None))
                }
                ||| p is Closed && gives_up_on(copied_lists(r.headers, true), a)
            },
            Mode::Buffered => {
                &&& a is ReadBody
                &&& p matches PhaseView::Collecting(request, body)
                &&& body.len() == 0
                &&& match request {
                    Ok(request) => {
                        &&& well_formed(copied_lists(r.headers, true))
                        &&& request == forwarded(r, upstream, None)
                    },
                    Err(e) => cannot_copy(copied_lists(r.headers, true), e),
                }
            },
        },
    }
}

/// How an exchange begins.
pub open spec fn begins(
    r: RequestView,
    udp: bool,
    mode: Mode,
    p: PhaseView,
    a: ActionView,
) -> bool {
    match opening(r, udp) {
        OpeningView::Tcp(target) => p is OpeningTcp && a == ActionView::OpenTcp(target),
        OpeningView::Udp(target) => p == PhaseView::BindingUdp(target) && a
            == ActionView::BindUdp("0.0.0.0:0"@),
        OpeningView::Refuse => p == PhaseView::Answering(Then::Close) && a == ActionView::Answer(
            400,
        ),
        OpeningView::Forward(upstream) => forwards(r, upstream, verdict_on(upstream), mode, p, a),
    }
}

/// How an exchange goes on, but for the upstream server's answer.
pub open spec fn next(mode: Mode, p: PhaseView, e: EventView) -> (PhaseView, ActionView) {
    match (p, e) {
        (PhaseView::OpeningTcp, EventView::TcpOpened(ok)) => if ok {
            (PhaseView::Answering(Then::TunnelTcp), ActionView::Answer(200))
        } else {
            (PhaseView::Answering(Then::Close), ActionView::Answer(502))
        },
        (PhaseView::BindingUdp(target), EventView::UdpBound(ok)) => if ok {
            (PhaseView::ConnectingUdp, ActionView::ConnectUdp(target))
        } else {
            (PhaseView::Answering(Then::Close), ActionView::Answer(500))
        },
        (PhaseView::ConnectingUdp, EventView::UdpConnected(ok)) => if ok {
            (PhaseView::Answering(Then::TunnelUdp), ActionView::Answer(200))
        } else {
            (PhaseView::Answering(Then::Close), ActionView::Answer(502))
        },
        (PhaseView::Answering(follow), EventView::HeadSent(ok)) => if !ok {
            (PhaseView::Closed, ActionView::Abort)
        } else {
            match follow {
                Then::TunnelTcp => (PhaseView::Tunnelling, ActionView::TunnelTcp),
                Then::TunnelUdp => (PhaseView::Tunnelling, ActionView::TunnelUdp),
                Then::Close => (PhaseView::Closed, ActionView::Close),
            }
        },
        (PhaseView::Tunnelling, EventView::TunnelEnded) => (PhaseView::Closed, ActionView::Close),
        (PhaseView::Collecting(request, body), EventView::BodyChunk(data)) => (
            PhaseView::Collecting(request, body + data),
            ActionView::ReadBody,
        ),
        (PhaseView::Collecting(_, _), EventView::BodyBroken) => (
            PhaseView::Closed,
            ActionView::Abort,
        ),
        (PhaseView::Collecting(Ok(request), body), EventView::BodyEnded) => (
            PhaseView::AwaitingUpstream,
            ActionView::SendUpstream(ForwardView { body: Some(body), ..request }),
        ),
        (PhaseView::Collecting(Err(e), _), EventView::BodyEnded) => (
            PhaseView::Closed,
            ActionView::Fail(ErrorView::Header(e)),
        ),
        (PhaseView::AwaitingUpstream, EventView::NoResponse) => (
            PhaseView::Closed,
            ActionView::Abort,
        ),
        (PhaseView::SendingHead, EventView::HeadSent(ok)) => if ok {
            (PhaseView::PullingFrame, ActionView::PullFrame)
        } else {
            (PhaseView::Closed, ActionView::Abort)
        },
        (PhaseView::PullingFrame, EventView::Frame(data)) => (
            PhaseView::SendingData,
            ActionView::SendData(data),
        ),
        (PhaseView::PullingFrame, EventView::OtherFrame) => (
            PhaseView::PullingFrame,
            ActionView::PullFrame,
        ),
        (PhaseView::PullingFrame, EventView::FrameBroken) => match mode {
            Mode::Streaming => (PhaseView::PullingFrame, ActionView::PullFrame),
            Mode::Buffered => (PhaseView::Closed, ActionView::Abort),
        },
        (PhaseView::PullingFrame, EventView::FramesEnded) => (
            PhaseView::Finishing,
            ActionView::Finish,
        ),
        (PhaseView::SendingData, EventView::DataSent(ok)) => if ok {
            (PhaseView::PullingFrame, ActionView::PullFrame)
        } else {
            (PhaseView::Closed, ActionView::Abort)
        },
        (PhaseView::Finishing, EventView::Finished(ok)) => (
            PhaseView::Closed,
            if ok {
                ActionView::Close
            } else {
                ActionView::Abort
            },
        ),
        _ => (p, ActionView::Ignore),
    }
}

/// How an exchange goes on. The upstream server's answer is handed to the client with
/// its status and all of its header fields.
pub open spec fn goes_on(
    s: ExchangeView,
    e: EventView,
    t: ExchangeView,
    a: ActionView,
) -> bool {
    &&& t.mode == s.mode
    &&& match (s.phase, e) {
        (PhaseView::AwaitingUpstream, EventView::Responded(head)) => {
            ||| {
                &&& well_formed(head.headers)
                &&& t.phase is SendingHead
                &&& a == ActionView::SendHead(head)
            }
            ||| t.phase is Closed && gives_up_on(head.headers, a)
        },
        _ => (t.phase, a) == next(s.mode, s.phase, e),
    }
}

/// Whether the upstream server's URI is one that the http crate reads, or the words with
/// which it refuses it.
pub fn check_upstream(upstream: &Upstream) -> (r: Result<(), String>)
    ensures
        verdict_view(r) == verdict_on(upstream@),
{
    match upstream {
        Upstream::Original => Ok(()),
        Upstream::Rebuilt(text) => match parse_uri(text.as_str()) {
            Ok(_) => Ok(()),
            Err(words) => Err(words),
        },
    }
}

/// Begins a plain request to a server whose URI has this verdict.
pub fn begin_forward(
    request: &ProxyRequest,
    upstream: Upstream,
    verdict: Result<(), String>,
    mode: Mode,
) -> (r: (Exchange, Action))
    ensures
        r.0@.mode == mode,
        forwards(request@, upstream@, verdict_view(verdict), mode, r.0@.phase, r.1@),
{
    if let Err(words) = verdict {
        return (Exchange { mode, phase: Phase::Closed }, Action::Fail(ProxyError::Uri(words)));
    }
    match copy_headers(&request.headers, true) {
        Ok(headers) => {
            let forward = ForwardRequest {
                method: request.method.clone(),
                upstream,
                headers,
                body: None,
            };
            match mode {
                Mode::Streaming => (
                    Exchange { mode, phase: Phase::AwaitingUpstream },
                    Action::SendUpstream(forward),
                ),
                Mode::Buffered => (
                    Exchange { mode, phase: Phase::Collecting(Ok(forward), Vec::new()) },
                    Action::ReadBody,
                ),
            }
        },
        Err(e) => match mode {
            Mode::Streaming => (
                Exchange { mode, phase: Phase::Closed },
                Action::Fail(ProxyError::Header(e)),
            ),
            Mode::Buffered => (
                Exchange { mode, phase: Phase::Collecting(Err(e), Vec::new()) },
                Action::ReadBody,
            ),
        },
    }
}

/// Begins the exchange of a request.
pub fn begin(request: &ProxyRequest, udp: bool, mode: Mode) -> (r: (Exchange, Action))
    ensures
        r.0@.mode == mode,
        begins(request@, udp, mode, r.0@.phase, r.1@),
{
    match request.open(udp) {
        Opening::Tcp(target) => (
            Exchange { mode, phase: Phase::OpeningTcp },
            Action::OpenTcp(target),
        ),
        Opening::Udp(target) => (
            Exchange { mode, phase: Phase::BindingUdp(target) },
            Action::BindUdp("0.0.0.0:0".to_owned()),
        ),
        Opening::Refuse => (
            Exchange { mode, phase: Phase::Answering(Then::Close) },
            Action::Answer(400),
        ),
        Opening::Forward(upstream) => {
            let verdict = check_upstream(&upstream);
            begin_forward(request, upstream, verdict, mode)
        },
    }
}

/// Begins the exchange of a request at a proxy that also offers tunnels to UDP
/// addresses and passes bodies on as they come.
pub fn handle_request(request: &ProxyRequest) -> (r: (Exchange, Action))
    ensures
        r.0@.mode == Mode::Streaming,
        begins(request@, true, Mode::Streaming, r.0@.phase, r.1@),
{
    begin(request, true, Mode::Streaming)
}

/// Begins the exchange of a request at a proxy that offers tunnels to TCP addresses
/// only and collects the bodies of plain requests.
pub fn handle(request: &ProxyRequest) -> (r: (Exchange, Action))
    ensures
        r.0@.mode == Mode::Buffered,
        begins(request@, false, Mode::Buffered, r.0@.phase, r.1@),
{
    begin(request, false, Mode::Buffered)
}

impl Exchange {
    /// Takes in what came of the last action and says what to do next.
    pub fn step(self, event: Event) -> (r: (Exchange, Action))
        ensures
            goes_on(self@, event@, r.0@, r.1@),
    {
        let mode = self.mode;
        let (phase, action): (Phase, Action) = match (self.phase, event) {
            (Phase::OpeningTcp, Event::TcpOpened(ok)) => if ok {
                (Phase::Answering(Then::TunnelTcp), Action::Answer(200))
            } else {
                (Phase::Answering(Then::Close), Action::Answer(502))
            },
            (Phase::BindingUdp(target), Event::UdpBound(ok)) => if ok {
                (Phase::ConnectingUdp, Action::ConnectUdp(target))
            } else {
                (Phase::Answering(Then::Close), Action::Answer(500))
            },
            (Phase::ConnectingUdp, Event::UdpConnected(ok)) => if ok {
                (Phase::Answering(Then::TunnelUdp), Action::Answer(200))
            } else {
                (Phase::Answering(Then::Close), Action::Answer(502))
            },
            (Phase::Answering(follow), Event::HeadSent(ok)) => if !ok {
                (Phase::Closed, Action::Abort)
            } else {
                match follow {
                    Then::TunnelTcp => (Phase::Tunnelling, Action::TunnelTcp),
                    Then::TunnelUdp => (Phase::Tunnelling, Action::TunnelUdp),
                    Then::Close => (Phase::Closed, Action::Close),
                }
            },
            (Phase::Tunnelling, Event::TunnelEnded) => (Phase::Closed, Action::Close),
            (Phase::Collecting(request, body), Event::BodyChunk(chunk)) => {
                let mut longer = body;
                extend_body(&mut longer, &chunk);
                (Phase::Collecting(request, longer), Action::ReadBody)
            },
            (Phase::Collecting(_, _), Event::BodyBroken) => (Phase::Closed, Action::Abort),
            (Phase::Collecting(Err(e), _), Event::BodyEnded) => (
                Phase::Closed,
                Action::Fail(ProxyError::Header(e)),
            ),
            (Phase::Collecting(Ok(request), body), Event::BodyEnded) => (
                Phase::AwaitingUpstream,
                Action::SendUpstream(
                    ForwardRequest {
                        method: request.method,
                        upstream: request.upstream,
                        headers: request.headers,
                        body: Some(body),
                    },
                ),
            ),
            (Phase::AwaitingUpstream, Event::Responded(head)) => {
                match copy_headers(&head.headers, false) {
                    Ok(headers) => (
                        Phase::SendingHead,
                        Action::SendHead(ResponseHead { status: head.status, headers }),
                    ),
                    Err(e) => (Phase::Closed, Action::Fail(ProxyError::Header(e))),
                }
            },
            (Phase::AwaitingUpstream, Event::NoResponse) => (Phase::Closed, Action::Abort),
            (Phase::SendingHead, Event::HeadSent(ok)) => if ok {
                (Phase::PullingFrame, Action::PullFrame)
            } else {
                (Phase::Closed, Action::Abort)
            },
            (Phase::PullingFrame, Event::Frame(chunk)) => (
                Phase::SendingData,
                Action::SendData(chunk),
            ),
            (Phase::PullingFrame, Event::OtherFrame) => (Phase::PullingFrame, Action::PullFrame),
            (Phase::PullingFrame, Event::FrameBroken) => match mode {
                Mode::Streaming => (Phase::PullingFrame, Action::PullFrame),
                Mode::Buffered => (Phase::Closed, Action::Abort),
            },
            (Phase::PullingFrame, Event::FramesEnded) => (Phase::Finishing, Action::Finish),
            (Phase::SendingData, Event::DataSent(ok)) => if ok {
                (Phase::PullingFrame, Action::PullFrame)
            } else {
                (Phase::Closed, Action::Abort)
            },
            (Phase::Finishing, Event::Finished(ok)) => (
                Phase::Closed,
                if ok {
                    Action::Close
                } else {
                    Action::Abort
                },
            ),
            (phase, _) => (phase, Action::Ignore),
        };
        (Exchange { mode, phase }, action)
    }
}

} // verus!
