//! The server: it accepts connections, opens a session on each of them, and accepts
//! requests on each session.
//!
//! A [`ServerRun`] decides for the endpoint and a [`Session`] for one connection. The
//! caller performs what they ask for and reports what came of it.

use vstd::prelude::*;
use vstd::slice::*;
use vstd::utf8::*;

use crate::client::{connection, ClientConfig};
use crate::config::ProxyConfig;
use crate::error::{ErrorView, ProxyError};
use crate::tls::{
    byte_strings, cert_key, identity_of, identity_verdict, identity_view, load_identity, makes,
    makes_none, may_draw, public_half, unreadable, IdentityView,
};

verus! {

/// A proxy server.
pub struct ProxyServer {
    pub config: ProxyConfig,
}

/// What the server asks for.
pub enum ServerAction {
    /// Let the run be prepared.
    Prepare,
    /// Listen on this address, with this identity, and offer these protocols.
    Listen(String, rustls::sign::CertifiedKey, Vec<Vec<u8>>),
    /// Accept the next connection.
    Accept,
    /// Serve the connection in a task of its own, and accept the next one.
    Serve,
    /// The server is done.
    Stop,
    /// Give up with the error that was reported.
    Abort,
    /// Give up with this error.
    Fail(ProxyError),
    /// The event was not the answer to what had been asked; nothing changes.
    Ignore,
}

/// The contents of a [`ServerAction`].
pub enum ServerActionView {
    Prepare,
    Listen(Seq<char>, IdentityView, Seq<Seq<u8>>),
    Accept,
    Serve,
    Stop,
    Abort,
    Fail(ErrorView),
    Ignore,
}

impl View for ServerAction {
    type V = ServerActionView;

    open spec fn view(&self) -> ServerActionView {
        match *self {
            ServerAction::Prepare => ServerActionView::Prepare,
            ServerAction::Listen(address, identity, protocols) => ServerActionView::Listen(
                address@,
                identity_view(identity),
                byte_strings(protocols@),
            ),
            ServerAction::Accept => ServerActionView::Accept,
            ServerAction::Serve => ServerActionView::Serve,
            ServerAction::Stop => ServerActionView::Stop,
            ServerAction::Abort => ServerActionView::Abort,
            ServerAction::Fail(error) => ServerActionView::Fail(error@),
            ServerAction::Ignore => ServerActionView::Ignore,
        }
    }
}

/// What came of an action.
#[derive(Clone, Copy, Debug, PartialEq, Eq, Structural)]
pub enum ServerEvent {
    /// The server listens on its address, or cannot.
    Listening(bool),
    /// A connection was accepted.
    Connected,
    /// A connection failed in its handshake.
    HandshakeFailed,
    /// The endpoint was closed.
    EndpointClosed,
}

/// What a server is waiting for.
#[derive(Clone, Copy, Debug, PartialEq, Eq, Structural)]
pub enum ServerState {
    Preparing,
    Starting,
    Accepting,
    Stopped,
}

/// The protocols that a server offers, the preferred one first.
pub open spec fn server_protocols() -> Seq<Seq<u8>> {
    seq![encode_utf8("h3"@)]
}

/// What a server does with the identity that was made for it, or with the reason that none
/// was.
pub open spec fn identity_step(
    config: ProxyConfig,
    protocols: Seq<Seq<u8>>,
    s: ServerState,
    identity: Result<IdentityView, ErrorView>,
) -> (ServerState, ServerActionView) {
    match (s, identity) {
        (ServerState::Preparing, Ok(identity)) => (
            ServerState::Starting,
            ServerActionView::Listen(config.listen_addr.text@, identity, protocols),
        ),
        (ServerState::Preparing, Err(e)) => (ServerState::Stopped, ServerActionView::Fail(e)),
        _ => (s, ServerActionView::Ignore),
    }
}

/// How a server is prepared: it makes the identity of its own chain and key, and goes by
/// what comes of that.
pub open spec fn is_prepared(
    config: ProxyConfig,
    protocols: Seq<Seq<u8>>,
    s: ServerState,
    t: ServerState,
    a: ServerActionView,
) -> bool {
    let chain = byte_strings(config.cert_chain@);
    let key = config.priv_key@;
    ||| exists|identity: IdentityView|
        #![trigger makes(chain, key, identity)]
        makes(chain, key, identity) && (t, a) == identity_step(
            config,
            protocols,
            s,
            Ok(identity),
        )
    ||| exists|e: ErrorView|
        #![trigger makes_none(chain, key, e)]
        makes_none(chain, key, e) && (t, a) == identity_step(
            config,
            protocols,
            s,
            Err(e),
        )
}

/// The contents of what came of making an identity.
pub open spec fn tried_view(tried: Result<rustls::sign::CertifiedKey, ProxyError>) -> Result<
    IdentityView,
    ErrorView,
> {
    match tried {
        Ok(identity) => Ok(identity_view(identity)),
        Err(e) => Err(e@),
    }
}

/// What a server does next.
pub open spec fn server_step(s: ServerState, e: ServerEvent) -> (ServerState, ServerActionView) {
    match (s, e) {
        (ServerState::Starting, ServerEvent::Listening(ok)) => if ok {
            (ServerState::Accepting, ServerActionView::Accept)
        } else {
            (ServerState::Stopped, ServerActionView::Abort)
        },
        (ServerState::Accepting, ServerEvent::Connected) => (
            ServerState::Accepting,
            ServerActionView::Serve,
        ),
        (ServerState::Accepting, ServerEvent::HandshakeFailed) => (
            ServerState::Accepting,
            ServerActionView::Accept,
        ),
        (ServerState::Accepting, ServerEvent::EndpointClosed) => (
            ServerState::Stopped,
            ServerActionView::Stop,
        ),
        _ => (s, ServerActionView::Ignore),
    }
}

impl ProxyServer {
    /// A server with this set-up.
    pub fn new(config: ProxyConfig) -> (r: ProxyServer)
        ensures
            r.config == config,
    {
        ProxyServer { config }
    }

    /// Begins to serve, by having the run prepared.
    pub fn serve(self) -> (r: (ServerRun, ServerAction))
        ensures
            r.0.config() == self.config,
            r.0.protocols() == server_protocols(),
            r.0.state() == ServerState::Preparing,
            r.1@ == ServerActionView::Prepare,
    {
        let mut protocols: Vec<Vec<u8>> = Vec::new();
        protocols.push(slice_to_vec("h3".as_bytes()));
        assert(byte_strings(protocols@) =~= server_protocols());
        (
            ServerRun { config: self.config, protocols, state: ServerState::Preparing },
            ServerAction::Prepare,
        )
    }
}

/// A run of a server.
pub struct ServerRun {
    config: ProxyConfig,
    protocols: Vec<Vec<u8>>,
    state: ServerState,
}

impl ServerRun {
    /// What the server is set up with.
    pub closed spec fn config(self) -> ProxyConfig {
        self.config
    }

    /// The protocols that the server offers, the preferred one first.
    pub closed spec fn protocols(self) -> Seq<Seq<u8>> {
        byte_strings(self.protocols@)
    }

    /// What the server is waiting for.
    pub closed spec fn state(self) -> ServerState {
        self.state
    }

    /// Makes the identity of the server's own chain and key, and says what to do next.
    pub fn prepare(&mut self) -> (r: ServerAction)
        ensures
            final(self).config() == old(self).config(),
            final(self).protocols() == old(self).protocols(),
            is_prepared(
                old(self).config(),
                old(self).protocols(),
                old(self).state(),
                final(self).state(),
                r@,
            ),
    {
        let tried = load_identity(&self.config.cert_chain, &self.config.priv_key);
        let ghost chain = byte_strings(self.config.cert_chain@);
        let ghost key = self.config.priv_key@;
        assert(tried is Ok ==> makes(chain, key, identity_view(tried->Ok_0)));
        assert(tried is Err ==> makes_none(chain, key, tried->Err_0@));
        self.prepared(tried)
    }

    /// Takes in the identity that was made for the server, or the reason that none was, and
    /// says what to do next.
    pub fn prepared(&mut self, tried: Result<rustls::sign::CertifiedKey, ProxyError>) -> (r:
        ServerAction)
        ensures
            final(self).config() == old(self).config(),
            final(self).protocols() == old(self).protocols(),
            (final(self).state(), r@) == identity_step(
                old(self).config(),
                old(self).protocols(),
                old(self).state(),
                tried_view(tried),
            ),
    {
        match (self.state, tried) {
            (ServerState::Preparing, Ok(identity)) => {
                self.state = ServerState::Starting;
                let address = self.config.listen_addr.text.clone();
                let protocols = self.protocols.clone();
                assert(byte_strings(protocols@) =~= byte_strings(self.protocols@));
                ServerAction::Listen(address, identity, protocols)
            },
            (ServerState::Preparing, Err(e)) => {
                self.state = ServerState::Stopped;
                ServerAction::Fail(e)
            },
            _ => ServerAction::Ignore,
        }
    }

    /// Takes in what came of the last action and says what to do next.
    pub fn step(&mut self, event: ServerEvent) -> (r: ServerAction)
        ensures
            final(self).config() == old(self).config(),
            final(self).protocols() == old(self).protocols(),
            (final(self).state(), r@) == server_step(old(self).state(), event),
    {
        match (self.state, event) {
            (ServerState::Starting, ServerEvent::Listening(ok)) => {
                if ok {
                    self.state = ServerState::Accepting;
                    ServerAction::Accept
                } else {
                    self.state = ServerState::Stopped;
                    ServerAction::Abort
                }
            },
            (ServerState::Accepting, ServerEvent::Connected) => ServerAction::Serve,
            (ServerState::Accepting, ServerEvent::HandshakeFailed) => ServerAction::Accept,
            (ServerState::Accepting, ServerEvent::EndpointClosed) => {
                self.state = ServerState::Stopped;
                ServerAction::Stop
            },
            _ => ServerAction::Ignore,
        }
    }
}

/// What a session asks for.
#[derive(Clone, Copy, Debug, PartialEq, Eq, Structural)]
pub enum SessionAction {
    /// Open an HTTP/3 session on the connection.
    Open,
    /// Accept the next request.
    Accept,
    /// Handle the request in a task of its own, and accept the next one.
    Handle,
    /// Let go of the connection.
    Close,
    /// The event was not the answer to what had been asked; nothing changes.
    Ignore,
}

/// What came of an action.
#[derive(Clone, Copy, Debug, PartialEq, Eq, Structural)]
pub enum SessionEvent {
    /// The session was opened, or could not be.
    Opened(bool),
    /// A request came in.
    Requested,
    /// There are no more requests: the session has ended or failed.
    Ended,
}

/// What a session is waiting for.
#[derive(Clone, Copy, Debug, PartialEq, Eq, Structural)]
pub enum SessionState {
    Opening,
    Accepting,
    Closed,
}

/// What a session does next.
pub open spec fn session_step(s: SessionState, e: SessionEvent) -> (SessionState, SessionAction) {
    match (s, e) {
        (SessionState::Opening, SessionEvent::Opened(ok)) => if ok {
            (SessionState::Accepting, SessionAction::Accept)
        } else {
            (SessionState::Closed, SessionAction::Close)
        },
        (SessionState::Accepting, SessionEvent::Requested) => (
            SessionState::Accepting,
            SessionAction::Handle,
        ),
        (SessionState::Accepting, SessionEvent::Ended) => (
            SessionState::Closed,
            SessionAction::Close,
        ),
        _ => (s, SessionAction::Ignore),
    }
}

/// The session on one connection.
pub struct Session {
    state: SessionState,
}

impl Session {
    /// What the session is waiting for.
    pub closed spec fn state(self) -> SessionState {
        self.state
    }

    /// A session that is to be opened.
    pub fn start() -> (r: (Session, SessionAction))
        ensures
            r.0.state() == SessionState::Opening,
            r.1 == SessionAction::Open,
    {
        (Session { state: SessionState::Opening }, SessionAction::Open)
    }

    /// Takes in what came of the last action and says what to do next.
    pub fn step(&mut self, event: SessionEvent) -> (r: SessionAction)
        ensures
            (final(self).state(), r) == session_step(old(self).state(), event),
    {
        match (self.state, event) {
            (SessionState::Opening, SessionEvent::Opened(ok)) => {
                if ok {
                    self.state = SessionState::Accepting;
                    SessionAction::Accept
                } else {
                    self.state = SessionState::Closed;
                    SessionAction::Close
                }
            },
            (SessionState::Accepting, SessionEvent::Requested) => SessionAction::Handle,
            (SessionState::Accepting, SessionEvent::Ended) => {
                self.state = SessionState::Closed;
                SessionAction::Close
            },
            _ => SessionAction::Ignore,
        }
    }
}

/// The state of a server that was prepared, after a sequence of events.
pub open spec fn server_state(events: Seq<ServerEvent>) -> ServerState
    decreases events.len(),
{
    if events.len() == 0 {
        ServerState::Starting
    } else {
        server_step(server_state(events.drop_last()), events.last()).0
    }
}

/// What a server that was prepared asks for when the last of a sequence of events is
/// reported to it.
pub open spec fn server_answer(events: Seq<ServerEvent>) -> ServerActionView
    recommends
        events.len() > 0,
{
    server_step(server_state(events.drop_last()), events.last()).1
}

/// The state of a session after a sequence of events.
pub open spec fn session_state(events: Seq<SessionEvent>) -> SessionState
    decreases events.len(),
{
    if events.len() == 0 {
        SessionState::Opening
    } else {
        session_step(session_state(events.drop_last()), events.last()).0
    }
}

/// What a session asks for when the last of a sequence of events is reported to it.
pub open spec fn session_answer(events: Seq<SessionEvent>) -> SessionAction
    recommends
        events.len() > 0,
{
    session_step(session_state(events.drop_last()), events.last()).1
}

/// A client and a server speak a common protocol, HTTP/3, whatever the client's set-up: the
/// one that each of them prefers is offered by both.
pub proof fn law_client_and_server_share_a_protocol(client: ClientConfig)
    ensures
        server_protocols()[0] == encode_utf8("h3"@),
        server_protocols().contains(encode_utf8("h3"@)),
        connection(client).alpn.contains(encode_utf8("h3"@)),
        connection(client).alpn[0] == server_protocols()[0],
{
    assert(server_protocols()[0] == encode_utf8("h3"@));
    assert(connection(client).alpn[0] == encode_utf8("h3"@));
}

/// A server only ever listens as what it is set up to be: on its own address, presenting its
/// own chain, signing with its own key, which is the one of the chain's first certificate,
/// and offering its own protocols.
pub proof fn law_server_listens_as_itself(
    config: ProxyConfig,
    protocols: Seq<Seq<u8>>,
    s: ServerState,
    t: ServerState,
    address: Seq<char>,
    identity: IdentityView,
    offered: Seq<Seq<u8>>,
)
    requires
        is_prepared(
            config,
            protocols,
            s,
            t,
            ServerActionView::Listen(address, identity, offered),
        ),
    ensures
        address == config.listen_addr.text@,
        identity == identity_of(byte_strings(config.cert_chain@), config.priv_key@),
        config.cert_chain@.len() > 0,
        cert_key(config.cert_chain@[0]@) == public_half(config.priv_key@),
        offered == protocols,
{
    assert(byte_strings(config.cert_chain@)[0] == config.cert_chain@[0]@);
}

/// A chain and a key that are refused bind no address: the server gives up.
pub proof fn law_refused_identity_binds_nothing(
    config: ProxyConfig,
    protocols: Seq<Seq<u8>>,
    t: ServerState,
    a: ServerActionView,
)
    requires
        is_prepared(config, protocols, ServerState::Preparing, t, a),
        identity_verdict(byte_strings(config.cert_chain@), config.priv_key@) is Err,
    ensures
        t == ServerState::Stopped,
        a matches ServerActionView::Fail(e) && e is Identity,
{
}

/// A chain and a key that are not refused make the server listen, unless the key is one that
/// may take random numbers to read.
pub proof fn law_accepted_identity_listens(
    config: ProxyConfig,
    protocols: Seq<Seq<u8>>,
    t: ServerState,
    a: ServerActionView,
)
    requires
        is_prepared(config, protocols, ServerState::Preparing, t, a),
        !may_draw(config.priv_key@),
        identity_verdict(byte_strings(config.cert_chain@), config.priv_key@) is Ok,
    ensures
        t == ServerState::Starting,
        a == ServerActionView::Listen(
            config.listen_addr.text@,
            identity_of(byte_strings(config.cert_chain@), config.priv_key@),
            protocols,
        ),
{
}

/// A server that does not come to listen says why: with the words of the refusal, or, where
/// the key may take random numbers to read, that the key is unreadable.
pub proof fn law_identity_error_says_why(
    config: ProxyConfig,
    protocols: Seq<Seq<u8>>,
    t: ServerState,
    words: Seq<char>,
)
    requires
        is_prepared(
            config,
            protocols,
            ServerState::Preparing,
            t,
            ServerActionView::Fail(ErrorView::Identity(words)),
        ),
    ensures
        identity_verdict(byte_strings(config.cert_chain@), config.priv_key@) == Err::<
            (),
            Seq<char>,
        >(words) || (may_draw(config.priv_key@) && words == unreadable()),
{
}

/// Nothing but its preparation makes a server listen.
pub proof fn law_identity_comes_first(s: ServerState, e: ServerEvent)
    ensures
        server_step(s, e).1 !is Listen,
        s == ServerState::Preparing ==> server_step(s, e) == (s, ServerActionView::Ignore),
{
}

/// A server that listens goes on accepting connections until its endpoint is closed,
/// whatever becomes of the connections.
pub proof fn law_server_keeps_accepting(events: Seq<ServerEvent>)
    requires
        events.len() > 0,
        events[0] == ServerEvent::Listening(true),
        !events.contains(ServerEvent::EndpointClosed),
    ensures
        server_state(events) == ServerState::Accepting,
    decreases events.len(),
{
    let front = events.drop_last();
    if front.len() == 0 {
        assert(server_state(front) == ServerState::Starting);
    } else {
        assert forall|i: int| 0 <= i < front.len() implies front[i] != ServerEvent::EndpointClosed by {
            assert(events[i] == front[i]);
        }
        law_server_keeps_accepting(front);
    }
    assert(events[events.len() - 1] == events.last());
}

/// Every connection that comes in before the endpoint is closed is served.
pub proof fn law_every_connection_is_served(events: Seq<ServerEvent>)
    requires
        events.len() > 0,
        events[0] == ServerEvent::Listening(true),
        !events.contains(ServerEvent::EndpointClosed),
        events.last() == ServerEvent::Connected,
    ensures
        server_answer(events) == ServerActionView::Serve,
{
    let front = events.drop_last();
    assert(events[0] != events.last());
    assert forall|i: int| 0 <= i < front.len() implies front[i] != ServerEvent::EndpointClosed by {
        assert(events[i] == front[i]);
    }
    law_server_keeps_accepting(front);
}

/// An open session goes on accepting requests until it has ended, and handles each of
/// them: what becomes of a request is nothing that a session waits for.
pub proof fn law_every_request_is_handled(events: Seq<SessionEvent>)
    requires
        events.len() > 0,
        events[0] == SessionEvent::Opened(true),
        !events.contains(SessionEvent::Ended),
    ensures
        session_state(events) == SessionState::Accepting,
        events.last() == SessionEvent::Requested ==> session_answer(events)
            == SessionAction::Handle,
    decreases events.len(),
{
    let front = events.drop_last();
    if front.len() == 0 {
        assert(session_state(front) == SessionState::Opening);
    } else {
        assert forall|i: int| 0 <= i < front.len() implies front[i] != SessionEvent::Ended by {
            assert(events[i] == front[i]);
        }
        law_every_request_is_handled(front);
    }
    assert(events[events.len() - 1] == events.last());
}

/// A server that has stopped, and a session that was closed, asks for nothing more.
pub proof fn law_stopped_is_final(e: ServerEvent, f: SessionEvent)
    ensures
        server_step(ServerState::Stopped, e) == (ServerState::Stopped, ServerActionView::Ignore),
        session_step(SessionState::Closed, f) == (SessionState::Closed, SessionAction::Ignore),
{
}

/// What a server listens with is made of its set-up, field by field: its address, its chain,
/// the public key of its key, and the protocol `h3`.
pub proof fn law_server_is_what_it_is_set_up_to_be(
    config: ProxyConfig,
    t: ServerState,
    address: Seq<char>,
    identity: IdentityView,
    offered: Seq<Seq<u8>>,
    i: int,
)
    requires
        is_prepared(
            config,
            server_protocols(),
            ServerState::Preparing,
            t,
            ServerActionView::Listen(address, identity, offered),
        ),
    ensures
        address == config.listen_addr.text@,
        identity.chain.len() == config.cert_chain@.len(),
        0 <= i < config.cert_chain@.len() ==> identity.chain[i] == config.cert_chain@[i]@,
        identity.key == public_half(config.priv_key@),
        offered == seq![encode_utf8("h3"@)],
{
    law_server_listens_as_itself(
        config,
        server_protocols(),
        ServerState::Preparing,
        t,
        address,
        identity,
        offered,
    );
    if 0 <= i < config.cert_chain@.len() {
        assert(byte_strings(config.cert_chain@)[i] == config.cert_chain@[i]@);
    }
}

/// A server that cannot listen gives up; one that listens accepts connections, a connection
/// that fails in its handshake is passed over, and nothing but the end of its endpoint stops
/// it. A session that cannot be opened, and one that has ended, lets go of its connection.
pub proof fn law_what_servers_and_sessions_give_up_on(events: Seq<ServerEvent>, e: ServerEvent)
    requires
        events.len() > 0,
        events[0] == ServerEvent::Listening(true),
        !events.contains(ServerEvent::EndpointClosed),
    ensures
        server_answer(seq![ServerEvent::Listening(false)]) == ServerActionView::Abort,
        server_answer(seq![ServerEvent::Listening(true)]) == ServerActionView::Accept,
        server_answer(events.push(ServerEvent::HandshakeFailed)) == ServerActionView::Accept,
        server_answer(events.push(e)) == ServerActionView::Stop <==> e
            == ServerEvent::EndpointClosed,
        session_answer(seq![SessionEvent::Opened(true)]) == SessionAction::Accept,
        session_answer(seq![SessionEvent::Opened(false)]) == SessionAction::Close,
        session_answer(seq![SessionEvent::Opened(true), SessionEvent::Ended])
            == SessionAction::Close,
{
    law_server_keeps_accepting(events);
    assert(events.push(ServerEvent::HandshakeFailed).drop_last() =~= events);
    assert(events.push(e).drop_last() =~= events);
    assert(seq![ServerEvent::Listening(true)].drop_last() =~= Seq::empty());
    assert(seq![ServerEvent::Listening(false)].drop_last() =~= Seq::empty());
    assert(seq![SessionEvent::Opened(true)].drop_last() =~= Seq::empty());
    assert(seq![SessionEvent::Opened(false)].drop_last() =~= Seq::empty());
    let opened = seq![SessionEvent::Opened(true)];
    assert(seq![SessionEvent::Opened(true), SessionEvent::Ended].drop_last() =~= opened);
    assert(session_state(opened.drop_last()) == SessionState::Opening);
    assert(session_state(opened) == SessionState::Accepting);
}

/// What a server does with what came of making its identity: with an identity it listens, on
/// the address of its set-up, with that identity and its protocols; without one it gives up
/// with the reason; and it does so once.
pub proof fn law_what_comes_of_an_identity(
    config: ProxyConfig,
    protocols: Seq<Seq<u8>>,
    s: ServerState,
    identity: IdentityView,
    e: ErrorView,
)
    ensures
        identity_step(config, protocols, ServerState::Preparing, Ok(identity)) == (
            ServerState::Starting,
            ServerActionView::Listen(config.listen_addr.text@, identity, protocols),
        ),
        identity_step(config, protocols, ServerState::Preparing, Err(e)) == (
            ServerState::Stopped,
            ServerActionView::Fail(e),
        ),
        s != ServerState::Preparing ==> identity_step(config, protocols, s, Ok(identity)) == (
            s,
            ServerActionView::Ignore,
        ) && identity_step(config, protocols, s, Err(e)) == (s, ServerActionView::Ignore),
{
}

/// An event that is no answer to what a server or a session waits for changes nothing, and
/// one that is an answer is taken up.
pub proof fn law_servers_heed_answers_only(
    s: ServerState,
    e: ServerEvent,
    t: SessionState,
    f: SessionEvent,
)
    ensures
        server_step(s, e).1 is Ignore ==> server_step(s, e).0 == s,
        server_step(s, e).1 is Ignore <==> match s {
            ServerState::Starting => !(e is Listening),
            ServerState::Accepting => e is Listening,
            _ => true,
        },
        session_step(t, f).1 is Ignore ==> session_step(t, f).0 == t,
        session_step(t, f).1 is Ignore <==> match t {
            SessionState::Opening => !(f is Opened),
            SessionState::Accepting => f is Opened,
            SessionState::Closed => true,
        },
{
}

} // verus!
