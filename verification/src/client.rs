//! The client: it connects to the proxy, asks for a tunnel to its target and prints
//! what comes back.
//!
//! A [`ClientRun`] decides; the caller performs the [`ClientAction`] that it asks for
//! and reports what came of it as a [`ClientEvent`].

use vstd::prelude::*;
use vstd::slice::*;
use vstd::string::*;
use vstd::utf8::*;

use crate::chunk::{chunk_bytes, chunk_text, lossy};
use crate::config::ProxyAddr;
use crate::error::{ErrorView, ProxyError};
use crate::headers::{
    ascii_text, first_text, first_value, grouped, header_lists, is_field_name, is_field_value,
    is_text_value, new_headers, push_field, with_field, HeaderError,
};
use crate::request::{
    address, law_tcp_target, make_address, names_udp, opening, OpeningView, RequestView,
};
use crate::text::{
    decimal, decimal_text, is_decimal, law_decimal, lower, occurs_in, value_of,
};
use crate::tls::{all_roots, anchors_of, byte_strings, root_anchors, trust_anchor, trust_roots};
use crate::uri::{is_visible, parse_uri, uri_parts, UriParts, UriView};

verus! {

/// The set-up of a client.
pub struct ClientConfig {
    /// The address of the proxy.
    pub proxy_addr: ProxyAddr,
    /// The URL of the target.
    pub target_url: String,
    /// The certificates that the client trusts, in DER form.
    pub root_certs: Vec<Vec<u8>>,
}

/// A client of the proxy.
pub struct ProxyClient {
    config: ClientConfig,
}

/// How to connect to the proxy.
pub struct Connection {
    /// The address of the proxy.
    pub address: String,
    /// The name that the proxy's certificate must bear.
    pub server_name: String,
    /// The certificates that are trusted.
    pub roots: rustls::RootCertStore,
    /// The protocols that are offered, the preferred one first.
    pub alpn: Vec<Vec<u8>>,
}

/// The contents of a [`Connection`].
pub struct ConnectionView {
    pub address: Seq<char>,
    pub server_name: Seq<char>,
    pub roots: Seq<(Seq<u8>, Seq<u8>, Option<Seq<u8>>)>,
    pub alpn: Seq<Seq<u8>>,
}

impl View for Connection {
    type V = ConnectionView;

    open spec fn view(&self) -> ConnectionView {
        ConnectionView {
            address: self.address@,
            server_name: self.server_name@,
            roots: anchors_of(self.roots),
            alpn: byte_strings(self.alpn@),
        }
    }
}

/// The head of the client's request.
pub struct ConnectRequest {
    /// The method.
    pub method: String,
    /// The request URI.
    pub uri: String,
    /// The header fields.
    pub headers: http::HeaderMap<http::HeaderValue>,
}

/// The contents of a [`ConnectRequest`].
pub struct ConnectView {
    pub method: Seq<char>,
    pub uri: Seq<char>,
    pub headers: Map<Seq<char>, Seq<Seq<u8>>>,
}

impl View for ConnectRequest {
    type V = ConnectView;

    open spec fn view(&self) -> ConnectView {
        ConnectView {
            method: self.method@,
            uri: self.uri@,
            headers: header_lists(self.headers),
        }
    }
}

/// What a client asks for.
pub enum ClientAction {
    /// Bind a socket to this local address.
    Bind(String),
    /// Connect to the proxy.
    Connect(Connection),
    /// Open an HTTP/3 session on the connection.
    OpenSession,
    /// Send this request.
    Send(ConnectRequest),
    /// Receive the head of the response.
    ReceiveHead,
    /// Receive the next chunk of data.
    ReceiveData,
    /// Print this text.
    Print(String),
    /// The client is done.
    Close,
    /// Give up with the error that was reported.
    Abort,
    /// Give up with this error.
    Fail(ProxyError),
    /// The event was not the answer to what had been asked; nothing changes.
    Ignore,
}

/// The contents of a [`ClientAction`].
pub enum ClientActionView {
    Bind(Seq<char>),
    Connect(ConnectionView),
    OpenSession,
    Send(ConnectView),
    ReceiveHead,
    ReceiveData,
    Print(Seq<char>),
    Close,
    Abort,
    Fail(ErrorView),
    Ignore,
}

impl View for ClientAction {
    type V = ClientActionView;

    open spec fn view(&self) -> ClientActionView {
        match *self {
            ClientAction::Bind(local) => ClientActionView::Bind(local@),
            ClientAction::Connect(connection) => ClientActionView::Connect(connection@),
            ClientAction::OpenSession => ClientActionView::OpenSession,
            ClientAction::Send(request) => ClientActionView::Send(request@),
            ClientAction::ReceiveHead => ClientActionView::ReceiveHead,
            ClientAction::ReceiveData => ClientActionView::ReceiveData,
            ClientAction::Print(text) => ClientActionView::Print(text@),
            ClientAction::Close => ClientActionView::Close,
            ClientAction::Abort => ClientActionView::Abort,
            ClientAction::Fail(error) => ClientActionView::Fail(error@),
            ClientAction::Ignore => ClientActionView::Ignore,
        }
    }
}

/// What came of an action.
pub enum ClientEvent {
    /// The socket was bound, or could not be.
    Bound(bool),
    /// The proxy was connected to, or could not be.
    Connected(bool),
    /// The session was opened, or could not be.
    SessionOpened(bool),
    /// The request was sent, or could not be.
    Sent(bool),
    /// The head of the response was received, or could not be.
    HeadReceived(bool),
    /// A chunk of data was received.
    Data(bytes::Bytes),
    /// The data broke off.
    DataBroken,
    /// There is no more data.
    DataEnded,
    /// The text was printed.
    Printed,
}

/// The contents of a [`ClientEvent`].
pub enum ClientEventView {
    Bound(bool),
    Connected(bool),
    SessionOpened(bool),
    Sent(bool),
    HeadReceived(bool),
    Data(Seq<u8>),
    DataBroken,
    DataEnded,
    Printed,
}

impl View for ClientEvent {
    type V = ClientEventView;

    open spec fn view(&self) -> ClientEventView {
        match *self {
            ClientEvent::Bound(ok) => ClientEventView::Bound(ok),
            ClientEvent::Connected(ok) => ClientEventView::Connected(ok),
            ClientEvent::SessionOpened(ok) => ClientEventView::SessionOpened(ok),
            ClientEvent::Sent(ok) => ClientEventView::Sent(ok),
            ClientEvent::HeadReceived(ok) => ClientEventView::HeadReceived(ok),
            ClientEvent::Data(chunk) => ClientEventView::Data(chunk_bytes(chunk)),
            ClientEvent::DataBroken => ClientEventView::DataBroken,
            ClientEvent::DataEnded => ClientEventView::DataEnded,
            ClientEvent::Printed => ClientEventView::Printed,
        }
    }
}

/// What a client is waiting for.
#[derive(Clone, Copy, Debug, PartialEq, Eq, Structural)]
pub enum ClientState {
    Binding,
    Connecting,
    OpeningSession,
    Sending,
    AwaitingHead,
    Receiving,
    Printing,
    Closed,
}

/// The local address that a socket is bound to for a proxy: any port of any address of
/// the proxy's kind.
pub open spec fn local_address(proxy: ProxyAddr) -> Seq<char> {
    if proxy.ipv4 {
        "0.0.0.0:0"@
    } else {
        "[::]:0"@
    }
}

/// The authority that is asked for: the host and the port of the target, port 443 where
/// it names none.
pub open spec fn asked_authority(target: UriView) -> Seq<char> {
    let host = match target.host {
        Some(host) => host,
        None => Seq::empty(),
    };
    let port = match target.port {
        Some(port) => port,
        None => 443,
    };
    address(host, decimal(port as nat))
}

/// The request for a tunnel to the target that a URL stands for.
pub open spec fn connect_request(url: Seq<char>, target: UriView) -> ConnectView {
    ConnectView {
        method: "CONNECT"@,
        uri: url,
        headers: with_field(
            grouped(Seq::empty()),
            "host"@,
            encode_utf8(asked_authority(target)),
        ),
    }
}

/// How to connect to the proxy.
pub open spec fn connection(config: ClientConfig) -> ConnectionView {
    ConnectionView {
        address: config.proxy_addr.text@,
        server_name: "localhost"@,
        roots: root_anchors(byte_strings(config.root_certs@)),
        alpn: seq![encode_utf8("h3"@), encode_utf8("h3-29"@)],
    }
}

/// A certificate of the list is refused, and this error says which is the first.
pub open spec fn refuses_root(certs: Seq<Seq<u8>>, e: ErrorView) -> bool {
    exists|i: int|
        #![trigger certs[i]]
        {
            &&& 0 <= i < certs.len()
            &&& trust_anchor(certs[i]) is Err
            &&& e == ErrorView::Root(i as usize, trust_anchor(certs[i])->Err_0)
            &&& all_roots(certs.take(i))
        }
}

/// What a client does with a text that it has received.
pub open spec fn print_step(s: ClientState, text: Seq<char>) -> (ClientState, ClientActionView) {
    if s == ClientState::Receiving {
        (ClientState::Printing, ClientActionView::Print(text))
    } else {
        (s, ClientActionView::Ignore)
    }
}

/// How a client goes on. Each chunk of data is read as a text by itself, and one that is
/// UTF-8 is read as it is.
pub open spec fn client_goes_on(
    config: ClientConfig,
    s: ClientState,
    e: ClientEventView,
    t: ClientState,
    a: ClientActionView,
) -> bool {
    match (s, e) {
        (ClientState::Binding, ClientEventView::Bound(true)) => {
            ||| {
                &&& all_roots(byte_strings(config.root_certs@))
                &&& t == ClientState::Connecting
                &&& a == ClientActionView::Connect(connection(config))
            }
            ||| {
                &&& t == ClientState::Closed
                &&& a matches ClientActionView::Fail(error)
                &&& refuses_root(byte_strings(config.root_certs@), error)
            }
        },
        (ClientState::Connecting, ClientEventView::Connected(true)) => {
            t == ClientState::OpeningSession && a is OpenSession
        },
        (ClientState::OpeningSession, ClientEventView::SessionOpened(true)) => {
            match uri_parts(config.target_url@) {
                Ok(target) => {
                    &&& t == ClientState::Sending
                    &&& a == ClientActionView::Send(connect_request(config.target_url@, target))
                },
                Err(words) => {
                    &&& t == ClientState::Closed
                    &&& a == ClientActionView::Fail(ErrorView::Uri(words))
                },
            }
        },
        (ClientState::Sending, ClientEventView::Sent(true)) => {
            t == ClientState::AwaitingHead && a is ReceiveHead
        },
        (ClientState::AwaitingHead, ClientEventView::HeadReceived(true)) => {
            t == ClientState::Receiving && a is ReceiveData
        },
        (ClientState::Receiving, ClientEventView::Data(data)) => {
            &&& (t, a) == print_step(s, lossy(data))
            &&& valid_utf8(data) ==> lossy(data) == decode_utf8(data)
        },
        (ClientState::Printing, ClientEventView::Printed) => {
            t == ClientState::Receiving && a is ReceiveData
        },
        (ClientState::Receiving, ClientEventView::DataEnded) => {
            t == ClientState::Closed && a is Close
        },
        (ClientState::Binding, ClientEventView::Bound(false))
        | (ClientState::Connecting, ClientEventView::Connected(false))
        | (ClientState::OpeningSession, ClientEventView::SessionOpened(false))
        | (ClientState::Sending, ClientEventView::Sent(false))
        | (ClientState::AwaitingHead, ClientEventView::HeadReceived(false))
        | (ClientState::Receiving, ClientEventView::DataBroken) => {
            t == ClientState::Closed && a is Abort
        },
        _ => t == s && a is Ignore,
    }
}

proof fn lemma_decimal_visible(n: nat)
    ensures
        is_visible(decimal(n)),
    decreases n,
{
    if n >= 10 {
        lemma_decimal_visible(n / 10);
    }
}

proof fn lemma_visible_value(s: Seq<char>)
    requires
        is_visible(s),
    ensures
        is_field_value(encode_utf8(s)),
        is_text_value(encode_utf8(s)),
        ascii_text(encode_utf8(s)) == s,
{
    assert(is_ascii_chars(s));
    is_ascii_chars_encode_utf8(s);
    assert forall|i: int| 0 <= i < encode_utf8(s).len() implies 33 <= (#[trigger] encode_utf8(
        s,
    )[i]) <= 126 by {
        assert(s[i] as u8 == encode_utf8(s)[i]);
    }
    assert(ascii_text(encode_utf8(s)) =~= s);
}

proof fn lemma_asked_visible(target: UriView)
    requires
        target.host matches Some(host) ==> is_visible(host),
    ensures
        is_visible(asked_authority(target)),
{
    let port = match target.port {
        Some(port) => port,
        None => 443,
    };
    lemma_decimal_visible(port as nat);
}

/// Makes the request for a tunnel to the target that a URL stands for.
pub fn make_request(url: &str, target: &UriParts) -> (r: Result<ConnectRequest, HeaderError>)
    ensures
        r matches Ok(request) ==> request@ == connect_request(url@, target@),
        r is Ok <==> is_field_value(encode_utf8(asked_authority(target@))),
        r matches Err(e) ==> e == HeaderError::Value,
{
    let host = match &target.host {
        Some(host) => host.clone(),
        None => String::new(),
    };
    let port: u16 = match target.port {
        Some(port) => port,
        None => 443,
    };
    let authority = make_address(host.as_str(), decimal_text(port as u64).as_str());
    let mut headers = new_headers();
    proof {
        reveal_strlit("host");
        assert(lower("host"@) =~= "host"@);
        assert(is_field_name("host"@));
        assert(header_lists(headers).dom() =~= Set::empty());
    }
    match push_field(&mut headers, "host", authority.as_str().as_bytes()) {
        Ok(_) => Ok(
            ConnectRequest { method: "CONNECT".to_owned(), uri: url.to_owned(), headers },
        ),
        Err(e) => Err(e),
    }
}

fn offered_protocols() -> (r: Vec<Vec<u8>>)
    ensures
        byte_strings(r@) == seq![encode_utf8("h3"@), encode_utf8("h3-29"@)],
{
    let mut r: Vec<Vec<u8>> = Vec::new();
    r.push(slice_to_vec("h3".as_bytes()));
    r.push(slice_to_vec("h3-29".as_bytes()));
    assert(byte_strings(r@) =~= seq![encode_utf8("h3"@), encode_utf8("h3-29"@)]);
    r
}

impl ProxyClient {
    /// What the client is set up with.
    pub closed spec fn config(self) -> ClientConfig {
        self.config
    }

    /// A client with this set-up.
    pub fn new(config: ClientConfig) -> (r: ProxyClient)
        ensures
            r.config() == config,
    {
        ProxyClient { config }
    }

    /// Begins a run of the client, by binding a socket.
    pub fn run(&self) -> (r: (ClientRun<'_>, ClientAction))
        ensures
            r.0.config() == self.config(),
            r.0.state() == ClientState::Binding,
            r.1@ == ClientActionView::Bind(local_address(self.config().proxy_addr)),
    {
        let local = if self.config.proxy_addr.ipv4 {
            "0.0.0.0:0".to_owned()
        } else {
            "[::]:0".to_owned()
        };
        (
            ClientRun { config: &self.config, state: ClientState::Binding },
            ClientAction::Bind(local),
        )
    }
}

/// A run of a client.
pub struct ClientRun<'a> {
    config: &'a ClientConfig,
    state: ClientState,
}

impl<'a> ClientRun<'a> {
    /// What the client is set up with.
    pub closed spec fn config(self) -> ClientConfig {
        *self.config
    }

    /// What the client is waiting for.
    pub closed spec fn state(self) -> ClientState {
        self.state
    }

    fn open_connection(&mut self) -> (r: ClientAction)
        ensures
            final(self).config() == old(self).config(),
            client_goes_on(
                old(self).config(),
                ClientState::Binding,
                ClientEventView::Bound(true),
                final(self).state(),
                r@,
            ),
    {
        match trust_roots(&self.config.root_certs) {
            Ok(roots) => {
                self.state = ClientState::Connecting;
                ClientAction::Connect(
                    Connection {
                        address: self.config.proxy_addr.text.clone(),
                        server_name: "localhost".to_owned(),
                        roots,
                        alpn: offered_protocols(),
                    },
                )
            },
            Err(e) => {
                proof {
                    let certs = self.config.root_certs@;
                    let i = choose|i: int|
                        #![trigger certs[i]]
                        {
                            &&& 0 <= i < certs.len()
                            &&& trust_anchor(certs[i]@) is Err
                            &&& e@ == ErrorView::Root(i as usize, trust_anchor(certs[i]@)->Err_0)
                            &&& all_roots(byte_strings(certs).take(i))
                        };
                    assert(byte_strings(certs)[i] == certs[i]@);
                }
                self.state = ClientState::Closed;
                ClientAction::Fail(e)
            },
        }
    }

    fn ask(&mut self) -> (r: ClientAction)
        ensures
            final(self).config() == old(self).config(),
            client_goes_on(
                old(self).config(),
                ClientState::OpeningSession,
                ClientEventView::SessionOpened(true),
                final(self).state(),
                r@,
            ),
    {
        match parse_uri(self.config.target_url.as_str()) {
            Ok(target) => {
                proof {
                    lemma_asked_visible(target@);
                    lemma_visible_value(asked_authority(target@));
                }
                match make_request(self.config.target_url.as_str(), &target) {
                    Ok(request) => {
                        self.state = ClientState::Sending;
                        ClientAction::Send(request)
                    },
                    Err(e) => {
                        self.state = ClientState::Closed;
                        ClientAction::Fail(ProxyError::Header(e))
                    },
                }
            },
            Err(words) => {
                self.state = ClientState::Closed;
                ClientAction::Fail(ProxyError::Uri(words))
            },
        }
    }

    /// Takes in a text that has been received, and asks for it to be printed. Out of turn
    /// it changes nothing.
    pub fn print(&mut self, text: String) -> (r: ClientAction)
        ensures
            final(self).config() == old(self).config(),
            (final(self).state(), r@) == print_step(old(self).state(), text@),
    {
        match self.state {
            ClientState::Receiving => {
                self.state = ClientState::Printing;
                ClientAction::Print(text)
            },
            _ => ClientAction::Ignore,
        }
    }

    /// Takes in what came of the last action and says what to do next.
    pub fn step(&mut self, event: ClientEvent) -> (r: ClientAction)
        ensures
            final(self).config() == old(self).config(),
            client_goes_on(
                old(self).config(),
                old(self).state(),
                event@,
                final(self).state(),
                r@,
            ),
    {
        match (self.state, event) {
            (ClientState::Binding, ClientEvent::Bound(true)) => self.open_connection(),
            (ClientState::Connecting, ClientEvent::Connected(true)) => {
                self.state = ClientState::OpeningSession;
                ClientAction::OpenSession
            },
            (ClientState::OpeningSession, ClientEvent::SessionOpened(true)) => self.ask(),
            (ClientState::Sending, ClientEvent::Sent(true)) => {
                self.state = ClientState::AwaitingHead;
                ClientAction::ReceiveHead
            },
            (ClientState::AwaitingHead, ClientEvent::HeadReceived(true)) => {
                self.state = ClientState::Receiving;
                ClientAction::ReceiveData
            },
            (ClientState::Receiving, ClientEvent::Data(chunk)) => self.print(chunk_text(&chunk)),
            (ClientState::Printing, ClientEvent::Printed) => {
                self.state = ClientState::Receiving;
                ClientAction::ReceiveData
            },
            (ClientState::Receiving, ClientEvent::DataEnded) => {
                self.state = ClientState::Closed;
                ClientAction::Close
            },
            (ClientState::Binding, ClientEvent::Bound(false))
            | (ClientState::Connecting, ClientEvent::Connected(false))
            | (ClientState::OpeningSession, ClientEvent::SessionOpened(false))
            | (ClientState::Sending, ClientEvent::Sent(false))
            | (ClientState::AwaitingHead, ClientEvent::HeadReceived(false))
            | (ClientState::Receiving, ClientEvent::DataBroken) => {
                self.state = ClientState::Closed;
                ClientAction::Abort
            },
            _ => ClientAction::Ignore,
        }
    }
}

/// The record of a run: its states, what was reported in each of them, and what it asked
/// for. The first action comes with the first state, and each event leads to the next
/// state and the next action.
pub struct ClientRecord {
    pub states: Seq<ClientState>,
    pub events: Seq<ClientEventView>,
    pub actions: Seq<ClientActionView>,
}

impl ClientRecord {
    /// The record is one of a client with this set-up.
    pub open spec fn is_of(self, config: ClientConfig) -> bool {
        &&& self.states.len() == self.events.len() + 1
        &&& self.actions.len() == self.events.len() + 1
        &&& self.states[0] == ClientState::Binding
        &&& self.actions[0] == ClientActionView::Bind(local_address(config.proxy_addr))
        &&& forall|i: int| 0 <= i < self.events.len() ==> #[trigger] self.leads_on(config, i)
    }

    /// The event at `i` leads from the state at `i` to the next.
    pub open spec fn leads_on(self, config: ClientConfig, i: int) -> bool {
        client_goes_on(
            config,
            self.states[i],
            self.events[i],
            self.states[i + 1],
            self.actions[i + 1],
        )
    }

    /// Each event was the answer to the action before it.
    pub open spec fn all_answered(self) -> bool {
        forall|i: int| 0 <= i < self.actions.len() ==> !((#[trigger] self.actions[i]) is Ignore)
    }
}

/// The chunks that were received, one by one.
pub open spec fn received_chunks(events: Seq<ClientEventView>) -> Seq<Seq<u8>>
    decreases events.len(),
{
    if events.len() == 0 {
        Seq::empty()
    } else {
        match events.last() {
            ClientEventView::Data(data) => received_chunks(events.drop_last()).push(data),
            _ => received_chunks(events.drop_last()),
        }
    }
}

/// The texts that were to be printed, one by one.
pub open spec fn printed_texts(actions: Seq<ClientActionView>) -> Seq<Seq<char>>
    decreases actions.len(),
{
    if actions.len() == 0 {
        Seq::empty()
    } else {
        match actions.last() {
            ClientActionView::Print(text) => printed_texts(actions.drop_last()).push(text),
            _ => printed_texts(actions.drop_last()),
        }
    }
}

/// Each text is what its chunk is read as, and a chunk that is UTF-8 is read as it is.
pub open spec fn are_texts_of(texts: Seq<Seq<char>>, chunks: Seq<Seq<u8>>) -> bool {
    &&& texts == chunks.map_values(|chunk: Seq<u8>| lossy(chunk))
    &&& forall|i: int|
        0 <= i < chunks.len() && valid_utf8(#[trigger] chunks[i]) ==> encode_utf8(texts[i])
            == chunks[i]
}

proof fn lemma_printed(config: ClientConfig, rec: ClientRecord, n: int)
    requires
        rec.is_of(config),
        rec.all_answered(),
        0 <= n <= rec.events.len(),
    ensures
        are_texts_of(
            printed_texts(rec.actions.take(n + 1)),
            received_chunks(rec.events.take(n)),
        ),
    decreases n,
{
    let texts = printed_texts(rec.actions.take(n + 1));
    let chunks = received_chunks(rec.events.take(n));
    if n == 0 {
        assert(rec.events.take(0) =~= Seq::empty());
        assert(rec.actions.take(1).drop_last() =~= Seq::empty());
        assert(printed_texts(rec.actions.take(1).drop_last()) =~= Seq::empty());
        assert(rec.actions.take(1).last() == rec.actions[0]);
        assert(texts =~= chunks.map_values(|chunk: Seq<u8>| lossy(chunk)));
    } else {
        lemma_printed(config, rec, n - 1);
        assert(rec.leads_on(config, n - 1));
        assert(rec.actions[n] !is Ignore);
        assert(rec.actions.take(n + 1).drop_last() =~= rec.actions.take(n));
        assert(rec.events.take(n).drop_last() =~= rec.events.take(n - 1));
        let before = received_chunks(rec.events.take(n - 1));
        let shown = printed_texts(rec.actions.take(n));
        assert(texts =~= chunks.map_values(|chunk: Seq<u8>| lossy(chunk)));
        assert forall|i: int|
            0 <= i < chunks.len() && valid_utf8(#[trigger] chunks[i]) implies encode_utf8(texts[i])
            == chunks[i] by {
            if i < before.len() {
                assert(chunks[i] == before[i]);
                assert(texts[i] == shown[i]);
            } else {
                decode_utf8_encode_utf8(chunks[i]);
            }
        }
    }
}

/// A client prints exactly what it receives: each chunk by itself, in order, as the text
/// that it is read as, and one that is UTF-8 byte for byte.
pub proof fn law_client_prints_what_it_receives(config: ClientConfig, rec: ClientRecord)
    requires
        rec.is_of(config),
        rec.all_answered(),
    ensures
        are_texts_of(printed_texts(rec.actions), received_chunks(rec.events)),
{
    let n = rec.events.len() as int;
    lemma_printed(config, rec, n);
    assert(rec.actions.take(n + 1) =~= rec.actions);
    assert(rec.events.take(n) =~= rec.events);
}

/// A client only ever connects to its proxy, trusting exactly the certificates of its
/// set-up, and only ever asks for a tunnel to its target.
pub proof fn law_client_asks_for_its_target(config: ClientConfig, rec: ClientRecord, i: int)
    requires
        rec.is_of(config),
        0 <= i < rec.actions.len(),
    ensures
        rec.actions[i] matches ClientActionView::Connect(c) ==> c == connection(config)
            && all_roots(byte_strings(config.root_certs@)),
        rec.actions[i] matches ClientActionView::Send(request) ==> {
            &&& uri_parts(config.target_url@) is Ok
            &&& request == connect_request(
                config.target_url@,
                uri_parts(config.target_url@)->Ok_0,
            )
        },
{
    if i > 0 {
        assert(rec.leads_on(config, i - 1));
    }
}

/// A client whose certificates and whose target are in order, and for which nothing
/// fails on the way, comes to its end without an error.
pub proof fn law_client_completes(config: ClientConfig, rec: ClientRecord)
    requires
        rec.is_of(config),
        all_roots(byte_strings(config.root_certs@)),
        uri_parts(config.target_url@) is Ok,
        rec.events == seq![
            ClientEventView::Bound(true),
            ClientEventView::Connected(true),
            ClientEventView::SessionOpened(true),
            ClientEventView::Sent(true),
            ClientEventView::HeadReceived(true),
            ClientEventView::DataEnded,
        ],
    ensures
        rec.actions[1] == ClientActionView::Connect(connection(config)),
        rec.actions[2] is OpenSession,
        rec.actions[3] == ClientActionView::Send(
            connect_request(config.target_url@, uri_parts(config.target_url@)->Ok_0),
        ),
        rec.actions[6] is Close,
{
    assert(rec.leads_on(config, 0));
    assert(rec.leads_on(config, 1));
    assert(rec.leads_on(config, 2));
    assert(rec.leads_on(config, 3));
    assert(rec.leads_on(config, 4));
    assert(rec.leads_on(config, 5));
}

/// A client that has come to its end asks for nothing more.
pub proof fn law_client_end_is_final(
    config: ClientConfig,
    e: ClientEventView,
    t: ClientState,
    a: ClientActionView,
)
    requires
        client_goes_on(config, ClientState::Closed, e, t, a),
    ensures
        t == ClientState::Closed,
        a is Ignore,
{
}

/// A client reaches its target: the request that it makes of a URL comes, at a proxy,
/// to a tunnel to the host and the port of that URL. This holds of every URL unless the
/// proxy offers tunnels to UDP addresses and the path asks for one.
pub proof fn law_client_reaches_target(url: Seq<char>, target: UriView, r: RequestView, udp: bool)
    requires
        target.host matches Some(host) ==> is_visible(host),
        r.method == connect_request(url, target).method,
        r.headers == connect_request(url, target).headers,
        r.protocol is None,
        !(udp && occurs_in(r.uri.path, "/.well-known/masque/udp/"@)),
    ensures
        opening(r, udp) == OpeningView::Tcp(asked_authority(target)),
{
    reveal_strlit("host");
    reveal_strlit("protocol");
    let asked = asked_authority(target);
    lemma_asked_visible(target);
    lemma_visible_value(asked);
    assert("host"@.len() != "protocol"@.len());
    assert(first_value(r.headers, "protocol"@) is None);
    assert(!names_udp(r));
    assert(first_text(r.headers, "host"@) == Some(asked));
    let host = match target.host {
        Some(host) => host,
        None => Seq::empty(),
    };
    assert(asked[host.len() as int] == ':');
    assert(asked.contains(':'));
    law_tcp_target(asked);
}

/// The port that a client asks for, as a text: the decimal digits of the port of its target,
/// or 443 where the target names none.
pub open spec fn is_port(target: UriView, digits: Seq<char>) -> bool {
    match target.port {
        Some(port) => is_decimal(digits, port as nat),
        None => digits == "443"@,
    }
}

proof fn lemma_port(target: UriView, digits: Seq<char>)
    requires
        is_port(target, digits),
    ensures
        target.port matches Some(port) ==> digits == decimal(port as nat),
        target.port is None ==> digits == decimal(443),
{
    match target.port {
        Some(port) => law_decimal(port as nat, digits),
        None => {
            reveal_strlit("443");
            assert(value_of("443"@) == 443) by {
                let four = "443"@.drop_last();
                assert(four.drop_last().drop_last() =~= Seq::empty());
                assert(value_of(four.drop_last().drop_last()) == 0);
                assert(value_of(four.drop_last()) == 4);
                assert(value_of(four) == 44);
            }
            law_decimal(443, digits);
        },
    }
}

/// The request for a tunnel to a target names that target and nothing else: it is a CONNECT
/// request for the URL as it stands, and its one field is `host`, with one value, which is
/// the host of the target, a colon and its port, 443 where it names none.
pub proof fn law_request_names_its_target(
    url: Seq<char>,
    target: UriView,
    host: Seq<char>,
    digits: Seq<char>,
)
    requires
        target.host == Some(host) || (target.host is None && host.len() == 0),
        is_port(target, digits),
    ensures
        connect_request(url, target).method == "CONNECT"@,
        connect_request(url, target).uri == url,
        connect_request(url, target).headers == Map::<Seq<char>, Seq<Seq<u8>>>::empty().insert(
            "host"@,
            seq![encode_utf8(host + seq![':'] + digits)],
        ),
{
    lemma_port(target, digits);
    let asked = asked_authority(target);
    if target.host is None {
        assert(host =~= Seq::empty());
    }
    assert(asked =~= host + seq![':'] + digits);
    assert(connect_request(url, target).headers =~= Map::<Seq<char>, Seq<Seq<u8>>>::empty().insert(
        "host"@,
        seq![encode_utf8(asked)],
    ));
}

/// A client reaches the host and the port of its target: a proxy that gets the request opens
/// a tunnel to that host, a colon and that port, or to port 443 of that host where the target
/// names no port. This holds unless the proxy offers tunnels to UDP addresses and the path
/// asks for one.
pub proof fn law_client_reaches_host_and_port(
    url: Seq<char>,
    target: UriView,
    host: Seq<char>,
    digits: Seq<char>,
    r: RequestView,
    udp: bool,
)
    requires
        target.host == Some(host) || (target.host is None && host.len() == 0),
        is_visible(host),
        is_port(target, digits),
        r.method == connect_request(url, target).method,
        r.headers == connect_request(url, target).headers,
        r.protocol is None,
        !(udp && occurs_in(r.uri.path, "/.well-known/masque/udp/"@)),
    ensures
        opening(r, udp) == OpeningView::Tcp(host + seq![':'] + digits),
{
    lemma_port(target, digits);
    law_client_reaches_target(url, target, r, udp);
    if target.host is None {
        assert(host =~= Seq::empty());
    }
    assert(asked_authority(target) =~= host + seq![':'] + digits);
}

/// The way of a client to its proxy: it binds a socket of the proxy's kind, and connects to
/// the proxy's address, to a server that bears the name `localhost`, trusting exactly the
/// certificates of its set-up and offering `h3` and then `h3-29`. A certificate that is none
/// is told with its place in the list and with the words of the refusal, and it is the first
/// such.
pub proof fn law_way_to_the_proxy(config: ClientConfig, rec: ClientRecord, i: int)
    requires
        rec.is_of(config),
    ensures
        config.proxy_addr.ipv4 ==> rec.actions[0] == ClientActionView::Bind("0.0.0.0:0"@),
        !config.proxy_addr.ipv4 ==> rec.actions[0] == ClientActionView::Bind("[::]:0"@),
        rec.events.len() > 0 && rec.events[0] == ClientEventView::Bound(true) && (forall|j: int|
            0 <= j < config.root_certs@.len() ==> trust_anchor(
                (#[trigger] config.root_certs@[j])@,
            ) is Ok) ==> (rec.actions[1] matches ClientActionView::Connect(c) && {
            &&& c.address == config.proxy_addr.text@
            &&& c.server_name == "localhost"@
            &&& c.alpn == seq![encode_utf8("h3"@), encode_utf8("h3-29"@)]
            &&& c.roots.len() == config.root_certs@.len()
            &&& 0 <= i < config.root_certs@.len() ==> c.roots[i] == trust_anchor(
                config.root_certs@[i]@,
            )->Ok_0
        }),
        rec.events.len() > 0 && rec.events[0] == ClientEventView::Bound(true) && 0 <= i
            < config.root_certs@.len() && trust_anchor(config.root_certs@[i]@) is Err && (
        forall|j: int|
            0 <= j < i ==> trust_anchor((#[trigger] config.root_certs@[j])@) is Ok)
            ==> rec.actions[1] == ClientActionView::Fail(
            ErrorView::Root(i as usize, trust_anchor(config.root_certs@[i]@)->Err_0),
        ),
{
    let certs = byte_strings(config.root_certs@);
    if rec.events.len() > 0 && rec.events[0] == ClientEventView::Bound(true) {
        assert(rec.leads_on(config, 0));
        if forall|j: int|
            0 <= j < config.root_certs@.len() ==> trust_anchor(
                (#[trigger] config.root_certs@[j])@,
            ) is Ok {
            assert forall|j: int| 0 <= j < certs.len() implies trust_anchor(
                #[trigger] certs[j],
            ) is Ok by {
                assert(trust_anchor(config.root_certs@[j]@) is Ok);
            }
        }
        if 0 <= i < certs.len() && trust_anchor(config.root_certs@[i]@) is Err && (forall|j: int|
            0 <= j < i ==> trust_anchor((#[trigger] config.root_certs@[j])@) is Ok) {
            assert(trust_anchor(certs[i]) is Err);
            assert(!all_roots(certs));
            let e = rec.actions[1]->Fail_0;
            let k = choose|k: int|
                #![trigger certs[k]]
                {
                    &&& 0 <= k < certs.len()
                    &&& trust_anchor(certs[k]) is Err
                    &&& e == ErrorView::Root(k as usize, trust_anchor(certs[k])->Err_0)
                    &&& all_roots(certs.take(k))
                };
            if k < i {
                assert(trust_anchor(config.root_certs@[k]@) is Ok);
            } else if i < k {
                assert(certs.take(k)[i] == certs[i]);
            }
        }
    }
}

/// The event says that the action went well.
pub open spec fn client_went_well(a: ClientActionView, e: ClientEventView) -> bool {
    match a {
        ClientActionView::Bind(_) => e == ClientEventView::Bound(true),
        ClientActionView::Connect(_) => e == ClientEventView::Connected(true),
        ClientActionView::OpenSession => e == ClientEventView::SessionOpened(true),
        ClientActionView::Send(_) => e == ClientEventView::Sent(true),
        ClientActionView::ReceiveHead => e == ClientEventView::HeadReceived(true),
        ClientActionView::ReceiveData => e is Data || e is DataEnded,
        ClientActionView::Print(_) => e is Printed,
        _ => true,
    }
}

/// What a client is waiting for, by what it asked for.
proof fn lemma_client_asked(config: ClientConfig, rec: ClientRecord, k: int)
    requires
        rec.is_of(config),
        0 <= k < rec.states.len(),
    ensures
        match rec.actions[k] {
            ClientActionView::Bind(_) => rec.states[k] == ClientState::Binding,
            ClientActionView::Connect(_) => rec.states[k] == ClientState::Connecting,
            ClientActionView::OpenSession => rec.states[k] == ClientState::OpeningSession,
            ClientActionView::Send(_) => rec.states[k] == ClientState::Sending,
            ClientActionView::ReceiveHead => rec.states[k] == ClientState::AwaitingHead,
            ClientActionView::ReceiveData => rec.states[k] == ClientState::Receiving,
            ClientActionView::Print(_) => rec.states[k] == ClientState::Printing,
            ClientActionView::Ignore => true,
            _ => rec.states[k] == ClientState::Closed,
        },
{
    if k > 0 {
        assert(rec.leads_on(config, k - 1));
    }
}

/// While all goes well a client goes on to the end of the data: from the connection to the
/// session, the request, the head and the data, where each chunk is printed and the next one
/// received, however many there are. It closes when the data has ended and not before.
pub proof fn law_client_goes_on_to_the_end(config: ClientConfig, rec: ClientRecord, k: int)
    requires
        rec.is_of(config),
        0 <= k < rec.events.len(),
        client_went_well(rec.actions[k], rec.events[k]),
    ensures
        rec.actions[k] is Connect ==> rec.actions[k + 1] is OpenSession,
        rec.actions[k] is OpenSession && uri_parts(config.target_url@) is Ok ==> rec.actions[k + 1]
            is Send,
        rec.actions[k] is OpenSession && uri_parts(config.target_url@) is Err ==> rec.actions[k + 1]
            == ClientActionView::Fail(ErrorView::Uri(uri_parts(config.target_url@)->Err_0)),
        rec.actions[k] is Send ==> rec.actions[k + 1] is ReceiveHead,
        rec.actions[k] is ReceiveHead ==> rec.actions[k + 1] is ReceiveData,
        rec.actions[k] is ReceiveData ==> match rec.events[k] {
            ClientEventView::Data(data) => rec.actions[k + 1] == ClientActionView::Print(
                lossy(data),
            ),
            _ => rec.actions[k + 1] is Close,
        },
        rec.actions[k] is Print ==> rec.actions[k + 1] is ReceiveData,
        rec.actions[k + 1] is Close ==> rec.events[k] is DataEnded,
        rec.actions[k + 1] !is Abort || rec.actions[k] is Ignore,
{
    lemma_client_asked(config, rec, k);
    assert(rec.leads_on(config, k));
}

/// What fails ends a run with that failure.
pub proof fn law_failure_ends_the_run(config: ClientConfig, rec: ClientRecord, k: int)
    requires
        rec.is_of(config),
        0 <= k < rec.events.len(),
    ensures
        rec.actions[k] is Bind && rec.events[k] == ClientEventView::Bound(false) ==> rec.actions[k
            + 1] is Abort,
        rec.actions[k] is Connect && rec.events[k] == ClientEventView::Connected(false)
            ==> rec.actions[k + 1] is Abort,
        rec.actions[k] is OpenSession && rec.events[k] == ClientEventView::SessionOpened(false)
            ==> rec.actions[k + 1] is Abort,
        rec.actions[k] is Send && rec.events[k] == ClientEventView::Sent(false) ==> rec.actions[k
            + 1] is Abort,
        rec.actions[k] is ReceiveHead && rec.events[k] == ClientEventView::HeadReceived(false)
            ==> rec.actions[k + 1] is Abort,
        rec.actions[k] is ReceiveData && rec.events[k] is DataBroken ==> rec.actions[k + 1]
            is Abort,
{
    lemma_client_asked(config, rec, k);
    assert(rec.leads_on(config, k));
}

/// The event is an answer to the action, for good or ill.
pub open spec fn is_client_answer(a: ClientActionView, e: ClientEventView) -> bool {
    match a {
        ClientActionView::Bind(_) => e is Bound,
        ClientActionView::Connect(_) => e is Connected,
        ClientActionView::OpenSession => e is SessionOpened,
        ClientActionView::Send(_) => e is Sent,
        ClientActionView::ReceiveHead => e is HeadReceived,
        ClientActionView::ReceiveData => e is Data || e is DataBroken || e is DataEnded,
        ClientActionView::Print(_) => e is Printed,
        _ => false,
    }
}

/// An event that is no answer to what was asked changes nothing, and one that is an answer
/// is taken up.
pub proof fn law_client_heeds_answers_only(config: ClientConfig, rec: ClientRecord, k: int)
    requires
        rec.is_of(config),
        0 <= k < rec.events.len(),
    ensures
        rec.actions[k + 1] is Ignore ==> rec.states[k + 1] == rec.states[k],
        rec.actions[k] !is Ignore ==> (rec.actions[k + 1] is Ignore <==> !is_client_answer(
            rec.actions[k],
            rec.events[k],
        )),
{
    lemma_client_asked(config, rec, k);
    assert(rec.leads_on(config, k));
}

} // verus!
