//! A request as it comes from the client, and where it is to go.

use vstd::prelude::*;
use vstd::string::*;
use vstd::utf8::*;

use crate::headers::{
    ascii_text, field_is, field_text, first_text, first_value, header_lists, is_field_name,
    is_text_byte,
};
use crate::text::{
    after, append_text, before, cut, has_text, law_cut_restores, law_pieces_count,
    lemma_pieces_concat,
    lemma_pieces_single, lower, occurs_at, occurs_in, pieces, same_text, split_text, texts,
};
use crate::uri::{maybe_text, UriParts, UriView};

verus! {

/// The head of a request.
pub struct ProxyRequest {
    /// The method, such as `GET` or `CONNECT`.
    pub method: String,
    /// The request URI.
    pub uri: UriParts,
    /// The protocol named by an extended CONNECT request.
    pub protocol: Option<String>,
    /// The header fields.
    pub headers: http::HeaderMap<http::HeaderValue>,
}

/// The contents of a [`ProxyRequest`].
pub struct RequestView {
    pub method: Seq<char>,
    pub uri: UriView,
    pub protocol: Option<Seq<char>>,
    pub headers: Map<Seq<char>, Seq<Seq<u8>>>,
}

impl View for ProxyRequest {
    type V = RequestView;

    open spec fn view(&self) -> RequestView {
        RequestView {
            method: self.method@,
            uri: self.uri@,
            protocol: maybe_text(self.protocol),
            headers: header_lists(self.headers),
        }
    }
}

/// The server that a plain request goes to.
pub enum Upstream {
    /// The one that the request URI names.
    Original,
    /// The one that the `host` field names, in a URI of this text.
    Rebuilt(String),
}

/// The contents of an [`Upstream`].
pub enum UpstreamView {
    Original,
    Rebuilt(Seq<char>),
}

impl View for Upstream {
    type V = UpstreamView;

    open spec fn view(&self) -> UpstreamView {
        match *self {
            Upstream::Original => UpstreamView::Original,
            Upstream::Rebuilt(text) => UpstreamView::Rebuilt(text@),
        }
    }
}

/// What a request comes to.
pub enum Opening {
    /// A tunnel to this TCP address.
    Tcp(String),
    /// A tunnel to this UDP address.
    Udp(String),
    /// Nothing: it is not well formed.
    Refuse,
    /// A plain request to this server.
    Forward(Upstream),
}

/// The contents of an [`Opening`].
pub enum OpeningView {
    Tcp(Seq<char>),
    Udp(Seq<char>),
    Refuse,
    Forward(UpstreamView),
}

impl View for Opening {
    type V = OpeningView;

    open spec fn view(&self) -> OpeningView {
        match *self {
            Opening::Tcp(target) => OpeningView::Tcp(target@),
            Opening::Udp(target) => OpeningView::Udp(target@),
            Opening::Refuse => OpeningView::Refuse,
            Opening::Forward(upstream) => OpeningView::Forward(upstream@),
        }
    }
}

/// A host and a port with a colon between them.
pub open spec fn address(host: Seq<char>, port: Seq<char>) -> Seq<char> {
    host.push(':') + port
}

/// The client asks for the protocol `connect-udp`, by an extended CONNECT request
/// or by a `protocol` field.
pub open spec fn names_udp(r: RequestView) -> bool {
    ||| r.protocol == Some("connect-udp"@)
    ||| first_value(r.headers, "protocol"@) == Some(encode_utf8("connect-udp"@))
}

/// A CONNECT request is for UDP when it says so, or by its path.
pub open spec fn wants_udp(r: RequestView) -> bool {
    names_udp(r) || occurs_in(r.uri.path, "/.well-known/masque/udp/"@)
}

/// The authority that a CONNECT request names: its `host` field if that is a text,
/// else the authority of its URI, else nothing.
pub open spec fn named_authority(r: RequestView) -> Seq<char> {
    match first_text(r.headers, "host"@) {
        Some(text) => text,
        None => match r.uri.authority {
            Some(authority) => authority,
            None => Seq::empty(),
        },
    }
}

/// The TCP address that an authority stands for; without a port it is port 443.
pub open spec fn tcp_target(authority: Seq<char>) -> Seq<char> {
    match after(authority, ':') {
        Some(port) => address(before(authority, ':'), port),
        None => address(before(authority, ':'), "443"@),
    }
}

/// The UDP address that a path stands for: its fifth and sixth pieces, as in
/// `/.well-known/masque/udp/192.168.1.1/53/`.
pub open spec fn udp_target(path: Seq<char>) -> Option<Seq<char>> {
    if pieces(path, '/').len() < 6 {
        None
    } else {
        Some(address(pieces(path, '/')[4], pieces(path, '/')[5]))
    }
}

/// The server that a plain request goes to.
pub open spec fn upstream_of(r: RequestView) -> UpstreamView {
    if r.uri.scheme is Some && r.uri.host is Some {
        UpstreamView::Original
    } else {
        let host = match first_text(r.headers, "host"@) {
            Some(text) => text,
            None => Seq::empty(),
        };
        let path = match r.uri.path_and_query {
            Some(text) => text,
            None => "/"@,
        };
        UpstreamView::Rebuilt("http://"@ + host + path)
    }
}

/// What a request comes to. `udp` says whether tunnels to UDP addresses are offered.
pub open spec fn opening(r: RequestView, udp: bool) -> OpeningView {
    if r.method == "CONNECT"@ {
        if udp && wants_udp(r) {
            match udp_target(r.uri.path) {
                Some(target) => OpeningView::Udp(target),
                None => OpeningView::Refuse,
            }
        } else if named_authority(r).len() == 0 {
            OpeningView::Refuse
        } else {
            OpeningView::Tcp(tcp_target(named_authority(r)))
        }
    } else {
        OpeningView::Forward(upstream_of(r))
    }
}

proof fn lemma_names()
    ensures
        is_field_name("host"@),
        is_field_name("protocol"@),
        lower("host"@) == "host"@,
        lower("protocol"@) == "protocol"@,
{
    reveal_strlit("host");
    reveal_strlit("protocol");
}

pub(crate) fn make_address(host: &str, port: &str) -> (r: String)
    ensures
        r@ == address(host@, port@),
{
    let start = append_text(host, ":");
    proof {
        reveal_strlit(":");
        assert(start@ =~= host@.push(':'));
    }
    append_text(start.as_str(), port)
}

/// The TCP address that an authority stands for.
pub fn resolve_authority(authority: &str) -> (r: String)
    ensures
        r@ == tcp_target(authority@),
{
    let (host, port) = cut(authority, ':');
    match port {
        Some(port) => make_address(host.as_str(), port.as_str()),
        None => make_address(host.as_str(), "443"),
    }
}

/// The UDP address that a path stands for, where it has enough pieces.
pub fn resolve_udp_path(path: &str) -> (r: Option<String>)
    ensures
        r is Some <==> udp_target(path@) is Some,
        r matches Some(target) ==> udp_target(path@) == Some(target@),
{
    let parts = split_text(path, '/');
    assert(texts(parts@).len() == parts@.len());
    if parts.len() < 6 {
        None
    } else {
        assert(texts(parts@)[4] == parts@[4]@);
        assert(texts(parts@)[5] == parts@[5]@);
        Some(make_address(parts[4].as_str(), parts[5].as_str()))
    }
}

impl ProxyRequest {
    /// Whether a CONNECT request is for UDP.
    pub fn is_udp(&self) -> (r: bool)
        ensures
            r == wants_udp(self@),
    {
        proof {
            lemma_names();
        }
        let by_protocol = match &self.protocol {
            Some(protocol) => same_text(protocol.as_str(), "connect-udp"),
            None => false,
        };
        by_protocol || field_is(&self.headers, "protocol", "connect-udp") || has_text(
            self.uri.path.as_str(),
            "/.well-known/masque/udp/",
        )
    }

    /// The authority that a CONNECT request names.
    pub fn authority(&self) -> (r: String)
        ensures
            r@ == named_authority(self@),
    {
        proof {
            lemma_names();
        }
        match field_text(&self.headers, "host") {
            Some(text) => text,
            None => match &self.uri.authority {
                Some(authority) => authority.clone(),
                None => String::new(),
            },
        }
    }

    /// The server that a plain request goes to.
    pub fn upstream(&self) -> (r: Upstream)
        ensures
            r@ == upstream_of(self@),
    {
        proof {
            lemma_names();
        }
        if self.uri.scheme.is_some() && self.uri.host.is_some() {
            return Upstream::Original;
        }
        let host = match field_text(&self.headers, "host") {
            Some(text) => text,
            None => String::new(),
        };
        let path = match &self.uri.path_and_query {
            Some(text) => text.clone(),
            None => "/".to_owned(),
        };
        let start = append_text("http://", host.as_str());
        Upstream::Rebuilt(append_text(start.as_str(), path.as_str()))
    }

    /// What the request comes to.
    pub fn open(&self, udp: bool) -> (r: Opening)
        ensures
            r@ == opening(self@, udp),
    {
        if same_text(self.method.as_str(), "CONNECT") {
            if udp && self.is_udp() {
                return match resolve_udp_path(self.uri.path.as_str()) {
                    Some(target) => Opening::Udp(target),
                    None => Opening::Refuse,
                };
            }
            let authority = self.authority();
            if authority.as_str().is_empty() {
                Opening::Refuse
            } else {
                Opening::Tcp(resolve_authority(authority.as_str()))
            }
        } else {
            Opening::Forward(self.upstream())
        }
    }
}

/// An authority that names a port is the TCP address itself; to one that names none
/// port 443 is added.
pub proof fn law_tcp_target(authority: Seq<char>)
    ensures
        authority.contains(':') ==> tcp_target(authority) == authority,
        !authority.contains(':') ==> tcp_target(authority) == authority + ":443"@,
{
    reveal_strlit("443");
    reveal_strlit(":443");
    law_cut_restores(authority, ':');
    if !authority.contains(':') {
        assert(tcp_target(authority) =~= authority + ":443"@);
    }
}

/// A path `/.well-known/masque/udp/host/port`, or one that goes on with a slash
/// behind it, stands for the UDP address `host:port`, and a CONNECT request with
/// such a path comes to a tunnel there, whatever its header fields say.
pub proof fn law_udp_path(r: RequestView, host: Seq<char>, port: Seq<char>, rest: Seq<char>)
    requires
        !host.contains('/'),
        !port.contains('/'),
        rest.len() == 0 || rest[0] == '/',
        r.method == "CONNECT"@,
        r.uri.path == "/.well-known/masque/udp/"@ + host + seq!['/'] + port + rest,
    ensures
        opening(r, true) == OpeningView::Udp(address(host, port)),
{
    reveal_strlit("/.well-known/masque/udp/");
    let prefix = "/.well-known/masque/udp/"@;
    let path = r.uri.path;
    assert(path.subrange(0, prefix.len() as int) =~= prefix);
    assert(occurs_at(path, prefix, 0));
    let known = seq!['.', 'w', 'e', 'l', 'l', '-', 'k', 'n', 'o', 'w', 'n'];
    let masque = seq!['m', 'a', 's', 'q', 'u', 'e'];
    let udp = seq!['u', 'd', 'p'];
    let none = Seq::<char>::empty();
    // The pieces of what follows the host.
    let tail = if rest.len() == 0 {
        port
    } else {
        port.push('/') + rest.skip(1)
    };
    assert(tail =~= port + rest);
    lemma_pieces_single(port, '/');
    if rest.len() > 0 {
        lemma_pieces_concat(port, '/', rest.skip(1));
    }
    assert(pieces(tail, '/')[0] == port);
    // The pieces of the whole, from the right.
    let from_host = host.push('/') + tail;
    lemma_pieces_single(host, '/');
    lemma_pieces_concat(host, '/', tail);
    let from_udp = udp.push('/') + from_host;
    lemma_pieces_single(udp, '/');
    lemma_pieces_concat(udp, '/', from_host);
    let from_masque = masque.push('/') + from_udp;
    lemma_pieces_single(masque, '/');
    lemma_pieces_concat(masque, '/', from_udp);
    let from_known = known.push('/') + from_masque;
    lemma_pieces_single(known, '/');
    lemma_pieces_concat(known, '/', from_masque);
    lemma_pieces_single(none, '/');
    lemma_pieces_concat(none, '/', from_known);
    assert(path =~= none.push('/') + from_known);
    assert(pieces(path, '/')[4] == host);
    assert(pieces(path, '/')[5] == port);
}

/// The first `host` field of a request is this text.
pub open spec fn host_is(r: RequestView, text: Seq<char>) -> bool {
    &&& r.headers.contains_key("host"@)
    &&& r.headers["host"@][0].len() == text.len()
    &&& forall|i: int|
        0 <= i < text.len() ==> (#[trigger] text[i] == '\t' || (' ' <= text[i] && text[i] <= '~'))
            && r.headers["host"@][0][i] as char == text[i]
}

/// A request has no `host` field, or the first one is no text: it holds a byte that is no
/// visible ASCII character, no space and no tab.
pub open spec fn no_host(r: RequestView) -> bool {
    r.headers.contains_key("host"@) ==> exists|i: int|
        #![trigger r.headers["host"@][0][i]]
        {
            &&& 0 <= i < r.headers["host"@][0].len()
            &&& r.headers["host"@][0][i] != 9
            &&& (r.headers["host"@][0][i] < 32 || r.headers["host"@][0][i] > 126)
        }
}

/// The authority that a request names: its `host` field comes first, then its URI.
pub open spec fn names(r: RequestView, authority: Seq<char>) -> bool {
    ||| host_is(r, authority)
    ||| no_host(r) && r.uri.authority == Some(authority)
}

/// A request names no authority: its `host` field is empty, or it has none and its URI has
/// no authority or an empty one.
pub open spec fn names_nothing(r: RequestView) -> bool {
    ||| host_is(r, Seq::empty())
    ||| no_host(r) && (r.uri.authority is None || r.uri.authority == Some(Seq::<char>::empty()))
}

/// A request asks for UDP: by the protocol of an extended CONNECT request, by its
/// `protocol` field, or by a path that holds the well known part.
pub open spec fn asks_udp(r: RequestView) -> bool {
    ||| r.protocol == Some("connect-udp"@)
    ||| r.headers.contains_key("protocol"@) && r.headers["protocol"@][0] == encode_utf8(
        "connect-udp"@,
    )
    ||| exists|i: int|
        #![trigger r.uri.path.subrange(i, i + 24)]
        0 <= i && i + 24 <= r.uri.path.len() && r.uri.path.subrange(i, i + 24)
            == "/.well-known/masque/udp/"@
}

proof fn lemma_host(r: RequestView, text: Seq<char>)
    ensures
        host_is(r, text) ==> first_text(r.headers, "host"@) == Some(text),
        no_host(r) ==> first_text(r.headers, "host"@) is None,
{
    if host_is(r, text) {
        let value = r.headers["host"@][0];
        assert forall|i: int| 0 <= i < value.len() implies is_text_byte(#[trigger] value[i]) by {
            assert(text[i] == value[i] as char);
        }
        assert(ascii_text(value) =~= text);
    }
    if no_host(r) && r.headers.contains_key("host"@) {
        let value = r.headers["host"@][0];
        let i = choose|i: int|
            #![trigger value[i]]
            0 <= i < value.len() && value[i] != 9 && (value[i] < 32 || value[i] > 126);
        assert(!is_text_byte(value[i]));
    }
}

proof fn lemma_asks_udp(r: RequestView)
    ensures
        asks_udp(r) <==> wants_udp(r),
{
    reveal_strlit("/.well-known/masque/udp/");
    let marker = "/.well-known/masque/udp/"@;
    assert(marker.len() == 24);
    if occurs_in(r.uri.path, marker) {
        let i = choose|i: int| occurs_at(r.uri.path, marker, i);
        assert(r.uri.path.subrange(i, i + 24) == marker);
    }
    if exists|i: int|
        #![trigger r.uri.path.subrange(i, i + 24)]
        0 <= i && i + 24 <= r.uri.path.len() && r.uri.path.subrange(i, i + 24) == marker {
        let i = choose|i: int|
            #![trigger r.uri.path.subrange(i, i + 24)]
            0 <= i && i + 24 <= r.uri.path.len() && r.uri.path.subrange(i, i + 24) == marker;
        assert(occurs_at(r.uri.path, marker, i));
    }
}

/// The authority of a request is the text of its `host` field, whatever its URI says;
/// without such a text it is the authority of its URI as it stands, with its port; and
/// without that it is empty.
pub proof fn law_authority(r: RequestView, authority: Seq<char>)
    ensures
        names(r, authority) ==> named_authority(r) == authority,
        names_nothing(r) ==> named_authority(r).len() == 0,
{
    lemma_host(r, authority);
    lemma_host(r, Seq::empty());
}

/// A CONNECT request that is not for UDP comes to a tunnel to the authority that it names,
/// port and all, and to port 443 of it where it names no port.
pub proof fn law_connect_target(r: RequestView, udp: bool, authority: Seq<char>)
    requires
        r.method == "CONNECT"@,
        !(udp && asks_udp(r)),
        names(r, authority),
        authority.len() > 0,
    ensures
        authority.contains(':') ==> opening(r, udp) == OpeningView::Tcp(authority),
        !authority.contains(':') ==> opening(r, udp) == OpeningView::Tcp(authority + ":443"@),
{
    lemma_asks_udp(r);
    law_authority(r, authority);
    law_tcp_target(authority);
}

/// A CONNECT request that is not for UDP and names no authority is refused.
pub proof fn law_connect_without_authority(r: RequestView, udp: bool)
    requires
        r.method == "CONNECT"@,
        !(udp && asks_udp(r)),
        names_nothing(r),
    ensures
        opening(r, udp) is Refuse,
{
    lemma_asks_udp(r);
    law_authority(r, Seq::empty());
}

/// A CONNECT request for UDP comes to a tunnel to the host and the port that stand behind
/// the fourth and the fifth slash of its path, however it asks for UDP and whatever stands
/// before and after them.
pub proof fn law_connect_udp_target(
    r: RequestView,
    a: Seq<char>,
    b: Seq<char>,
    c: Seq<char>,
    d: Seq<char>,
    host: Seq<char>,
    port: Seq<char>,
    rest: Seq<char>,
)
    requires
        r.method == "CONNECT"@,
        asks_udp(r),
        !a.contains('/') && !b.contains('/') && !c.contains('/') && !d.contains('/'),
        !host.contains('/') && !port.contains('/'),
        rest.len() == 0 || rest[0] == '/',
        r.uri.path == a + seq!['/'] + b + seq!['/'] + c + seq!['/'] + d + seq!['/'] + host + seq![
            '/',
        ] + port + rest,
    ensures
        opening(r, true) == OpeningView::Udp(host + seq![':'] + port),
{
    lemma_asks_udp(r);
    let tail = if rest.len() == 0 {
        port
    } else {
        port.push('/') + rest.skip(1)
    };
    assert(tail =~= port + rest);
    lemma_pieces_single(port, '/');
    if rest.len() > 0 {
        lemma_pieces_concat(port, '/', rest.skip(1));
    }
    assert(pieces(tail, '/')[0] == port);
    let from_host = host.push('/') + tail;
    lemma_pieces_single(host, '/');
    lemma_pieces_concat(host, '/', tail);
    let from_d = d.push('/') + from_host;
    lemma_pieces_single(d, '/');
    lemma_pieces_concat(d, '/', from_host);
    let from_c = c.push('/') + from_d;
    lemma_pieces_single(c, '/');
    lemma_pieces_concat(c, '/', from_d);
    let from_b = b.push('/') + from_c;
    lemma_pieces_single(b, '/');
    lemma_pieces_concat(b, '/', from_c);
    lemma_pieces_single(a, '/');
    lemma_pieces_concat(a, '/', from_b);
    assert(r.uri.path =~= a.push('/') + from_b);
    assert(pieces(r.uri.path, '/')[4] == host);
    assert(pieces(r.uri.path, '/')[5] == port);
    assert(address(host, port) =~= host + seq![':'] + port);
}

/// A CONNECT request for UDP whose path has fewer than five slashes is refused.
pub proof fn law_connect_udp_short_path(r: RequestView)
    requires
        r.method == "CONNECT"@,
        asks_udp(r),
        r.uri.path.filter(|c: char| c == '/').len() < 5,
    ensures
        opening(r, true) is Refuse,
{
    lemma_asks_udp(r);
    law_pieces_count(r.uri.path, '/');
}

/// A plain request whose URI has a scheme and a host goes to that URI, whatever its port,
/// its path and its fields are.
pub proof fn law_absolute_upstream(r: RequestView, udp: bool)
    requires
        r.method != "CONNECT"@,
        r.uri.scheme is Some,
        r.uri.host is Some,
    ensures
        upstream_of(r) is Original,
        opening(r, udp) == OpeningView::Forward(UpstreamView::Original),
{
}

/// Every other plain request goes to the server that its `host` field names, with the path
/// and the query of its URI: to `http://`, that field and that path, where a field that is
/// missing is left out and a path that is missing is a slash.
pub proof fn law_relative_upstream(r: RequestView, udp: bool, host: Seq<char>, path: Seq<char>)
    requires
        r.method != "CONNECT"@,
        r.uri.scheme is None || r.uri.host is None,
        host_is(r, host) || (no_host(r) && host.len() == 0),
        r.uri.path_and_query == Some(path) || (r.uri.path_and_query is None && path == seq!['/']),
    ensures
        upstream_of(r) == UpstreamView::Rebuilt("http://"@ + host + path),
        opening(r, udp) == OpeningView::Forward(UpstreamView::Rebuilt("http://"@ + host + path)),
{
    reveal_strlit("/");
    lemma_host(r, host);
    assert("/"@ =~= seq!['/']);
    if no_host(r) {
        assert(host =~= Seq::empty());
    }
}

/// Where a plain request goes: to its own URI, where that has a scheme and a host, and else
/// to `http://` with its `host` field and its path behind it.
pub open spec fn goes_to(
    r: RequestView,
    host: Seq<char>,
    path: Seq<char>,
    upstream: UpstreamView,
) -> bool {
    if r.uri.scheme is Some && r.uri.host is Some {
        upstream is Original
    } else {
        &&& host_is(r, host) || (no_host(r) && host.len() == 0)
        &&& r.uri.path_and_query == Some(path) || (r.uri.path_and_query is None && path == seq![
            '/',
        ])
        &&& upstream == UpstreamView::Rebuilt("http://"@ + host + path)
    }
}

/// A request is a CONNECT request or a plain one: nothing but a plain request is forwarded,
/// and nothing but a CONNECT request comes to a tunnel or is refused.
pub proof fn law_connect_or_plain(r: RequestView, udp: bool)
    ensures
        opening(r, udp) is Forward <==> r.method != "CONNECT"@,
        opening(r, udp) is Udp ==> udp && asks_udp(r),
        opening(r, udp) is Tcp ==> !(udp && asks_udp(r)),
{
    lemma_asks_udp(r);
}

} // verus!
