use bytes::Bytes;
use h3proxy::error::ProxyError;
use h3proxy::handler::{
    begin_forward, check_upstream, handle, handle_request, Action, Event, Exchange, ForwardRequest,
    Mode, ResponseHead,
};
use h3proxy::headers::HeaderError;
use h3proxy::request::{ProxyRequest, Upstream};
use h3proxy::uri::parse_uri;
use http::{HeaderMap, HeaderName, HeaderValue};

fn request(method: &str, uri: &str, fields: &[(&'static str, &'static str)]) -> ProxyRequest {
    let mut headers = HeaderMap::new();
    for (name, value) in fields {
        headers.append(*name, HeaderValue::from_static(value));
    }
    ProxyRequest { method: method.to_string(), uri: parse_uri(uri).ok().unwrap(), protocol: None, headers }
}

fn head(status: u16, fields: &[(&'static str, &'static str)]) -> ResponseHead {
    let mut headers = HeaderMap::new();
    for (name, value) in fields {
        headers.append(*name, HeaderValue::from_static(value));
    }
    ResponseHead { status, headers }
}

fn frame(s: &'static str) -> Event {
    Event::Frame(Bytes::from_static(s.as_bytes()))
}

fn chunk(s: &'static str) -> Event {
    Event::BodyChunk(Bytes::from_static(s.as_bytes()))
}

fn sent_upstream(action: Action) -> ForwardRequest {
    match action {
        Action::SendUpstream(forward) => forward,
        _ => panic!("nothing was sent upstream"),
    }
}

/// The body that the client is sent, for the frames and whatever ends them.
fn body_sent(exchange: Exchange, frames: Vec<Event>) -> (Vec<u8>, Exchange, Action) {
    let mut exchange = exchange;
    let mut body = Vec::new();
    let mut last = Action::PullFrame;
    for f in frames {
        let (next, action) = exchange.step(f);
        exchange = next;
        last = action;
        if let Action::SendData(data) = &last {
            body.extend_from_slice(data);
            let (next, action) = exchange.step(Event::DataSent(true));
            exchange = next;
            last = action;
        }
    }
    (body, exchange, last)
}

#[test]
fn a_tunnel_to_a_tcp_address() {
    let r = request("CONNECT", "example.com:443", &[]);
    let (x, a) = handle_request(&r);
    assert!(matches!(a, Action::OpenTcp(t) if t == "example.com:443"));
    let (x, a) = x.step(Event::TcpOpened(true));
    assert!(matches!(a, Action::Answer(200)));
    let (x, a) = x.step(Event::HeadSent(true));
    assert!(matches!(a, Action::TunnelTcp));
    let (x, a) = x.step(Event::TunnelEnded);
    assert!(matches!(a, Action::Close));
    let (_, a) = x.step(Event::TunnelEnded);
    assert!(matches!(a, Action::Ignore));
}

#[test]
fn a_tcp_address_that_cannot_be_reached() {
    let r = request("CONNECT", "example.com:443", &[]);
    let (x, _) = handle(&r);
    let (x, a) = x.step(Event::TcpOpened(false));
    assert!(matches!(a, Action::Answer(502)));
    let (x, a) = x.step(Event::HeadSent(true));
    assert!(matches!(a, Action::Close));
    let (_, a) = x.step(Event::HeadSent(true));
    assert!(matches!(a, Action::Ignore));
}

#[test]
fn an_answer_that_cannot_be_sent() {
    let r = request("CONNECT", "example.com:443", &[]);
    let (x, _) = handle(&r);
    let (x, _) = x.step(Event::TcpOpened(true));
    let (_, a) = x.step(Event::HeadSent(false));
    assert!(matches!(a, Action::Abort));
}

#[test]
fn a_connect_request_without_an_authority() {
    let r = request("CONNECT", "/", &[]);
    let (x, a) = handle_request(&r);
    assert!(matches!(a, Action::Answer(400)));
    let (_, a) = x.step(Event::HeadSent(true));
    assert!(matches!(a, Action::Close));
}

#[test]
fn a_tunnel_to_a_udp_address() {
    let r = request("CONNECT", "https://proxy/.well-known/masque/udp/192.168.1.1/53/", &[]);
    let (x, a) = handle_request(&r);
    assert!(matches!(a, Action::BindUdp(local) if local == "0.0.0.0:0"));
    let (x, a) = x.step(Event::UdpBound(true));
    assert!(matches!(a, Action::ConnectUdp(t) if t == "192.168.1.1:53"));
    let (x, a) = x.step(Event::UdpConnected(true));
    assert!(matches!(a, Action::Answer(200)));
    let (x, a) = x.step(Event::HeadSent(true));
    assert!(matches!(a, Action::TunnelUdp));
    let (_, a) = x.step(Event::TunnelEnded);
    assert!(matches!(a, Action::Close));
}

#[test]
fn only_some_proxies_offer_udp() {
    let r = request("CONNECT", "https://proxy/.well-known/masque/udp/192.168.1.1/53/", &[]);
    let (_, a) = handle(&r);
    assert!(matches!(a, Action::OpenTcp(t) if t == "proxy:443"));
}

#[test]
fn udp_that_goes_wrong() {
    let r = request("CONNECT", "https://proxy/.well-known/masque/udp/192.168.1.1/53/", &[]);
    let (x, _) = handle_request(&r);
    let (_, a) = x.step(Event::UdpBound(false));
    assert!(matches!(a, Action::Answer(500)));
    let (x, _) = handle_request(&r);
    let (x, _) = x.step(Event::UdpBound(true));
    let (_, a) = x.step(Event::UdpConnected(false));
    assert!(matches!(a, Action::Answer(502)));
    let r = request("CONNECT", "https://proxy/udp", &[("protocol", "connect-udp")]);
    let (_, a) = handle_request(&r);
    assert!(matches!(a, Action::Answer(400)));
}

#[test]
fn a_plain_request_is_passed_on() {
    let r = request(
        "POST",
        "http://example.com/a",
        &[("content-length", "5"), ("accept", "x"), ("accept", "y")],
    );
    let (x, a) = handle_request(&r);
    let forward = sent_upstream(a);
    assert_eq!(forward.method, "POST");
    assert!(matches!(forward.upstream, Upstream::Original));
    assert_eq!(forward.headers.len(), 2);
    assert_eq!(forward.headers.get("content-length"), None);
    assert_eq!(forward.body, None);

    let (x, a) = x.step(Event::Responded(head(404, &[("content-length", "3"), ("etag", "e")])));
    match a {
        Action::SendHead(h) => {
            assert_eq!(h.status, 404);
            assert_eq!(h.headers.len(), 2);
            assert_eq!(h.headers.get("content-length").unwrap(), "3");
        }
        _ => panic!("no head"),
    }
    let (x, a) = x.step(Event::HeadSent(true));
    assert!(matches!(a, Action::PullFrame));
    let frames = vec![
        frame("ab"),
        Event::OtherFrame,
        Event::FrameBroken,
        frame("c"),
        Event::FramesEnded,
    ];
    let (body, x, a) = body_sent(x, frames);
    assert_eq!(body, b"abc");
    assert!(matches!(a, Action::Finish));
    let (_, a) = x.step(Event::Finished(true));
    assert!(matches!(a, Action::Close));
}

#[test]
fn a_collected_body_is_sent_whole() {
    let r = request("PUT", "/a?b", &[("host", "example.com")]);
    let (x, a) = handle(&r);
    assert!(matches!(a, Action::ReadBody));
    let (x, a) = x.step(chunk("one "));
    assert!(matches!(a, Action::ReadBody));
    let (x, a) = x.step(chunk("two"));
    assert!(matches!(a, Action::ReadBody));
    let (_, a) = x.step(Event::BodyEnded);
    let forward = sent_upstream(a);
    assert_eq!(forward.method, "PUT");
    assert!(matches!(forward.upstream, Upstream::Rebuilt(t) if t == "http://example.com/a?b"));
    assert_eq!(forward.headers.get("host").unwrap(), "example.com");
    assert_eq!(forward.body, Some(b"one two".to_vec()));
}

#[test]
fn a_broken_body_ends_the_exchange() {
    let r = request("PUT", "http://example.com/", &[]);
    let (x, _) = handle(&r);
    let (x, a) = x.step(Event::BodyBroken);
    assert!(matches!(a, Action::Abort));
    let (_, a) = x.step(Event::BodyEnded);
    assert!(matches!(a, Action::Ignore));
}

#[test]
fn a_broken_frame_ends_a_buffered_exchange() {
    let r = request("GET", "http://example.com/", &[]);
    let (x, _) = handle(&r);
    let (x, _) = x.step(Event::BodyEnded);
    let (x, _) = x.step(Event::Responded(head(200, &[])));
    let (x, _) = x.step(Event::HeadSent(true));
    let (_, a) = x.step(Event::FrameBroken);
    assert!(matches!(a, Action::Abort));
}

#[test]
fn failures_on_the_way_back() {
    let r = request("GET", "http://example.com/", &[]);
    let (x, _) = handle_request(&r);
    let (_, a) = x.step(Event::NoResponse);
    assert!(matches!(a, Action::Abort));

    let (x, _) = handle_request(&r);
    let (x, _) = x.step(Event::Responded(head(200, &[])));
    let (_, a) = x.step(Event::HeadSent(false));
    assert!(matches!(a, Action::Abort));

    let (x, _) = handle_request(&r);
    let (x, _) = x.step(Event::Responded(head(200, &[])));
    let (x, _) = x.step(Event::HeadSent(true));
    let (x, a) = x.step(frame("x"));
    assert!(matches!(a, Action::SendData(d) if d == "x"));
    let (_, a) = x.step(Event::DataSent(false));
    assert!(matches!(a, Action::Abort));

    let (x, _) = handle_request(&r);
    let (x, _) = x.step(Event::Responded(head(200, &[])));
    let (x, _) = x.step(Event::HeadSent(true));
    let (x, _) = x.step(Event::FramesEnded);
    let (_, a) = x.step(Event::Finished(false));
    assert!(matches!(a, Action::Abort));
}

#[test]
fn an_upstream_uri_that_cannot_be_read() {
    let r = request("GET", "/", &[("host", "a b")]);
    let (x, a) = handle_request(&r);
    assert!(matches!(a, Action::Fail(ProxyError::Uri(w)) if w == "invalid uri character"));
    let (_, a) = x.step(Event::NoResponse);
    assert!(matches!(a, Action::Ignore));
    assert_eq!(check_upstream(&Upstream::Original), Ok(()));
    assert_eq!(check_upstream(&Upstream::Rebuilt("http://a/".to_string())), Ok(()));
    assert_eq!(
        check_upstream(&Upstream::Rebuilt("http:///".to_string())),
        Err("invalid format".to_string())
    );
}

#[test]
fn a_forward_with_a_given_verdict() {
    let r = request("GET", "/", &[("host", "a")]);
    let refused = Err("why".to_string());
    let (_, a) = begin_forward(&r, Upstream::Original, refused, Mode::Streaming);
    assert!(matches!(a, Action::Fail(ProxyError::Uri(w)) if w == "why"));
    let (_, a) = begin_forward(&r, Upstream::Original, Ok(()), Mode::Buffered);
    assert!(matches!(a, Action::ReadBody));
}

#[test]
fn fields_that_cannot_be_taken_over() {
    let mut r = request("GET", "http://example.com/", &[]);
    r.headers.append(
        HeaderName::from_lowercase(b"\"").unwrap(),
        HeaderValue::from_static("v"),
    );
    let (_, a) = handle_request(&r);
    assert!(matches!(a, Action::Fail(ProxyError::Header(HeaderError::Name))));
    let (x, a) = handle(&r);
    assert!(matches!(a, Action::ReadBody));
    let (x, a) = x.step(chunk("x"));
    assert!(matches!(a, Action::ReadBody));
    let (_, a) = x.step(Event::BodyEnded);
    assert!(matches!(a, Action::Fail(ProxyError::Header(HeaderError::Name))));
}

#[test]
fn an_event_out_of_turn_changes_nothing() {
    let r = request("CONNECT", "example.com:443", &[]);
    let (x, _) = handle_request(&r);
    let (x, a) = x.step(Event::Finished(true));
    assert!(matches!(a, Action::Ignore));
    let (_, a) = x.step(Event::TcpOpened(true));
    assert!(matches!(a, Action::Answer(200)));
}

#[test]
fn errors_in_words() {
    assert_eq!(ProxyError::Uri("u".to_string()).message(), "u");
    assert_eq!(ProxyError::Header(HeaderError::Name).message(), "invalid HTTP header name");
    assert_eq!(ProxyError::Header(HeaderError::Value).message(), "failed to parse header value");
    assert_eq!(ProxyError::Header(HeaderError::Full).message(), "max size reached");
    assert_eq!(ProxyError::Root(1, "r".to_string()).message(), "r");
    assert_eq!(ProxyError::Pem("p".to_string()).message(), "p");
    assert_eq!(ProxyError::Identity("i".to_string()).message(), "i");
}
