use bytes::Bytes;
use h3proxy::chunk::{chunk_text, read_part};
use h3proxy::handler::{handle, handle_request, Action, Event};
use h3proxy::relay::{RelayAction, RelayEvent};
use h3proxy::request::ProxyRequest;
use h3proxy::tunnel::{body_relay, Side, Tunnel};
use h3proxy::uri::parse_uri;
use http::HeaderMap;

fn data(s: &'static str) -> RelayEvent {
    RelayEvent::Data(Bytes::from_static(s.as_bytes()))
}

fn request(method: &str, uri: &str) -> ProxyRequest {
    ProxyRequest {
        method: method.to_string(),
        uri: parse_uri(uri).ok().unwrap(),
        protocol: None,
        headers: HeaderMap::new(),
    }
}

/// What a side of a tunnel writes of a chunk.
fn written(tunnel: &mut Tunnel, side: Side, chunk: &'static str) -> String {
    match tunnel.step(side, data(chunk)) {
        (RelayAction::Write(chunk), None) => {
            let (action, news) = tunnel.step(side, RelayEvent::Written(true));
            assert!(matches!(action, RelayAction::Read) && news.is_none());
            chunk_text(&chunk)
        }
        _ => panic!("not written"),
    }
}

#[test]
fn only_a_tunnel_action_opens_a_tunnel() {
    assert!(Tunnel::open(&Action::TunnelTcp).is_some());
    assert!(Tunnel::open(&Action::TunnelUdp).is_some());
    assert!(Tunnel::open(&Action::Close).is_none());
    assert!(Tunnel::open(&Action::Answer(200)).is_none());
}

#[test]
fn a_tcp_tunnel_ends_with_both_sides() {
    let (exchange, _) = handle_request(&request("CONNECT", "example.com:443"));
    let (exchange, _) = exchange.step(Event::TcpOpened(true));
    let (exchange, action) = exchange.step(Event::HeadSent(true));
    let mut tunnel = Tunnel::open(&action).unwrap();

    assert_eq!(written(&mut tunnel, Side::ToPeer, "ping"), "ping");
    assert_eq!(written(&mut tunnel, Side::ToClient, "pong"), "pong");

    // The client is done; the other side goes on.
    let (action, news) = tunnel.step(Side::ToPeer, RelayEvent::Ended);
    assert!(matches!(action, RelayAction::Close) && news.is_none());
    let (action, news) = tunnel.step(Side::ToPeer, RelayEvent::Closed);
    assert!(matches!(action, RelayAction::Stop) && news.is_none());
    assert_eq!(written(&mut tunnel, Side::ToClient, "late"), "late");

    let (action, news) = tunnel.step(Side::ToClient, data(""));
    assert!(matches!(action, RelayAction::Close) && news.is_none());
    let (action, news) = tunnel.step(Side::ToClient, RelayEvent::Closed);
    assert!(matches!(action, RelayAction::Stop));
    let (_, action) = exchange.step(news.unwrap());
    assert!(matches!(action, Action::Close));
}

#[test]
fn a_udp_tunnel_ends_with_both_sides() {
    let mut tunnel = Tunnel::open(&Action::TunnelUdp).unwrap();
    assert_eq!(written(&mut tunnel, Side::ToClient, ""), "");
    let (action, news) = tunnel.step(Side::ToClient, RelayEvent::Ended);
    assert!(matches!(action, RelayAction::Close) && news.is_none());
    let (action, news) = tunnel.step(Side::ToClient, RelayEvent::Closed);
    assert!(matches!(action, RelayAction::Stop) && news.is_none());
    // The socket is not closed when the client is done.
    let (action, news) = tunnel.step(Side::ToPeer, RelayEvent::Ended);
    assert!(matches!(action, RelayAction::Stop));
    assert!(matches!(news, Some(Event::TunnelEnded)));
}

#[test]
fn a_body_is_relayed_unless_it_was_collected() {
    let (_, action) = handle_request(&request("PUT", "http://example.com/"));
    match action {
        Action::SendUpstream(forward) => {
            let (mut relay, first) = body_relay(&forward).unwrap();
            assert!(matches!(first, RelayAction::Read));
            assert!(matches!(relay.step(data("x")), RelayAction::Write(_)));
            assert!(matches!(relay.step(RelayEvent::Written(true)), RelayAction::Read));
            assert!(!relay.is_stopped());
            assert!(matches!(relay.step(RelayEvent::Ended), RelayAction::Stop));
            assert!(relay.is_stopped());
        }
        _ => panic!("nothing was sent upstream"),
    }
    let (exchange, _) = handle(&request("PUT", "http://example.com/"));
    match exchange.step(Event::BodyEnded).1 {
        Action::SendUpstream(forward) => assert!(body_relay(&forward).is_none()),
        _ => panic!("nothing was sent upstream"),
    }
}

#[test]
fn a_short_read() {
    assert_eq!(read_part(&[1, 2, 3, 4], 3), vec![1, 2, 3]);
    assert_eq!(read_part(&[1, 2], 0), Vec::<u8>::new());
    assert_eq!(read_part(&[1, 2], 2), vec![1, 2]);
}
