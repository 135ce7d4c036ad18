use bytes::Bytes;
use h3proxy::chunk::{chunk_text, extend_body, filled_part, printable};
use h3proxy::relay::{Direction, Relay, RelayAction, RelayEvent};

fn is_read(a: &RelayAction) -> bool {
    matches!(a, RelayAction::Read)
}

fn data(s: &'static str) -> RelayEvent {
    RelayEvent::Data(Bytes::from_static(s.as_bytes()))
}

#[test]
fn a_relay_hands_on_what_it_reads() {
    for direction in [
        Direction::ClientToTcp,
        Direction::TcpToClient,
        Direction::ClientToUdp,
        Direction::UdpToClient,
        Direction::ClientToUpstream,
    ] {
        let (mut relay, first) = Relay::start(direction);
        assert!(is_read(&first));
        let mut written = Vec::new();
        for part in ["one", " two", " three"] {
            match relay.step(data(part)) {
                RelayAction::Write(chunk) => extend_body(&mut written, &chunk),
                _ => panic!("not written"),
            }
            assert!(is_read(&relay.step(RelayEvent::Written(true))));
        }
        assert_eq!(written, b"one two three");
    }
}

#[test]
fn a_tcp_connection_ends_with_an_empty_read() {
    let (mut relay, _) = Relay::start(Direction::TcpToClient);
    assert!(matches!(relay.step(data("")), RelayAction::Close));
    assert!(matches!(relay.step(RelayEvent::Closed), RelayAction::Stop));
    assert!(matches!(relay.step(data("x")), RelayAction::Ignore));
}

#[test]
fn an_empty_datagram_is_handed_on() {
    let (mut relay, _) = Relay::start(Direction::UdpToClient);
    assert!(matches!(relay.step(data("")), RelayAction::Write(c) if c.is_empty()));
    let (mut relay, _) = Relay::start(Direction::ClientToTcp);
    assert!(matches!(relay.step(data("")), RelayAction::Write(_)));
}

#[test]
fn the_sink_is_closed_once_where_it_is_to_be() {
    for (direction, closes) in [
        (Direction::ClientToTcp, true),
        (Direction::TcpToClient, true),
        (Direction::ClientToUdp, false),
        (Direction::UdpToClient, true),
        (Direction::ClientToUpstream, false),
    ] {
        let (mut relay, _) = Relay::start(direction);
        let end = relay.step(RelayEvent::Ended);
        if closes {
            assert!(matches!(end, RelayAction::Close));
            assert!(matches!(relay.step(RelayEvent::Ended), RelayAction::Ignore));
            assert!(matches!(relay.step(RelayEvent::Closed), RelayAction::Stop));
        } else {
            assert!(matches!(end, RelayAction::Stop));
        }
        assert!(matches!(relay.step(RelayEvent::Closed), RelayAction::Ignore));
    }
}

#[test]
fn a_sink_that_refuses_ends_the_relay() {
    let (mut relay, _) = Relay::start(Direction::ClientToUdp);
    assert!(matches!(relay.step(data("x")), RelayAction::Write(_)));
    assert!(matches!(relay.step(RelayEvent::Written(false)), RelayAction::Stop));
    let (mut relay, _) = Relay::start(Direction::ClientToTcp);
    assert!(matches!(relay.step(data("x")), RelayAction::Write(_)));
    assert!(matches!(relay.step(RelayEvent::Written(false)), RelayAction::Close));
}

#[test]
fn buffers() {
    assert_eq!(Direction::TcpToClient.buffer_size(), 8192);
    assert_eq!(Direction::UdpToClient.buffer_size(), 65535);
}

#[test]
fn the_filled_part_of_a_buffer() {
    let buf = [1u8, 2, 3, 4];
    assert_eq!(filled_part(&buf, 2), Bytes::from_static(&[1, 2]));
    assert_eq!(filled_part(&buf, 0).len(), 0);
    assert_eq!(filled_part(&buf, 4).len(), 4);
}

#[test]
fn datagrams_stay_apart() {
    let (mut relay, _) = Relay::start(Direction::UdpToClient);
    let mut written = Vec::new();
    for part in ["one", "", "two"] {
        match relay.step(data(part)) {
            RelayAction::Write(chunk) => written.push(chunk_text(&chunk)),
            _ => panic!("not written"),
        }
        relay.step(RelayEvent::Written(true));
    }
    assert_eq!(written, vec!["one", "", "two"]);
}

#[test]
fn bytes_as_texts() {
    assert_eq!(printable("a\u{20ac}".as_bytes()), "a\u{20ac}");
    assert_eq!(printable(&[0xff, 0x61]), "\u{fffd}a");
    assert_eq!(printable(&[0xe2, 0x82]), "\u{fffd}");
    assert_eq!(printable(b""), "");
}
