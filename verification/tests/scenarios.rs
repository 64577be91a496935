use aplo_node::address::{PeerAddr, PeerIp};
use aplo_node::codec::{CodecError, PacketDecoder, PacketEncoder};
use aplo_node::models::requests::Request;
use aplo_node::models::responses::Response;
use aplo_node::models::Packet;
use aplo_node::node::{AcceptEvent, AcceptStep, DialEvent, DialStep, Node};
use aplo_node::session::{
    read_step, Action, Event, ReadAction, ReadEvent, Session, SessionState,
};
use tokio_util::bytes::BytesMut;

const SECOND: u128 = 1_000_000_000;

fn write_payload(packet: &Packet) -> Option<Vec<u8>> {
    let (q, id) = match packet {
        Packet::Request(Request::Ping { id }) => ("t", *id),
        Packet::Response(Response::Ping { id }) => ("r", *id),
        _ => return None,
    };
    Some(
        format!("{{\"q\":\"{}\",\"data\":{{\"t\":\"1\",\"data\":{{\"id\":{}}}}}}}", q, id)
            .into_bytes(),
    )
}

fn read_payload(bytes: &[u8]) -> Option<Packet> {
    let value: serde_json::Value = serde_json::from_slice(bytes).ok()?;
    let q = value.get("q")?.as_str()?;
    let body = value.get("data")?;
    if body.get("t")?.as_str()? != "1" {
        return None;
    }
    let id = u32::try_from(body.get("data")?.get("id")?.as_u64()?).ok()?;
    match q {
        "t" => Some(Packet::Request(Request::Ping { id })),
        "r" => Some(Packet::Response(Response::Ping { id })),
        _ => None,
    }
}

fn send(action: Action, wire: &mut BytesMut) {
    let packet = match action {
        Action::Open(packet) | Action::Send(packet) => packet,
        other => panic!("nothing to send for {:?}", other),
    };
    assert_eq!((PacketEncoder {}).encode(packet, wire, write_payload), Ok(()));
}

fn receive(wire: &mut BytesMut) -> Option<Packet> {
    (PacketDecoder {}).decode(wire, read_payload).unwrap()
}

#[test]
fn a_ping_across_a_connection_is_answered_with_its_id() {
    let a_addr = PeerAddr::new(PeerIp::V4(0x0A00_0001), 40001);
    let b_addr = PeerAddr::new(PeerIp::V4(0x0A00_0002), 33533);
    let mut a_node = Node::new(10 * SECOND, PeerIp::V4(0x0A00_0001));
    let mut b_node = Node::new(10 * SECOND, PeerIp::V4(0x0A00_0002));
    let mut a_to_b = BytesMut::new();
    let mut b_to_a = BytesMut::new();

    assert_eq!(a_node.dial_step(DialEvent::Peer(b_addr)), DialStep::Dial(b_addr));
    let (mut a, action) = Session::dial(b_addr, a_node.timeout(), 0);
    assert_eq!(action, Action::Connect);

    assert_eq!(b_node.accept_step(AcceptEvent::Incoming(a_addr)), AcceptStep::Serve(a_addr));
    let (mut b, opening) = Session::accept(a_addr, b_node.timeout(), 0);
    send(opening, &mut b_to_a);

    send(a.handle(Event::Connected, 1), &mut a_to_b);
    assert_eq!(a.state(), SessionState::Established);

    assert_eq!((PacketEncoder {}).encode(
        Packet::Request(Request::Ping { id: 7 }),
        &mut a_to_b,
        write_payload,
    ), Ok(()));

    let first = receive(&mut a_to_b).unwrap();
    assert_eq!(first, Packet::Request(Request::Ping { id: 0 }));
    assert_eq!(read_step(ReadEvent::Packet(first)), ReadAction::Forward(first));
    send(b.handle(Event::Inbound(first), 2), &mut b_to_a);

    let second = receive(&mut a_to_b).unwrap();
    assert_eq!(second, Packet::Request(Request::Ping { id: 7 }));
    let now = 2 + 1;
    assert!(now - 2 < b.heartbeat_interval());
    let answer = b.handle(Event::Inbound(second), now);
    assert_eq!(answer, Action::Send(Packet::Response(Response::Ping { id: 7 })));
    send(answer, &mut b_to_a);
    assert_eq!(receive(&mut a_to_b), None);

    assert_eq!(receive(&mut b_to_a), Some(Packet::Request(Request::Ping { id: 0 })));
    assert_eq!(receive(&mut b_to_a), Some(Packet::Response(Response::Ping { id: 0 })));
    let echoed = receive(&mut b_to_a).unwrap();
    assert_eq!(echoed, Packet::Response(Response::Ping { id: 7 }));
    assert_eq!(a.handle(Event::Inbound(echoed), 4), Action::Wait);
    assert_eq!(a.state(), SessionState::Established);
    assert_eq!(b.state(), SessionState::Established);
}

#[test]
fn a_silent_peer_is_disconnected_and_its_address_freed() {
    let peer = PeerAddr::new(PeerIp::V4(0x0A00_0003), 40003);
    let mut node = Node::new(10 * SECOND, PeerIp::V4(0x0A00_0002));
    assert_eq!(node.accept_step(AcceptEvent::Incoming(peer)), AcceptStep::Serve(peer));
    let (mut session, opening) = Session::accept(peer, node.timeout(), 1000);
    assert_eq!(opening, Action::Open(Packet::Request(Request::Ping { id: 0 })));

    assert_eq!(
        session.handle(Event::Heartbeat, 1000 + 5 * SECOND),
        Action::Send(Packet::Request(Request::Ping { id: 0 }))
    );
    assert!(!session.is_idle(1000 + 10 * SECOND - 1));
    assert!(node.is_connected(peer));

    assert!(session.is_idle(1000 + 10 * SECOND + 1));
    assert_eq!(read_step(ReadEvent::IdleTimeout), ReadAction::Stop);
    assert_eq!(session.handle(Event::InboundClosed, 1000 + 10 * SECOND + 1), Action::Drain);
    assert_eq!(session.handle(Event::Drained, 1000 + 10 * SECOND + 2), Action::Release);
    node.release(session.address());

    assert_eq!(session.state(), SessionState::Closed);
    assert!(!node.is_connected(peer));
    assert_eq!(node.connected_count(), 0);
    assert_eq!(node.accept_step(AcceptEvent::Incoming(peer)), AcceptStep::Serve(peer));
}

#[test]
fn the_second_of_two_inbound_connections_is_rejected() {
    let peer = PeerAddr::new(PeerIp::V4(0x0A00_0004), 40004);
    let mut node = Node::new(10 * SECOND, PeerIp::V4(0x0A00_0002));
    assert_eq!(node.accept_step(AcceptEvent::Incoming(peer)), AcceptStep::Serve(peer));
    let (mut first, _) = Session::accept(peer, node.timeout(), 0);

    assert_eq!(node.accept_step(AcceptEvent::Incoming(peer)), AcceptStep::Reject(peer));
    assert_eq!(node.connected_count(), 1);
    assert!(node.is_connected(peer));

    assert_eq!(first.state(), SessionState::Established);
    assert_eq!(
        first.handle(Event::Inbound(Packet::Request(Request::Ping { id: 1 })), 1),
        Action::Send(Packet::Response(Response::Ping { id: 1 }))
    );
}

#[test]
fn an_oversized_frame_closes_the_connection_without_buffering_it() {
    let peer = PeerAddr::new(PeerIp::V4(0x0A00_0005), 40005);
    let mut node = Node::new(10 * SECOND, PeerIp::V4(0x0A00_0002));
    assert_eq!(node.accept_step(AcceptEvent::Incoming(peer)), AcceptStep::Serve(peer));
    let (mut session, _) = Session::accept(peer, node.timeout(), 0);

    let mut wire = BytesMut::from(&16_000_000u32.to_le_bytes()[..]);
    let room = wire.capacity();
    let read = (PacketDecoder {}).decode(&mut wire, read_payload);
    assert_eq!(read, Err(CodecError::FrameTooLarge { length: 16_000_000 }));
    assert_eq!(wire.len(), 4);
    assert_eq!(wire.capacity(), room);

    assert_eq!(read_step(ReadEvent::Failed), ReadAction::Stop);
    assert_eq!(session.handle(Event::InboundClosed, 1), Action::Drain);
    assert_eq!(session.handle(Event::Drained, 2), Action::Release);
    node.release(session.address());
    assert_eq!(session.state(), SessionState::Closed);
    assert!(!node.is_connected(peer));
}

#[test]
fn a_failed_dial_frees_the_address_for_another_attempt() {
    let peer = PeerAddr::new(PeerIp::V4(0x0A00_0006), 33533);
    let mut node = Node::new(10 * SECOND, PeerIp::V4(0x0A00_0002));
    assert_eq!(node.dial_step(DialEvent::Peer(peer)), DialStep::Dial(peer));
    let (mut session, _) = Session::dial(peer, node.timeout(), 0);
    assert_eq!(node.dial_step(DialEvent::Peer(peer)), DialStep::Skip(peer));
    assert_eq!(session.handle(Event::ConnectTimedOut, 10 * SECOND), Action::Release);
    node.release(session.address());
    assert_eq!(node.dial_step(DialEvent::Peer(peer)), DialStep::Dial(peer));
}

#[test]
fn shutdown_drains_every_session_and_empties_the_registry() {
    let mut node = Node::new(10 * SECOND, PeerIp::V4(0x0A00_0002));
    let mut sessions = Vec::new();
    for last in 1..=5u32 {
        let peer = PeerAddr::new(PeerIp::V4(0x0B00_0000 + last), 33533);
        if last % 2 == 0 {
            assert_eq!(node.dial_step(DialEvent::Peer(peer)), DialStep::Dial(peer));
            sessions.push(Session::dial(peer, node.timeout(), 0).0);
        } else {
            assert_eq!(node.accept_step(AcceptEvent::Incoming(peer)), AcceptStep::Serve(peer));
            sessions.push(Session::accept(peer, node.timeout(), 0).0);
        }
    }
    assert_eq!(node.connected_count(), 5);
    assert_eq!(node.dial_step(DialEvent::Cancelled), DialStep::Exit);
    assert_eq!(node.accept_step(AcceptEvent::Cancelled), AcceptStep::Exit);
    for session in sessions.iter_mut() {
        let mut action = session.handle(Event::Cancelled, 1);
        if action == Action::Drain {
            action = session.handle(Event::Drained, 2);
        }
        assert_eq!(action, Action::Release);
        node.release(session.address());
    }
    assert_eq!(node.connected_count(), 0);
}
