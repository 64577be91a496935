use aplo_node::address::{PeerAddr, PeerIp};
use aplo_node::codec::{CodecError, PacketDecoder, PacketEncoder};
use aplo_node::models::requests::Request;
use aplo_node::models::responses::Response;
use aplo_node::models::Packet;
use aplo_node::node::{AcceptEvent, AcceptStep, DialEvent, DialStep, Node};
use aplo_node::registry::ConnectionRegistry;
use aplo_node::session::{Action, Event, Session, SessionState};
use futures::{SinkExt, StreamExt};
use std::sync::Arc;
use tokio_util::bytes::BytesMut;
use tokio_util::codec::{Decoder, Encoder, FramedRead, FramedWrite};

const SECOND: u128 = 1_000_000_000;

fn write_payload(packet: &Packet) -> Option<Vec<u8>> {
    let (q, id) = match packet {
        Packet::Request(Request::Ping { id }) => ("t", *id),
        Packet::Response(Response::Ping { id }) => ("r", *id),
        _ => return None,
    };
    Some(
        format!("{{\"q\":\"{}\",\"data\":{{\"t\":\"1\",\"data\":{{\"id\":{}}}}}}}", q, id)
            .into_bytes(),
    )
}

fn read_payload(bytes: &[u8]) -> Option<Packet> {
    let value: serde_json::Value = serde_json::from_slice(bytes).ok()?;
    let q = value.get("q")?.as_str()?;
    let body = value.get("data")?;
    if body.get("t")?.as_str()? != "1" {
        return None;
    }
    let id = u32::try_from(body.get("data")?.get("id")?.as_u64()?).ok()?;
    match q {
        "t" => Some(Packet::Request(Request::Ping { id })),
        "r" => Some(Packet::Response(Response::Ping { id })),
        _ => None,
    }
}

fn refused(error: CodecError) -> std::io::Error {
    std::io::Error::new(std::io::ErrorKind::InvalidData, format!("{:?}", error))
}

struct Wire;

impl Decoder for Wire {
    type Item = Packet;
    type Error = std::io::Error;

    fn decode(&mut self, src: &mut BytesMut) -> Result<Option<Packet>, std::io::Error> {
        (PacketDecoder {}).decode(src, read_payload).map_err(refused)
    }
}

impl Encoder<Packet> for Wire {
    type Error = std::io::Error;

    fn encode(&mut self, item: Packet, dst: &mut BytesMut) -> Result<(), std::io::Error> {
        (PacketEncoder {}).encode(item, dst, write_payload).map_err(refused)
    }
}

fn runtime() -> tokio::runtime::Runtime {
    tokio::runtime::Builder::new_multi_thread()
        .worker_threads(4)
        .enable_all()
        .build()
        .unwrap()
}

#[test]
fn concurrent_inserts_of_one_address_have_one_winner() {
    runtime().block_on(async {
        let registry = Arc::new(tokio::sync::RwLock::new(ConnectionRegistry::new()));
        let peer = PeerAddr::new(PeerIp::V4(0x0A00_0001), 33533);
        let mut attempts = Vec::new();
        for _ in 0..64 {
            let registry = registry.clone();
            attempts.push(tokio::spawn(
                async move { registry.write().await.try_insert(peer) },
            ));
        }
        let mut winners = 0;
        for attempt in attempts {
            if attempt.await.unwrap() {
                winners += 1;
            }
        }
        assert_eq!(winners, 1);
        assert_eq!(registry.read().await.len(), 1);
    });
}

#[test]
fn the_accept_and_dial_loops_racing_for_one_address_start_one_session() {
    runtime().block_on(async {
        let node = Arc::new(tokio::sync::RwLock::new(Node::new(
            10 * SECOND,
            PeerIp::V4(0x0A00_0002),
        )));
        let peer = PeerAddr::new(PeerIp::V4(0x0A00_0001), 33533);
        let mut attempts = Vec::new();
        for turn in 0..64 {
            let node = node.clone();
            attempts.push(tokio::spawn(async move {
                if turn % 2 == 0 {
                    node.write().await.accept_step(AcceptEvent::Incoming(peer))
                        == AcceptStep::Serve(peer)
                } else {
                    node.write().await.dial_step(DialEvent::Peer(peer)) == DialStep::Dial(peer)
                }
            }));
        }
        let mut started = 0;
        for attempt in attempts {
            if attempt.await.unwrap() {
                started += 1;
            }
        }
        assert_eq!(started, 1);
        assert_eq!(node.read().await.connected_count(), 1);
    });
}

#[test]
fn a_ping_over_a_framed_stream_is_answered_within_a_heartbeat() {
    runtime().block_on(async {
        let (a_side, b_side) = tokio::io::duplex(64);
        let (a_read, a_write) = tokio::io::split(a_side);
        let (b_read, b_write) = tokio::io::split(b_side);
        let started = std::time::Instant::now();

        let b_addr = PeerAddr::new(PeerIp::V4(0x0A00_0002), 33533);
        let a_addr = PeerAddr::new(PeerIp::V4(0x0A00_0001), 40001);

        let b = tokio::spawn(async move {
            let mut reader = FramedRead::new(b_read, Wire);
            let mut writer = FramedWrite::new(b_write, Wire);
            let (mut session, opening) = Session::accept(a_addr, 10 * SECOND, 0);
            let mut answers = Vec::new();
            if let Action::Open(first) = opening {
                writer.send(first).await.unwrap();
            }
            while let Some(packet) = reader.next().await {
                let now = started.elapsed().as_nanos();
                match session.handle(Event::Inbound(packet.unwrap()), now) {
                    Action::Send(answer) => {
                        writer.send(answer).await.unwrap();
                        answers.push(answer);
                    }
                    other => panic!("no answer: {:?}", other),
                }
            }
            assert_eq!(session.handle(Event::InboundClosed, 0), Action::Drain);
            assert_eq!(session.handle(Event::Drained, 0), Action::Release);
            answers
        });

        let mut reader = FramedRead::new(a_read, Wire);
        let mut writer = FramedWrite::new(a_write, Wire);
        let (mut session, _) = Session::dial(b_addr, 10 * SECOND, 0);
        match session.handle(Event::Connected, 0) {
            Action::Open(first) => writer.send(first).await.unwrap(),
            other => panic!("not opened: {:?}", other),
        }
        let asked = started.elapsed().as_nanos();
        writer.send(Packet::Request(Request::Ping { id: 7 })).await.unwrap();

        let mut received = Vec::new();
        while received.len() < 3 {
            received.push(reader.next().await.unwrap().unwrap());
        }
        let answered = started.elapsed().as_nanos();
        assert_eq!(
            received,
            vec![
                Packet::Request(Request::Ping { id: 0 }),
                Packet::Response(Response::Ping { id: 0 }),
                Packet::Response(Response::Ping { id: 7 }),
            ]
        );
        assert!(answered - asked < session.heartbeat_interval());
        assert_eq!(session.handle(Event::Inbound(received[2]), answered), Action::Wait);
        assert_eq!(session.state(), SessionState::Established);

        writer.close().await.unwrap();
        let answers = b.await.unwrap();
        assert_eq!(
            answers,
            vec![
                Packet::Response(Response::Ping { id: 0 }),
                Packet::Response(Response::Ping { id: 7 }),
            ]
        );
    });
}

#[test]
fn an_oversized_frame_ends_a_framed_stream_with_an_error() {
    runtime().block_on(async {
        let (mut a_side, b_side) = tokio::io::duplex(64);
        let mut reader = FramedRead::new(b_side, Wire);
        tokio::io::AsyncWriteExt::write_all(&mut a_side, &16_000_000u32.to_le_bytes())
            .await
            .unwrap();
        tokio::io::AsyncWriteExt::write_all(&mut a_side, b"{\"q\":\"t\"").await.unwrap();
        let first = reader.next().await.unwrap();
        assert_eq!(first.unwrap_err().kind(), std::io::ErrorKind::InvalidData);
        assert!(reader.read_buffer().capacity() < 16_000_000);
    });
}
