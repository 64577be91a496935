//! The supervisor: which connections a node opens and which it turns away.
//!
//! The supervisor's two loops, one that dials the peers it hears of and one that
//! accepts the peers that call, both end on the same shutdown signal and both
//! ask the same registry before a session may start. The loops themselves wait
//! on sockets and channels and so belong to the driver; what they decide at each
//! turn is decided here.

use vstd::multiset::Multiset;
use vstd::prelude::*;

use crate::address::{PeerAddr, PeerIp};
use crate::registry::ConnectionRegistry;

verus! {

/// What the dial loop was woken by.
#[derive(Clone, Copy, Debug, PartialEq, Eq, Structural)]
pub enum DialEvent {
    /// The shutdown signal was observed.
    Cancelled,
    /// The source of peer addresses was closed.
    SourceClosed,
    /// A candidate peer arrived.
    Peer(PeerAddr),
}

/// What the dial loop does next.
#[derive(Clone, Copy, Debug, PartialEq, Eq, Structural)]
pub enum DialStep {
    /// Leave the loop.
    Exit,
    /// Pass this peer over and wait for the next.
    Skip(PeerAddr),
    /// Start an outbound session to this peer.
    Dial(PeerAddr),
}

/// What the accept loop was woken by.
#[derive(Clone, Copy, Debug, PartialEq, Eq, Structural)]
pub enum AcceptEvent {
    /// The shutdown signal was observed.
    Cancelled,
    /// The listener failed.
    Failed,
    /// A peer connected from this address.
    Incoming(PeerAddr),
}

/// What the accept loop does next.
#[derive(Clone, Copy, Debug, PartialEq, Eq, Structural)]
pub enum AcceptStep {
    /// Leave the loop.
    Exit,
    /// Leave the loop and report the listener's failure.
    Fail,
    /// Drop the new socket: this peer already has a session.
    Reject(PeerAddr),
    /// Start an inbound session for this peer.
    Serve(PeerAddr),
}

/// The mathematical value of a supervisor.
pub struct NodeView {
    /// The peers that have a session.
    pub connected: Set<PeerAddr>,
    /// The idle timeout given to every session, in nanoseconds.
    pub timeout: u128,
    /// The address under which this node is known to others.
    pub outer_ip: PeerIp,
}

impl NodeView {
    /// Whether a candidate peer is to be dialled: it is not this node itself and
    /// it has no session yet.
    pub open spec fn dials(self, peer: PeerAddr) -> bool {
        peer.spec_ip() != self.outer_ip && !self.connected.contains(peer)
    }

    /// Whether a calling peer is to be served: it has no session yet.
    pub open spec fn serves(self, peer: PeerAddr) -> bool {
        !self.connected.contains(peer)
    }

    /// The same supervisor with `peer` connected.
    pub open spec fn with(self, peer: PeerAddr) -> NodeView {
        NodeView {
            connected: self.connected.insert(peer),
            timeout: self.timeout,
            outer_ip: self.outer_ip,
        }
    }

    /// The same supervisor with `peer` no longer connected.
    pub open spec fn without(self, peer: PeerAddr) -> NodeView {
        NodeView {
            connected: self.connected.remove(peer),
            timeout: self.timeout,
            outer_ip: self.outer_ip,
        }
    }

    /// What the dial loop does on `event`.
    pub open spec fn dial_step(self, event: DialEvent) -> DialStep {
        match event {
            DialEvent::Cancelled | DialEvent::SourceClosed => DialStep::Exit,
            DialEvent::Peer(peer) => if self.dials(peer) {
                DialStep::Dial(peer)
            } else {
                DialStep::Skip(peer)
            },
        }
    }

    /// The supervisor after the dial loop took `event`.
    pub open spec fn after_dial(self, event: DialEvent) -> NodeView {
        match self.dial_step(event) {
            DialStep::Dial(peer) => self.with(peer),
            _ => self,
        }
    }

    /// What the accept loop does on `event`.
    pub open spec fn accept_step(self, event: AcceptEvent) -> AcceptStep {
        match event {
            AcceptEvent::Cancelled => AcceptStep::Exit,
            AcceptEvent::Failed => AcceptStep::Fail,
            AcceptEvent::Incoming(peer) => if self.serves(peer) {
                AcceptStep::Serve(peer)
            } else {
                AcceptStep::Reject(peer)
            },
        }
    }

    /// The supervisor after the accept loop took `event`.
    pub open spec fn after_accept(self, event: AcceptEvent) -> NodeView {
        match self.accept_step(event) {
            AcceptStep::Serve(peer) => self.with(peer),
            _ => self,
        }
    }
}

/// The supervisor of a node's sessions.
pub struct Node {
    connected: ConnectionRegistry,
    timeout: u128,
    outer_ip: PeerIp,
}

impl View for Node {
    type V = NodeView;

    closed spec fn view(&self) -> NodeView {
        NodeView { connected: self.connected@, timeout: self.timeout, outer_ip: self.outer_ip }
    }
}

impl Node {
    /// The registry holds each peer once. Every supervisor that this module
    /// hands out is well formed, and every operation keeps it so.
    pub closed spec fn wf(&self) -> bool {
        self.connected.wf()
    }

    /// A supervisor with no session yet.
    pub fn new(timeout: u128, outer_ip: PeerIp) -> (node: Node)
        ensures
            node.wf(),
            node@ == (NodeView { connected: Set::<PeerAddr>::empty(), timeout, outer_ip }),
    {
        Node { connected: ConnectionRegistry::new(), timeout, outer_ip }
    }

    /// One turn of the dial loop. A candidate is dialled, and entered in the
    /// registry, unless it is this node's own address or already has a session.
    pub fn dial_step(&mut self, event: DialEvent) -> (step: DialStep)
        requires
            old(self).wf(),
        ensures
            final(self).wf(),
            step == old(self)@.dial_step(event),
            final(self)@ == old(self)@.after_dial(event),
    {
        match event {
            DialEvent::Cancelled | DialEvent::SourceClosed => DialStep::Exit,
            DialEvent::Peer(peer) => {
                if peer.ip() == self.outer_ip {
                    DialStep::Skip(peer)
                } else if self.connected.try_insert(peer) {
                    DialStep::Dial(peer)
                } else {
                    assert(self.connected@ == old(self).connected@);
                    DialStep::Skip(peer)
                }
            },
        }
    }

    /// One turn of the accept loop. The first connection from an address wins:
    /// a peer that already has a session is turned away.
    pub fn accept_step(&mut self, event: AcceptEvent) -> (step: AcceptStep)
        requires
            old(self).wf(),
        ensures
            final(self).wf(),
            step == old(self)@.accept_step(event),
            final(self)@ == old(self)@.after_accept(event),
    {
        match event {
            AcceptEvent::Cancelled => AcceptStep::Exit,
            AcceptEvent::Failed => AcceptStep::Fail,
            AcceptEvent::Incoming(peer) => {
                if self.connected.try_insert(peer) {
                    AcceptStep::Serve(peer)
                } else {
                    assert(self.connected@ == old(self).connected@);
                    AcceptStep::Reject(peer)
                }
            },
        }
    }

    /// Frees the address of a session that has ended.
    pub fn release(&mut self, peer: PeerAddr)
        requires
            old(self).wf(),
        ensures
            final(self).wf(),
            final(self)@ == old(self)@.without(peer),
    {
        self.connected.remove(peer);
    }

    /// Whether `peer` has a session.
    pub fn is_connected(&self, peer: PeerAddr) -> (held: bool)
        ensures
            held == self@.connected.contains(peer),
    {
        self.connected.contains(peer)
    }

    /// The number of peers that have a session.
    pub fn connected_count(&self) -> (count: usize)
        requires
            self.wf(),
        ensures
            self@.connected.finite(),
            count == self@.connected.len(),
    {
        self.connected.len()
    }

    /// The idle timeout given to every session.
    pub fn timeout(&self) -> (timeout: u128)
        ensures
            timeout == self@.timeout,
    {
        self.timeout
    }

    /// The address under which this node is known to others.
    pub fn outer_ip(&self) -> (ip: PeerIp)
        ensures
            ip == self@.outer_ip,
    {
        self.outer_ip
    }
}

/// Something that happens to a supervisor.
pub enum Happening {
    /// The dial loop took an event.
    Dial(DialEvent),
    /// The accept loop took an event.
    Accept(AcceptEvent),
    /// A session to this address ended and freed its address.
    Ended(PeerAddr),
}

/// A supervisor together with the sessions that it started and that have not
/// ended, each counted as often as it is live.
pub struct Supervised {
    pub node: NodeView,
    pub live: Multiset<PeerAddr>,
}

impl Supervised {
    /// The registry and the live sessions agree: an address with a session is
    /// held, and an address that is held has exactly one session.
    pub open spec fn balanced(self) -> bool {
        forall|peer: PeerAddr| #[trigger]
            self.live.count(peer) == if self.node.connected.contains(peer) {
                1nat
            } else {
                0nat
            }
    }

    /// Whether `happening` may come next: a session can end only while it is
    /// live.
    pub open spec fn allows(self, happening: Happening) -> bool {
        match happening {
            Happening::Ended(peer) => self.live.count(peer) > 0,
            _ => true,
        }
    }

    /// The supervisor and its live sessions after `happening`.
    pub open spec fn after(self, happening: Happening) -> Supervised {
        match happening {
            Happening::Dial(event) => Supervised {
                node: self.node.after_dial(event),
                live: match self.node.dial_step(event) {
                    DialStep::Dial(peer) => self.live.insert(peer),
                    _ => self.live,
                },
            },
            Happening::Accept(event) => Supervised {
                node: self.node.after_accept(event),
                live: match self.node.accept_step(event) {
                    AcceptStep::Serve(peer) => self.live.insert(peer),
                    _ => self.live,
                },
            },
            Happening::Ended(peer) => Supervised {
                node: self.node.without(peer),
                live: self.live.remove(peer),
            },
        }
    }

    /// The supervisor and its live sessions after a whole history.
    pub open spec fn after_all(self, history: Seq<Happening>) -> Supervised
        decreases history.len(),
    {
        if history.len() == 0 {
            self
        } else {
            self.after_all(history.drop_last()).after(history.last())
        }
    }

    /// Whether every step of `history` may come when it does.
    pub open spec fn allows_all(self, history: Seq<Happening>) -> bool
        decreases history.len(),
    {
        history.len() > 0 ==> self.allows_all(history.drop_last()) && self.after_all(
            history.drop_last(),
        ).allows(history.last())
    }
}

/// A supervisor that has started nothing yet is in balance with its registry.
pub proof fn lemma_fresh_node_is_balanced(timeout: u128, outer_ip: PeerIp)
    ensures
        (Supervised {
            node: NodeView { connected: Set::<PeerAddr>::empty(), timeout, outer_ip },
            live: Multiset::<PeerAddr>::empty(),
        }).balanced(),
{
}

/// One step keeps the registry and the live sessions in balance.
pub proof fn lemma_step_keeps_balance(s: Supervised, happening: Happening)
    requires
        s.balanced(),
        s.allows(happening),
    ensures
        s.after(happening).balanced(),
{
    let t = s.after(happening);
    assert forall|peer: PeerAddr| #[trigger]
        t.live.count(peer) == if t.node.connected.contains(peer) {
            1nat
        } else {
            0nat
        } by {
        assert(s.live.count(peer) == if s.node.connected.contains(peer) {
            1nat
        } else {
            0nat
        });
        match happening {
            Happening::Ended(gone) => {
                assert(s.live.count(gone) == if s.node.connected.contains(gone) {
                    1nat
                } else {
                    0nat
                });
            },
            _ => {},
        }
    }
}

/// However the dial loop, the accept loop and ending sessions interleave, no
/// address ever has more than one live session, an address is held by the
/// registry exactly while its session is live, and so the registry is empty
/// again once every session has ended.
pub proof fn lemma_one_session_per_address(s: Supervised, history: Seq<Happening>)
    requires
        s.balanced(),
        s.allows_all(history),
    ensures
        s.after_all(history).balanced(),
        forall|peer: PeerAddr| #[trigger] s.after_all(history).live.count(peer) <= 1,
        s.after_all(history).live =~= Multiset::<PeerAddr>::empty() ==> s.after_all(
            history,
        ).node.connected =~= Set::<PeerAddr>::empty(),
    decreases history.len(),
{
    if history.len() > 0 {
        lemma_one_session_per_address(s, history.drop_last());
        lemma_step_keeps_balance(s.after_all(history.drop_last()), history.last());
    }
    let t = s.after_all(history);
    assert forall|peer: PeerAddr| #[trigger] t.live.count(peer) <= 1 by {
        assert(t.live.count(peer) == if t.node.connected.contains(peer) {
            1nat
        } else {
            0nat
        });
    }
    if t.live =~= Multiset::<PeerAddr>::empty() {
        assert forall|peer: PeerAddr| !t.node.connected.contains(peer) by {
            assert(t.live.count(peer) == if t.node.connected.contains(peer) {
                1nat
            } else {
                0nat
            });
        }
    }
}

/// Of two attempts on one address with no session ending in between, whichever
/// loops they come from and in whichever order, at most one starts a session;
/// and when the address was free and is not this node's own, the first does.
pub proof fn lemma_first_attempt_wins(node: NodeView, peer: PeerAddr)
    ensures
        node.after_accept(AcceptEvent::Incoming(peer)).accept_step(AcceptEvent::Incoming(peer))
            == AcceptStep::Reject(peer),
        node.after_accept(AcceptEvent::Incoming(peer)).dial_step(DialEvent::Peer(peer))
            == DialStep::Skip(peer),
        node.dial_step(DialEvent::Peer(peer)) == DialStep::Dial(peer) ==> node.after_dial(
            DialEvent::Peer(peer),
        ).accept_step(AcceptEvent::Incoming(peer)) == AcceptStep::Reject(peer),
        node.after_dial(DialEvent::Peer(peer)).dial_step(DialEvent::Peer(peer)) == DialStep::Skip(
            peer,
        ),
        node.serves(peer) ==> node.accept_step(AcceptEvent::Incoming(peer)) == AcceptStep::Serve(
            peer,
        ),
        node.dials(peer) ==> node.dial_step(DialEvent::Peer(peer)) == DialStep::Dial(peer),
{
}

} // verus!
