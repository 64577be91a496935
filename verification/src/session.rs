//! The life of one peer connection, as a state machine.
//!
//! A session decides; its driver acts. The driver owns the socket, the timers and
//! the read task. It reports what happened as an [`Event`], and the session
//! answers with the one [`Action`] to perform next. Times are nanoseconds on a
//! clock of the driver's choosing.

use vstd::prelude::*;

use crate::address::PeerAddr;
use crate::models::requests::Request;
use crate::models::responses::Response;
use crate::models::Packet;

verus! {

/// Which side opened the connection.
#[derive(Clone, Copy, Debug, PartialEq, Eq, Structural)]
pub enum Direction {
    Inbound,
    Outbound,
}

/// Where a session stands. A session only ever moves forward through these.
#[derive(Clone, Copy, Debug, PartialEq, Eq, Structural)]
pub enum SessionState {
    /// An outbound dial is in flight.
    Connecting,
    /// The connection carries traffic.
    Established,
    /// Nothing is sent any more; the read task is being stopped.
    Draining,
    /// The session is over and its address is free again.
    Closed,
}

/// What the driver reports to the session.
#[derive(Clone, Copy, Debug, PartialEq, Eq, Structural)]
pub enum Event {
    /// The dial succeeded.
    Connected,
    /// The dial was refused or failed.
    ConnectFailed,
    /// The dial did not finish within the timeout.
    ConnectTimedOut,
    /// The half-period heartbeat timer fired.
    Heartbeat,
    /// The read task delivered a packet.
    Inbound(Packet),
    /// The read task ended and closed the inbound queue.
    InboundClosed,
    /// Writing to the socket failed.
    WriteFailed,
    /// The shutdown signal was observed.
    Cancelled,
    /// The read task has been stopped and joined.
    Drained,
}

/// What the session asks its driver to do.
#[derive(Clone, Copy, Debug, PartialEq, Eq, Structural)]
pub enum Action {
    /// Dial the session's address, bounded by its timeout.
    Connect,
    /// Start the read task and send this first packet.
    Open(Packet),
    /// Send this packet.
    Send(Packet),
    /// This packet is of a kind that is not served yet: say so, and carry on.
    Unsupported(Packet),
    /// Nothing to do.
    Wait,
    /// Stop sending, then stop and join the read task.
    Drain,
    /// Remove the session's address from the registry of connected peers.
    Release,
}

/// What the read task sees.
#[derive(Clone, Copy, Debug, PartialEq, Eq, Structural)]
pub enum ReadEvent {
    /// A whole frame was decoded.
    Packet(Packet),
    /// Reading or decoding failed.
    Failed,
    /// The peer closed the stream.
    EndOfStream,
    /// No frame arrived within the timeout.
    IdleTimeout,
    /// The shutdown signal was observed.
    Cancelled,
    /// The session no longer takes packets.
    QueueClosed,
}

/// What the read task does next.
#[derive(Clone, Copy, Debug, PartialEq, Eq, Structural)]
pub enum ReadAction {
    /// Hand the packet to the session and keep reading.
    Forward(Packet),
    /// End the read task.
    Stop,
}

/// The liveness probe: a ping request with correlation id 0.
pub open spec fn spec_probe() -> Packet {
    Packet::Request(Request::Ping { id: 0 })
}

/// The action that answers an inbound packet on an established session.
pub open spec fn spec_reply(packet: Packet) -> Action {
    match packet {
        Packet::Request(Request::Ping { id }) => Action::Send(
            Packet::Response(Response::Ping { id }),
        ),
        Packet::Response(Response::Ping { id }) => Action::Wait,
        _ => Action::Unsupported(packet),
    }
}

/// What the read task does on an event: it forwards packets and stops on
/// everything else.
pub open spec fn spec_read_step(event: ReadEvent) -> ReadAction {
    match event {
        ReadEvent::Packet(packet) => ReadAction::Forward(packet),
        _ => ReadAction::Stop,
    }
}

/// Half of the idle timeout: the period at which probes are sent, so that a
/// quiet but healthy connection never reaches the peer's timeout.
pub open spec fn spec_heartbeat_interval(timeout: u128) -> u128 {
    timeout / 2
}

/// The mathematical value of a session.
pub struct SessionView {
    pub address: PeerAddr,
    pub direction: Direction,
    pub state: SessionState,
    /// The idle timeout, in nanoseconds.
    pub timeout: u128,
    /// When traffic last arrived.
    pub last_activity: u128,
    /// Probes sent and not yet answered.
    pub outstanding_pings: u64,
}

impl SessionView {
    /// The action with which the session answers `event`.
    pub open spec fn reaction(self, event: Event) -> Action {
        match self.state {
            SessionState::Connecting => match event {
                Event::Connected => Action::Open(spec_probe()),
                Event::ConnectFailed | Event::ConnectTimedOut | Event::Cancelled => Action::Release,
                _ => Action::Wait,
            },
            SessionState::Established => match event {
                Event::Heartbeat => Action::Send(spec_probe()),
                Event::Inbound(packet) => spec_reply(packet),
                Event::InboundClosed | Event::WriteFailed | Event::Cancelled => Action::Drain,
                _ => Action::Wait,
            },
            SessionState::Draining => match event {
                Event::Drained => Action::Release,
                _ => Action::Wait,
            },
            SessionState::Closed => Action::Wait,
        }
    }

    /// The state in which `event` leaves the session.
    pub open spec fn next_state(self, event: Event) -> SessionState {
        match self.reaction(event) {
            Action::Open(_) => SessionState::Established,
            Action::Drain => SessionState::Draining,
            Action::Release => SessionState::Closed,
            _ => self.state,
        }
    }

    /// The number of unanswered probes after `event`: one more for each probe
    /// sent, one fewer for each ping response, within the bounds of the counter.
    pub open spec fn next_outstanding(self, event: Event) -> u64 {
        if self.reaction(event) == Action::Open(spec_probe()) || self.reaction(event)
            == Action::Send(spec_probe()) {
            if self.outstanding_pings < u64::MAX {
                (self.outstanding_pings + 1) as u64
            } else {
                self.outstanding_pings
            }
        } else if self.state == SessionState::Established && event matches Event::Inbound(
            Packet::Response(Response::Ping { id }),
        ) {
            if self.outstanding_pings > 0 {
                (self.outstanding_pings - 1) as u64
            } else {
                self.outstanding_pings
            }
        } else {
            self.outstanding_pings
        }
    }

    /// When traffic last arrived, after `event` was reported at time `now`.
    pub open spec fn next_activity(self, event: Event, now: u128) -> u128 {
        if self.state == SessionState::Established && event is Inbound {
            now
        } else {
            self.last_activity
        }
    }

    /// The session after `event` was reported at time `now`.
    pub open spec fn after(self, event: Event, now: u128) -> SessionView {
        SessionView {
            address: self.address,
            direction: self.direction,
            state: self.next_state(event),
            timeout: self.timeout,
            last_activity: self.next_activity(event, now),
            outstanding_pings: self.next_outstanding(event),
        }
    }

    /// Whether no traffic has arrived for the whole timeout, as seen at `now`.
    pub open spec fn idle_at(self, now: u128) -> bool {
        now >= self.last_activity && now - self.last_activity >= self.timeout
    }
}

/// The state of one peer connection.
pub struct Session {
    address: PeerAddr,
    direction: Direction,
    state: SessionState,
    timeout: u128,
    last_activity: u128,
    outstanding_pings: u64,
}

impl View for Session {
    type V = SessionView;

    closed spec fn view(&self) -> SessionView {
        SessionView {
            address: self.address,
            direction: self.direction,
            state: self.state,
            timeout: self.timeout,
            last_activity: self.last_activity,
            outstanding_pings: self.outstanding_pings,
        }
    }
}

/// The liveness probe.
pub fn probe() -> (packet: Packet)
    ensures
        packet == spec_probe(),
{
    Packet::Request(Request::Ping { id: 0 })
}

/// Decides how an established session answers an inbound packet: a ping request
/// is echoed with its correlation id, a ping response needs no answer, and every
/// other kind is reported as unsupported.
pub fn reply(packet: Packet) -> (action: Action)
    ensures
        action == spec_reply(packet),
{
    match packet {
        Packet::Request(Request::Ping { id }) => Action::Send(
            Packet::Response(Response::Ping { id }),
        ),
        Packet::Response(Response::Ping { id }) => Action::Wait,
        _ => Action::Unsupported(packet),
    }
}

/// One step of the read task: a decoded packet is forwarded; a failure, the end
/// of the stream, the idle timeout, shutdown or a closed queue end the task.
pub fn read_step(event: ReadEvent) -> (action: ReadAction)
    ensures
        action == spec_read_step(event),
{
    match event {
        ReadEvent::Packet(packet) => ReadAction::Forward(packet),
        _ => ReadAction::Stop,
    }
}

impl Session {
    /// Begins an outbound session: it is connecting, and the driver is asked to
    /// dial.
    pub fn dial(address: PeerAddr, timeout: u128, now: u128) -> (r: (Session, Action))
        ensures
            r.0@ == (SessionView {
                address,
                direction: Direction::Outbound,
                state: SessionState::Connecting,
                timeout,
                last_activity: now,
                outstanding_pings: 0,
            }),
            r.1 == Action::Connect,
    {
        (
            Session {
                address,
                direction: Direction::Outbound,
                state: SessionState::Connecting,
                timeout,
                last_activity: now,
                outstanding_pings: 0,
            },
            Action::Connect,
        )
    }

    /// Begins an inbound session: it is established at once, and the driver is
    /// asked to start reading and to send the first probe.
    pub fn accept(address: PeerAddr, timeout: u128, now: u128) -> (r: (Session, Action))
        ensures
            r.0@ == (SessionView {
                address,
                direction: Direction::Inbound,
                state: SessionState::Established,
                timeout,
                last_activity: now,
                outstanding_pings: 1,
            }),
            r.1 == Action::Open(spec_probe()),
    {
        (
            Session {
                address,
                direction: Direction::Inbound,
                state: SessionState::Established,
                timeout,
                last_activity: now,
                outstanding_pings: 1,
            },
            Action::Open(probe()),
        )
    }

    /// Takes one event, reported at time `now`, and returns what to do next.
    pub fn handle(&mut self, event: Event, now: u128) -> (action: Action)
        ensures
            action == old(self)@.reaction(event),
            final(self)@ == old(self)@.after(event, now),
    {
        match self.state {
            SessionState::Connecting => match event {
                Event::Connected => {
                    self.state = SessionState::Established;
                    self.count_probe();
                    Action::Open(probe())
                },
                Event::ConnectFailed | Event::ConnectTimedOut | Event::Cancelled => {
                    self.state = SessionState::Closed;
                    Action::Release
                },
                _ => Action::Wait,
            },
            SessionState::Established => match event {
                Event::Heartbeat => {
                    self.count_probe();
                    Action::Send(probe())
                },
                Event::Inbound(packet) => {
                    self.last_activity = now;
                    match packet {
                        Packet::Response(Response::Ping { id }) => {
                            self.count_answer();
                        },
                        _ => {},
                    }
                    reply(packet)
                },
                Event::InboundClosed | Event::WriteFailed | Event::Cancelled => {
                    self.state = SessionState::Draining;
                    Action::Drain
                },
                _ => Action::Wait,
            },
            SessionState::Draining => match event {
                Event::Drained => {
                    self.state = SessionState::Closed;
                    Action::Release
                },
                _ => Action::Wait,
            },
            SessionState::Closed => Action::Wait,
        }
    }

    /// Counts a probe that is being sent.
    fn count_probe(&mut self)
        ensures
            final(self).outstanding_pings == if old(self).outstanding_pings < u64::MAX {
                (old(self).outstanding_pings + 1) as u64
            } else {
                old(self).outstanding_pings
            },
            final(self).address == old(self).address,
            final(self).direction == old(self).direction,
            final(self).state == old(self).state,
            final(self).timeout == old(self).timeout,
            final(self).last_activity == old(self).last_activity,
    {
        if self.outstanding_pings < u64::MAX {
            self.outstanding_pings = self.outstanding_pings + 1;
        }
    }

    /// Counts the answer to a probe.
    fn count_answer(&mut self)
        ensures
            final(self).outstanding_pings == if old(self).outstanding_pings > 0 {
                (old(self).outstanding_pings - 1) as u64
            } else {
                old(self).outstanding_pings
            },
            final(self).address == old(self).address,
            final(self).direction == old(self).direction,
            final(self).state == old(self).state,
            final(self).timeout == old(self).timeout,
            final(self).last_activity == old(self).last_activity,
    {
        if self.outstanding_pings > 0 {
            self.outstanding_pings = self.outstanding_pings - 1;
        }
    }

    /// The peer's endpoint.
    pub fn address(&self) -> (r: PeerAddr)
        ensures
            r == self@.address,
    {
        self.address
    }

    /// Which side opened the connection.
    pub fn direction(&self) -> (r: Direction)
        ensures
            r == self@.direction,
    {
        self.direction
    }

    /// Where the session stands.
    pub fn state(&self) -> (r: SessionState)
        ensures
            r == self@.state,
    {
        self.state
    }

    /// The idle timeout.
    pub fn timeout(&self) -> (r: u128)
        ensures
            r == self@.timeout,
    {
        self.timeout
    }

    /// When traffic last arrived.
    pub fn last_activity(&self) -> (r: u128)
        ensures
            r == self@.last_activity,
    {
        self.last_activity
    }

    /// Probes sent and not yet answered.
    pub fn outstanding_pings(&self) -> (r: u64)
        ensures
            r == self@.outstanding_pings,
    {
        self.outstanding_pings
    }

    /// The period of the heartbeat timer: half the idle timeout.
    pub fn heartbeat_interval(&self) -> (r: u128)
        ensures
            r == spec_heartbeat_interval(self@.timeout),
    {
        self.timeout / 2
    }

    /// Whether the connection has been silent for the whole timeout at `now`.
    pub fn is_idle(&self, now: u128) -> (r: bool)
        ensures
            r == self@.idle_at(now),
    {
        now >= self.last_activity && now - self.last_activity >= self.timeout
    }
}

/// How far along its life a session is.
pub open spec fn spec_progress(state: SessionState) -> nat {
    match state {
        SessionState::Connecting => 0,
        SessionState::Established => 1,
        SessionState::Draining => 2,
        SessionState::Closed => 3,
    }
}

/// The session after a run of events, each with the time at which it was reported.
pub open spec fn spec_run(start: SessionView, events: Seq<(Event, u128)>) -> SessionView
    decreases events.len(),
{
    if events.len() == 0 {
        start
    } else {
        spec_run(start, events.drop_last()).after(events.last().0, events.last().1)
    }
}

/// How many times the session asked for its address to be released during a run.
pub open spec fn spec_releases(start: SessionView, events: Seq<(Event, u128)>) -> nat
    decreases events.len(),
{
    if events.len() == 0 {
        0
    } else {
        let before = spec_run(start, events.drop_last());
        let earlier = spec_releases(start, events.drop_last());
        if before.reaction(events.last().0) == Action::Release {
            earlier + 1
        } else {
            earlier
        }
    }
}

/// A session never moves backwards, and it keeps its address, direction and
/// timeout for life.
pub proof fn lemma_session_moves_forward(s: SessionView, event: Event, now: u128)
    ensures
        spec_progress(s.state) <= spec_progress(s.after(event, now).state),
        s.after(event, now).address == s.address,
        s.after(event, now).direction == s.direction,
        s.after(event, now).timeout == s.timeout,
{
}

/// A closed session stays closed, whatever is reported to it, and asks for
/// nothing more.
pub proof fn lemma_closed_is_final(s: SessionView, event: Event, now: u128)
    requires
        s.state == SessionState::Closed,
    ensures
        s.reaction(event) == Action::Wait,
        s.after(event, now) == s,
{
}

/// A session sends only while established, opens only out of connecting, and
/// asks for its release exactly when it closes.
pub proof fn lemma_actions_fit_states(s: SessionView, event: Event, now: u128)
    ensures
        s.reaction(event) is Send ==> s.state == SessionState::Established,
        s.reaction(event) is Unsupported ==> s.state == SessionState::Established,
        s.reaction(event) is Open ==> s.state == SessionState::Connecting,
        s.reaction(event) != Action::Connect,
        s.reaction(event) == Action::Release <==> s.state != SessionState::Closed && s.after(
            event,
            now,
        ).state == SessionState::Closed,
{
}

/// An established session echoes every ping request with the same correlation
/// id, at once and without a change of state.
pub proof fn lemma_ping_is_echoed(s: SessionView, id: u32, now: u128)
    requires
        s.state == SessionState::Established,
    ensures
        s.reaction(Event::Inbound(Packet::Request(Request::Ping { id }))) == Action::Send(
            Packet::Response(Response::Ping { id }),
        ),
        s.after(Event::Inbound(Packet::Request(Request::Ping { id })), now).state
            == SessionState::Established,
{
}

/// A request of a kind that is not served is reported as unsupported, and the
/// session goes on.
pub proof fn lemma_unserved_request_is_reported(s: SessionView, request: Request, now: u128)
    requires
        s.state == SessionState::Established,
        !(request is Ping),
    ensures
        s.reaction(Event::Inbound(Packet::Request(request))) == Action::Unsupported(
            Packet::Request(request),
        ),
        s.after(Event::Inbound(Packet::Request(request)), now).state == SessionState::Established,
{
}

/// Over any run of events a session asks for its release at most once: exactly
/// once if the run ends with the session closed, and never if it was closed
/// from the start or is still open at the end.
pub proof fn lemma_released_exactly_once(start: SessionView, events: Seq<(Event, u128)>)
    ensures
        spec_releases(start, events) <= 1,
        start.state == SessionState::Closed ==> spec_releases(start, events) == 0 && spec_run(
            start,
            events,
        ) == start,
        start.state != SessionState::Closed ==> (spec_releases(start, events) == 1 <==> spec_run(
            start,
            events,
        ).state == SessionState::Closed),
        spec_run(start, events).address == start.address,
    decreases events.len(),
{
    if events.len() > 0 {
        let earlier = events.drop_last();
        lemma_released_exactly_once(start, earlier);
        let before = spec_run(start, earlier);
        lemma_actions_fit_states(before, events.last().0, events.last().1);
        lemma_session_moves_forward(before, events.last().0, events.last().1);
        if before.state == SessionState::Closed {
            lemma_closed_is_final(before, events.last().0, events.last().1);
        }
    }
}

/// Shutdown ends every session: whatever state a session is in, once it is
/// told of the cancellation and then that its read task is joined, it is
/// closed, and it has asked for its release exactly once on the way unless it
/// was closed before.
pub proof fn lemma_shutdown_closes(start: SessionView, cancelled_at: u128, drained_at: u128)
    ensures
        ({
            let shutdown = seq![(Event::Cancelled, cancelled_at), (Event::Drained, drained_at)];
            &&& spec_run(start, shutdown).state == SessionState::Closed
            &&& spec_releases(start, shutdown) == if start.state == SessionState::Closed {
                0nat
            } else {
                1nat
            }
        }),
{
    let shutdown = seq![(Event::Cancelled, cancelled_at), (Event::Drained, drained_at)];
    let first = shutdown.drop_last();
    assert(first.len() == 1);
    assert(first.last() == (Event::Cancelled, cancelled_at));
    assert(first.drop_last().len() == 0);
    assert(spec_run(start, first.drop_last()) == start);
    assert(spec_run(start, first) == start.after(Event::Cancelled, cancelled_at));
    assert(shutdown.last() == (Event::Drained, drained_at));
    lemma_released_exactly_once(start, shutdown);
}

} // verus!
