//! The per-connection replication lifecycle, server side.
//!
//! A connection is accepted (`Connecting`), immediately enters `LoggingIn`
//! when its entity is created, receives the one full-world snapshot burst and
//! becomes `Established` (incremental diffs only), and ends `Disconnected` on
//! socket error or logoff. The snapshot burst happens once, at entry to
//! `Established` (`lemma_snapshot_exactly_once`).

use vstd::prelude::*;

verus! {

/// Where a connection stands in the replication lifecycle.
#[derive(Clone, Copy, Debug, PartialEq, Eq, Structural)]
pub enum ConnState {
    /// Socket accepted, no entity yet.
    Connecting,
    /// Entity created; the full-world snapshot is still pending.
    LoggingIn,
    /// Snapshot delivered; receives only incremental diffs.
    Established,
    /// Terminal; the connection's entity is marked dead.
    Disconnected,
}

/// What can happen to a connection.
#[derive(Clone, Copy, Debug, PartialEq, Eq, Structural)]
pub enum ConnEvent {
    /// The connection's entity was created on accept.
    Accepted,
    /// The full-world snapshot for this connection went out this tick.
    SnapshotSent,
    /// The socket failed or closed.
    SocketError,
    /// The client logged off explicitly.
    Logoff,
}

/// One lifecycle transition: the next state, and whether this transition
/// delivers the full-snapshot burst. Events that do not apply in the current
/// state (a duplicate accept, a snapshot for an established connection) are
/// ignored silently.
pub open spec fn spec_step(s: ConnState, e: ConnEvent) -> (ConnState, bool) {
    match e {
        ConnEvent::Accepted => match s {
            ConnState::Connecting => (ConnState::LoggingIn, false),
            _ => (s, false),
        },
        ConnEvent::SnapshotSent => match s {
            ConnState::LoggingIn => (ConnState::Established, true),
            _ => (s, false),
        },
        ConnEvent::SocketError => (ConnState::Disconnected, false),
        ConnEvent::Logoff => (ConnState::Disconnected, false),
    }
}

/// The state after a sequence of events.
pub open spec fn run_trace(s: ConnState, events: Seq<ConnEvent>) -> ConnState
    decreases events.len(),
{
    if events.len() == 0 {
        s
    } else {
        run_trace(spec_step(s, events[0]).0, events.drop_first())
    }
}

/// How many snapshot bursts a sequence of events delivers.
pub open spec fn snapshot_count(s: ConnState, events: Seq<ConnEvent>) -> nat
    decreases events.len(),
{
    if events.len() == 0 {
        0
    } else {
        (if spec_step(s, events[0]).1 {
            1nat
        } else {
            0nat
        }) + snapshot_count(spec_step(s, events[0]).0, events.drop_first())
    }
}

/// Law: over any sequence of events, a connection receives at most one
/// full-snapshot burst; a connection that is `Established` received exactly
/// one (the `LoggingIn` to `Established` transition fires exactly once); and
/// `Disconnected` is terminal.
pub proof fn lemma_snapshot_exactly_once(s: ConnState, events: Seq<ConnEvent>)
    ensures
        snapshot_count(s, events) <= (match s {
            ConnState::Established => 0int,
            ConnState::Disconnected => 0int,
            _ => 1int,
        }),
        s is Disconnected ==> run_trace(s, events) is Disconnected,
        run_trace(s, events) is Established ==> snapshot_count(s, events) == (
        if s is Established {
            0int
        } else {
            1int
        }),
    decreases events.len(),
{
    if events.len() > 0 {
        lemma_snapshot_exactly_once(spec_step(s, events[0]).0, events.drop_first());
    }
}

/// One server-side connection: its address (an opaque transport identifier),
/// the entity standing for it in the world once login has begun, and its
/// lifecycle state.
#[derive(Clone, Copy, Debug, PartialEq, Eq, Structural)]
pub struct Connection {
    pub addr: u64,
    pub ent: Option<u32>,
    pub state: ConnState,
}

impl Connection {
    /// A freshly accepted connection.
    pub fn accept(addr: u64) -> (r: Connection)
        ensures
            r == (Connection { addr, ent: Option::<u32>::None, state: ConnState::Connecting }),
    {
        Connection { addr, ent: None, state: ConnState::Connecting }
    }

    /// Apply one lifecycle event; returns whether the full-snapshot burst is
    /// owed to this connection now.
    pub fn step(&mut self, e: ConnEvent) -> (burst: bool)
        ensures
            final(self).state == spec_step(old(self).state, e).0,
            burst == spec_step(old(self).state, e).1,
            final(self).addr == old(self).addr,
            final(self).ent == old(self).ent,
    {
        let (next, burst) = match e {
            ConnEvent::Accepted => match self.state {
                ConnState::Connecting => (ConnState::LoggingIn, false),
                s => (s, false),
            },
            ConnEvent::SnapshotSent => match self.state {
                ConnState::LoggingIn => (ConnState::Established, true),
                s => (s, false),
            },
            ConnEvent::SocketError => (ConnState::Disconnected, false),
            ConnEvent::Logoff => (ConnState::Disconnected, false),
        };
        self.state = next;
        burst
    }
}

} // verus!
