//! The relay engine: readiness events in, dispatch decisions out.
//!
//! The engine owns one relay target per forwarding rule and a fixed pool of
//! attendants. A readiness event for a target yields exactly one unit of
//! work — accept one stream connection or receive one datagram — hands it to
//! the attendant the round-robin policy picks, and re-arms interest in the
//! target, so one busy target cannot starve the others. The sockets, the
//! poller and the threads live outside the library; this module makes the
//! decisions they carry out.

use vstd::prelude::*;
use crate::addr::SocketAddress;
use crate::counter::next_position;
use crate::door::{CallError, ClientRef};
use crate::plan::RelayProtocol;

verus! {

/// One forwarding rule the engine serves: a listen address, the protocol to
/// listen under, and the client handle of the backend door. Immutable after
/// construction.
#[derive(Clone, Copy, Debug, PartialEq, Eq, Structural)]
pub struct RelayTarget {
    pub address: SocketAddress,
    pub protocol: RelayProtocol,
    pub client: ClientRef,
}

impl RelayTarget {
    pub fn new(address: SocketAddress, protocol: RelayProtocol, client: ClientRef) -> (r:
        RelayTarget)
        ensures
            r == (RelayTarget { address, protocol, client }),
    {
        RelayTarget { address, protocol, client }
    }
}

/// The unit of work one readiness event yields.
#[derive(Clone, Copy, Debug, PartialEq, Eq, Structural)]
pub enum RelayWork {
    /// Accept one connection from a stream-oriented target.
    AcceptStream,
    /// Receive one datagram, remembering the sender's address for the
    /// response.
    ReceiveDatagram,
}

/// One dispatch decision: which target to serve, what to do on it, which
/// attendant gets the work, and whether to re-arm readiness interest.
#[derive(Clone, Copy, Debug, PartialEq, Eq, Structural)]
pub struct Dispatch {
    pub target: usize,
    pub attendant: usize,
    pub work: RelayWork,
    pub rearm: bool,
}

/// A worker identity: the backend client it calls, and the queue of
/// handed-off connections it has not served yet. When every attendant is
/// busy, new work waits in these queues rather than spawning threads: the
/// fixed pool is the admission control.
#[derive(Debug)]
pub struct DoorAttendant {
    client: ClientRef,
    queue: Vec<i32>,
}

/// How an attendant reacts to the outcome of one door call.
#[derive(Clone, Copy, Debug, PartialEq, Eq, Structural)]
pub enum AttendantDisposition {
    /// The call succeeded: take the next piece of work.
    Continue,
    /// The call failed: log the cause, drop the peer, and take the next
    /// piece of work. A failed call never stops an attendant.
    LogAndContinue,
}

impl DoorAttendant {
    /// The backend client this attendant calls.
    pub closed spec fn backend(&self) -> ClientRef {
        self.client
    }

    /// The handed-off connections waiting to be served, oldest first.
    pub closed spec fn pending(&self) -> Seq<i32> {
        self.queue@
    }

    /// A fresh attendant for one backend, with nothing handed off yet.
    pub fn new(client: ClientRef) -> (r: DoorAttendant)
        ensures
            r.backend() == client,
            r.pending() == Seq::<i32>::empty(),
    {
        DoorAttendant { client, queue: Vec::new() }
    }

    /// Hand one accepted connection off to this attendant. Work queues in
    /// arrival order; nothing is lost or reordered.
    pub fn send(&mut self, conn: i32)
        ensures
            final(self).backend() == old(self).backend(),
            final(self).pending() == old(self).pending().push(conn),
    {
        self.queue.push(conn);
    }

    /// Take the oldest handed-off connection, if any is waiting.
    pub fn take_next(&mut self) -> (r: Option<i32>)
        ensures
            final(self).backend() == old(self).backend(),
            old(self).pending().len() == 0 ==> r is None && final(self).pending() == old(self).pending(),
            old(self).pending().len() > 0 ==> r == Some(old(self).pending()[0])
                && final(self).pending() == old(self).pending().drop_first(),
    {
        if self.queue.len() == 0 {
            None
        } else {
            let conn = self.queue.remove(0);
            proof {
                assert(self.queue@ =~= old(self).queue@.drop_first());
            }
            Some(conn)
        }
    }

    /// How to go on after one door call: an attendant never exits over a
    /// single failed call; only process-fatal conditions stop it.
    pub fn disposition(outcome: &Result<(Vec<i32>, Vec<u8>), CallError>) -> (d:
        AttendantDisposition)
        ensures
            outcome is Ok ==> d == AttendantDisposition::Continue,
            outcome is Err ==> d == AttendantDisposition::LogAndContinue,
    {
        match outcome {
            Ok(_) => AttendantDisposition::Continue,
            Err(_) => AttendantDisposition::LogAndContinue,
        }
    }
}

/// What the network peer receives for one unit of relayed work.
#[derive(Debug, PartialEq)]
pub enum PeerAnswer {
    /// The backend replied: relay these bytes back to the peer.
    Respond(Vec<u8>),
    /// The backend could not be reached: there is nothing to relay, so the
    /// connection or datagram is simply dropped and the cause is logged.
    Drop,
}

/// Turn the outcome of one door call into the peer's answer: the backend's
/// bytes on success, a dropped connection on failure.
pub fn peer_answer(outcome: Result<(Vec<i32>, Vec<u8>), CallError>) -> (r: PeerAnswer)
    ensures
        outcome matches Ok(reply) ==> r == PeerAnswer::Respond(reply.1),
        outcome is Err ==> r == PeerAnswer::Drop,
{
    match outcome {
        Ok((_, bytes)) => PeerAnswer::Respond(bytes),
        Err(_) => PeerAnswer::Drop,
    }
}

/// The relay engine: the configured targets, the size of the attendant
/// pool, and the round-robin cursor that spreads work across it.
#[derive(Debug)]
pub struct RelayEngine {
    targets: Vec<RelayTarget>,
    attendants: usize,
    cursor: usize,
}

impl RelayEngine {
    /// The configured targets.
    pub closed spec fn spec_targets(&self) -> Seq<RelayTarget> {
        self.targets@
    }

    /// The size of the attendant pool.
    pub closed spec fn pool_size(&self) -> nat {
        self.attendants as nat
    }

    /// The round-robin position of the attendant that got work most
    /// recently.
    pub closed spec fn position(&self) -> nat {
        self.cursor as nat
    }

    pub open spec fn well_formed(&self) -> bool {
        self.position() <= self.pool_size()
    }

    /// An engine over the given targets, spreading work across a pool of
    /// `attendants` workers.
    pub fn new(targets: Vec<RelayTarget>, attendants: usize) -> (r: RelayEngine)
        requires
            attendants >= 1,
        ensures
            r.spec_targets() == targets@,
            r.pool_size() == attendants,
            r.well_formed(),
    {
        RelayEngine { targets, attendants, cursor: attendants }
    }

    /// The target at `index`.
    pub fn target(&self, index: usize) -> (r: Option<&RelayTarget>)
        ensures
            index < self.spec_targets().len() ==> r == Some(&self.spec_targets()[index as int]),
            index >= self.spec_targets().len() ==> r is None,
    {
        if index < self.targets.len() {
            Some(&self.targets[index])
        } else {
            None
        }
    }

    /// Decide what one readiness event means: for a known target, exactly
    /// one unit of work of the target's kind, handed to the attendant the
    /// round-robin policy picks next, with readiness interest re-armed; for
    /// an unknown target index, nothing.
    pub fn on_ready(&mut self, target_index: usize) -> (d: Option<Dispatch>)
        requires
            old(self).well_formed(),
            old(self).pool_size() >= 1,
        ensures
            final(self).spec_targets() == old(self).spec_targets(),
            final(self).pool_size() == old(self).pool_size(),
            final(self).well_formed(),
            target_index >= old(self).spec_targets().len() ==> d is None && final(self).position()
                == old(self).position(),
            target_index < old(self).spec_targets().len() ==> {
                &&& d matches Some(dispatch)
                &&& dispatch.target == target_index
                &&& dispatch.work == (match old(self).spec_targets()[target_index as int].protocol {
                    RelayProtocol::Tcp => RelayWork::AcceptStream,
                    RelayProtocol::Udp => RelayWork::ReceiveDatagram,
                })
                &&& dispatch.rearm
                &&& dispatch.attendant == next_position(old(self).position(), old(self).pool_size())
                &&& dispatch.attendant < old(self).pool_size()
                &&& final(self).position() == dispatch.attendant
            },
    {
        if target_index >= self.targets.len() {
            return None;
        }
        if self.cursor >= self.attendants - 1 {
            self.cursor = 0;
        } else {
            self.cursor = self.cursor + 1;
        }
        let work = match self.targets[target_index].protocol {
            RelayProtocol::Tcp => RelayWork::AcceptStream,
            RelayProtocol::Udp => RelayWork::ReceiveDatagram,
        };
        Some(Dispatch { target: target_index, attendant: self.cursor, work, rearm: true })
    }
}

} // verus!
