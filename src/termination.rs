//! Closing and draining: pacing of the CONNECTION_CLOSE packets sent in reply
//! to incoming packets, and the switch to silence.
use vstd::prelude::*;

use crate::clock::Clock;
use crate::error::Error;
use crate::frames::ConnectionCloseFrame;

verus! {

/// Packets received between two CONNECTION_CLOSE packets at most.
pub const CCF_EVERY_PACKETS: usize = 3;

/// Microseconds between two CONNECTION_CLOSE packets at most.
pub const CCF_EVERY_MICROS: u64 = 1_000_000;

/// Whether a CONNECTION_CLOSE packet is due for a packet received at `now`,
/// with `rcvd` packets received before it since the last one, sent at `last`.
pub open spec fn ccf_due(rcvd: usize, last: u64, now: u64) -> bool {
    rcvd + 1 >= CCF_EVERY_PACKETS || now > last + CCF_EVERY_MICROS
}

/// Keeps what is needed to answer incoming packets with the
/// CONNECTION_CLOSE frame while the connection is closing.
pub struct Terminator {
    last_send_time: u64,
    rcvd_packets: usize,
    ccf: ConnectionCloseFrame,
}

impl Terminator {
    /// When a CONNECTION_CLOSE packet was last sent, in microseconds.
    pub closed spec fn spec_last_send_time(&self) -> u64 {
        self.last_send_time
    }

    /// Packets received since then.
    pub closed spec fn spec_rcvd_packets(&self) -> usize {
        self.rcvd_packets
    }

    /// A terminator for `ccf`, made at `now`.
    pub fn new(ccf: ConnectionCloseFrame, now: u64) -> (r: Self)
        ensures
            r.spec_last_send_time() == now,
            r.spec_rcvd_packets() == 0,
    {
        Terminator { last_send_time: now, rcvd_packets: 0, ccf }
    }

    /// The CONNECTION_CLOSE frame to send.
    pub fn ccf(&self) -> &ConnectionCloseFrame {
        &self.ccf
    }

    /// Counts a packet received at `now` and says whether to answer it: after
    /// every third packet, or when more than a second passed since the last
    /// answer, whichever comes first. Answering resets the count and the time.
    pub fn should_send_at(&mut self, now: u64) -> (r: bool)
        ensures
            r == ccf_due(old(self).spec_rcvd_packets(), old(self).spec_last_send_time(), now),
            r ==> final(self).spec_rcvd_packets() == 0 && final(self).spec_last_send_time() == now,
            !r ==> final(self).spec_rcvd_packets() == old(self).spec_rcvd_packets() + 1
                && final(self).spec_last_send_time() == old(self).spec_last_send_time(),
    {
        let count = self.rcvd_packets.saturating_add(1);
        if count >= CCF_EVERY_PACKETS || (now > self.last_send_time && now - self.last_send_time
            > CCF_EVERY_MICROS) {
            self.last_send_time = now;
            self.rcvd_packets = 0;
            true
        } else {
            self.rcvd_packets = count;
            false
        }
    }

    /// As `should_send_at`, at the time `clock` reads.
    pub fn should_send(&mut self, clock: &Clock) -> (r: bool)
        ensures
            exists|now: u64|
                {
                    &&& r == #[trigger] ccf_due(old(self).spec_rcvd_packets(), old(self).spec_last_send_time(), now)
                    &&& r ==> final(self).spec_rcvd_packets() == 0 && final(self).spec_last_send_time() == now
                    &&& !r ==> final(self).spec_rcvd_packets() == old(self).spec_rcvd_packets() + 1
                        && final(self).spec_last_send_time() == old(self).spec_last_send_time()
                },
    {
        let now = clock.now();
        self.should_send_at(now)
    }
}

/// What the closing connection does with a packet it received.
#[derive(Debug, Clone, Copy, PartialEq, Eq, Structural)]
pub enum ClosingAction {
    /// The packet carried the peer's CONNECTION_CLOSE: the connection is closed.
    Closed,
    /// Answer with a packet carrying the CONNECTION_CLOSE frame.
    SendCcf,
    /// Stay silent for now.
    Ignore,
}

impl Terminator {
    /// Decides about a packet received at `now` while closing: if it carried
    /// the peer's CONNECTION_CLOSE the connection is closed and nothing is
    /// counted; otherwise it is counted as `should_send_at` does.
    pub fn on_packet_while_closing(&mut self, peer_closed: bool, now: u64) -> (r: ClosingAction)
        ensures
            peer_closed ==> r == ClosingAction::Closed && final(self).spec_rcvd_packets()
                == old(self).spec_rcvd_packets() && final(self).spec_last_send_time()
                == old(self).spec_last_send_time(),
            !peer_closed ==> (r == ClosingAction::SendCcf <==> ccf_due(
                old(self).spec_rcvd_packets(),
                old(self).spec_last_send_time(),
                now,
            )),
            !peer_closed ==> r != ClosingAction::Closed,
            !peer_closed && r == ClosingAction::SendCcf ==> final(self).spec_rcvd_packets() == 0
                && final(self).spec_last_send_time() == now,
            !peer_closed && r == ClosingAction::Ignore ==> final(self).spec_rcvd_packets()
                == old(self).spec_rcvd_packets() + 1 && final(self).spec_last_send_time()
                == old(self).spec_last_send_time(),
    {
        if peer_closed {
            ClosingAction::Closed
        } else if self.should_send_at(now) {
            ClosingAction::SendCcf
        } else {
            ClosingAction::Ignore
        }
    }
}

/// Whether a terminated connection still answers packets.
#[derive(Debug, Clone, Copy, PartialEq, Eq, Structural)]
pub enum TerminationState {
    /// Incoming packets are answered with the CONNECTION_CLOSE frame.
    Closing,
    /// Nothing is sent or received any more.
    Draining,
}

/// A terminated connection: the error it ended with, and its state.
#[derive(Debug, Clone, Copy)]
pub struct Termination {
    error: Error,
    state: TerminationState,
}

impl Termination {
    /// The state.
    pub closed spec fn spec_state(&self) -> TerminationState {
        self.state
    }

    /// The error the connection ended with.
    pub closed spec fn spec_error(&self) -> Error {
        self.error
    }

    /// A connection that closes because of `error`, still answering packets.
    pub fn closing(error: Error) -> (r: Self)
        ensures
            r.spec_state() == TerminationState::Closing,
            r.spec_error() == error,
    {
        Termination { error, state: TerminationState::Closing }
    }

    /// A connection that drains because of `error`, silent.
    pub fn draining(error: Error) -> (r: Self)
        ensures
            r.spec_state() == TerminationState::Draining,
            r.spec_error() == error,
    {
        Termination { error, state: TerminationState::Draining }
    }

    /// The error the connection ended with.
    pub fn error(&self) -> (r: Error)
        ensures
            r == self.spec_error(),
    {
        self.error
    }

    /// The state.
    pub fn state(&self) -> (r: TerminationState)
        ensures
            r == self.spec_state(),
    {
        self.state
    }

    /// Goes silent. Returns whether the queues of received packets must be
    /// closed now, which is so when the connection was closing.
    pub fn enter_draining(&mut self) -> (close_queues: bool)
        ensures
            final(self).spec_state() == TerminationState::Draining,
            final(self).spec_error() == old(self).spec_error(),
            close_queues == (old(self).spec_state() == TerminationState::Closing),
    {
        let was_closing = self.state == TerminationState::Closing;
        self.state = TerminationState::Draining;
        was_closing
    }
}

} // verus!
