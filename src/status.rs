//! Handshake and path status flags that the loss-recovery machinery reads.
use vstd::prelude::*;

verus! {

/// How far the handshake has come.
#[derive(Debug, Clone, Copy, PartialEq, Eq, Structural)]
pub struct HandshakeStatus {
    pub is_server: bool,
    pub has_handshake_key: bool,
    pub has_received_handshake_ack: bool,
    pub is_handshake_confirmed: bool,
}

impl HandshakeStatus {
    /// The status at the start: nothing happened yet.
    pub fn new(is_server: bool) -> (r: Self)
        ensures
            r == (HandshakeStatus {
                is_server,
                has_handshake_key: false,
                has_received_handshake_ack: false,
                is_handshake_confirmed: false,
            }),
    {
        HandshakeStatus {
            is_server,
            has_handshake_key: false,
            has_received_handshake_ack: false,
            is_handshake_confirmed: false,
        }
    }

    /// The handshake keys are installed.
    pub fn got_handshake_key(&mut self)
        ensures
            *final(self) == (HandshakeStatus { has_handshake_key: true, ..*old(self) }),
    {
        self.has_handshake_key = true;
    }

    /// An acknowledgment of a Handshake packet arrived.
    pub fn received_handshake_ack(&mut self)
        ensures
            *final(self) == (HandshakeStatus { has_received_handshake_ack: true, ..*old(self) }),
    {
        self.has_received_handshake_ack = true;
    }

    /// The handshake is confirmed.
    pub fn handshake_confirmed(&mut self)
        ensures
            *final(self) == (HandshakeStatus { is_handshake_confirmed: true, ..*old(self) }),
    {
        self.is_handshake_confirmed = true;
    }
}

/// The status of one path: the handshake's, whether the anti-amplification
/// limit applies, and the path MTU.
#[derive(Debug, Clone, Copy, PartialEq, Eq, Structural)]
pub struct PathStatus {
    pub handshake: HandshakeStatus,
    pub is_at_anti_amplification_limit: bool,
    pub pmtu: u16,
}

impl PathStatus {
    /// A path under the anti-amplification limit.
    pub fn new(handshake: HandshakeStatus, pmtu: u16) -> (r: Self)
        ensures
            r == (PathStatus { handshake, is_at_anti_amplification_limit: true, pmtu }),
    {
        PathStatus { handshake, is_at_anti_amplification_limit: true, pmtu }
    }

    /// Whether this end is the server.
    pub fn is_server(&self) -> (r: bool)
        ensures
            r == self.handshake.is_server,
    {
        self.handshake.is_server
    }

    /// Whether the handshake keys are installed.
    pub fn has_handshake_key(&self) -> (r: bool)
        ensures
            r == self.handshake.has_handshake_key,
    {
        self.handshake.has_handshake_key
    }

    /// Whether an acknowledgment of a Handshake packet arrived.
    pub fn has_received_handshake_ack(&self) -> (r: bool)
        ensures
            r == self.handshake.has_received_handshake_ack,
    {
        self.handshake.has_received_handshake_ack
    }

    /// Whether the handshake is confirmed.
    pub fn is_handshake_confirmed(&self) -> (r: bool)
        ensures
            r == self.handshake.is_handshake_confirmed,
    {
        self.handshake.is_handshake_confirmed
    }

    /// Whether the anti-amplification limit applies.
    pub fn is_at_anti_amplification_limit(&self) -> (r: bool)
        ensures
            r == self.is_at_anti_amplification_limit,
    {
        self.is_at_anti_amplification_limit
    }

    /// Lifts the anti-amplification limit.
    pub fn release_anti_amplification_limit(&mut self)
        ensures
            *final(self) == (PathStatus { is_at_anti_amplification_limit: false, ..*old(self) }),
    {
        self.is_at_anti_amplification_limit = false;
    }

    /// Puts the anti-amplification limit back.
    pub fn enter_anti_amplification_limit(&mut self)
        ensures
            *final(self) == (PathStatus { is_at_anti_amplification_limit: true, ..*old(self) }),
    {
        self.is_at_anti_amplification_limit = true;
    }

    /// The path MTU.
    pub fn mtu(&self) -> (r: usize)
        ensures
            r == self.pmtu,
    {
        self.pmtu as usize
    }
}

} // verus!
