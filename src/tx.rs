//! Why a send attempt produced no bytes.
use vstd::prelude::*;

verus! {

/// A set of reasons why a send attempt produced nothing; callers gather them
/// and wait until one of the sources wakes them.
#[derive(Debug, Clone, Copy, PartialEq, Eq, Structural)]
pub struct Signals {
    bits: u8,
}

impl Signals {
    /// The signal alone: the congestion window is full.
    pub fn congestion() -> (r: Signals)
        ensures
            r.spec_bits() == 1,
    {
        Signals { bits: 1 }
    }

    /// The signal alone: flow control forbids sending more data.
    pub fn flow_control() -> (r: Signals)
        ensures
            r.spec_bits() == 2,
    {
        Signals { bits: 2 }
    }

    /// The signal alone: the anti-amplification credit is used up.
    pub fn credit() -> (r: Signals)
        ensures
            r.spec_bits() == 4,
    {
        Signals { bits: 4 }
    }

    /// The signal alone: the keys of the packet space are not there.
    pub fn keys() -> (r: Signals)
        ensures
            r.spec_bits() == 8,
    {
        Signals { bits: 8 }
    }

    /// The signal alone: the transport has nothing due, such as an acknowledgment.
    pub fn transport() -> (r: Signals)
        ensures
            r.spec_bits() == 16,
    {
        Signals { bits: 16 }
    }

    /// The signal alone: no source had anything to send.
    pub fn nothing() -> (r: Signals)
        ensures
            r.spec_bits() == 32,
    {
        Signals { bits: 32 }
    }

    /// The set as bits.
    pub closed spec fn spec_bits(self) -> u8 {
        self.bits
    }

    /// The empty set.
    pub fn empty() -> (r: Signals)
        ensures
            r.spec_bits() == 0,
    {
        Signals { bits: 0 }
    }

    /// The set as bits.
    pub fn bits(&self) -> (r: u8)
        ensures
            r == self.spec_bits(),
    {
        self.bits
    }

    /// Whether the set is empty.
    pub fn is_empty(&self) -> (r: bool)
        ensures
            r == (self.spec_bits() == 0),
    {
        self.bits == 0
    }

    /// Whether every signal of `other` is in the set.
    pub fn contains(&self, other: Signals) -> (r: bool)
        ensures
            r == (self.spec_bits() & other.spec_bits() == other.spec_bits()),
    {
        self.bits & other.bits == other.bits
    }

    /// The union of two sets.
    pub fn union(&self, other: Signals) -> (r: Signals)
        ensures
            r.spec_bits() == self.spec_bits() | other.spec_bits(),
    {
        Signals { bits: self.bits | other.bits }
    }
}

} // verus!
