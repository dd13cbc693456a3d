//! Single-bit toggles carried in the first byte of a short header.
use vstd::prelude::*;

verus! {

/// The spin bit in 1-RTT packets.
pub const SPIN_BIT: u8 = 0x20;

/// The key phase bit in 1-RTT packets.
pub const KEY_PHASE_BIT: u8 = 0x04;

/// A typed toggle over the bit `B` of a header byte.
#[derive(Debug, Clone, Copy, PartialEq, Eq)]
pub enum Toggle<const B: u8> {
    /// The bit is clear.
    Zero,
    /// The bit is set.
    One,
}

/// The spin bit of a 1-RTT packet.
pub type SpinBit = Toggle<SPIN_BIT>;

/// The key phase bit of a 1-RTT packet.
pub type KeyPhaseBit = Toggle<KEY_PHASE_BIT>;

impl<const B: u8> Toggle<B> {
    /// The bit mask this toggle stands for.
    pub open spec fn bit() -> u8 {
        B
    }

    /// Whether the toggle stands for a set bit.
    pub open spec fn is_one(self) -> bool {
        self is One
    }

    /// Flips the toggle.
    pub fn toggle(&mut self)
        ensures
            final(self).is_one() == !old(self).is_one(),
    {
        *self = match *self {
            Toggle::Zero => Toggle::One,
            Toggle::One => Toggle::Zero,
        };
    }

    /// The bit's value in its byte position: `0` or `B`.
    pub fn value(&self) -> (r: u8)
        ensures
            r == (if self.is_one() { Self::bit() } else { 0u8 }),
    {
        match self {
            Toggle::Zero => 0,
            Toggle::One => B,
        }
    }

    /// Writes the toggle into `byte`: sets the bits of `B` for `One`, clears them for `Zero`.
    pub fn imply(&self, byte: &mut u8)
        ensures
            *final(byte) == (if self.is_one() { *old(byte) | B } else { *old(byte) & !B }),
    {
        match self {
            Toggle::Zero => *byte = *byte & !B,
            Toggle::One => *byte = *byte | B,
        }
    }

    /// The toggle as an index: `0` for `Zero`, `1` for `One`.
    pub fn as_index(&self) -> (r: usize)
        ensures
            r == (if self.is_one() { 1usize } else { 0usize }),
    {
        match self {
            Toggle::Zero => 0,
            Toggle::One => 1,
        }
    }
}

impl<const B: u8> Default for Toggle<B> {
    fn default() -> (r: Self)
        ensures
            !r.is_one(),
    {
        Toggle::Zero
    }
}

impl<const B: u8> core::ops::Not for Toggle<B> {
    type Output = Self;

    fn not(self) -> (r: Self)
        ensures
            r.is_one() == !self.is_one(),
    {
        match self {
            Toggle::Zero => Toggle::One,
            Toggle::One => Toggle::Zero,
        }
    }
}

impl<const B: u8> vstd::std_specs::ops::NotSpecImpl for Toggle<B> {
    open spec fn obeys_not_spec() -> bool {
        true
    }

    open spec fn not_req(self) -> bool {
        true
    }

    open spec fn not_spec(self) -> Self {
        if self.is_one() {
            Toggle::Zero
        } else {
            Toggle::One
        }
    }
}

impl<const B: u8> From<u8> for Toggle<B> {
    fn from(value: u8) -> (r: Self) {
        if value & B == 0 {
            Toggle::Zero
        } else {
            Toggle::One
        }
    }
}

impl<const B: u8> vstd::std_specs::convert::FromSpecImpl<u8> for Toggle<B> {
    open spec fn obeys_from_spec() -> bool {
        true
    }

    open spec fn from_spec(value: u8) -> Self {
        if value & B == 0 {
            Toggle::Zero
        } else {
            Toggle::One
        }
    }
}

impl<const B: u8> From<Toggle<B>> for u8 {
    fn from(value: Toggle<B>) -> (r: u8) {
        value.value()
    }
}

impl<const B: u8> vstd::std_specs::convert::FromSpecImpl<Toggle<B>> for u8 {
    open spec fn obeys_from_spec() -> bool {
        true
    }

    open spec fn from_spec(value: Toggle<B>) -> u8 {
        if value.is_one() {
            B
        } else {
            0u8
        }
    }
}

impl<const B: u8> From<bool> for Toggle<B> {
    fn from(value: bool) -> (r: Self) {
        if value {
            Toggle::One
        } else {
            Toggle::Zero
        }
    }
}

impl<const B: u8> vstd::std_specs::convert::FromSpecImpl<bool> for Toggle<B> {
    open spec fn obeys_from_spec() -> bool {
        true
    }

    open spec fn from_spec(value: bool) -> Self {
        if value {
            Toggle::One
        } else {
            Toggle::Zero
        }
    }
}

impl<const B: u8> From<Toggle<B>> for bool {
    fn from(value: Toggle<B>) -> (r: bool) {
        match value {
            Toggle::Zero => false,
            Toggle::One => true,
        }
    }
}

impl<const B: u8> vstd::std_specs::convert::FromSpecImpl<Toggle<B>> for bool {
    open spec fn obeys_from_spec() -> bool {
        true
    }

    open spec fn from_spec(value: Toggle<B>) -> bool {
        value.is_one()
    }
}

} // verus!
