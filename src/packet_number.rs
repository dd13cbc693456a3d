//! Packet numbers in their truncated wire form (RFC 9000, section 17.1).
use vstd::arithmetic::div_mod::lemma_fundamental_div_mod_converse;
use vstd::prelude::*;

use crate::varint::VARINT_MAX;

verus! {

/// A packet number as sent: its 1 to 4 low bytes.
#[derive(Debug, Clone, Copy, PartialEq, Eq, Structural)]
pub enum PacketNumber {
    U8(u8),
    U16(u16),
    U24(u32),
    U32(u32),
}

/// The number of bytes to send of packet number `pn` when `largest_acked`
/// is the largest acknowledged: enough to tell apart twice the packets in
/// flight (RFC 9000, appendix A.2).
pub open spec fn pn_size(pn: nat, largest_acked: nat) -> nat {
    let unacked = pn - largest_acked;
    if 2 * unacked <= 0x100 {
        1
    } else if 2 * unacked <= 0x1_0000 {
        2
    } else if 2 * unacked <= 0x100_0000 {
        3
    } else {
        4
    }
}

/// `256^k` for the sizes of a packet number.
pub open spec fn pn_modulus(k: nat) -> nat {
    if k == 1 {
        0x100
    } else if k == 2 {
        0x1_0000
    } else if k == 3 {
        0x100_0000
    } else {
        0x1_0000_0000
    }
}

/// The full packet number that the low bytes `value` of a `size`-byte packet
/// number stand for, when `largest` is the largest received: the candidate
/// nearest to `largest + 1` (RFC 9000, appendix A.3).
pub open spec fn decode_spec(value: nat, size: nat, largest: nat) -> nat {
    let win = pn_modulus(size);
    let hwin = win / 2;
    let expected = largest + 1;
    let candidate = (expected / win) * win + value;
    if candidate + hwin <= expected && candidate + win < VARINT_MAX + 1 {
        (candidate + win) as nat
    } else if candidate > expected + hwin && candidate >= win {
        (candidate - win) as nat
    } else {
        candidate
    }
}

impl PacketNumber {
    /// The number of bytes sent.
    pub open spec fn spec_size(self) -> nat {
        match self {
            PacketNumber::U8(_) => 1,
            PacketNumber::U16(_) => 2,
            PacketNumber::U24(_) => 3,
            PacketNumber::U32(_) => 4,
        }
    }

    /// The value sent.
    pub open spec fn spec_value(self) -> nat {
        match self {
            PacketNumber::U8(v) => v as nat,
            PacketNumber::U16(v) => v as nat,
            PacketNumber::U24(v) => v as nat,
            PacketNumber::U32(v) => v as nat,
        }
    }

    /// The truncated form of `pn` when `largest_acked` is the largest acknowledged.
    pub fn encode(pn: u64, largest_acked: u64) -> (r: PacketNumber)
        requires
            largest_acked <= pn,
        ensures
            r.spec_size() == pn_size(pn as nat, largest_acked as nat),
            r.spec_value() == pn as nat % pn_modulus(r.spec_size()),
    {
        let unacked = pn - largest_acked;
        if unacked <= 0x80 {
            PacketNumber::U8((pn % 0x100) as u8)
        } else if unacked <= 0x8000 {
            PacketNumber::U16((pn % 0x1_0000) as u16)
        } else if unacked <= 0x80_0000 {
            PacketNumber::U24((pn % 0x100_0000) as u32)
        } else {
            PacketNumber::U32((pn % 0x1_0000_0000) as u32)
        }
    }

    /// The number of bytes sent.
    pub fn size(&self) -> (r: usize)
        ensures
            r == self.spec_size(),
    {
        match self {
            PacketNumber::U8(_) => 1,
            PacketNumber::U16(_) => 2,
            PacketNumber::U24(_) => 3,
            PacketNumber::U32(_) => 4,
        }
    }

    /// The full packet number that these low bytes stand for: the one nearest
    /// to `largest + 1`, where `largest` is the largest packet number received
    /// (RFC 9000, appendix A.3).
    pub fn decode(&self, largest: u64) -> (r: u64)
        requires
            largest < VARINT_MAX,
            self.spec_value() < pn_modulus(self.spec_size()),
        ensures
            ({
                let win = pn_modulus(self.spec_size());
                let expected = largest + 1;
                &&& r == decode_spec(self.spec_value(), self.spec_size(), largest as nat)
                &&& r as nat % win == self.spec_value()
                &&& r + win / 2 > expected || r + win >= VARINT_MAX + 1
                &&& r <= expected + win / 2 || r < win
            }),
    {
        let (win, value): (u64, u64) = match *self {
            PacketNumber::U8(v) => (0x100, v as u64),
            PacketNumber::U16(v) => (0x1_0000, v as u64),
            PacketNumber::U24(v) => (0x100_0000, v as u64),
            PacketNumber::U32(v) => (0x1_0000_0000, v as u64),
        };
        let hwin = win / 2;
        let expected = largest + 1;
        let q = expected / win;
        assert(q * win <= expected) by (nonlinear_arith)
            requires
                q == expected / win,
                win > 0,
        ;
        let candidate = q * win + value;
        proof {
            lemma_fundamental_div_mod_converse(candidate as int, win as int, q as int, value as int);
        }
        assert(expected - q * win < win) by (nonlinear_arith)
            requires
                q == expected / win,
                win > 0,
        ;
        assert(win == pn_modulus(self.spec_size()));
        assert(value == self.spec_value());
        if candidate + hwin <= expected && candidate < VARINT_MAX + 1 - win {
            proof {
                lemma_fundamental_div_mod_converse((candidate + win) as int, win as int, q + 1, value as int);
            }
            candidate + win
        } else if candidate > expected + hwin && candidate >= win {
            proof {
                lemma_fundamental_div_mod_converse((candidate - win) as int, win as int, q - 1, value as int);
            }
            candidate - win
        } else {
            candidate
        }
    }
}

} // verus!
