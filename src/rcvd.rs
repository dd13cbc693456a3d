//! The journal of received packets of one packet number space: which packet
//! numbers arrived, when an acknowledgment is due, and the ACK frames that
//! report them.
use std::collections::VecDeque;

use vstd::prelude::*;

use crate::frames::AckFrame;
use crate::packet_number::{decode_spec, pn_modulus, PacketNumber};
use crate::tx::Signals;
use crate::varint::{size_of, VarInt, VARINT_MAX};

verus! {

/// The number of packet numbers a journal remembers below the largest one.
pub const RCVD_WINDOW: u64 = 4096;

/// The packet number `largest - first - Σ(gap + 2 + len)` below which the
/// first `k` additional ranges of an ACK frame end.
pub open spec fn range_floor(largest: int, first: int, ranges: Seq<(VarInt, VarInt)>, k: int) -> int
    decreases k,
{
    if k <= 0 {
        largest - first
    } else {
        range_floor(largest, first, ranges, k - 1) - ranges[k - 1].0.value() - 2
            - ranges[k - 1].1.value()
    }
}

/// Whether an ACK frame with these fields acknowledges packet number `pn`.
pub open spec fn acks(largest: int, first: int, ranges: Seq<(VarInt, VarInt)>, pn: int) -> bool {
    (largest - first <= pn <= largest) || exists|k: int|
        0 <= k < ranges.len() && range_floor(largest, first, ranges, k + 1) <= pn
            <= #[trigger] range_floor(largest, first, ranges, k) - ranges[k].0.value() - 2
}

/// The encoded size of an ACK frame without ECN counts.
pub open spec fn ack_size(f: AckFrame) -> int {
    1 + size_of(f.largest.value() as nat) + size_of(f.delay.value() as nat) + size_of(
        f.ranges@.len() as nat,
    ) + size_of(f.first_range.value() as nat) + ranges_size(f.ranges@)
}

/// The encoded size of the additional ranges of an ACK frame.
pub open spec fn ranges_size(ranges: Seq<(VarInt, VarInt)>) -> int
    decreases ranges.len(),
{
    if ranges.len() == 0 {
        0
    } else {
        ranges_size(ranges.drop_last()) + size_of(ranges.last().0.value() as nat) + size_of(
            ranges.last().1.value() as nat,
        )
    }
}

proof fn lemma_floor_prefix(largest: int, first: int, ranges: Seq<(VarInt, VarInt)>, x: (VarInt, VarInt), k: int)
    requires
        0 <= k <= ranges.len(),
    ensures
        range_floor(largest, first, ranges.push(x), k) == range_floor(largest, first, ranges, k),
    decreases k,
{
    if k > 0 {
        lemma_floor_prefix(largest, first, ranges, x, k - 1);
    }
}

/// Which packet numbers arrived: a window of marks from `offset` on, whose
/// last mark, the largest packet number received, is set.
pub struct RcvdJournal {
    offset: u64,
    marks: VecDeque<bool>,
    largest_rcvd_time: u64,
    ack_deadline: Option<u64>,
    max_ack_delay: u64,
}

impl RcvdJournal {
    /// The packet number of the first mark.
    pub closed spec fn spec_offset(&self) -> nat {
        self.offset as nat
    }

    /// The marks.
    pub closed spec fn spec_marks(&self) -> Seq<bool> {
        self.marks@
    }

    /// When an acknowledgment is due, if one is.
    pub closed spec fn spec_ack_deadline(&self) -> Option<u64> {
        self.ack_deadline
    }

    /// When the largest packet number was received.
    pub closed spec fn spec_largest_rcvd_time(&self) -> u64 {
        self.largest_rcvd_time
    }

    /// The delay allowed before an acknowledgment is sent.
    pub closed spec fn spec_max_ack_delay(&self) -> u64 {
        self.max_ack_delay
    }

    /// Whether packet number `pn` was received and is still remembered.
    pub open spec fn received(&self, pn: int) -> bool {
        self.spec_offset() <= pn < self.spec_offset() + self.spec_marks().len()
            && self.spec_marks()[pn - self.spec_offset()]
    }

    /// The largest packet number received, if any.
    pub open spec fn spec_largest(&self) -> Option<nat> {
        if self.spec_marks().len() == 0 {
            None
        } else {
            Some((self.spec_offset() + self.spec_marks().len() - 1) as nat)
        }
    }

    /// The journal's invariant: the last mark is set, the window is bounded,
    /// and packet numbers stay within variable-length integers.
    pub open spec fn wf(&self) -> bool {
        &&& self.spec_marks().len() > 0 ==> self.spec_marks().last()
        &&& self.spec_marks().len() <= RCVD_WINDOW
        &&& self.spec_offset() + self.spec_marks().len() <= VARINT_MAX
    }

    /// A journal with nothing received; acknowledgments wait at most `max_ack_delay`.
    pub fn new(max_ack_delay: u64) -> (r: Self)
        ensures
            r.wf(),
            r.spec_marks().len() == 0,
            r.spec_offset() == 0,
            r.spec_ack_deadline() is None,
            r.spec_max_ack_delay() == max_ack_delay,
    {
        RcvdJournal {
            offset: 0,
            marks: VecDeque::new(),
            largest_rcvd_time: 0,
            ack_deadline: None,
            max_ack_delay,
        }
    }

    /// The largest packet number received, if any.
    pub fn largest(&self) -> (r: Option<u64>)
        requires
            self.wf(),
        ensures
            r == (match self.spec_largest() {
                Some(l) => Some(l as u64),
                None => None::<u64>,
            }),
    {
        if self.marks.len() == 0 {
            None
        } else {
            Some(self.offset + self.marks.len() as u64 - 1)
        }
    }

    /// Whether packet number `pn` was received and is still remembered.
    pub fn is_received(&self, pn: u64) -> (r: bool)
        requires
            self.wf(),
        ensures
            r == self.received(pn as int),
    {
        if pn < self.offset || pn - self.offset >= self.marks.len() as u64 {
            false
        } else {
            self.marks[(pn - self.offset) as usize]
        }
    }

    /// Expands a truncated packet number against the largest one received;
    /// `None` for a packet already received, or too old to tell.
    pub fn decode_pn(&self, pn: PacketNumber) -> (r: Option<u64>)
        requires
            self.wf(),
            pn.spec_value() < pn_modulus(pn.spec_size()),
        ensures
            ({
                let largest = match self.spec_largest() {
                    Some(l) => l,
                    None => 0nat,
                };
                let d = decode_spec(pn.spec_value(), pn.spec_size(), largest);
                &&& r is None <==> (d < self.spec_offset() || self.received(d as int))
                &&& r is Some ==> r == Some(d as u64)
            }),
    {
        let largest = match self.largest() {
            Some(l) => l,
            None => 0,
        };
        let full = pn.decode(largest);
        if full < self.offset || self.is_received(full) {
            None
        } else {
            Some(full)
        }
    }

    /// Records that packet number `pn` arrived at `now`. An ack-eliciting
    /// packet makes an acknowledgment due within the delay allowed, unless one
    /// is already due earlier. Packet numbers that fall out of the window are
    /// forgotten.
    pub fn register_pn(&mut self, pn: u64, ack_eliciting: bool, now: u64)
        requires
            old(self).wf(),
            old(self).spec_offset() <= pn < VARINT_MAX,
        ensures
            final(self).wf(),
            final(self).received(pn as int),
            forall|q: int| q != pn && #[trigger] final(self).received(q) ==> old(self).received(q),
            forall|q: int| #[trigger] old(self).received(q) && q + RCVD_WINDOW > final(self).spec_largest().unwrap() ==> final(self).received(q),
            final(self).spec_max_ack_delay() == old(self).spec_max_ack_delay(),
            ack_eliciting && old(self).spec_ack_deadline() is None ==> final(self).spec_ack_deadline()
                == Some(if now + old(self).spec_max_ack_delay() <= u64::MAX {
                    (now + old(self).spec_max_ack_delay()) as u64
                } else {
                    u64::MAX
                }),
            !(ack_eliciting && old(self).spec_ack_deadline() is None) ==> final(self).spec_ack_deadline()
                == old(self).spec_ack_deadline(),
    {
        let ghost old_marks = self.marks@;
        let ghost old_offset = self.offset as int;
        let end = self.offset + self.marks.len() as u64;
        if pn < end {
            let i = (pn - self.offset) as usize;
            let _ = self.marks.remove(i);
            self.marks.insert(i, true);
            assert(self.marks@ =~= old_marks.update(i as int, true));
        } else {
            if pn - end + 1 >= RCVD_WINDOW {
                self.marks.clear();
                self.offset = pn;
                self.marks.push_back(true);
                assert(self.marks@ =~= seq![true]);
            } else {
                let mut e = end;
                while e < pn
                    invariant
                        end <= e <= pn,
                        self.offset == old_offset,
                        self.ack_deadline == old(self).ack_deadline,
                        self.max_ack_delay == old(self).max_ack_delay,
                        self.marks@ == old_marks + Seq::new((e - end) as nat, |j: int| false),
                    decreases pn - e,
                {
                    self.marks.push_back(false);
                    e = e + 1;
                    assert(self.marks@ =~= old_marks + Seq::new((e - end) as nat, |j: int| false));
                }
                self.marks.push_back(true);
                let ghost grown = self.marks@;
                assert(grown.len() == pn - old_offset + 1);
                while self.marks.len() as u64 > RCVD_WINDOW
                    invariant
                        self.ack_deadline == old(self).ack_deadline,
                        self.max_ack_delay == old(self).max_ack_delay,
                        self.offset + self.marks@.len() == pn + 1,
                        self.offset > old_offset ==> self.marks@.len() >= RCVD_WINDOW,
                        self.marks@.len() >= 1,
                        self.marks@.last(),
                        old_offset <= self.offset,
                        grown.len() == pn - old_offset + 1,
                        self.marks@ == grown.subrange(self.offset - old_offset, grown.len() as int),
                    decreases self.marks@.len(),
                {
                    let _ = self.marks.pop_front();
                    self.offset = self.offset + 1;
                    assert(self.marks@ =~= grown.subrange(self.offset - old_offset, grown.len() as int));
                }
                assert forall|q: int| q != pn && #[trigger] self.received(q) implies old(self).received(q) by {
                    assert(self.marks@[q - self.offset] == grown[q - old_offset]);
                    if q - old_offset >= old_marks.len() {
                        assert(grown[q - old_offset] == false);
                    }
                }
                assert(self.marks@.len() <= RCVD_WINDOW);
                assert forall|q: int| #[trigger] old(self).received(q) && q + RCVD_WINDOW > self.spec_largest().unwrap() implies self.received(q) by {
                    assert(self.spec_largest().unwrap() == pn);
                    assert(self.offset <= q);
                    assert(grown[q - old_offset] == old_marks[q - old_offset]);
                    assert(self.marks@[q - self.offset] == grown[q - old_offset]);
                }
            }
            self.largest_rcvd_time = now;
        }
        if ack_eliciting && self.ack_deadline.is_none() {
            self.ack_deadline = Some(now.saturating_add(self.max_ack_delay));
        }
    }

    /// The largest packet number and when it arrived, when an acknowledgment
    /// is due at `now`.
    pub fn trigger_ack_frame(&self, now: u64) -> (r: Option<(u64, u64)>)
        requires
            self.wf(),
        ensures
            r is Some <==> (self.spec_marks().len() > 0 && (self.spec_ack_deadline() matches Some(d) && d <= now)),
            r matches Some((l, t)) ==> self.spec_largest() == Some(l as nat) && t == self.spec_largest_rcvd_time(),
    {
        match self.ack_deadline {
            Some(d) => {
                if d <= now && self.marks.len() > 0 {
                    Some((self.offset + self.marks.len() as u64 - 1, self.largest_rcvd_time))
                } else {
                    None
                }
            },
            None => None,
        }
    }

    /// An acknowledgment was sent: none is due until the next ack-eliciting packet.
    pub fn on_ack_sent(&mut self)
        ensures
            final(self).spec_ack_deadline() is None,
            final(self).spec_marks() == old(self).spec_marks(),
            final(self).spec_offset() == old(self).spec_offset(),
            final(self).spec_largest_rcvd_time() == old(self).spec_largest_rcvd_time(),
            final(self).spec_max_ack_delay() == old(self).spec_max_ack_delay(),
    {
        self.ack_deadline = None;
    }

    /// An ACK frame reporting the packets received, newest first, with as many
    /// ranges as fit in `budget` bytes; `delay` is the ACK Delay field. Every
    /// packet number it acknowledges was received. When not even the first
    /// range fits, no ACK frame can be sent: `TRANSPORT`.
    pub fn gen_ack_frame_util(&self, delay: VarInt, budget: usize) -> (r: Result<AckFrame, Signals>)
        requires
            self.wf(),
            self.spec_marks().len() > 0,
        ensures
            r matches Err(e) ==> e.spec_bits() == 16,
            budget >= 26 ==> r is Ok,
            r matches Ok(f) ==> {
                &&& f.largest.value() == self.spec_largest().unwrap()
                &&& f.ecn is None
                &&& f.first_range.value() <= f.largest.value() - self.spec_offset()
                &&& f.largest.value() - f.first_range.value() > self.spec_offset() ==> !self.received(
                    f.largest.value() - f.first_range.value() - 1,
                )
                &&& ack_size(f) <= budget
                &&& forall|pn: int| acks(f.largest.value() as int, f.first_range.value() as int, f.ranges@, pn) ==> #[trigger] self.received(pn)
            },
    {
        let n = self.marks.len();
        let largest = self.offset + n as u64 - 1;
        // The first range: the run of received packet numbers below the largest.
        let mut i: usize = n - 1;
        while i > 0 && self.marks[i - 1]
            invariant
                i < n,
                n == self.marks@.len(),
                forall|j: int| i <= j < n ==> #[trigger] self.marks@[j],
                self.wf(),
                n > 0,
            decreases i,
        {
            i = i - 1;
        }
        let ghost i0 = i;
        assert(i0 > 0 ==> !self.marks@[i0 - 1]);
        let first = (n - 1 - i) as u64;
        let largest_v = match VarInt::from_u64(largest) {
            Ok(v) => v,
            Err(_) => {
                assert(false);
                return Err(Signals::transport());
            },
        };
        let first_v = match VarInt::from_u64(first) {
            Ok(v) => v,
            Err(_) => {
                assert(false);
                return Err(Signals::transport());
            },
        };
        let base = 1 + largest_v.encoding_size() + delay.encoding_size() + first_v.encoding_size();
        let mut ranges: Vec<(VarInt, VarInt)> = Vec::new();
        assert(ranges_size(ranges@) == 0);
        if base >= budget {
            return Err(Signals::transport());
        }
        let mut used = base;
        assert forall|pn: int| acks(largest as int, first as int, ranges@, pn) implies #[trigger] self.received(pn) by {
            assert(self.marks@[pn - self.offset]);
        }
        // `i` is the index of the smallest packet number reported so far.
        loop
            invariant
                i <= i0 < n,
                n == self.marks@.len(),
                self.wf(),
                n > 0,
                i > 0 ==> !self.marks@[i - 1],
                largest == self.offset + n - 1,
                largest_v.value() == largest,
                first_v.value() == first,
                first == n - 1 - i0,
                i0 > 0 ==> !self.marks@[i0 - 1],
                ranges@.len() + i <= n - 1,
                used == 1 + size_of(largest as nat) + size_of(delay.value() as nat) + size_of(first as nat) + ranges_size(ranges@),
                used + size_of(ranges@.len() as nat) <= budget,
                range_floor(largest as int, first as int, ranges@, ranges@.len() as int) == self.offset + i,
                forall|pn: int| acks(largest as int, first as int, ranges@, pn) ==> #[trigger] self.received(pn),
            decreases i,
        {
            if i == 0 {
                break;
            }
            // Skip the gap of missing packet numbers.
            let mut g: usize = i - 1;
            while g > 0 && !self.marks[g - 1]
                invariant
                    g < i < n,
                    n == self.marks@.len(),
                decreases g,
            {
                g = g - 1;
            }
            if g == 0 {
                break;
            }
            // The run of received packet numbers below the gap.
            let mut k: usize = g - 1;
            while k > 0 && self.marks[k - 1]
                invariant
                    k < g < i < n,
                    n == self.marks@.len(),
                    self.marks@[g - 1],
                    forall|j: int| k <= j < g ==> #[trigger] self.marks@[j],
                decreases k,
            {
                k = k - 1;
            }
            let gap = match VarInt::from_u64((i - g - 1) as u64) {
                Ok(v) => v,
                Err(_) => break,
            };
            let len = match VarInt::from_u64((g - 1 - k) as u64) {
                Ok(v) => v,
                Err(_) => break,
            };
            let cost = gap.encoding_size() + len.encoding_size();
            let count = match VarInt::from_u64(ranges.len() as u64 + 1) {
                Ok(v) => v,
                Err(_) => break,
            };
            if cost + count.encoding_size() > budget - used {
                break;
            }
            let ghost old_ranges = ranges@;
            ranges.push((gap, len));
            proof {
                lemma_floor_prefix(largest as int, first as int, old_ranges, (gap, len), old_ranges.len() as int);
                assert(ranges@.drop_last() =~= old_ranges);
                assert(ranges@[old_ranges.len() as int] == (gap, len));
                assert(range_floor(largest as int, first as int, ranges@, ranges@.len() as int)
                    == self.offset + k);
                assert forall|pn: int| acks(largest as int, first as int, ranges@, pn) implies #[trigger] self.received(pn) by {
                    if !(largest - first <= pn <= largest) {
                        let kk = choose|kk: int| 0 <= kk < ranges@.len() && range_floor(largest as int, first as int, ranges@, kk + 1) <= pn
                            <= #[trigger] range_floor(largest as int, first as int, ranges@, kk) - ranges@[kk].0.value() - 2;
                        if kk < old_ranges.len() {
                            lemma_floor_prefix(largest as int, first as int, old_ranges, (gap, len), kk);
                            lemma_floor_prefix(largest as int, first as int, old_ranges, (gap, len), kk + 1);
                            assert(ranges@[kk] == old_ranges[kk]);
                            assert(acks(largest as int, first as int, old_ranges, pn));
                        } else {
                            assert(self.marks@[pn - self.offset]);
                        }
                    }
                }
            }
            used = used + cost;
            i = k;
        }
        Ok(AckFrame { largest: largest_v, delay, first_range: first_v, ranges, ecn: None })
    }
}

} // verus!
