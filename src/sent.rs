//! The journal of sent packets of one packet number space: which frames each
//! packet carried, and what became of the packet.
use std::collections::VecDeque;

use vstd::prelude::*;

use crate::error::{ErrorKind, QuicError};
use crate::frames::{AckFrame, GetFrameType};
use crate::clock::Clock;
use crate::packet_number::{pn_modulus, pn_size, PacketNumber};
use crate::varint::VARINT_MAX;

verus! {

/// What became of a sent packet. Times are in microseconds on the journal's clock.
#[derive(Debug, Clone, Copy, PartialEq, Eq, Structural)]
pub enum SentPktState {
    /// The packet number was used by a packet with nothing to retransmit.
    Skipped,
    /// The packet is in flight.
    Flighting { nframes: usize, sent_time: u64, retran_time: u64, expire_time: u64 },
    /// The packet was taken as lost and its frames were handed back.
    Retransmitted { nframes: usize, sent_time: u64, expire_time: u64 },
    /// The peer acknowledged the packet.
    Acked { nframes: usize, sent_time: u64, expire_time: u64 },
}

/// The number of frames a packet recorded.
pub open spec fn nframes_of(s: SentPktState) -> nat {
    match s {
        SentPktState::Skipped => 0,
        SentPktState::Flighting { nframes, .. } => nframes as nat,
        SentPktState::Retransmitted { nframes, .. } => nframes as nat,
        SentPktState::Acked { nframes, .. } => nframes as nat,
    }
}

/// A packet after the peer acknowledged it: in flight or taken as lost, it
/// becomes acknowledged; otherwise it stays.
pub open spec fn acked_state(s: SentPktState) -> SentPktState {
    match s {
        SentPktState::Flighting { nframes, sent_time, expire_time, .. } => SentPktState::Acked {
            nframes,
            sent_time,
            expire_time,
        },
        SentPktState::Retransmitted { nframes, sent_time, expire_time } => SentPktState::Acked {
            nframes,
            sent_time,
            expire_time,
        },
        _ => s,
    }
}

/// How many frames an acknowledgment hands back: those of a packet in flight
/// or taken as lost.
pub open spec fn acked_count(s: SentPktState) -> nat {
    match s {
        SentPktState::Flighting { nframes, .. } => nframes as nat,
        SentPktState::Retransmitted { nframes, .. } => nframes as nat,
        _ => 0,
    }
}

/// A packet after it may have been lost: in flight, it is taken as lost;
/// otherwise it stays.
pub open spec fn lost_state(s: SentPktState) -> SentPktState {
    match s {
        SentPktState::Flighting { nframes, sent_time, expire_time, .. } =>
            SentPktState::Retransmitted { nframes, sent_time, expire_time },
        _ => s,
    }
}

/// How many frames a possible loss hands back: those of a packet in flight
/// or already taken as lost.
pub open spec fn lost_count(s: SentPktState) -> nat {
    match s {
        SentPktState::Flighting { nframes, .. } => nframes as nat,
        SentPktState::Retransmitted { nframes, .. } => nframes as nat,
        _ => 0,
    }
}

/// Whether a packet in flight is due for retransmission at `now`.
pub open spec fn retran_due(s: SentPktState, now: u64) -> bool {
    match s {
        SentPktState::Flighting { retran_time, .. } => retran_time < now,
        _ => false,
    }
}

/// Whether a record must still be kept at `now`: a packet in flight always, one
/// taken as lost until it expires, others not.
pub open spec fn remains(s: SentPktState, now: u64) -> bool {
    match s {
        SentPktState::Skipped => false,
        SentPktState::Flighting { .. } => true,
        SentPktState::Retransmitted { expire_time, .. } => expire_time > now,
        SentPktState::Acked { .. } => false,
    }
}

impl SentPktState {
    /// A skipped packet number.
    pub fn skipped() -> (r: SentPktState)
        ensures
            r == SentPktState::Skipped,
    {
        SentPktState::Skipped
    }

    /// A packet in flight.
    pub fn new(nframes: usize, sent_time: u64, retran_time: u64, expire_time: u64) -> (r:
        SentPktState)
        ensures
            r == (SentPktState::Flighting { nframes, sent_time, retran_time, expire_time }),
    {
        SentPktState::Flighting { nframes, sent_time, retran_time, expire_time }
    }

    /// The number of frames the packet recorded.
    pub fn nframes(&self) -> (r: usize)
        ensures
            r == nframes_of(*self),
    {
        match self {
            SentPktState::Skipped => 0,
            SentPktState::Flighting { nframes, .. } => *nframes,
            SentPktState::Retransmitted { nframes, .. } => *nframes,
            SentPktState::Acked { nframes, .. } => *nframes,
        }
    }

    /// Marks the packet acknowledged; returns how many of its frames to hand back.
    pub fn be_acked(&mut self) -> (r: usize)
        ensures
            *final(self) == acked_state(*old(self)),
            r == acked_count(*old(self)),
    {
        match *self {
            SentPktState::Skipped => 0,
            SentPktState::Flighting { nframes, sent_time, expire_time, .. } => {
                *self = SentPktState::Acked { nframes, sent_time, expire_time };
                nframes
            },
            SentPktState::Retransmitted { nframes, sent_time, expire_time } => {
                *self = SentPktState::Acked { nframes, sent_time, expire_time };
                nframes
            },
            SentPktState::Acked { .. } => 0,
        }
    }

    /// Marks the packet as maybe lost; returns how many of its frames to hand back.
    pub fn maybe_lost(&mut self) -> (r: usize)
        ensures
            *final(self) == lost_state(*old(self)),
            r == lost_count(*old(self)),
    {
        match *self {
            SentPktState::Flighting { nframes, sent_time, expire_time, .. } => {
                *self = SentPktState::Retransmitted { nframes, sent_time, expire_time };
                nframes
            },
            SentPktState::Retransmitted { nframes, .. } => nframes,
            SentPktState::Acked { .. } => 0,
            SentPktState::Skipped => 0,
        }
    }

    /// Takes the packet as lost if it is in flight and its retransmission time
    /// is before `now`; returns whether it did.
    pub fn should_retransmit_after(&mut self, now: u64) -> (r: bool)
        ensures
            r == retran_due(*old(self), now),
            *final(self) == (if r { lost_state(*old(self)) } else { *old(self) }),
    {
        match *self {
            SentPktState::Flighting { nframes, sent_time, retran_time, expire_time } => {
                if retran_time < now {
                    *self = SentPktState::Retransmitted { nframes, sent_time, expire_time };
                    true
                } else {
                    false
                }
            },
            _ => false,
        }
    }

    /// Whether the record must still be kept at `now`.
    pub fn should_remain_after(&self, now: u64) -> (r: bool)
        ensures
            r == remains(*self, now),
    {
        match self {
            SentPktState::Skipped => false,
            SentPktState::Flighting { .. } => true,
            SentPktState::Retransmitted { expire_time, .. } => *expire_time > now,
            SentPktState::Acked { .. } => false,
        }
    }
}

/// An acknowledged packet stays acknowledged: neither a possible loss nor a
/// retransmission pass nor a second acknowledgment changes it, and none of
/// them hands its frames back again.
pub proof fn acked_stays_acked(s: SentPktState, now: u64)
    requires
        s is Acked,
    ensures
        lost_state(s) == s,
        lost_count(s) == 0,
        acked_state(s) == s,
        acked_count(s) == 0,
        !retran_due(s, now),
{
}

/// The number of frames recorded by a run of packets.
pub open spec fn sum_frames(s: Seq<SentPktState>) -> nat
    decreases s.len(),
{
    if s.len() == 0 {
        0
    } else {
        sum_frames(s.drop_last()) + nframes_of(s.last())
    }
}

proof fn lemma_sum_concat(a: Seq<SentPktState>, b: Seq<SentPktState>)
    ensures
        sum_frames(a + b) == sum_frames(a) + sum_frames(b),
    decreases b.len(),
{
    if b.len() > 0 {
        assert((a + b).drop_last() =~= a + b.drop_last());
        lemma_sum_concat(a, b.drop_last());
    } else {
        assert(a + b =~= a);
    }
}

proof fn lemma_sum_split(s: Seq<SentPktState>, k: int)
    requires
        0 <= k <= s.len(),
    ensures
        sum_frames(s) == sum_frames(s.subrange(0, k)) + sum_frames(s.subrange(k, s.len() as int)),
{
    assert(s =~= s.subrange(0, k) + s.subrange(k, s.len() as int));
    lemma_sum_concat(s.subrange(0, k), s.subrange(k, s.len() as int));
}

proof fn lemma_sum_one(x: SentPktState)
    ensures
        sum_frames(seq![x]) == nframes_of(x),
{
    assert(seq![x].drop_last() =~= Seq::<SentPktState>::empty());
    assert(sum_frames(Seq::<SentPktState>::empty()) == 0);
    assert(seq![x].last() == x);
}

proof fn lemma_sum_update(s: Seq<SentPktState>, k: int, x: SentPktState)
    requires
        0 <= k < s.len(),
        nframes_of(x) == nframes_of(s[k]),
    ensures
        sum_frames(s.update(k, x)) == sum_frames(s),
        forall|j: int| 0 <= j <= s.len() ==> sum_frames(#[trigger] s.update(k, x).subrange(0, j)) == sum_frames(s.subrange(0, j)),
{
    let t = s.update(k, x);
    assert forall|j: int| 0 <= j <= s.len() implies sum_frames(#[trigger] t.subrange(0, j)) == sum_frames(s.subrange(0, j)) by {
        if j <= k {
            assert(t.subrange(0, j) =~= s.subrange(0, j));
        } else {
            let a = s.subrange(0, k);
            let ta = t.subrange(0, k);
            assert(ta =~= a);
            assert(t.subrange(0, j) =~= ta + seq![x] + t.subrange(k + 1, j));
            assert(s.subrange(0, j) =~= a + seq![s[k]] + s.subrange(k + 1, j));
            assert(t.subrange(k + 1, j) =~= s.subrange(k + 1, j));
            lemma_sum_concat(ta + seq![x], t.subrange(k + 1, j));
            lemma_sum_concat(ta, seq![x]);
            lemma_sum_concat(a + seq![s[k]], s.subrange(k + 1, j));
            lemma_sum_concat(a, seq![s[k]]);
            lemma_sum_one(x);
            lemma_sum_one(s[k]);
        }
    }
    assert(t.subrange(0, s.len() as int) =~= t);
    assert(s.subrange(0, s.len() as int) =~= s);
}

proof fn lemma_sum_prefix_le(s: Seq<SentPktState>, k: int)
    requires
        0 <= k <= s.len(),
    ensures
        sum_frames(s.subrange(0, k)) <= sum_frames(s),
        k < s.len() ==> sum_frames(s.subrange(0, k + 1)) == sum_frames(s.subrange(0, k)) + nframes_of(s[k]),
{
    lemma_sum_split(s, k);
    if k < s.len() {
        assert(s.subrange(0, k + 1).drop_last() =~= s.subrange(0, k));
    }
}

/// The frames that a retransmission pass over the first `k` records hands
/// back: those of each packet in flight whose retransmission time is before `now`.
pub open spec fn due_frames<T>(states: Seq<SentPktState>, queue: Seq<T>, k: int, now: u64) -> Seq<T>
    decreases k,
{
    if k <= 0 {
        Seq::empty()
    } else {
        let lo = sum_frames(states.subrange(0, k - 1)) as int;
        let hi = sum_frames(states.subrange(0, k)) as int;
        due_frames(states, queue, k - 1, now) + if retran_due(states[k - 1], now) {
            queue.subrange(lo, hi)
        } else {
            Seq::empty()
        }
    }
}

/// The number of leading records that need not be kept at `now`.
pub open spec fn drop_len(states: Seq<SentPktState>, now: u64) -> nat
    decreases states.len(),
{
    if states.len() > 0 && !remains(states[0], now) {
        1 + drop_len(states.drop_first(), now)
    } else {
        0
    }
}

/// What a journal holds: the frames recorded, in order, the packet number of
/// the first record kept, the records, and the largest packet number acknowledged.
pub struct SentJournalModel<T> {
    pub frames: Seq<T>,
    pub offset: nat,
    pub states: Seq<SentPktState>,
    pub largest_acked: nat,
}

impl<T> SentJournalModel<T> {
    /// The next packet number to use.
    pub open spec fn next_pn(self) -> nat {
        self.offset + self.states.len()
    }

    /// The journal's invariant: the records account for all frames, the packet
    /// numbers stay within variable-length integers, and nothing was
    /// acknowledged beyond what was sent.
    pub open spec fn wf(self) -> bool {
        &&& sum_frames(self.states) == self.frames.len()
        &&& self.next_pn() <= VARINT_MAX + 1
        &&& self.largest_acked <= self.next_pn()
        &&& (self.largest_acked == 0 || self.largest_acked < self.next_pn())
    }
}

/// The journal after garbage collection at `now`: the leading records that
/// need not be kept go, with their frames.
pub open spec fn resize_model<T>(m: SentJournalModel<T>, now: u64) -> SentJournalModel<T> {
    let n = drop_len(m.states, now) as int;
    let f = sum_frames(m.states.subrange(0, n)) as int;
    SentJournalModel {
        frames: m.frames.subrange(f, m.frames.len() as int),
        offset: (m.offset + n) as nat,
        states: m.states.subrange(n, m.states.len() as int),
        largest_acked: m.largest_acked,
    }
}

proof fn lemma_drop_len(states: Seq<SentPktState>, now: u64)
    ensures
        drop_len(states, now) <= states.len(),
        forall|i: int| 0 <= i < drop_len(states, now) ==> !remains(#[trigger] states[i], now),
        drop_len(states, now) < states.len() ==> remains(states[drop_len(states, now) as int], now),
    decreases states.len(),
{
    if states.len() > 0 && !remains(states[0], now) {
        let rest = states.drop_first();
        lemma_drop_len(rest, now);
        assert forall|i: int| 0 <= i < drop_len(states, now) implies !remains(#[trigger] states[i], now) by {
            if i > 0 {
                assert(states[i] == rest[i - 1]);
            }
        }
    }
}

/// The records after a retransmission pass over the first `k`: each packet in
/// flight whose retransmission time is before `now` is taken as lost.
pub open spec fn retransmit_states(states: Seq<SentPktState>, k: int, now: u64) -> Seq<SentPktState> {
    Seq::new(
        states.len(),
        |i: int|
            if i < k && retran_due(states[i], now) {
                lost_state(states[i])
            } else {
                states[i]
            },
    )
}

/// The number of records a retransmission pass looks at: those of packet
/// numbers below the largest acknowledged.
pub open spec fn retransmit_span<T>(m: SentJournalModel<T>) -> int {
    if m.largest_acked <= m.offset {
        0
    } else if m.largest_acked - m.offset < m.states.len() {
        m.largest_acked - m.offset
    } else {
        m.states.len() as int
    }
}

/// The record a packet leaves: none if it carried nothing and was not marked
/// trivial, a skipped one if it was trivial with no frames, else one in flight
/// sent at `now`.
pub open spec fn built_model<T>(
    m: SentJournalModel<T>,
    frames: Seq<T>,
    trivial: bool,
    now: u64,
    retran_timeout: u64,
    expire_timeout: u64,
) -> SentJournalModel<T> {
    if frames.len() == 0 && !trivial {
        m
    } else if frames.len() == 0 {
        SentJournalModel { states: m.states.push(SentPktState::Skipped), ..m }
    } else {
        SentJournalModel {
            frames: m.frames + frames,
            states: m.states.push(
                SentPktState::Flighting {
                    nframes: frames.len() as usize,
                    sent_time: now,
                    retran_time: if now + retran_timeout <= u64::MAX {
                        (now + retran_timeout) as u64
                    } else {
                        u64::MAX
                    },
                    expire_time: if now + expire_timeout <= u64::MAX {
                        (now + expire_timeout) as u64
                    } else {
                        u64::MAX
                    },
                },
            ),
            ..m
        }
    }
}

/// A packet that recorded no frame and was not marked trivial leaves the
/// journal as it was: its packet number is not consumed.
pub proof fn empty_packet_keeps_pn<T>(
    m: SentJournalModel<T>,
    now: u64,
    retran_timeout: u64,
    expire_timeout: u64,
)
    ensures
        built_model(m, Seq::<T>::empty(), false, now, retran_timeout, expire_timeout) == m,
        built_model(m, Seq::<T>::empty(), false, now, retran_timeout, expire_timeout).next_pn()
            == m.next_pn(),
{
}

/// A packet being assembled: the packet number it will take, and the frames
/// recorded in it so far. Building it into the journal consumes the packet
/// number only if a frame was recorded or the packet was marked trivial.
pub struct NewPacketGuard<T> {
    pn: u64,
    largest_acked: u64,
    trivial: bool,
    frames: VecDeque<T>,
}

impl<T> NewPacketGuard<T> {
    /// The packet number the packet will take.
    pub closed spec fn spec_pn(&self) -> nat {
        self.pn as nat
    }

    /// The largest acknowledged packet number when the packet was begun.
    pub closed spec fn spec_largest_acked(&self) -> nat {
        self.largest_acked as nat
    }

    /// Whether the packet was marked trivial.
    pub closed spec fn spec_trivial(&self) -> bool {
        self.trivial
    }

    /// The frames recorded so far.
    pub closed spec fn spec_frames(&self) -> Seq<T> {
        self.frames@
    }

    /// The packet's packet number, and its truncated form against the largest
    /// acknowledged one. Every call gives the same.
    pub fn pn(&self) -> (r: (u64, PacketNumber))
        requires
            self.spec_largest_acked() <= self.spec_pn(),
        ensures
            r.0 == self.spec_pn(),
            r.1.spec_size() == pn_size(self.spec_pn(), self.spec_largest_acked()),
            r.1.spec_value() == self.spec_pn() % pn_modulus(r.1.spec_size()),
    {
        (self.pn, PacketNumber::encode(self.pn, self.largest_acked))
    }

    /// The number of frames recorded so far.
    pub fn nframes(&self) -> (r: usize)
        ensures
            r == self.spec_frames().len(),
    {
        self.frames.len()
    }

    /// Whether the packet was marked trivial.
    pub fn is_trivial(&self) -> (r: bool)
        ensures
            r == self.spec_trivial(),
    {
        self.trivial
    }

    /// Marks the packet trivial: it holds nothing to retransmit (padding, ping,
    /// acknowledgments) but still takes a packet number.
    pub fn record_trivial(&mut self)
        ensures
            final(self).spec_trivial(),
            final(self).spec_pn() == old(self).spec_pn(),
            final(self).spec_largest_acked() == old(self).spec_largest_acked(),
            final(self).spec_frames() == old(self).spec_frames(),
    {
        self.trivial = true;
    }

    /// Records a frame of the packet, to be fed back when the packet is
    /// acknowledged or may be lost.
    pub fn record_frame(&mut self, frame: T)
        ensures
            final(self).spec_frames() == old(self).spec_frames().push(frame),
            final(self).spec_trivial() == old(self).spec_trivial(),
            final(self).spec_pn() == old(self).spec_pn(),
            final(self).spec_largest_acked() == old(self).spec_largest_acked(),
    {
        self.frames.push_back(frame);
    }
}

/// Records of sent packets and of the frames in them, fed back to their
/// senders when a packet is acknowledged or may be lost.
pub struct SentJournal<T> {
    queue: VecDeque<T>,
    offset: u64,
    sent_packets: VecDeque<SentPktState>,
    largest_acked_pktno: u64,
}

impl<T: Clone> SentJournal<T> {
    /// The journal as the contracts see it.
    pub closed spec fn model(&self) -> SentJournalModel<T> {
        SentJournalModel {
            frames: self.queue@,
            offset: self.offset as nat,
            states: self.sent_packets@,
            largest_acked: self.largest_acked_pktno as nat,
        }
    }

    /// The journal's invariant.
    pub open spec fn wf(&self) -> bool {
        self.model().wf()
    }

    /// An empty journal; `capacity` is how many packets to make room for.
    pub fn with_capacity(capacity: usize) -> (r: SentJournal<T>)
        ensures
            r.wf(),
            r.model().frames.len() == 0,
            r.model().states.len() == 0,
            r.model().offset == 0,
            r.model().largest_acked == 0,
    {
        SentJournal {
            queue: VecDeque::new(),
            offset: 0,
            sent_packets: VecDeque::with_capacity(capacity),
            largest_acked_pktno: 0,
        }
    }

    /// The next packet number to use.
    pub fn next_pn(&self) -> (r: u64)
        requires
            self.wf(),
        ensures
            r == self.model().next_pn(),
    {
        self.offset + self.sent_packets.len() as u64
    }

    /// The largest packet number the peer acknowledged.
    pub fn largest_acked(&self) -> (r: u64)
        ensures
            r == self.model().largest_acked,
    {
        self.largest_acked_pktno
    }

    /// The number of frames recorded and kept.
    pub fn nframes(&self) -> (r: usize)
        ensures
            r == self.model().frames.len(),
    {
        self.queue.len()
    }

    /// Replaces the record at `k`.
    fn set_state(&mut self, k: usize, st: SentPktState)
        requires
            k < old(self).model().states.len(),
        ensures
            final(self).model() == (SentJournalModel {
                states: old(self).model().states.update(k as int, st),
                ..old(self).model()
            }),
    {
        let _ = self.sent_packets.remove(k);
        self.sent_packets.insert(k, st);
        assert(self.sent_packets@ =~= old(self).sent_packets@.update(k as int, st));
    }

    /// Where the frames of the record at `k` start in the queue.
    fn frames_before(&self, k: usize) -> (r: usize)
        requires
            self.wf(),
            k <= self.model().states.len(),
        ensures
            r == sum_frames(self.model().states.subrange(0, k as int)),
    {
        let ghost s = self.model().states;
        let mut sum: usize = 0;
        let mut i: usize = 0;
        assert(s.subrange(0, 0) =~= Seq::<SentPktState>::empty());
        while i < k
            invariant
                self.wf(),
                s == self.model().states,
                i <= k <= s.len(),
                sum == sum_frames(s.subrange(0, i as int)),
            decreases k - i,
        {
            proof {
                lemma_sum_prefix_le(s, i as int);
                lemma_sum_prefix_le(s, i as int + 1);
            }
            assert(self.queue@.len() == self.queue.len());
            sum = sum + self.sent_packets[i].nframes();
            i = i + 1;
        }
        sum
    }

    /// Handles the Largest Acknowledged field of an ACK frame: a packet number
    /// never sent is a `ProtocolViolation` raised on the ACK frame's type;
    /// otherwise the largest acknowledged number grows to it.
    pub fn update_largest(&mut self, ack_frame: &AckFrame) -> (r: Result<(), QuicError>)
        requires
            old(self).wf(),
        ensures
            final(self).wf(),
            r is Err <==> ack_frame.largest.value() >= old(self).model().next_pn(),
            r matches Err(e) ==> e.spec_kind() == ErrorKind::ProtocolViolation
                && e.spec_frame_type() is Ack,
            r is Err ==> final(self).model() == old(self).model(),
            r is Ok ==> final(self).model() == (SentJournalModel {
                largest_acked: if ack_frame.largest.value() > old(self).model().largest_acked {
                    ack_frame.largest.value() as nat
                } else {
                    old(self).model().largest_acked
                },
                ..old(self).model()
            }),
            r is Ok ==> final(self).model().largest_acked < final(self).model().next_pn(),
    {
        let largest = ack_frame.largest();
        if largest >= self.next_pn() {
            return Err(
                QuicError::new(
                    ErrorKind::ProtocolViolation,
                    ack_frame.frame_type(),
                    "ack frame largest pn is larger than the largest pn sent",
                ),
            );
        }
        if largest > self.largest_acked_pktno {
            self.largest_acked_pktno = largest;
        }
        Ok(())
    }

    /// Begins a packet that will take the next packet number.
    pub fn new_packet(&self) -> (r: NewPacketGuard<T>)
        requires
            self.wf(),
        ensures
            r.spec_pn() == self.model().next_pn(),
            r.spec_largest_acked() == self.model().largest_acked,
            !r.spec_trivial(),
            r.spec_frames().len() == 0,
    {
        NewPacketGuard {
            pn: self.next_pn(),
            largest_acked: self.largest_acked_pktno,
            trivial: false,
            frames: VecDeque::new(),
        }
    }

    /// Seals `packet` into the journal, sent at `now`: a packet with frames is
    /// in flight until `now + retran_timeout` and kept until
    /// `now + expire_timeout`; a trivial one with no frames is skipped; one
    /// with neither leaves no record and its packet number stays free.
    pub fn build_at(
        &mut self,
        packet: NewPacketGuard<T>,
        now: u64,
        retran_timeout: u64,
        expire_timeout: u64,
    )
        requires
            old(self).wf(),
            packet.spec_pn() == old(self).model().next_pn(),
            packet.spec_frames().len() > 0 || packet.spec_trivial() ==> old(self).model().next_pn()
                <= VARINT_MAX,
        ensures
            final(self).wf(),
            final(self).model() == built_model(
                old(self).model(),
                packet.spec_frames(),
                packet.spec_trivial(),
                now,
                retran_timeout,
                expire_timeout,
            ),
    {
        let mut frames = packet.frames;
        let nframes = frames.len();
        let ghost pf = frames@;
        let ghost s0 = self.model().states;
        if nframes == 0 && !packet.trivial {
            return;
        }
        if nframes == 0 {
            self.sent_packets.push_back(SentPktState::Skipped);
            proof {
                lemma_sum_concat(s0, seq![SentPktState::Skipped]);
                lemma_sum_one(SentPktState::Skipped);
                assert(s0.push(SentPktState::Skipped) =~= s0 + seq![SentPktState::Skipped]);
            }
        } else {
            let st = SentPktState::new(
                nframes,
                now,
                now.saturating_add(retran_timeout),
                now.saturating_add(expire_timeout),
            );
            self.queue.append(&mut frames);
            self.sent_packets.push_back(st);
            proof {
                lemma_sum_concat(s0, seq![st]);
                lemma_sum_one(st);
                assert(s0.push(st) =~= s0 + seq![st]);
            }
        }
        assert(self.model() =~= built_model(
            old(self).model(),
            pf,
            packet.trivial,
            now,
            retran_timeout,
            expire_timeout,
        ));
    }

    /// Drops the leading records that need not be kept at `now`, with their frames.
    pub fn resize_at(&mut self, now: u64)
        requires
            old(self).wf(),
        ensures
            final(self).wf(),
            final(self).model() == resize_model(old(self).model(), now),
    {
        let ghost m0 = self.model();
        proof {
            lemma_drop_len(m0.states, now);
        }
        let mut n: usize = 0;
        let mut f: usize = 0;
        assert(m0.states.subrange(0, 0) =~= Seq::<SentPktState>::empty());
        while n < self.sent_packets.len() && !self.sent_packets[n].should_remain_after(now)
            invariant
                self.model() == m0,
                m0.wf(),
                n <= drop_len(m0.states, now),
                drop_len(m0.states, now) <= m0.states.len(),
                forall|i: int| 0 <= i < drop_len(m0.states, now) ==> !remains(#[trigger] m0.states[i], now),
                drop_len(m0.states, now) < m0.states.len() ==> remains(m0.states[drop_len(m0.states, now) as int], now),
                f == sum_frames(m0.states.subrange(0, n as int)),
            decreases m0.states.len() - n,
        {
            proof {
                lemma_sum_prefix_le(m0.states, n as int);
                lemma_sum_prefix_le(m0.states, n as int + 1);
            }
            assert(self.queue@.len() == self.queue.len());
            f = f + self.sent_packets[n].nframes();
            n = n + 1;
        }
        assert(n == drop_len(m0.states, now));
        proof {
            lemma_sum_split(m0.states, n as int);
        }
        assert(f <= m0.frames.len());
        let mut i: usize = 0;
        while i < n
            invariant
                m0.wf(),
                i <= n <= m0.states.len(),
                self.sent_packets@ == m0.states.subrange(i as int, m0.states.len() as int),
                self.queue@ == m0.frames,
                self.offset == m0.offset,
                self.largest_acked_pktno == m0.largest_acked,
            decreases n - i,
        {
            let _ = self.sent_packets.pop_front();
            i = i + 1;
            assert(self.sent_packets@ =~= m0.states.subrange(i as int, m0.states.len() as int));
        }
        let mut j: usize = 0;
        while j < f
            invariant
                m0.wf(),
                n <= m0.states.len(),
                j <= f <= m0.frames.len(),
                self.queue@ == m0.frames.subrange(j as int, m0.frames.len() as int),
                self.sent_packets@ == m0.states.subrange(n as int, m0.states.len() as int),
                self.offset == m0.offset,
                self.largest_acked_pktno == m0.largest_acked,
            decreases f - j,
        {
            let _ = self.queue.pop_front();
            j = j + 1;
            assert(self.queue@ =~= m0.frames.subrange(j as int, m0.frames.len() as int));
        }
        self.offset = self.offset + n as u64;
        assert(self.model() =~= resize_model(m0, now));
    }

    /// Appends copies of the frames `lo..lo + len` of the queue to `out`.
    fn append_clones(&self, out: &mut Vec<T>, lo: usize, len: usize)
        requires
            lo + len <= self.model().frames.len(),
        ensures
            final(out)@.len() == old(out)@.len() + len,
            forall|j: int| 0 <= j < old(out)@.len() ==> #[trigger] final(out)@[j] == old(out)@[j],
            forall|j: int| 0 <= j < len ==> cloned(self.model().frames[lo + j], #[trigger] final(out)@[old(out)@.len() + j]),
    {
        let ghost base = out@.len();
        let mut i: usize = 0;
        while i < len
            invariant
                lo + len <= self.model().frames.len(),
                i <= len,
                base == old(out)@.len(),
                out@.len() == base + i,
                forall|j: int| 0 <= j < base ==> #[trigger] out@[j] == old(out)@[j],
                forall|j: int| 0 <= j < i ==> cloned(self.model().frames[lo + j], #[trigger] out@[base + j]),
            decreases len - i,
        {
            assert(self.queue@.len() == self.queue.len());
            let f = self.queue[lo + i].clone();
            out.push(f);
            i = i + 1;
        }
    }

    /// Garbage-collects at `now`, then takes as lost each packet in flight,
    /// below the largest acknowledged packet number, whose retransmission time
    /// is before `now`; returns copies of their frames in record order.
    pub fn fast_retransmit_at(&mut self, now: u64) -> (r: Vec<T>)
        requires
            old(self).wf(),
        ensures
            final(self).wf(),
            ({
                let m1 = resize_model(old(self).model(), now);
                let k = retransmit_span(m1);
                let due = due_frames(m1.states, m1.frames, k, now);
                &&& final(self).model() == (SentJournalModel {
                    states: retransmit_states(m1.states, k, now),
                    ..m1
                })
                &&& r@.len() == due.len()
                &&& forall|j: int| 0 <= j < r@.len() ==> cloned(due[j], #[trigger] r@[j])
            }),
    {
        self.resize_at(now);
        let ghost m1 = self.model();
        let k: usize = if self.largest_acked_pktno <= self.offset {
            0
        } else if self.largest_acked_pktno - self.offset < self.sent_packets.len() as u64 {
            (self.largest_acked_pktno - self.offset) as usize
        } else {
            self.sent_packets.len()
        };
        assert(k == retransmit_span(m1));
        let mut out: Vec<T> = Vec::new();
        let mut i: usize = 0;
        let mut lo: usize = 0;
        assert(m1.states.subrange(0, 0) =~= Seq::<SentPktState>::empty());
        assert(retransmit_states(m1.states, 0, now) =~= m1.states);
        while i < k
            invariant
                m1.wf(),
                self.wf(),
                i <= k <= m1.states.len(),
                self.model() == (SentJournalModel { states: retransmit_states(m1.states, i as int, now), ..m1 }),
                lo == sum_frames(m1.states.subrange(0, i as int)),
                out@.len() == due_frames(m1.states, m1.frames, i as int, now).len(),
                forall|j: int| 0 <= j < out@.len() ==> cloned(due_frames(m1.states, m1.frames, i as int, now)[j], #[trigger] out@[j]),
            decreases k - i,
        {
            let ghost cur = self.model().states;
            let ghost due0 = due_frames(m1.states, m1.frames, i as int, now);
            let ghost due1 = due_frames(m1.states, m1.frames, i as int + 1, now);
            proof {
                lemma_sum_prefix_le(m1.states, i as int);
                lemma_sum_prefix_le(m1.states, i as int + 1);
                lemma_sum_prefix_le(m1.states, m1.states.len() as int);
                assert(m1.states.subrange(0, m1.states.len() as int) =~= m1.states);
            }
            assert(cur[i as int] == m1.states[i as int]);
            let mut st = self.sent_packets[i];
            let n = st.nframes();
            let ghost olen = out@.len();
            assert(self.queue@.len() == self.queue.len());
            assert(lo + n <= m1.frames.len());
            assert(olen == due0.len());
            if st.should_retransmit_after(now) {
                proof {
                    lemma_sum_update(cur, i as int, st);
                }
                self.set_state(i, st);
                let ghost out0 = out@;
                self.append_clones(&mut out, lo, n);
                assert(self.model().frames == m1.frames);
                let ghost sub = m1.frames.subrange(lo as int, lo + n);
                assert(due1 =~= due0 + sub);
                assert(out@.len() == olen + n);
                assert forall|j: int| 0 <= j < out@.len() implies cloned(due1[j], #[trigger] out@[j]) by {
                    if j >= olen {
                        assert(due1[j] == sub[j - olen]);
                        assert(sub[j - olen] == m1.frames[lo + (j - olen)]);
                        let jj = j - olen;
                        assert(cloned(self.model().frames[lo + jj], out@[out0.len() + jj]));
                    } else {
                        assert(due1[j] == due0[j]);
                        assert(out@[j] == out0[j]);
                        assert(cloned(due0[j], out0[j]));
                    }
                }
            } else {
                assert(due1 =~= due0);
            }
            assert(self.model().states =~= retransmit_states(m1.states, i as int + 1, now));
            lo = lo + n;
            i = i + 1;
        }
        out
    }

    /// Garbage-collects against the clock: drops the leading records that need
    /// not be kept, with their frames.
    pub fn resize(&mut self, clock: &Clock)
        requires
            old(self).wf(),
        ensures
            final(self).wf(),
            exists|now: u64| final(self).model() == resize_model(old(self).model(), now),
    {
        let now = clock.now();
        self.resize_at(now);
    }

    /// Fast retransmission against the clock, as `fast_retransmit_at` does at
    /// the time read.
    pub fn fast_retransmit(&mut self, clock: &Clock) -> (r: Vec<T>)
        requires
            old(self).wf(),
        ensures
            final(self).wf(),
            exists|now: u64|
                #![trigger resize_model(old(self).model(), now)]
                {
                let m1 = resize_model(old(self).model(), now);
                let k = retransmit_span(m1);
                let due = due_frames(m1.states, m1.frames, k, now);
                &&& final(self).model() == (SentJournalModel {
                    states: retransmit_states(m1.states, k, now),
                    ..m1
                })
                &&& r@.len() == due.len()
                &&& forall|j: int| 0 <= j < r@.len() ==> cloned(due[j], #[trigger] r@[j])
            },
    {
        let now = clock.now();
        self.fast_retransmit_at(now)
    }

    /// Copies the frames `lo..lo + len` of the queue.
    fn clone_frames(&self, lo: usize, len: usize) -> (r: Vec<T>)
        requires
            lo + len <= self.model().frames.len(),
        ensures
            r@.len() == len,
            forall|i: int| 0 <= i < len ==> cloned(self.model().frames[lo + i], #[trigger] r@[i]),
    {
        let mut r: Vec<T> = Vec::new();
        let mut i: usize = 0;
        while i < len
            invariant
                lo + len <= self.model().frames.len(),
                i <= len,
                r@.len() == i,
                forall|j: int| 0 <= j < i ==> cloned(self.model().frames[lo + j], #[trigger] r@[j]),
            decreases len - i,
        {
            assert(self.queue@.len() == self.queue.len());
            let f = self.queue[lo + i].clone();
            r.push(f);
            i = i + 1;
        }
        r
    }

    /// Called when the peer acknowledged packet `pn`: marks it acknowledged and
    /// returns copies of its frames if it was in flight or taken as lost.
    pub fn on_packet_acked(&mut self, pn: u64) -> (r: Vec<T>)
        requires
            old(self).wf(),
        ensures
            final(self).wf(),
            old(self).model().offset <= pn < old(self).model().next_pn() ==> {
                let k = pn - old(self).model().offset;
                let s = old(self).model().states[k];
                let lo = sum_frames(old(self).model().states.subrange(0, k));
                &&& final(self).model() == (SentJournalModel {
                    states: old(self).model().states.update(k, acked_state(s)),
                    ..old(self).model()
                })
                &&& r@.len() == acked_count(s)
                &&& forall|i: int| 0 <= i < r@.len() ==> cloned(old(self).model().frames[lo + i], #[trigger] r@[i])
            },
            !(old(self).model().offset <= pn < old(self).model().next_pn()) ==> final(self).model()
                == old(self).model() && r@.len() == 0,
    {
        if pn < self.offset || pn >= self.next_pn() {
            return Vec::new();
        }
        assert(self.sent_packets@.len() == self.sent_packets.len());
        let k = (pn - self.offset) as usize;
        assert(k as int == pn - self.model().offset);
        let lo = self.frames_before(k);
        let ghost s0 = self.model().states;
        let mut st = self.sent_packets[k];
        let len = st.be_acked();
        self.set_state(k, st);
        proof {
            lemma_sum_prefix_le(s0, k as int);
            lemma_sum_prefix_le(s0, k as int + 1);
            lemma_sum_update(s0, k as int, st);
            lemma_sum_prefix_le(s0, s0.len() as int);
            assert(s0.subrange(0, s0.len() as int) =~= s0);
        }
        assert(self.model().states =~= s0.update(k as int, st));
        self.clone_frames(lo, len)
    }

    /// Called when packet `pn` may be lost: marks it lost if it was in flight
    /// and returns copies of its frames if it was in flight or already taken as
    /// lost; an acknowledged packet is left alone.
    pub fn may_loss_packet(&mut self, pn: u64) -> (r: Vec<T>)
        requires
            old(self).wf(),
        ensures
            final(self).wf(),
            old(self).model().offset <= pn < old(self).model().next_pn() ==> {
                let k = pn - old(self).model().offset;
                let s = old(self).model().states[k];
                let lo = sum_frames(old(self).model().states.subrange(0, k));
                &&& final(self).model() == (SentJournalModel {
                    states: old(self).model().states.update(k, lost_state(s)),
                    ..old(self).model()
                })
                &&& r@.len() == lost_count(s)
                &&& forall|i: int| 0 <= i < r@.len() ==> cloned(old(self).model().frames[lo + i], #[trigger] r@[i])
            },
            !(old(self).model().offset <= pn < old(self).model().next_pn()) ==> final(self).model()
                == old(self).model() && r@.len() == 0,
    {
        if pn < self.offset || pn >= self.next_pn() {
            return Vec::new();
        }
        assert(self.sent_packets@.len() == self.sent_packets.len());
        let k = (pn - self.offset) as usize;
        assert(k as int == pn - self.model().offset);
        let lo = self.frames_before(k);
        let ghost s0 = self.model().states;
        let mut st = self.sent_packets[k];
        let len = st.maybe_lost();
        self.set_state(k, st);
        proof {
            lemma_sum_prefix_le(s0, k as int);
            lemma_sum_prefix_le(s0, k as int + 1);
            lemma_sum_update(s0, k as int, st);
            lemma_sum_prefix_le(s0, s0.len() as int);
            assert(s0.subrange(0, s0.len() as int) =~= s0);
        }
        assert(self.model().states =~= s0.update(k as int, st));
        self.clone_frames(lo, len)
    }
}

impl<T: Clone> NewPacketGuard<T> {
    /// Seals the packet into `journal`, timed by `clock`, as `build_at` does
    /// at the time read.
    pub fn build_with_time(
        self,
        journal: &mut SentJournal<T>,
        clock: &Clock,
        retran_timeout: u64,
        expire_timeout: u64,
    )
        requires
            old(journal).wf(),
            self.spec_pn() == old(journal).model().next_pn(),
            self.spec_frames().len() > 0 || self.spec_trivial() ==> old(journal).model().next_pn()
                <= VARINT_MAX,
        ensures
            final(journal).wf(),
            exists|now: u64|
                final(journal).model() == built_model(
                    old(journal).model(),
                    self.spec_frames(),
                    self.spec_trivial(),
                    now,
                    retran_timeout,
                    expire_timeout,
                ),
    {
        let now = clock.now();
        journal.build_at(self, now, retran_timeout, expire_timeout);
    }
}

} // verus!
