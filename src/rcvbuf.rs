//! Reassembly of stream data received out of order.
use std::collections::VecDeque;

use bytes::Bytes;
use vstd::prelude::*;

use crate::buf::{bytes_len, bytes_slice, bytes_split_to, bytes_view, extend_with_bytes};

verus! {

/// A segment as the contracts see it: its offset and its bytes.
pub type SegView = (int, Seq<u8>);

/// The offset just past a segment.
pub open spec fn seg_end(s: SegView) -> int {
    s.0 + s.1.len()
}

/// Segments are sorted by offset and do not overlap.
pub open spec fn sorted(segs: Seq<SegView>) -> bool {
    forall|i: int, j: int|
        #![trigger segs[i], segs[j]]
        0 <= i < j < segs.len() ==> seg_end(segs[i]) <= segs[j].0
}

/// No segment is empty.
pub open spec fn nonempty(segs: Seq<SegView>) -> bool {
    forall|i: int| 0 <= i < segs.len() ==> #[trigger] segs[i].1.len() > 0
}

/// What a receive buffer holds: how far it has been read, the largest
/// offset ever received, and the stored segments.
pub struct RecvBufModel {
    pub nread: int,
    pub largest: int,
    pub segs: Seq<SegView>,
}

impl RecvBufModel {
    /// The buffer's invariant: segments sorted, disjoint and non-empty, none
    /// before `nread`, none past `largest`.
    pub open spec fn wf(self) -> bool {
        &&& sorted(self.segs)
        &&& nonempty(self.segs)
        &&& 0 <= self.nread <= self.largest <= u64::MAX
        &&& forall|i: int| 0 <= i < self.segs.len() ==> #[trigger] self.segs[i].0 >= self.nread
        &&& forall|i: int| 0 <= i < self.segs.len() ==> seg_end(#[trigger] self.segs[i]) <= self.largest
    }
}

/// The bytes `a..b` of a fragment `d` that starts at offset `o`.
pub open spec fn piece(o: int, d: Seq<u8>, a: int, b: int) -> SegView {
    (a, d.subrange(a - o, b - o))
}

/// The segments after the fragment `d` at offset `o`, from `cur` up to `end`,
/// has filled the gaps between `segs`: each maximal gap becomes a segment of
/// its own, and bytes already held are not stored twice.
pub open spec fn fill(segs: Seq<SegView>, cur: int, end: int, o: int, d: Seq<u8>) -> Seq<SegView>
    decreases segs.len(),
{
    if segs.len() == 0 {
        if cur < end {
            seq![piece(o, d, cur, end)]
        } else {
            seq![]
        }
    } else {
        let s = segs[0];
        let m = if end < s.0 { end } else { s.0 };
        let pre = if cur < end && cur < s.0 { seq![piece(o, d, cur, m)] } else { seq![] };
        let next = if cur < seg_end(s) { seg_end(s) } else { cur };
        pre + seq![s] + fill(segs.drop_first(), next, end, o, d)
    }
}

/// The buffer after receiving `d` at offset `o`: bytes before `nread` are
/// dropped, the rest fill the gaps, and `largest` grows to the fragment's end.
pub open spec fn recv_model(m: RecvBufModel, o: int, d: Seq<u8>) -> RecvBufModel {
    let start = if o > m.nread { o } else { m.nread };
    let end = o + d.len();
    RecvBufModel {
        nread: m.nread,
        largest: if start < end && end > m.largest { end } else { m.largest },
        segs: fill(m.segs, start, end, o, d),
    }
}

proof fn lemma_fill_noop(segs: Seq<SegView>, cur: int, end: int, o: int, d: Seq<u8>)
    requires
        cur >= end,
    ensures
        fill(segs, cur, end, o, d) == segs,
    decreases segs.len(),
{
    if segs.len() > 0 {
        let s = segs[0];
        let next = if cur < seg_end(s) { seg_end(s) } else { cur };
        lemma_fill_noop(segs.drop_first(), next, end, o, d);
        assert(fill(segs, cur, end, o, d) =~= segs);
    }
}

proof fn lemma_fill_skip(segs: Seq<SegView>, k: int, cur: int, end: int, o: int, d: Seq<u8>)
    requires
        0 <= k <= segs.len(),
        forall|i: int| 0 <= i < k ==> seg_end(#[trigger] segs[i]) <= cur,
    ensures
        fill(segs, cur, end, o, d) == segs.subrange(0, k) + fill(
            segs.subrange(k, segs.len() as int),
            cur,
            end,
            o,
            d,
        ),
    decreases k,
{
    if k == 0 {
        assert(segs.subrange(0, 0) + segs.subrange(0, segs.len() as int) =~= segs.subrange(
            0,
            segs.len() as int,
        ));
        assert(segs.subrange(0, segs.len() as int) =~= segs);
        assert(segs.subrange(0, 0) + fill(segs, cur, end, o, d) =~= fill(segs, cur, end, o, d));
    } else {
        let s = segs[0];
        assert(seg_end(segs[0]) <= cur);
        let rest = segs.drop_first();
        assert forall|i: int| 0 <= i < k - 1 implies seg_end(#[trigger] rest[i]) <= cur by {
            assert(rest[i] == segs[i + 1]);
        }
        lemma_fill_skip(rest, k - 1, cur, end, o, d);
        assert(rest.subrange(k - 1, rest.len() as int) =~= segs.subrange(k, segs.len() as int));
        assert(seq![s] + rest.subrange(0, k - 1) =~= segs.subrange(0, k));
        let f = fill(segs, cur, end, o, d);
        assert(f == seq![s] + fill(rest, cur, end, o, d)) by {
            assert(seq![] + seq![s] =~= seq![s]);
        }
        assert(f =~= segs.subrange(0, k) + fill(segs.subrange(k, segs.len() as int), cur, end, o, d));
    }
}

proof fn lemma_fill_wf(
    segs: Seq<SegView>,
    cur: int,
    end: int,
    o: int,
    d: Seq<u8>,
    lo: int,
    hi: int,
)
    requires
        sorted(segs),
        nonempty(segs),
        o <= cur,
        end <= o + d.len(),
        lo <= cur,
        end <= hi,
        forall|i: int| 0 <= i < segs.len() ==> #[trigger] segs[i].0 >= lo,
        forall|i: int| 0 <= i < segs.len() ==> seg_end(#[trigger] segs[i]) <= hi,
    ensures
        sorted(fill(segs, cur, end, o, d)),
        nonempty(fill(segs, cur, end, o, d)),
        forall|i: int|
            0 <= i < fill(segs, cur, end, o, d).len() ==> #[trigger] fill(
                segs,
                cur,
                end,
                o,
                d,
            )[i].0 >= lo,
        forall|i: int|
            0 <= i < fill(segs, cur, end, o, d).len() ==> seg_end(
                #[trigger] fill(segs, cur, end, o, d)[i],
            ) <= hi,
    decreases segs.len(),
{
    let f = fill(segs, cur, end, o, d);
    if segs.len() == 0 {
    } else {
        let s = segs[0];
        let m = if end < s.0 { end } else { s.0 };
        let pre = if cur < end && cur < s.0 { seq![piece(o, d, cur, m)] } else { seq![] };
        let next = if cur < seg_end(s) { seg_end(s) } else { cur };
        let rest = segs.drop_first();
        assert forall|i: int| 0 <= i < rest.len() implies #[trigger] rest[i].0 >= seg_end(s) by {
            assert(rest[i] == segs[i + 1]);
        }
        assert forall|i: int| 0 <= i < rest.len() implies seg_end(#[trigger] rest[i]) <= hi by {
            assert(rest[i] == segs[i + 1]);
        }
        assert(sorted(rest)) by {
            assert forall|i: int, j: int|
                #![trigger rest[i], rest[j]]
                0 <= i < j < rest.len() implies seg_end(rest[i]) <= rest[j].0 by {
                assert(rest[i] == segs[i + 1]);
                assert(rest[j] == segs[j + 1]);
            }
        }
        assert(nonempty(rest)) by {
            assert forall|i: int| 0 <= i < rest.len() implies #[trigger] rest[i].1.len() > 0 by {
                assert(rest[i] == segs[i + 1]);
            }
        }
        assert(s.1.len() > 0);
        assert(s.0 >= lo);
        lemma_fill_wf(rest, next, end, o, d, seg_end(s), hi);
        let r = fill(rest, next, end, o, d);
        let a = pre + seq![s];
        assert(f == a + r);
        assert(forall|i: int| 0 <= i < pre.len() ==> seg_end(#[trigger] pre[i]) <= s.0);
        assert(forall|i: int| 0 <= i < pre.len() ==> #[trigger] pre[i].0 >= lo);
        assert(forall|i: int| 0 <= i < pre.len() ==> #[trigger] pre[i].1.len() > 0);
        assert forall|i: int, j: int|
            #![trigger f[i], f[j]]
            0 <= i < j < f.len() implies seg_end(f[i]) <= f[j].0 by {
            if j < a.len() {
                assert(i < pre.len());
                assert(f[j] == s);
            } else if i < a.len() {
                assert(f[j] == r[j - a.len()]);
                if i < pre.len() {
                } else {
                    assert(f[i] == s);
                }
            } else {
                assert(f[j] == r[j - a.len()]);
                assert(f[i] == r[i - a.len()]);
            }
        }
        assert forall|i: int| 0 <= i < f.len() implies #[trigger] f[i].1.len() > 0 by {
            if i >= a.len() {
                assert(f[i] == r[i - a.len()]);
            } else if i == pre.len() {
                assert(f[i] == s);
            }
        }
        assert forall|i: int| 0 <= i < f.len() implies #[trigger] f[i].0 >= lo by {
            if i >= a.len() {
                assert(f[i] == r[i - a.len()]);
            } else if i == pre.len() {
                assert(f[i] == s);
            }
        }
        assert forall|i: int| 0 <= i < f.len() implies seg_end(#[trigger] f[i]) <= hi by {
            if i >= a.len() {
                assert(f[i] == r[i - a.len()]);
            } else if i == pre.len() {
                assert(f[i] == s);
            }
        }
    }
}

/// Receiving a fragment keeps the buffer's invariant: segments stay sorted,
/// disjoint and non-empty, none starts before `nread`, none ends past `largest`.
pub proof fn recv_keeps_invariant(m: RecvBufModel, o: int, d: Seq<u8>)
    requires
        m.wf(),
        0 <= o,
        o + d.len() <= u64::MAX,
    ensures
        recv_model(m, o, d).wf(),
{
    let start = if o > m.nread { o } else { m.nread };
    let end = o + d.len();
    let n = recv_model(m, o, d);
    if start < end {
        lemma_fill_wf(m.segs, start, end, o, d, m.nread, n.largest);
    } else {
        lemma_fill_noop(m.segs, start, end, o, d);
    }
}

proof fn lemma_fill_twice(segs: Seq<SegView>, cur: int, end: int, o: int, d: Seq<u8>)
    requires
        o <= cur,
        end <= o + d.len(),
    ensures
        fill(fill(segs, cur, end, o, d), cur, end, o, d) == fill(segs, cur, end, o, d),
    decreases segs.len(),
{
    let f = fill(segs, cur, end, o, d);
    if segs.len() == 0 {
        if cur < end {
            let p = piece(o, d, cur, end);
            assert(f.drop_first() =~= Seq::<SegView>::empty());
            lemma_fill_noop(f.drop_first(), seg_end(p), end, o, d);
            assert(fill(f, cur, end, o, d) =~= f);
        }
    } else {
        let s = segs[0];
        let m = if end < s.0 { end } else { s.0 };
        let next = if cur < seg_end(s) { seg_end(s) } else { cur };
        let rest = segs.drop_first();
        let r = fill(rest, next, end, o, d);
        lemma_fill_twice(rest, next, end, o, d);
        if cur < end && cur < s.0 {
            let p = piece(o, d, cur, m);
            assert(seg_end(p) == m);
            assert(f == seq![p] + seq![s] + r);
            assert(f.drop_first() =~= seq![s] + r);
            let g = f.drop_first();
            assert(g.drop_first() =~= r);
            assert(fill(g, m, end, o, d) == seq![] + seq![s] + fill(r, next, end, o, d));
            assert(fill(g, m, end, o, d) =~= seq![s] + r);
            assert(fill(f, cur, end, o, d) =~= f);
        } else {
            assert(f == seq![] + seq![s] + r);
            assert(f.drop_first() =~= r);
            assert(fill(f, cur, end, o, d) =~= f);
        }
    }
}

/// Receiving the same fragment twice leaves the buffer as receiving it once
/// did; so the second receipt adds no flow credit.
pub proof fn recv_is_idempotent(m: RecvBufModel, o: int, d: Seq<u8>)
    requires
        0 <= o,
    ensures
        recv_model(recv_model(m, o, d), o, d) == recv_model(m, o, d),
        recv_model(recv_model(m, o, d), o, d).largest == recv_model(m, o, d).largest,
{
    let start = if o > m.nread { o } else { m.nread };
    let end = o + d.len();
    if start < end {
        lemma_fill_twice(m.segs, start, end, o, d);
    } else {
        lemma_fill_noop(m.segs, start, end, o, d);
        lemma_fill_noop(recv_model(m, o, d).segs, start, end, o, d);
    }
}

/// The bytes readable from `pos` on: the run of segments that continue each
/// other without a gap, starting exactly at `pos`.
pub open spec fn readable(segs: Seq<SegView>, pos: int) -> Seq<u8>
    decreases segs.len(),
{
    if segs.len() > 0 && segs[0].0 == pos {
        segs[0].1 + readable(segs.drop_first(), pos + segs[0].1.len())
    } else {
        Seq::empty()
    }
}

/// The segments left after the first `k` bytes of the front run are read:
/// segments read whole are removed, one read in part is trimmed.
pub open spec fn drop_prefix(segs: Seq<SegView>, k: int) -> Seq<SegView>
    decreases segs.len(),
{
    if k <= 0 || segs.len() == 0 {
        segs
    } else if k >= segs[0].1.len() {
        drop_prefix(segs.drop_first(), k - segs[0].1.len())
    } else {
        seq![(segs[0].0 + k, segs[0].1.subrange(k, segs[0].1.len() as int))] + segs.drop_first()
    }
}

/// The buffer after `k` contiguous bytes have been read from it.
pub open spec fn read_model(m: RecvBufModel, k: int) -> RecvBufModel {
    RecvBufModel { nread: m.nread + k, largest: m.largest, segs: drop_prefix(m.segs, k) }
}

proof fn lemma_drop_prefix_compose(segs: Seq<SegView>, a: int, b: int)
    requires
        0 <= a,
        0 <= b,
    ensures
        drop_prefix(drop_prefix(segs, a), b) == drop_prefix(segs, a + b),
    decreases segs.len(),
{
    if a == 0 || segs.len() == 0 || b == 0 {
    } else {
        let s = segs[0];
        let len0 = s.1.len() as int;
        let rest = segs.drop_first();
        if a >= len0 {
            lemma_drop_prefix_compose(rest, a - len0, b);
        } else {
            let s1 = (s.0 + a, s.1.subrange(a, len0));
            let t = seq![s1] + rest;
            assert(t.drop_first() =~= rest);
            assert(t[0] == s1);
            if b < len0 - a {
                assert(s1.1.subrange(b, s1.1.len() as int) =~= s.1.subrange(a + b, len0));
                assert(drop_prefix(t, b) =~= drop_prefix(segs, a + b));
            }
        }
    }
}

proof fn lemma_read_step(segs: Seq<SegView>, pos: int, k: int)
    requires
        segs.len() > 0,
        segs[0].0 == pos,
        0 < k <= segs[0].1.len(),
    ensures
        readable(segs, pos).subrange(0, k) == segs[0].1.subrange(0, k),
        readable(drop_prefix(segs, k), pos + k) == readable(segs, pos).subrange(
            k,
            readable(segs, pos).len() as int,
        ),
        k == segs[0].1.len() ==> drop_prefix(segs, k) == segs.drop_first(),
{
    let s = segs[0];
    let len0 = s.1.len() as int;
    let rest = segs.drop_first();
    let r = readable(segs, pos);
    assert(r == s.1 + readable(rest, pos + len0));
    assert(r.subrange(0, k) =~= s.1.subrange(0, k));
    if k == len0 {
        assert(drop_prefix(rest, 0) == rest);
        assert(r.subrange(k, r.len() as int) =~= readable(rest, pos + len0));
    } else {
        let s1 = (s.0 + k, s.1.subrange(k, len0));
        let t = seq![s1] + rest;
        assert(t.drop_first() =~= rest);
        assert(readable(t, pos + k) == s1.1 + readable(rest, pos + k + s1.1.len()));
        assert(readable(t, pos + k) =~= r.subrange(k, r.len() as int));
    }
}

/// A stored run of contiguous bytes.
struct Segment {
    offset: u64,
    data: Bytes,
}

impl Segment {
    spec fn view(&self) -> SegView {
        (self.offset as int, bytes_view(self.data))
    }

    fn new_with_data(offset: u64, data: Bytes) -> (r: Segment)
        ensures
            r.offset == offset,
            r.data == data,
    {
        Segment { offset, data }
    }

    fn end(&self) -> (r: u64)
        requires
            self.offset + bytes_view(self.data).len() <= u64::MAX,
        ensures
            r == seg_end(self.view()),
    {
        self.offset + bytes_len(&self.data) as u64
    }
}

/// Received data of a stream, stored as sorted, disjoint segments and read
/// back as a contiguous stream from `nread` on.
pub struct RecvBuf {
    nread: u64,
    largest_offset: u64,
    segments: VecDeque<Segment>,
}

impl RecvBuf {
    /// The buffer's contents as the contracts see them.
    pub closed spec fn model(&self) -> RecvBufModel {
        RecvBufModel {
            nread: self.nread as int,
            largest: self.largest_offset as int,
            segs: self.segments@.map_values(|s: Segment| s.view()),
        }
    }

    /// The buffer's invariant.
    pub open spec fn wf(&self) -> bool {
        self.model().wf()
    }

    /// An empty buffer: nothing received, nothing read.
    pub fn new() -> (r: RecvBuf)
        ensures
            r.wf(),
            r.model().nread == 0,
            r.model().largest == 0,
            r.model().segs.len() == 0,
    {
        let r = RecvBuf { nread: 0, largest_offset: 0, segments: VecDeque::new() };
        assert(r.model().segs =~= Seq::<SegView>::empty());
        r
    }

    /// Whether no segment is stored.
    pub fn is_empty(&self) -> (r: bool)
        ensures
            r == (self.model().segs.len() == 0),
    {
        self.segments.len() == 0
    }

    /// How many contiguous bytes have been read.
    pub fn nread(&self) -> (r: u64)
        ensures
            r == self.model().nread,
    {
        self.nread
    }

    /// The largest offset received.
    pub fn largest_offset(&self) -> (r: u64)
        ensures
            r == self.model().largest,
    {
        self.largest_offset
    }

    /// The number of stored segments.
    pub fn segment_count(&self) -> (r: usize)
        ensures
            r == self.model().segs.len(),
    {
        self.segments.len()
    }

    /// The offset of the `i`-th stored segment.
    pub fn segment_offset(&self, i: usize) -> (r: u64)
        requires
            i < self.model().segs.len(),
        ensures
            r == self.model().segs[i as int].0,
    {
        self.segments[i].offset
    }

    /// The index of the first segment that ends after `start`.
    fn first_after(&self, start: u64) -> (k: usize)
        requires
            self.wf(),
        ensures
            k <= self.model().segs.len(),
            forall|i: int| 0 <= i < k ==> seg_end(#[trigger] self.model().segs[i]) <= start,
            k < self.model().segs.len() ==> seg_end(self.model().segs[k as int]) > start,
    {
        let ghost segs = self.model().segs;
        let mut lo: usize = 0;
        let mut hi: usize = self.segments.len();
        while lo < hi
            invariant
                segs == self.model().segs,
                self.wf(),
                lo <= hi <= segs.len(),
                forall|i: int| 0 <= i < lo ==> seg_end(#[trigger] segs[i]) <= start,
                forall|i: int| hi <= i < segs.len() ==> seg_end(#[trigger] segs[i]) > start,
            decreases hi - lo,
        {
            let mid = lo + (hi - lo) / 2;
            assert(segs[mid as int] == self.segments@[mid as int].view());
            if self.segments[mid].end() <= start {
                assert forall|i: int| 0 <= i < mid + 1 implies seg_end(#[trigger] segs[i])
                    <= start by {
                    if i < mid {
                        assert(seg_end(segs[i]) <= segs[mid as int].0);
                    }
                }
                lo = mid + 1;
            } else {
                assert forall|i: int| mid <= i < segs.len() implies seg_end(#[trigger] segs[i])
                    > start by {
                    if i > mid {
                        assert(seg_end(segs[mid as int]) <= segs[i].0);
                        assert(segs[i].1.len() > 0);
                    }
                }
                hi = mid;
            }
        }
        lo
    }

    /// Receives `data` at `offset` and returns how far `largest_offset` grew,
    /// which is what the fragment costs in flow control.
    pub fn recv(&mut self, offset: u64, data: Bytes) -> (r: u64)
        requires
            old(self).wf(),
            offset + bytes_view(data).len() <= u64::MAX,
        ensures
            final(self).wf(),
            final(self).model() == recv_model(old(self).model(), offset as int, bytes_view(data)),
            r == final(self).model().largest - old(self).model().largest,
    {
        let ghost d = bytes_view(data);
        let ghost old_segs = self.model().segs;
        let ghost n = old_segs.len() as int;
        let len = bytes_len(&data);
        let end = offset + len as u64;
        let start = if offset > self.nread { offset } else { self.nread };
        let previous_largest = self.largest_offset;
        proof {
            recv_keeps_invariant(self.model(), offset as int, d);
        }
        if start >= end {
            proof {
                lemma_fill_noop(old_segs, start as int, end as int, offset as int, d);
            }
            assert(self.model() =~= recv_model(old(self).model(), offset as int, d));
            return 0;
        }
        let mut i = self.first_after(start);
        proof {
            lemma_fill_skip(old_segs, i as int, start as int, end as int, offset as int, d);
        }
        let ghost mut j: int = i as int;
        let ghost target = fill(old_segs, start as int, end as int, offset as int, d);
        let mut cur = start;
        assert(self.model().segs.subrange(0, i as int) =~= old_segs.subrange(0, j));
        assert(self.model().segs.subrange(i as int, self.model().segs.len() as int)
            =~= old_segs.subrange(j, n));
        while cur < end && i < self.segments.len()
            invariant
                offset <= start <= cur,
                end == offset + d.len(),
                len == d.len(),
                d == bytes_view(data),
                0 <= j <= n,
                n == old_segs.len(),
                old(self).model().wf(),
                old_segs == old(self).model().segs,
                self.nread == old(self).nread,
                self.largest_offset == old(self).largest_offset,
                i <= self.model().segs.len(),
                self.model().segs.len() - i == n - j,
                self.model().segs.subrange(i as int, self.model().segs.len() as int)
                    == old_segs.subrange(j, n),
                target == self.model().segs.subrange(0, i as int) + fill(
                    old_segs.subrange(j, n),
                    cur as int,
                    end as int,
                    offset as int,
                    d,
                ),
            decreases n - j,
        {
            let ghost segs0 = self.model().segs;
            let ghost rest = old_segs.subrange(j, n);
            let ghost s = old_segs[j];
            assert(segs0[i as int] == rest[0]);
            assert(rest[0] == s);
            assert(seg_end(s) <= old(self).model().largest);
            assert(rest.drop_first() =~= old_segs.subrange(j + 1, n));
            let seg_off = self.segments[i].offset;
            let seg_end_ = self.segments[i].end();
            assert(self.segments@[i as int].view() == segs0[i as int]);
            assert(seg_off == s.0);
            assert(seg_end_ == seg_end(s));
            let ghost next = if cur < seg_end(s) { seg_end(s) } else { cur as int };
            let ghost m = if end < s.0 { end as int } else { s.0 };
            if cur < seg_off {
                let mm = if end < seg_off { end } else { seg_off };
                let piece_data = bytes_slice(&data, (cur - offset) as usize, (mm - offset) as usize);
                let seg = Segment::new_with_data(cur, piece_data);
                assert(seg.view() == piece(offset as int, d, cur as int, m));
                self.segments.insert(i, seg);
                let ghost segs1 = self.model().segs;
                assert(segs1 =~= segs0.insert(i as int, seg.view()));
                assert(segs1.subrange(0, i as int + 1) =~= segs0.subrange(0, i as int).push(
                    seg.view(),
                ));
                i = i + 1;
                cur = mm;
            }
            let ghost segs2 = self.model().segs;
            assert(segs2[i as int] == s);
            assert(segs2.subrange(0, i as int + 1) =~= segs2.subrange(0, i as int).push(s));
            if cur < seg_end_ {
                cur = seg_end_;
            }
            assert(cur == next);
            assert(i < self.model().segs.len());
            assert(self.segments@.len() == self.model().segs.len());
            assert(i < self.segments.len());
            i = i + 1;
            proof {
                j = j + 1;
            }
            assert(self.model().segs.subrange(i as int, self.model().segs.len() as int)
                =~= old_segs.subrange(j, n));
            assert(target =~= self.model().segs.subrange(0, i as int) + fill(
                old_segs.subrange(j, n),
                cur as int,
                end as int,
                offset as int,
                d,
            ));
        }
        if cur < end {
            assert(j == n);
            assert(old_segs.subrange(j, n) =~= Seq::<SegView>::empty());
            let piece_data = bytes_slice(&data, (cur - offset) as usize, (end - offset) as usize);
            let seg = Segment::new_with_data(cur, piece_data);
            self.segments.push_back(seg);
            assert(self.model().segs =~= target);
        } else {
            proof {
                lemma_fill_noop(old_segs.subrange(j, n), cur as int, end as int, offset as int, d);
            }
            assert(self.model().segs =~= target);
        }
        if end > self.largest_offset {
            self.largest_offset = end;
        }
        assert(self.model() =~= recv_model(old(self).model(), offset as int, d));
        self.largest_offset - previous_largest
    }

    /// Receives `data` at `offset` as `recv` does, unless the fragment would
    /// end past the largest offset a `u64` holds: then `None`, and the buffer
    /// does not change.
    pub fn try_recv(&mut self, offset: u64, data: Bytes) -> (r: Option<u64>)
        requires
            old(self).wf(),
        ensures
            final(self).wf(),
            offset + bytes_view(data).len() > u64::MAX ==> r is None && final(self).model() == old(self).model(),
            offset + bytes_view(data).len() <= u64::MAX ==> {
                &&& final(self).model() == recv_model(old(self).model(), offset as int, bytes_view(data))
                &&& r == Some((final(self).model().largest - old(self).model().largest) as u64)
            },
    {
        let len = bytes_len(&data);
        if len as u64 > u64::MAX - offset {
            return None;
        }
        Some(self.recv(offset, data))
    }

    /// The number of contiguous bytes readable from `nread` on.
    pub fn available(&self) -> (r: u64)
        requires
            self.wf(),
        ensures
            r == readable(self.model().segs, self.model().nread).len(),
    {
        let ghost segs = self.model().segs;
        let ghost n = segs.len() as int;
        let mut pos = self.nread;
        let mut i: usize = 0;
        assert(segs.subrange(0, n) =~= segs);
        while i < self.segments.len() && self.segments[i].offset == pos
            invariant
                self.wf(),
                segs == self.model().segs,
                n == segs.len(),
                i <= n,
                self.nread <= pos,
                i < n ==> pos <= segs[i as int].0,
                readable(segs, self.nread as int).len() == (pos - self.nread) + readable(
                    segs.subrange(i as int, n),
                    pos as int,
                ).len(),
            decreases n - i,
        {
            let ghost sub = segs.subrange(i as int, n);
            assert(sub[0] == segs[i as int]);
            assert(sub.drop_first() =~= segs.subrange(i as int + 1, n));
            assert(self.segments@[i as int].view() == segs[i as int]);
            let seg_end_ = self.segments[i].end();
            if i + 1 < self.segments.len() {
                assert(seg_end(segs[i as int]) <= segs[i + 1].0);
            }
            pos = seg_end_;
            i = i + 1;
        }
        assert(readable(segs.subrange(i as int, n), pos as int).len() == 0);
        pos - self.nread
    }

    /// Whether the stored data continues the stream right at `nread`.
    pub fn is_readable(&self) -> (r: bool)
        requires
            self.wf(),
        ensures
            r == (self.model().segs.len() > 0 && self.model().segs[0].0 == self.model().nread),
            r == (readable(self.model().segs, self.model().nread).len() > 0),
    {
        self.segments.len() > 0 && self.segments[0].offset == self.nread
    }

    /// Appends to `dst` as many contiguous bytes as are readable, at most
    /// `limit`, and returns how many; `nread` advances by that much.
    pub fn try_read(&mut self, dst: &mut Vec<u8>, limit: usize) -> (r: usize)
        requires
            old(self).wf(),
        ensures
            final(self).wf(),
            r as int == (if limit < readable(old(self).model().segs, old(self).model().nread).len() {
                limit as int
            } else {
                readable(old(self).model().segs, old(self).model().nread).len() as int
            }),
            final(dst)@ == old(dst)@ + readable(old(self).model().segs, old(self).model().nread).subrange(0, r as int),
            final(self).model() == read_model(old(self).model(), r as int),
    {
        let ghost m0 = self.model();
        let ghost big = readable(m0.segs, m0.nread);
        let ghost total = big.len() as int;
        let mut done: usize = 0;
        assert(drop_prefix(m0.segs, 0) == m0.segs);
        assert(big.subrange(0, 0) =~= Seq::<u8>::empty());
        assert(dst@ =~= old(dst)@ + big.subrange(0, 0));
        assert(big.subrange(0, total) =~= big);
        while done < limit && self.segments.len() > 0 && self.segments[0].offset == self.nread
            invariant
                m0 == old(self).model(),
                m0.wf(),
                big == readable(m0.segs, m0.nread),
                total == big.len(),
                done <= limit,
                done <= total,
                self.wf(),
                self.model() == read_model(m0, done as int),
                readable(self.model().segs, self.model().nread) == big.subrange(done as int, total),
                dst@ == old(dst)@ + big.subrange(0, done as int),
            decreases total - done,
        {
            let ghost segs0 = self.model().segs;
            let ghost pos = self.nread as int;
            let ghost r0 = readable(segs0, pos);
            let seg = match self.segments.pop_front() {
                Some(seg) => seg,
                None => { return done; },
            };
            assert(seg.view() == segs0[0]);
            assert(segs0[0].1.len() > 0);
            assert(seg_end(segs0[0]) <= self.largest_offset);
            let seg_len = bytes_len(&seg.data);
            let want = limit - done;
            let ghost step = if (want as int) < (seg_len as int) { want as int } else { seg_len as int };
            proof {
                lemma_read_step(segs0, pos, step);
                lemma_drop_prefix_compose(m0.segs, done as int, step);
            }
            assert(big.subrange(0, done + step) =~= big.subrange(0, done as int) + r0.subrange(0, step));
            assert(r0.subrange(step, r0.len() as int) =~= big.subrange(done + step, total));
            if want >= seg_len {
                extend_with_bytes(dst, &seg.data);
                assert(seg_len > 0);
                assert(bytes_view(seg.data) =~= segs0[0].1.subrange(0, step));
                self.nread = self.nread + seg_len as u64;
                done = done + seg_len;
                assert(self.model().segs =~= segs0.drop_first());
            } else {
                let mut data = seg.data;
                let head = bytes_split_to(&mut data, want);
                extend_with_bytes(dst, &head);
                self.nread = self.nread + want as u64;
                let rest_seg = Segment::new_with_data(seg.offset + want as u64, data);
                self.segments.push_front(rest_seg);
                done = limit;
                assert(self.model().segs =~= drop_prefix(segs0, step));
            }
            assert(self.model() =~= read_model(m0, done as int));
            proof {
                let mm = self.model();
                assert(mm.segs.len() > 0 ==> mm.segs[0].0 >= mm.nread) by {
                    if mm.segs.len() > 0 && step < segs0[0].1.len() {
                    } else if mm.segs.len() > 0 {
                        assert(mm.segs[0] == segs0[1]);
                    }
                }
                assert(forall|i: int| 0 <= i < mm.segs.len() ==> #[trigger] mm.segs[i].0 >= mm.nread) by {
                    assert forall|i: int| 0 <= i < mm.segs.len() implies #[trigger] mm.segs[i].0 >= mm.nread by {
                        if step < segs0[0].1.len() {
                            if i > 0 {
                                assert(mm.segs[i] == segs0[i]);
                                assert(seg_end(segs0[0]) <= segs0[i].0);
                            }
                        } else {
                            assert(mm.segs[i] == segs0[i + 1]);
                            assert(seg_end(segs0[0]) <= segs0[i + 1].0);
                        }
                    }
                }
                assert(sorted(mm.segs)) by {
                    assert forall|i: int, j: int|
                        #![trigger mm.segs[i], mm.segs[j]]
                        0 <= i < j < mm.segs.len() implies seg_end(mm.segs[i]) <= mm.segs[j].0 by {
                        if step < segs0[0].1.len() {
                            assert(mm.segs[j] == segs0[j]);
                            if i > 0 {
                                assert(mm.segs[i] == segs0[i]);
                            } else {
                                assert(seg_end(mm.segs[0]) == seg_end(segs0[0]));
                            }
                        } else {
                            assert(mm.segs[i] == segs0[i + 1]);
                            assert(mm.segs[j] == segs0[j + 1]);
                        }
                    }
                }
                assert(nonempty(mm.segs)) by {
                    assert forall|i: int| 0 <= i < mm.segs.len() implies #[trigger] mm.segs[i].1.len() > 0 by {
                        if step < segs0[0].1.len() {
                            if i > 0 {
                                assert(mm.segs[i] == segs0[i]);
                            }
                        } else {
                            assert(mm.segs[i] == segs0[i + 1]);
                        }
                    }
                }
                assert forall|i: int| 0 <= i < mm.segs.len() implies seg_end(#[trigger] mm.segs[i]) <= mm.largest by {
                    if step < segs0[0].1.len() {
                        if i > 0 {
                            assert(mm.segs[i] == segs0[i]);
                        }
                    } else {
                        assert(mm.segs[i] == segs0[i + 1]);
                    }
                }
            }
        }
        proof {
            let mm = self.model();
            if done < limit {
                assert(readable(mm.segs, mm.nread).len() == 0);
                assert(big.subrange(done as int, total).len() == 0);
            }
        }
        done
    }
}

impl Default for RecvBuf {
    fn default() -> (r: RecvBuf)
        ensures
            r.wf(),
            r.model().nread == 0,
            r.model().largest == 0,
            r.model().segs.len() == 0,
    {
        RecvBuf::new()
    }
}

} // verus!
