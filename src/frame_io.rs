//! Reading frames from a decrypted packet payload.
use bytes::Bytes;
use vstd::prelude::*;

use crate::buf::{bytes_as_slice, bytes_clear, bytes_len, bytes_slice, bytes_split_to, bytes_view};
use crate::frame_type::{
    admissible, be_frame_type, type_of_tag, FrameError, FrameFeture, FrameType, PacketType,
};
use crate::frames::{
    AckFrame, ConnectionCloseFrame, CryptoFrame, DataBlockedFrame, DatagramFrame, EcnCounts, Frame,
    GetFrameType, HandshakeDoneFrame, MaxDataFrame, MaxStreamDataFrame, MaxStreamsFrame,
    NewConnectionIdFrame, NewTokenFrame, PaddingFrame, PathChallengeFrame, PathResponseFrame,
    PingFrame, ResetStreamFrame, RetireConnectionIdFrame, StopSendingFrame, StreamCtlFrame,
    StreamDataBlockedFrame, StreamFrame, StreamsBlockedFrame,
};
use crate::dispatch::{frame_error_kind, frame_error_type};
use crate::error::ErrorKind;
use crate::frame_spec::{
    ack_ranges, ack_spec, body_spec, close_spec, frame_model, ncid_spec, read_frame, span, vint, vn,
    FrameModel,
};
use crate::varint::{decodable, decode_at, decode_value, len_of_first, VarInt};

verus! {

/// Reads a variable-length integer at `pos`; returns it and the position after it.
fn varint_at(s: &[u8], pos: usize) -> (r: Option<(VarInt, usize)>)
    requires
        pos <= s@.len(),
    ensures
        r matches Some((_, p)) ==> pos < p <= s@.len(),
        r is Some <==> decodable(s@.subrange(pos as int, s@.len() as int)),
        r matches Some((v, p)) ==> v.value() == decode_value(s@.subrange(pos as int, s@.len() as int))
            && p == pos + len_of_first(s@[pos as int]),
        r is None ==> vint(s@, pos as int) is None,
        r matches Some((v, p)) ==> vint(s@, pos as int) == Some((vn(v), p as int)),
{
    match decode_at(s, pos) {
        Some((v, n)) => {
            assert(s@.len() == s.len());
            Some((v, pos + n))
        },
        None => None,
    }
}

/// The position `len` bytes after `pos`, if the input holds them.
fn skip(s: &[u8], pos: usize, len: u64) -> (r: Option<usize>)
    requires
        pos <= s@.len(),
    ensures
        r matches Some(p) ==> pos <= p <= s@.len() && p - pos == len,
        r is None ==> pos + len > s@.len(),
        r is None ==> span(s@, pos as int, len as nat) is None,
        r matches Some(p) ==> span(s@, pos as int, len as nat) == Some((s@.subrange(pos as int, p as int), p as int)),
{
    if len > (s.len() - pos) as u64 {
        None
    } else {
        Some(pos + len as usize)
    }
}

/// Copies bytes `lo..hi` of the input.
fn copy_range(s: &[u8], lo: usize, hi: usize) -> (r: Vec<u8>)
    requires
        lo <= hi <= s@.len(),
    ensures
        r@ == s@.subrange(lo as int, hi as int),
{
    let mut r: Vec<u8> = Vec::new();
    let mut i = lo;
    while i < hi
        invariant
            lo <= i <= hi <= s@.len(),
            r@ == s@.subrange(lo as int, i as int),
        decreases hi - i,
    {
        r.push(s[i]);
        i = i + 1;
        assert(r@ =~= s@.subrange(lo as int, i as int));
    }
    r
}

proof fn lemma_ack_ranges_none(s: Seq<u8>, p: int, k: nat, m: nat)
    requires
        k <= m,
        ack_ranges(s, p, k) is None,
    ensures
        ack_ranges(s, p, m) is None,
    decreases m - k,
{
    if k < m {
        lemma_ack_ranges_none(s, p, k, (m - 1) as nat);
    }
}

fn be_ack(s: &[u8], pos: usize, ecn: bool) -> (r: Option<(AckFrame, usize)>)
    requires
        pos <= s@.len(),
    ensures
        r matches Some((f, p)) ==> pos < p <= s@.len() && (f.ecn is Some <==> ecn),
        r is None <==> ack_spec(s@, pos as int, ecn) is None,
        r matches Some((f, p)) ==> ack_spec(s@, pos as int, ecn) == Some((frame_model(Frame::Ack(f)), p as int)),
{
    let (largest, q1) = varint_at(s, pos)?;
    let (delay, q2) = varint_at(s, q1)?;
    let (count, q3) = varint_at(s, q2)?;
    let (first_range, q4) = varint_at(s, q3)?;
    let ghost p4 = q4 as int;
    let mut ranges: Vec<(VarInt, VarInt)> = Vec::new();
    let mut p = q4;
    let mut i: u64 = 0;
    let n = count.into_inner();
    let ghost mut rs: Seq<(nat, nat)> = Seq::empty();
    while i < n
        invariant
            pos < p <= s@.len(),
            p4 <= p,
            i <= n,
            n == count.value(),
            vint(s@, pos as int) == Some((vn(largest), q1 as int)),
            vint(s@, q1 as int) == Some((vn(delay), q2 as int)),
            vint(s@, q2 as int) == Some((vn(count), q3 as int)),
            vint(s@, q3 as int) == Some((vn(first_range), p4)),
            rs.len() == ranges@.len(),
            forall|j: int| 0 <= j < rs.len() ==> #[trigger] rs[j] == (vn(ranges@[j].0), vn(ranges@[j].1)),
            ack_ranges(s@, p4, i as nat) == Some((rs, p as int)),
        decreases s@.len() - p,
    {
        let (gap, q) = match varint_at(s, p) {
            Some(x) => x,
            None => {
                proof {
                    assert(ack_ranges(s@, p4, (i + 1) as nat) is None);
                    lemma_ack_ranges_none(s@, p4, (i + 1) as nat, n as nat);
                    assert(vn(count) == n as nat);
                    assert(ack_ranges(s@, p4, vn(count)) is None);
                }
                return None;
            },
        };
        let (len, q) = match varint_at(s, q) {
            Some(x) => x,
            None => {
                proof {
                    assert(ack_ranges(s@, p4, (i + 1) as nat) is None);
                    lemma_ack_ranges_none(s@, p4, (i + 1) as nat, n as nat);
                    assert(vn(count) == n as nat);
                    assert(ack_ranges(s@, p4, vn(count)) is None);
                }
                return None;
            },
        };
        ranges.push((gap, len));
        proof {
            assert(ack_ranges(s@, p4, (i + 1) as nat) == Some((rs.push((vn(gap), vn(len))), q as int)));
            rs = rs.push((vn(gap), vn(len)));
        }
        p = q;
        i = i + 1;
    }
    assert(ranges@.map_values(|r: (VarInt, VarInt)| (vn(r.0), vn(r.1))) =~= rs);
    let ecn_counts = if ecn {
        let (ect0, q) = varint_at(s, p)?;
        let (ect1, q) = varint_at(s, q)?;
        let (ce, q) = varint_at(s, q)?;
        p = q;
        Some(EcnCounts { ect0, ect1, ce })
    } else {
        None
    };
    Some((AckFrame { largest, delay, first_range, ranges, ecn: ecn_counts }, p))
}

fn be_close(s: &[u8], pos: usize, layer: u8) -> (r: Option<(ConnectionCloseFrame, usize)>)
    requires
        pos <= s@.len(),
    ensures
        r matches Some((f, p)) ==> pos < p <= s@.len() && f.layer == layer,
        r is None <==> close_spec(s@, pos as int, layer) is None,
        r matches Some((f, p)) ==> close_spec(s@, pos as int, layer) == Some((frame_model(Frame::Close(f)), p as int)),
{
    let (error_code, p) = varint_at(s, pos)?;
    let (frame_type, p) = if layer == 0 {
        let (t, q) = varint_at(s, p)?;
        (Some(t), q)
    } else {
        (None, p)
    };
    let (len, p) = varint_at(s, p)?;
    let end = skip(s, p, len.into_inner())?;
    let reason = copy_range(s, p, end);
    Some((ConnectionCloseFrame { layer, error_code, frame_type, reason }, end))
}

fn be_new_connection_id(s: &[u8], pos: usize) -> (r: Option<(NewConnectionIdFrame, usize)>)
    requires
        pos <= s@.len(),
    ensures
        r matches Some((_, p)) ==> pos < p <= s@.len(),
        r is None <==> ncid_spec(s@, pos as int) is None,
        r matches Some((f, p)) ==> ncid_spec(s@, pos as int) == Some((frame_model(Frame::NewConnectionId(f)), p as int)),
{
    let (sequence, p) = varint_at(s, pos)?;
    let (retire_prior_to, p) = varint_at(s, p)?;
    if p >= s.len() {
        return None;
    }
    let len = s[p];
    if len < 1 || len > 20 {
        return None;
    }
    let p = p + 1;
    let id_end = skip(s, p, len as u64)?;
    let token_end = skip(s, id_end, 16)?;
    let id = copy_range(s, p, id_end);
    let reset_token = copy_range(s, id_end, token_end);
    Some((NewConnectionIdFrame { sequence, retire_prior_to, id, reset_token }, token_end))
}

/// Whether frames of type `t` have no body.
pub open spec fn bodiless(t: FrameType) -> bool {
    t == FrameType::Padding || t == FrameType::Ping || t == FrameType::HandshakeDone
}

/// Whether the body of frames of type `t` is one variable-length integer.
pub open spec fn single_varint_body(t: FrameType) -> bool {
    t == FrameType::MaxData || t == FrameType::DataBlocked || t == FrameType::RetireConnectionId
        || t is MaxStreams || t is StreamsBlocked
}

/// The integer a frame with a one-integer body carries.
pub open spec fn single_varint_of(f: Frame) -> Option<nat> {
    match f {
        Frame::MaxData(x) => Some(x.max_data.value() as nat),
        Frame::DataBlocked(x) => Some(x.limit.value() as nat),
        Frame::RetireConnectionId(x) => Some(x.sequence.value() as nat),
        Frame::StreamCtl(StreamCtlFrame::MaxStreams(x)) => Some(x.max_streams.value() as nat),
        Frame::StreamCtl(StreamCtlFrame::StreamsBlocked(x)) => Some(x.limit.value() as nat),
        _ => None,
    }
}

/// Reads one frame from the start of `payload` for a packet of type
/// `packet_type`: the bytes it took, the frame and its type. The type is read
/// first: `IncompleteType` when its encoding is cut short, `InvalidType` when
/// it names no frame type (an extension frame the caller may skip), and
/// `WrongType` when it may not travel in `packet_type`; a body that is cut
/// short or malformed gives `IncompleteFrame`.
pub fn be_frame(payload: &Bytes, packet_type: PacketType) -> (r: Result<(usize, Frame, FrameType), FrameError>)
    ensures
        match r {
            Ok((n, f, t)) => read_frame(bytes_view(*payload), packet_type) == Ok::<
                (int, FrameModel, FrameType),
                (ErrorKind, FrameType),
            >((n as int, frame_model(f), t)),
            Err(e) => read_frame(bytes_view(*payload), packet_type) == Err::<
                (int, FrameModel, FrameType),
                (ErrorKind, FrameType),
            >((frame_error_kind(e), frame_error_type(e))),
        },
        !decodable(bytes_view(*payload)) ==> r == Err::<(usize, Frame, FrameType), FrameError>(FrameError::IncompleteType),
        decodable(bytes_view(*payload)) ==> match type_of_tag(decode_value(bytes_view(*payload)) as u64) {
            None => r matches Err(FrameError::InvalidType(v)) && v.value() == decode_value(bytes_view(*payload)),
            Some(t) => {
                &&& !admissible(t, packet_type) ==> r == Err::<(usize, Frame, FrameType), FrameError>(FrameError::WrongType(t, packet_type))
                &&& admissible(t, packet_type) ==> match r {
                    Ok((n, f, ft)) => {
                        &&& ft == t
                        &&& f.spec_frame_type() == t
                        &&& len_of_first(bytes_view(*payload)[0]) <= n <= bytes_view(*payload).len()
                        &&& bodiless(t) ==> n == len_of_first(bytes_view(*payload)[0])
                        &&& single_varint_body(t) ==> single_varint_of(f) == Some(decode_value(
                            bytes_view(*payload).subrange(len_of_first(bytes_view(*payload)[0]) as int, bytes_view(*payload).len() as int),
                        ))
                    },
                    Err(e) => e == FrameError::IncompleteFrame(t),
                }
                &&& admissible(t, packet_type) && bodiless(t) ==> r is Ok
                &&& admissible(t, packet_type) && single_varint_body(t) ==> (r is Ok <==> decodable(
                    bytes_view(*payload).subrange(len_of_first(bytes_view(*payload)[0]) as int, bytes_view(*payload).len() as int),
                ))
            },
        },
{
    let s = bytes_as_slice(payload);
    let (pos, t) = match be_frame_type(s) {
        Ok(x) => x,
        Err(e) => return Err(e),
    };
    if !t.belongs_to(packet_type) {
        return Err(FrameError::WrongType(t, packet_type));
    }
    let body = be_body(payload, s, pos, t);
    match body {
        Some((frame, end)) => Ok((end, frame, t)),
        None => Err(FrameError::IncompleteFrame(t)),
    }
}

#[verifier::rlimit(100)]
#[verifier::spinoff_prover]
fn be_body(payload: &Bytes, s: &[u8], pos: usize, t: FrameType) -> (r: Option<(Frame, usize)>)
    requires
        s@ == bytes_view(*payload),
        pos <= s@.len(),
    ensures
        r matches Some((f, p)) ==> pos <= p <= s@.len() && f.spec_frame_type() == t,
        bodiless(t) ==> (r matches Some((_, p)) && p == pos),
        single_varint_body(t) ==> (r is Some <==> decodable(s@.subrange(pos as int, s@.len() as int))),
        r matches Some((f, p)) ==> single_varint_body(t) ==> p == pos + len_of_first(s@[pos as int])
            && single_varint_of(f) == Some(decode_value(s@.subrange(pos as int, s@.len() as int))),
        r is None <==> body_spec(s@, pos as int, t) is None,
        r matches Some((f, p)) ==> body_spec(s@, pos as int, t) == Some((frame_model(f), p as int)),
{
    match t {
        FrameType::Padding => Some((Frame::Padding(PaddingFrame), pos)),
        FrameType::Ping => Some((Frame::Ping(PingFrame), pos)),
        FrameType::HandshakeDone => Some((Frame::HandshakeDone(HandshakeDoneFrame), pos)),
        FrameType::Ack(ecn) => {
            let (f, p) = be_ack(s, pos, ecn == 1)?;
            if (ecn == 1) != f.ecn.is_some() {
                return None;
            }
            assert(f.spec_frame_type() == FrameType::Ack(if f.ecn is Some { 1 } else { 0 }));
            if ecn > 1 {
                return None;
            }
            Some((Frame::Ack(f), p))
        },
        FrameType::ResetStream => {
            let (stream_id, p) = varint_at(s, pos)?;
            let (app_error_code, p) = varint_at(s, p)?;
            let (final_size, p) = varint_at(s, p)?;
            Some((Frame::StreamCtl(StreamCtlFrame::ResetStream(ResetStreamFrame { stream_id, app_error_code, final_size })), p))
        },
        FrameType::StopSending => {
            let (stream_id, p) = varint_at(s, pos)?;
            let (app_error_code, p) = varint_at(s, p)?;
            Some((Frame::StreamCtl(StreamCtlFrame::StopSending(StopSendingFrame { stream_id, app_error_code })), p))
        },
        FrameType::Crypto => {
            let (offset, p) = varint_at(s, pos)?;
            let (length, p) = varint_at(s, p)?;
            let end = skip(s, p, length.into_inner())?;
            let data = bytes_slice(payload, p, end);
            Some((Frame::Crypto(CryptoFrame { offset, length }, data), end))
        },
        FrameType::NewToken => {
            let (length, p) = varint_at(s, pos)?;
            let end = skip(s, p, length.into_inner())?;
            let token = copy_range(s, p, end);
            Some((Frame::NewToken(NewTokenFrame { token }), end))
        },
        FrameType::Stream(flags) => {
            let (stream_id, p) = varint_at(s, pos)?;
            let (offset, p) = if flags & 0x04 != 0 {
                varint_at(s, p)?
            } else {
                (VarInt::from_u32(0), p)
            };
            let end = if flags & 0x02 != 0 {
                let (length, q) = varint_at(s, p)?;
                let e = skip(s, q, length.into_inner())?;
                let data = bytes_slice(payload, q, e);
                let length = e - q;
                return Some((Frame::Stream(StreamFrame { stream_id, offset, length, flags }, data), e));
            } else {
                s.len()
            };
            let data = bytes_slice(payload, p, end);
            Some((Frame::Stream(StreamFrame { stream_id, offset, length: end - p, flags }, data), end))
        },
        FrameType::MaxData => {
            let (max_data, p) = varint_at(s, pos)?;
            Some((Frame::MaxData(MaxDataFrame { max_data }), p))
        },
        FrameType::MaxStreamData => {
            let (stream_id, p) = varint_at(s, pos)?;
            let (max_stream_data, p) = varint_at(s, p)?;
            Some((Frame::StreamCtl(StreamCtlFrame::MaxStreamData(MaxStreamDataFrame { stream_id, max_stream_data })), p))
        },
        FrameType::MaxStreams(dir) => {
            let (max_streams, p) = varint_at(s, pos)?;
            Some((Frame::StreamCtl(StreamCtlFrame::MaxStreams(MaxStreamsFrame { dir, max_streams })), p))
        },
        FrameType::DataBlocked => {
            let (limit, p) = varint_at(s, pos)?;
            Some((Frame::DataBlocked(DataBlockedFrame { limit }), p))
        },
        FrameType::StreamDataBlocked => {
            let (stream_id, p) = varint_at(s, pos)?;
            let (limit, p) = varint_at(s, p)?;
            Some((Frame::StreamCtl(StreamCtlFrame::StreamDataBlocked(StreamDataBlockedFrame { stream_id, limit })), p))
        },
        FrameType::StreamsBlocked(dir) => {
            let (limit, p) = varint_at(s, pos)?;
            Some((Frame::StreamCtl(StreamCtlFrame::StreamsBlocked(StreamsBlockedFrame { dir, limit })), p))
        },
        FrameType::NewConnectionId => {
            let (f, p) = be_new_connection_id(s, pos)?;
            Some((Frame::NewConnectionId(f), p))
        },
        FrameType::RetireConnectionId => {
            let (sequence, p) = varint_at(s, pos)?;
            Some((Frame::RetireConnectionId(RetireConnectionIdFrame { sequence }), p))
        },
        FrameType::PathChallenge => {
            let end = skip(s, pos, 8)?;
            Some((Frame::Challenge(PathChallengeFrame { data: copy_range(s, pos, end) }), end))
        },
        FrameType::PathResponse => {
            let end = skip(s, pos, 8)?;
            Some((Frame::Response(PathResponseFrame { data: copy_range(s, pos, end) }), end))
        },
        FrameType::ConnectionClose(layer) => {
            let (f, p) = be_close(s, pos, layer)?;
            Some((Frame::Close(f), p))
        },
        FrameType::Datagram(with_len) => {
            if with_len != 0 {
                let (length, q) = varint_at(s, pos)?;
                let e = skip(s, q, length.into_inner())?;
                let data = bytes_slice(payload, q, e);
                Some((Frame::Datagram(DatagramFrame { with_len, length: e - q }, data), e))
            } else {
                let data = bytes_slice(payload, pos, s.len());
                Some((Frame::Datagram(DatagramFrame { with_len, length: s.len() - pos }, data), s.len()))
            }
        },
    }
}

/// Reads frames one by one from a decrypted payload until it is used up.
pub struct FrameReader {
    payload: Bytes,
    packet_type: PacketType,
}

impl FrameReader {
    /// The bytes not read yet.
    pub closed spec fn spec_payload(&self) -> Seq<u8> {
        bytes_view(self.payload)
    }

    /// The type of the packet the payload came in.
    pub closed spec fn spec_packet_type(&self) -> PacketType {
        self.packet_type
    }

    /// A reader over `payload`, from a packet of type `packet_type`.
    pub fn new(payload: Bytes, packet_type: PacketType) -> (r: Self)
        ensures
            r.spec_payload() == bytes_view(payload),
            r.spec_packet_type() == packet_type,
    {
        FrameReader { payload, packet_type }
    }

    /// The bytes not read yet.
    pub fn remaining(&self) -> (r: &Bytes)
        ensures
            bytes_view(*r) == self.spec_payload(),
    {
        &self.payload
    }

    /// Skips `n` bytes, such as those of an extension frame the caller read itself.
    pub fn advance(&mut self, n: usize)
        requires
            n <= old(self).spec_payload().len(),
        ensures
            final(self).spec_payload() == old(self).spec_payload().subrange(n as int, old(self).spec_payload().len() as int),
            final(self).spec_packet_type() == old(self).spec_packet_type(),
    {
        let _ = bytes_split_to(&mut self.payload, n);
    }

    /// Drops what is left of the payload.
    pub fn clear(&mut self)
        ensures
            final(self).spec_payload().len() == 0,
            final(self).spec_packet_type() == old(self).spec_packet_type(),
    {
        bytes_clear(&mut self.payload);
    }

    /// The next frame and its type; `None` once the payload is used up. On an
    /// error nothing is consumed, so the caller may skip an extension frame
    /// with `advance` and go on.
    pub fn next(&mut self) -> (r: Option<Result<(Frame, FrameType), FrameError>>)
        ensures
            r matches Some(Ok((f, t))) ==> (read_frame(old(self).spec_payload(), old(self).spec_packet_type()) matches Ok((n, m, t2))
                && m == frame_model(f) && t2 == t && 0 < n <= old(self).spec_payload().len()
                && final(self).spec_payload() == old(self).spec_payload().subrange(n, old(self).spec_payload().len() as int)),
            r matches Some(Err(e)) ==> read_frame(old(self).spec_payload(), old(self).spec_packet_type()) == Err::<
                (int, FrameModel, FrameType),
                (ErrorKind, FrameType),
            >((frame_error_kind(e), frame_error_type(e))),
            final(self).spec_packet_type() == old(self).spec_packet_type(),
            r is None <==> old(self).spec_payload().len() == 0,
            r is None ==> final(self).spec_payload() == old(self).spec_payload(),
            r matches Some(Err(_)) ==> final(self).spec_payload() == old(self).spec_payload(),
            old(self).spec_payload().len() > 0 && !decodable(old(self).spec_payload()) ==> r == Some(
                Err::<(Frame, FrameType), FrameError>(FrameError::IncompleteType),
            ),
            decodable(old(self).spec_payload()) ==> match type_of_tag(decode_value(old(self).spec_payload()) as u64) {
                None => r matches Some(Err(FrameError::InvalidType(v))) && v.value() == decode_value(
                    old(self).spec_payload(),
                ),
                Some(t) => {
                    &&& !admissible(t, old(self).spec_packet_type()) ==> r == Some(
                        Err::<(Frame, FrameType), FrameError>(FrameError::WrongType(t, old(self).spec_packet_type())),
                    )
                    &&& admissible(t, old(self).spec_packet_type()) ==> match r {
                        Some(Ok((_, ft))) => ft == t,
                        Some(Err(e)) => e == FrameError::IncompleteFrame(t),
                        None => false,
                    }
                    &&& admissible(t, old(self).spec_packet_type()) && bodiless(t) ==> (r matches Some(Ok(_))
                        && final(self).spec_payload() == old(self).spec_payload().subrange(
                            len_of_first(old(self).spec_payload()[0]) as int,
                            old(self).spec_payload().len() as int,
                        ))
                },
            },
            r matches Some(Ok((f, t))) ==> {
                &&& f.spec_frame_type() == t
                &&& admissible(t, old(self).spec_packet_type())
                &&& exists|n: int| 0 < n <= old(self).spec_payload().len()
                    && final(self).spec_payload() == #[trigger] old(self).spec_payload().subrange(n, old(self).spec_payload().len() as int)
            },
    {
        if bytes_len(&self.payload) == 0 {
            return None;
        }
        match be_frame(&self.payload, self.packet_type) {
            Ok((consumed, frame, frame_type)) => {
                let ghost old_payload = bytes_view(self.payload);
                let _ = bytes_split_to(&mut self.payload, consumed);
                assert(bytes_view(self.payload) == old_payload.subrange(consumed as int, old_payload.len() as int));
                assert(decodable(old_payload));
                assert(len_of_first(old_payload[0]) >= 1);
                assert(0 < consumed);
                assert(frame.spec_frame_type() == frame_type);
                assert(admissible(frame_type, self.packet_type));
                assert(self.spec_payload() == old(self).spec_payload().subrange(consumed as int, old(self).spec_payload().len() as int));
                Some(Ok((frame, frame_type)))
            },
            Err(e) => Some(Err(e)),
        }
    }
}

} // verus!
