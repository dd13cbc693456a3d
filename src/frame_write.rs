//! Writing the stream control and reliable frames (RFC 9000, section 19).
use vstd::prelude::*;

use crate::frame_type::{tag_of_type, FrameType};
use crate::frames::{GetFrameType, ReliableFrame, StreamCtlFrame};
use crate::frame_spec::{frame_model, read_frame, vint, FrameModel};
use crate::frame_type::{admissible, type_round_trip, well_formed, PacketType};
use crate::frames::Frame;
use crate::error::ErrorKind;
use crate::varint::{decodable, decode_value, encode_spec, len_of_first, varint_round_trip, VarInt, VARINT_MAX};

verus! {

/// The encoding of a frame type's tag.
pub open spec fn tag_encoding(t: FrameType) -> Seq<u8> {
    encode_spec(tag_of_type(t) as nat)
}

/// The encoding of a variable-length integer.
pub open spec fn varint_encoding(v: VarInt) -> Seq<u8> {
    encode_spec(v.value() as nat)
}

/// The encoding of a stream control frame.
pub open spec fn stream_ctl_encoding(f: StreamCtlFrame) -> Seq<u8> {
    tag_encoding(f.spec_frame_type()) + match f {
        StreamCtlFrame::ResetStream(x) => varint_encoding(x.stream_id) + varint_encoding(
            x.app_error_code,
        ) + varint_encoding(x.final_size),
        StreamCtlFrame::StopSending(x) => varint_encoding(x.stream_id) + varint_encoding(
            x.app_error_code,
        ),
        StreamCtlFrame::MaxStreamData(x) => varint_encoding(x.stream_id) + varint_encoding(
            x.max_stream_data,
        ),
        StreamCtlFrame::MaxStreams(x) => varint_encoding(x.max_streams),
        StreamCtlFrame::StreamDataBlocked(x) => varint_encoding(x.stream_id) + varint_encoding(
            x.limit,
        ),
        StreamCtlFrame::StreamsBlocked(x) => varint_encoding(x.limit),
    }
}

/// Whether a reliable frame can be written: lengths fit their fields.
pub open spec fn writable(f: ReliableFrame) -> bool {
    match f {
        ReliableFrame::NewToken(x) => x.token@.len() <= VARINT_MAX,
        ReliableFrame::NewConnectionId(x) => x.id@.len() <= 255,
        _ => true,
    }
}

/// The encoding of a reliable frame.
pub open spec fn reliable_encoding(f: ReliableFrame) -> Seq<u8> {
    match f {
        ReliableFrame::Stream(x) => stream_ctl_encoding(x),
        _ => tag_encoding(f.spec_frame_type()) + match f {
            ReliableFrame::NewToken(x) => encode_spec(x.token@.len()) + x.token@,
            ReliableFrame::MaxData(x) => varint_encoding(x.max_data),
            ReliableFrame::DataBlocked(x) => varint_encoding(x.limit),
            ReliableFrame::NewConnectionId(x) => varint_encoding(x.sequence) + varint_encoding(
                x.retire_prior_to,
            ) + seq![x.id@.len() as u8] + x.id@ + x.reset_token@,
            ReliableFrame::RetireConnectionId(x) => varint_encoding(x.sequence),
            _ => Seq::empty(),
        },
    }
}

/// Writes frames of type `F` into a byte sink.
pub trait WriteFrame<F> {
    /// Appends the encoding of `frame`.
    fn put_frame(&mut self, frame: &F);
}

fn put_tag(buf: &mut Vec<u8>, t: FrameType)
    ensures
        final(buf)@ == old(buf)@ + tag_encoding(t),
{
    t.to_varint().encode(buf);
}

fn put_bytes(buf: &mut Vec<u8>, bytes: &Vec<u8>)
    ensures
        final(buf)@ == old(buf)@ + bytes@,
{
    let ghost b0 = buf@;
    let mut i: usize = 0;
    while i < bytes.len()
        invariant
            i <= bytes@.len(),
            buf@ == b0 + bytes@.subrange(0, i as int),
        decreases bytes@.len() - i,
    {
        buf.push(bytes[i]);
        i = i + 1;
        assert(buf@ =~= b0 + bytes@.subrange(0, i as int));
    }
    assert(bytes@.subrange(0, bytes@.len() as int) =~= bytes@);
}

/// Appends the encoding of a stream control frame.
pub fn put_stream_ctl_frame(buf: &mut Vec<u8>, frame: &StreamCtlFrame)
    ensures
        final(buf)@ == old(buf)@ + stream_ctl_encoding(*frame),
{
    let ghost b0 = buf@;
    put_tag(buf, frame.frame_type());
    match frame {
        StreamCtlFrame::ResetStream(x) => {
            x.stream_id.encode(buf);
            x.app_error_code.encode(buf);
            x.final_size.encode(buf);
        },
        StreamCtlFrame::StopSending(x) => {
            x.stream_id.encode(buf);
            x.app_error_code.encode(buf);
        },
        StreamCtlFrame::MaxStreamData(x) => {
            x.stream_id.encode(buf);
            x.max_stream_data.encode(buf);
        },
        StreamCtlFrame::MaxStreams(x) => {
            x.max_streams.encode(buf);
        },
        StreamCtlFrame::StreamDataBlocked(x) => {
            x.stream_id.encode(buf);
            x.limit.encode(buf);
        },
        StreamCtlFrame::StreamsBlocked(x) => {
            x.limit.encode(buf);
        },
    }
    assert(buf@ =~= b0 + stream_ctl_encoding(*frame));
}

/// Appends the encoding of a reliable frame.
pub fn put_reliable_frame(buf: &mut Vec<u8>, frame: &ReliableFrame)
    requires
        writable(*frame),
    ensures
        final(buf)@ == old(buf)@ + reliable_encoding(*frame),
{
    let ghost b0 = buf@;
    match frame {
        ReliableFrame::Stream(x) => {
            put_stream_ctl_frame(buf, x);
            return;
        },
        _ => {},
    }
    put_tag(buf, frame.frame_type());
    match frame {
        ReliableFrame::NewToken(x) => {
            let len = match VarInt::from_u64(x.token.len() as u64) {
                Ok(len) => len,
                Err(_) => {
                    assert(false);
                    return;
                },
            };
            len.encode(buf);
            put_bytes(buf, &x.token);
        },
        ReliableFrame::MaxData(x) => {
            x.max_data.encode(buf);
        },
        ReliableFrame::DataBlocked(x) => {
            x.limit.encode(buf);
        },
        ReliableFrame::NewConnectionId(x) => {
            x.sequence.encode(buf);
            x.retire_prior_to.encode(buf);
            buf.push(x.id.len() as u8);
            put_bytes(buf, &x.id);
            put_bytes(buf, &x.reset_token);
        },
        ReliableFrame::RetireConnectionId(x) => {
            x.sequence.encode(buf);
        },
        ReliableFrame::HandshakeDone(_) => {},
        ReliableFrame::Stream(_) => {},
    }
    assert(buf@ =~= b0 + reliable_encoding(*frame));
}

impl WriteFrame<StreamCtlFrame> for Vec<u8> {
    fn put_frame(&mut self, frame: &StreamCtlFrame) {
        put_stream_ctl_frame(self, frame);
    }
}

/// An encoded integer is read back wherever it stands, whatever follows it.
proof fn lemma_vint_at(pre: Seq<u8>, v: nat, rest: Seq<u8>)
    requires
        v <= VARINT_MAX,
    ensures
        vint(pre + encode_spec(v) + rest, pre.len() as int) == Some((v, (pre.len() + encode_spec(v).len()) as int)),
{
    let e = encode_spec(v);
    varint_round_trip(v);
    let s = pre + e + rest;
    let sub = s.subrange(pre.len() as int, s.len() as int);
    assert(sub =~= e + rest);
    let k = len_of_first(e[0]);
    assert(sub[0] == e[0]);
    assert(sub.subrange(1, k as int) =~= e.subrange(1, k as int));
    assert(decodable(sub));
    assert(decode_value(sub) == decode_value(e));
    assert(s[pre.len() as int] == e[0]);
}

/// Whether the integers of a stream control frame are within the range of
/// variable-length integers, as those of every frame built at run time are.
pub open spec fn ctl_in_range(f: StreamCtlFrame) -> bool {
    match f {
        StreamCtlFrame::ResetStream(x) => x.stream_id.value() <= VARINT_MAX && x.app_error_code.value()
            <= VARINT_MAX && x.final_size.value() <= VARINT_MAX,
        StreamCtlFrame::StopSending(x) => x.stream_id.value() <= VARINT_MAX && x.app_error_code.value()
            <= VARINT_MAX,
        StreamCtlFrame::MaxStreamData(x) => x.stream_id.value() <= VARINT_MAX && x.max_stream_data.value()
            <= VARINT_MAX,
        StreamCtlFrame::MaxStreams(x) => x.max_streams.value() <= VARINT_MAX,
        StreamCtlFrame::StreamDataBlocked(x) => x.stream_id.value() <= VARINT_MAX && x.limit.value()
            <= VARINT_MAX,
        StreamCtlFrame::StreamsBlocked(x) => x.limit.value() <= VARINT_MAX,
    }
}

/// A frame read from its tag's encoding: its type is the tag's, and the rest
/// is the body.
proof fn lemma_tag_then_body(t: FrameType, body: Seq<u8>, p: PacketType)
    requires
        well_formed(t),
        admissible(t, p),
    ensures
        read_frame(tag_encoding(t) + body, p) == match crate::frame_spec::body_spec(
            tag_encoding(t) + body,
            tag_encoding(t).len() as int,
            t,
        ) {
            None => Err::<(int, FrameModel, FrameType), (ErrorKind, FrameType)>((ErrorKind::FrameEncodingError, t)),
            Some((m, e)) => Ok((e, m, t)),
        },
{
    type_round_trip(t);
    let s = tag_encoding(t) + body;
    lemma_vint_at(Seq::empty(), tag_of_type(t) as nat, body);
    assert(Seq::<u8>::empty() + tag_encoding(t) + body =~= s);
    assert(s.subrange(0, s.len() as int) =~= s);
}

/// Two encoded integers after a tag are read back as a frame's two fields.
proof fn lemma_two(t: FrameType, a: nat, b: nat, rest: Seq<u8>, p: PacketType)
    requires
        well_formed(t),
        admissible(t, p),
        a <= VARINT_MAX,
        b <= VARINT_MAX,
    ensures
        ({
            let tag = tag_encoding(t);
            let s = tag + encode_spec(a) + encode_spec(b) + rest;
            &&& vint(s, tag.len() as int) == Some((a, (tag.len() + encode_spec(a).len()) as int))
            &&& vint(s, (tag.len() + encode_spec(a).len()) as int) == Some((b, (tag.len() + encode_spec(a).len() + encode_spec(b).len()) as int))
        }),
{
    let tag = tag_encoding(t);
    let s = tag + encode_spec(a) + encode_spec(b) + rest;
    assert(s =~= tag + encode_spec(a) + (encode_spec(b) + rest));
    lemma_vint_at(tag, a, encode_spec(b) + rest);
    lemma_vint_at(tag + encode_spec(a), b, rest);
}

proof fn lemma_round_trip_reset_stream(f: StreamCtlFrame, rest: Seq<u8>, p: PacketType)
    requires
        f is ResetStream,
        well_formed(f.spec_frame_type()),
        ctl_in_range(f),
        p == PacketType::ZeroRtt || p == PacketType::OneRtt,
    ensures
        read_frame(stream_ctl_encoding(f) + rest, p) == Ok::<(int, FrameModel, FrameType), (ErrorKind, FrameType)>(
            (stream_ctl_encoding(f).len() as int, frame_model(Frame::StreamCtl(f)), f.spec_frame_type()),
        ),
{
    let t = f.spec_frame_type();
    let tag = tag_encoding(t);
    let x = f->ResetStream_0;
        let (a, b, c) = (x.stream_id.value() as nat, x.app_error_code.value() as nat, x.final_size.value() as nat);
        let s = tag + encode_spec(a) + encode_spec(b) + encode_spec(c) + rest;
        assert(stream_ctl_encoding(f) + rest =~= s);
        assert(s =~= tag + (encode_spec(a) + encode_spec(b) + encode_spec(c) + rest));
        lemma_tag_then_body(t, encode_spec(a) + encode_spec(b) + encode_spec(c) + rest, p);
        lemma_two(t, a, b, encode_spec(c) + rest, p);
        assert(s =~= tag + encode_spec(a) + encode_spec(b) + (encode_spec(c) + rest));
        lemma_vint_at(tag + encode_spec(a) + encode_spec(b), c, rest);
}

proof fn lemma_round_trip_stop_sending(f: StreamCtlFrame, rest: Seq<u8>, p: PacketType)
    requires
        f is StopSending,
        well_formed(f.spec_frame_type()),
        ctl_in_range(f),
        p == PacketType::ZeroRtt || p == PacketType::OneRtt,
    ensures
        read_frame(stream_ctl_encoding(f) + rest, p) == Ok::<(int, FrameModel, FrameType), (ErrorKind, FrameType)>(
            (stream_ctl_encoding(f).len() as int, frame_model(Frame::StreamCtl(f)), f.spec_frame_type()),
        ),
{
    let t = f.spec_frame_type();
    let tag = tag_encoding(t);
    let x = f->StopSending_0;
        let (a, b) = (x.stream_id.value() as nat, x.app_error_code.value() as nat);
        let s = tag + encode_spec(a) + encode_spec(b) + rest;
        assert(stream_ctl_encoding(f) + rest =~= s);
        assert(s =~= tag + (encode_spec(a) + encode_spec(b) + rest));
        lemma_tag_then_body(t, encode_spec(a) + encode_spec(b) + rest, p);
        lemma_two(t, a, b, rest, p);
}

proof fn lemma_round_trip_max_stream_data(f: StreamCtlFrame, rest: Seq<u8>, p: PacketType)
    requires
        f is MaxStreamData,
        well_formed(f.spec_frame_type()),
        ctl_in_range(f),
        p == PacketType::ZeroRtt || p == PacketType::OneRtt,
    ensures
        read_frame(stream_ctl_encoding(f) + rest, p) == Ok::<(int, FrameModel, FrameType), (ErrorKind, FrameType)>(
            (stream_ctl_encoding(f).len() as int, frame_model(Frame::StreamCtl(f)), f.spec_frame_type()),
        ),
{
    let t = f.spec_frame_type();
    let tag = tag_encoding(t);
    let x = f->MaxStreamData_0;
        let (a, b) = (x.stream_id.value() as nat, x.max_stream_data.value() as nat);
        let s = tag + encode_spec(a) + encode_spec(b) + rest;
        assert(stream_ctl_encoding(f) + rest =~= s);
        assert(s =~= tag + (encode_spec(a) + encode_spec(b) + rest));
        lemma_tag_then_body(t, encode_spec(a) + encode_spec(b) + rest, p);
        lemma_two(t, a, b, rest, p);
}

proof fn lemma_round_trip_stream_data_blocked(f: StreamCtlFrame, rest: Seq<u8>, p: PacketType)
    requires
        f is StreamDataBlocked,
        well_formed(f.spec_frame_type()),
        ctl_in_range(f),
        p == PacketType::ZeroRtt || p == PacketType::OneRtt,
    ensures
        read_frame(stream_ctl_encoding(f) + rest, p) == Ok::<(int, FrameModel, FrameType), (ErrorKind, FrameType)>(
            (stream_ctl_encoding(f).len() as int, frame_model(Frame::StreamCtl(f)), f.spec_frame_type()),
        ),
{
    let t = f.spec_frame_type();
    let tag = tag_encoding(t);
    let x = f->StreamDataBlocked_0;
        let (a, b) = (x.stream_id.value() as nat, x.limit.value() as nat);
        let s = tag + encode_spec(a) + encode_spec(b) + rest;
        assert(stream_ctl_encoding(f) + rest =~= s);
        assert(s =~= tag + (encode_spec(a) + encode_spec(b) + rest));
        lemma_tag_then_body(t, encode_spec(a) + encode_spec(b) + rest, p);
        lemma_two(t, a, b, rest, p);
}

proof fn lemma_round_trip_max_streams(f: StreamCtlFrame, rest: Seq<u8>, p: PacketType)
    requires
        f is MaxStreams,
        well_formed(f.spec_frame_type()),
        ctl_in_range(f),
        p == PacketType::ZeroRtt || p == PacketType::OneRtt,
    ensures
        read_frame(stream_ctl_encoding(f) + rest, p) == Ok::<(int, FrameModel, FrameType), (ErrorKind, FrameType)>(
            (stream_ctl_encoding(f).len() as int, frame_model(Frame::StreamCtl(f)), f.spec_frame_type()),
        ),
{
    let t = f.spec_frame_type();
    let tag = tag_encoding(t);
    let x = f->MaxStreams_0;
        let a = x.max_streams.value() as nat;
        let s = tag + encode_spec(a) + rest;
        assert(stream_ctl_encoding(f) + rest =~= s);
        assert(s =~= tag + (encode_spec(a) + rest));
        lemma_tag_then_body(t, encode_spec(a) + rest, p);
        lemma_vint_at(tag, a, rest);
}

proof fn lemma_round_trip_streams_blocked(f: StreamCtlFrame, rest: Seq<u8>, p: PacketType)
    requires
        f is StreamsBlocked,
        well_formed(f.spec_frame_type()),
        ctl_in_range(f),
        p == PacketType::ZeroRtt || p == PacketType::OneRtt,
    ensures
        read_frame(stream_ctl_encoding(f) + rest, p) == Ok::<(int, FrameModel, FrameType), (ErrorKind, FrameType)>(
            (stream_ctl_encoding(f).len() as int, frame_model(Frame::StreamCtl(f)), f.spec_frame_type()),
        ),
{
    let t = f.spec_frame_type();
    let tag = tag_encoding(t);
    let x = f->StreamsBlocked_0;
        let a = x.limit.value() as nat;
        let s = tag + encode_spec(a) + rest;
        assert(stream_ctl_encoding(f) + rest =~= s);
        assert(s =~= tag + (encode_spec(a) + rest));
        lemma_tag_then_body(t, encode_spec(a) + rest, p);
        lemma_vint_at(tag, a, rest);
}

/// Reading back a written stream control frame, in a packet that may carry
/// it, gives the frame and takes exactly its encoding, whatever follows.
pub proof fn stream_ctl_round_trip(f: StreamCtlFrame, rest: Seq<u8>, p: PacketType)
    requires
        well_formed(f.spec_frame_type()),
        ctl_in_range(f),
        p == PacketType::ZeroRtt || p == PacketType::OneRtt,
    ensures
        read_frame(stream_ctl_encoding(f) + rest, p) == Ok::<(int, FrameModel, FrameType), (ErrorKind, FrameType)>(
            (stream_ctl_encoding(f).len() as int, frame_model(Frame::StreamCtl(f)), f.spec_frame_type()),
        ),
{
    match f {
        StreamCtlFrame::ResetStream(_) => lemma_round_trip_reset_stream(f, rest, p),
        StreamCtlFrame::StopSending(_) => lemma_round_trip_stop_sending(f, rest, p),
        StreamCtlFrame::MaxStreamData(_) => lemma_round_trip_max_stream_data(f, rest, p),
        StreamCtlFrame::StreamDataBlocked(_) => lemma_round_trip_stream_data_blocked(f, rest, p),
        StreamCtlFrame::MaxStreams(_) => lemma_round_trip_max_streams(f, rest, p),
        StreamCtlFrame::StreamsBlocked(_) => lemma_round_trip_streams_blocked(f, rest, p),
    }
}

} // verus!
