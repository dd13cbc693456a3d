//! The data space after the connection closed: it only answers with a packet
//! that carries the CONNECTION_CLOSE frame.
use vstd::prelude::*;

use bytes::Bytes;

use crate::buf::bytes_view;
use crate::frame_io::FrameReader;
use crate::frame_type::{tag_of_type, tag_round_trip, FrameType, PacketType};
use crate::frame_spec::{first_close, frame_model, lemma_first_close_step};
use crate::frames::Frame;
use crate::frames::ConnectionCloseFrame;
use crate::packet_number::{pn_modulus, pn_size, PacketNumber};
use crate::sent::SentJournal;
use crate::signal::KeyPhaseBit;
use crate::varint::{be_bytes, decode_value, encode_spec, push_be, VarInt, VARINT_MAX};

verus! {

/// The encoding of a CONNECTION_CLOSE frame: its tag, the error code, for the
/// transport variant the frame type that caused it (0 when unknown), the
/// reason's length and the reason.
pub open spec fn ccf_encoding(f: ConnectionCloseFrame) -> Seq<u8> {
    let frame_type = match f.frame_type {
        Some(t) => t.value() as nat,
        None => 0,
    };
    encode_spec(tag_of_type(FrameType::ConnectionClose(f.layer)) as nat)
        + encode_spec(f.error_code.value() as nat)
        + (if f.layer == 0 { encode_spec(frame_type) } else { Seq::empty() })
        + encode_spec(f.reason@.len())
        + f.reason@
}

/// The first byte of a short header with the spin bit clear: the fixed bit,
/// the key phase and the packet number's length.
pub open spec fn short_first_byte(key_phase: KeyPhaseBit, pn: PacketNumber) -> u8 {
    (0x40 + (if key_phase.is_one() { 0x04nat } else { 0nat }) + (pn.spec_size() - 1)) as u8
}

/// The plaintext of a 1-RTT packet that carries `ccf`, before header
/// protection and packet protection.
pub open spec fn ccf_packet(dcid: Seq<u8>, pn: PacketNumber, key_phase: KeyPhaseBit, f: ConnectionCloseFrame) -> Seq<u8> {
    seq![short_first_byte(key_phase, pn)] + dcid + be_bytes(pn.spec_value(), pn.spec_size())
        + ccf_encoding(f)
}

/// Appends the encoding of a CONNECTION_CLOSE frame.
pub fn encode_ccf(f: &ConnectionCloseFrame, buf: &mut Vec<u8>)
    requires
        f.layer <= 1,
        f.reason@.len() <= VARINT_MAX,
    ensures
        final(buf)@ == old(buf)@ + ccf_encoding(*f),
{
    let ghost b0 = buf@;
    let tag = FrameType::ConnectionClose(f.layer).to_varint();
    tag.encode(buf);
    f.error_code.encode(buf);
    let ghost b1 = buf@;
    if f.layer == 0 {
        let t = match f.frame_type {
            Some(t) => t,
            None => VarInt::from_u32(0),
        };
        t.encode(buf);
    }
    let ghost b2 = buf@;
    let len = match VarInt::from_u64(f.reason.len() as u64) {
        Ok(len) => len,
        Err(_) => {
            assert(false);
            return;
        },
    };
    len.encode(buf);
    let mut i: usize = 0;
    let ghost b3 = buf@;
    while i < f.reason.len()
        invariant
            i <= f.reason@.len(),
            buf@ == b3 + f.reason@.subrange(0, i as int),
        decreases f.reason@.len() - i,
    {
        buf.push(f.reason[i]);
        i = i + 1;
        assert(buf@ =~= b3 + f.reason@.subrange(0, i as int));
    }
    assert(f.reason@.subrange(0, f.reason@.len() as int) =~= f.reason@);
    assert(buf@ =~= old(buf)@ + ccf_encoding(*f));
}

/// The data space of a closed connection: the packet number reserved for
/// the packets that carry the CONNECTION_CLOSE frame.
#[derive(Debug, Clone, Copy)]
pub struct ClosingDataSpace {
    ccf_packet_pn: (u64, PacketNumber),
}

impl ClosingDataSpace {
    /// The packet number reserved, and its truncated form.
    pub closed spec fn spec_pn(&self) -> (u64, PacketNumber) {
        self.ccf_packet_pn
    }

    /// Closes the data space of `journal`: the next packet number is reserved
    /// for the CONNECTION_CLOSE packets; the journal does not change.
    pub fn close<T: Clone>(journal: &SentJournal<T>) -> (r: ClosingDataSpace)
        requires
            journal.wf(),
        ensures
            r.spec_pn().0 == journal.model().next_pn(),
            r.spec_pn().1.spec_size() == pn_size(journal.model().next_pn(), journal.model().largest_acked),
            r.spec_pn().1.spec_value() == journal.model().next_pn() % pn_modulus(r.spec_pn().1.spec_size()),
    {
        let packet = journal.new_packet();
        ClosingDataSpace { ccf_packet_pn: packet.pn() }
    }

    /// The peer's CONNECTION_CLOSE frame in a decrypted 1-RTT payload: the
    /// first one read before any frame that cannot be read.
    pub fn recv_payload(&self, payload: Bytes) -> (r: Option<ConnectionCloseFrame>)
        ensures
            first_close(bytes_view(payload)) is None ==> r is None,
            first_close(bytes_view(payload)) matches Some(m) ==> (r matches Some(c) && frame_model(Frame::Close(c)) == m),
            r matches Some(f) ==> f.layer <= 1,
    {
        let ghost whole = first_close(bytes_view(payload));
        let mut reader = FrameReader::new(payload, PacketType::OneRtt);
        loop
            invariant
                reader.spec_packet_type() == PacketType::OneRtt,
                whole == first_close(bytes_view(payload)),
                whole == first_close(reader.spec_payload()),
            decreases reader.spec_payload().len(),
        {
            let ghost before = reader.spec_payload();
            proof {
                if before.len() > 0 {
                    lemma_first_close_step(before);
                }
            }
            match reader.next() {
                Some(Ok((frame, t))) => {
                    proof {
                        tag_round_trip(decode_value(before) as u64);
                    }
                    if let Frame::Close(ccf) = frame {
                        assert(t == FrameType::ConnectionClose(ccf.layer));
                        return Some(ccf);
                    }
                },
                _ => {
                    return None;
                },
            }
        }
    }

    /// Lays out a 1-RTT packet to `dcid` that carries `ccf`, in the key phase
    /// `key_phase`, and appends it to `buf` for sealing; returns its length,
    /// or `None`, with `buf` left alone, when it exceeds `capacity`.
    pub fn try_assemble_ccf_packet(
        &self,
        dcid: &[u8],
        ccf: &ConnectionCloseFrame,
        key_phase: KeyPhaseBit,
        capacity: usize,
        buf: &mut Vec<u8>,
    ) -> (r: Option<usize>)
        requires
            ccf.layer <= 1,
            ccf.reason@.len() <= VARINT_MAX,
        ensures
            ({
                let packet = ccf_packet(dcid@, self.spec_pn().1, key_phase, *ccf);
                &&& packet.len() <= capacity ==> r == Some(packet.len() as usize) && final(buf)@
                    == old(buf)@ + packet
                &&& packet.len() > capacity ==> r is None && final(buf)@ == old(buf)@
            }),
    {
        let pn = self.ccf_packet_pn.1;
        let size = pn.size();
        let value: u64 = match pn {
            PacketNumber::U8(v) => v as u64,
            PacketNumber::U16(v) => v as u64,
            PacketNumber::U24(v) => v as u64,
            PacketNumber::U32(v) => v as u64,
        };
        let phase: u8 = match key_phase {
            KeyPhaseBit::Zero => 0,
            KeyPhaseBit::One => 0x04,
        };
        let mut packet: Vec<u8> = Vec::new();
        packet.push(0x40 + phase + (size as u8 - 1));
        let mut i: usize = 0;
        while i < dcid.len()
            invariant
                i <= dcid@.len(),
                packet@ == seq![short_first_byte(key_phase, pn)] + dcid@.subrange(0, i as int),
            decreases dcid@.len() - i,
        {
            packet.push(dcid[i]);
            i = i + 1;
            assert(packet@ =~= seq![short_first_byte(key_phase, pn)] + dcid@.subrange(0, i as int));
        }
        assert(dcid@.subrange(0, dcid@.len() as int) =~= dcid@);
        push_be(&mut packet, value, size);
        encode_ccf(ccf, &mut packet);
        assert(packet@ =~= ccf_packet(dcid@, pn, key_phase, *ccf));
        if packet.len() > capacity {
            return None;
        }
        let n = packet.len();
        buf.append(&mut packet);
        Some(n)
    }
}

} // verus!
