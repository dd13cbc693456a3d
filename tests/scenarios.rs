use quic_core::space::{loss_target, GuaranteedFrame, LossTarget};
use quic_core::rcvd::RcvdJournal;
use quic_core::frame_write::{put_reliable_frame, WriteFrame};
use quic_core::frames::{HandshakeDoneFrame, MaxStreamsFrame, NewTokenFrame, ReliableFrame, ResetStreamFrame, StreamCtlFrame};
use quic_core::closing::ClosingDataSpace;
use quic_core::space::ack_to_send;
use quic_core::dispatch::{parse_payload, to_quic_error};
use bytes::Bytes;
use quic_core::anti_amp::{AmplifierState, AntiAmplifier, DefaultAntiAmplifier};
use quic_core::client::{leaves_reuse_cache, select_interface, unspecified_bind_addr, AddrKind, ConnEvent, InterfaceCandidate};
use quic_core::error::ErrorKind;
use quic_core::frame_io::{be_frame, FrameReader};
use quic_core::frame_type::{be_frame_type, FrameError, FrameFeture, FrameType, PacketType};
use quic_core::frames::{AckFrame, Frame};
use quic_core::packet_number::PacketNumber;
use quic_core::rcvbuf::RecvBuf;
use quic_core::sent::{SentJournal, SentPktState};
use quic_core::signal::{KeyPhaseBit, SpinBit, Toggle};
use quic_core::space::{route, zero_rtt_gate, one_rtt_gate, assembly_outcome, PacketContains, Route};
use quic_core::termination::{Termination, TerminationState, Terminator};
use quic_core::tx::Signals;
use quic_core::varint::{decode, VarInt, VARINT_MAX};
use quic_core::error::{AppError, Error};
use quic_core::frames::ConnectionCloseFrame;

fn encoded(v: u64) -> Vec<u8> {
    let mut buf = Vec::new();
    VarInt::from_u64(v).unwrap().encode(&mut buf);
    buf
}

fn ack(largest: u32) -> AckFrame {
    AckFrame {
        largest: VarInt::from_u32(largest),
        delay: VarInt::from_u32(0),
        first_range: VarInt::from_u32(0),
        ranges: Vec::new(),
        ecn: None,
    }
}

#[test]
fn varint_encodings_match_the_rfc_examples() {
    assert_eq!(encoded(151288809941952652), vec![0xc2, 0x19, 0x7c, 0x5e, 0xff, 0x14, 0xe8, 0x8c]);
    assert_eq!(encoded(494878333), vec![0x9d, 0x7f, 0x3e, 0x7d]);
    assert_eq!(encoded(15293), vec![0x7b, 0xbd]);
    assert_eq!(encoded(37), vec![0x25]);
    assert_eq!(decode(&[0x40, 0x25]).unwrap().0.into_inner(), 37);
}

#[test]
fn varint_round_trips_at_the_size_edges() {
    for v in [0u64, 63, 64, 16383, 16384, 1073741823, 1073741824, VARINT_MAX] {
        let bytes = encoded(v);
        let (back, n) = decode(&bytes).unwrap();
        assert_eq!(back.into_inner(), v);
        assert_eq!(n, bytes.len());
        assert_eq!(VarInt::from_u64(v).unwrap().encoding_size(), bytes.len());
    }
    assert!(VarInt::from_u64(VARINT_MAX + 1).is_err());
    assert!(decode(&[0x80, 0x01]).is_none());
    assert!(decode(&[]).is_none());
}

#[test]
fn frame_type_round_trips_over_every_tag() {
    let mut defined = 0;
    for tag in 0u32..0x40 {
        if let Ok(t) = FrameType::try_from(VarInt::from_u32(tag)) {
            let back: VarInt = t.into();
            assert_eq!(back.into_inner(), tag as u64);
            defined += 1;
        }
    }
    assert_eq!(defined, 33);
    assert_eq!(FrameType::try_from(VarInt::from_u32(0x0d)).unwrap(), FrameType::Stream(5));
    assert_eq!(FrameType::try_from(VarInt::from_u32(0x1d)).unwrap(), FrameType::ConnectionClose(1));
    assert_eq!(
        FrameType::try_from(VarInt::from_u32(0x1f)),
        Err(FrameError::InvalidType(VarInt::from_u32(0x1f)))
    );
}

#[test]
fn frame_admissibility_table() {
    let (initial, handshake, zero_rtt, one_rtt) =
        (PacketType::Initial, PacketType::Handshake, PacketType::ZeroRtt, PacketType::OneRtt);
    for p in [initial, handshake, one_rtt] {
        assert!(FrameType::Ack(0).belongs_to(p));
        assert!(FrameType::Crypto.belongs_to(p));
    }
    assert!(!FrameType::Ack(1).belongs_to(zero_rtt));
    assert!(!FrameType::Crypto.belongs_to(zero_rtt));
    for t in [FrameType::Stream(2), FrameType::MaxData, FrameType::Datagram(1)] {
        assert!(t.belongs_to(zero_rtt) && t.belongs_to(one_rtt));
        assert!(!t.belongs_to(initial) && !t.belongs_to(handshake));
    }
    for t in [FrameType::HandshakeDone, FrameType::NewToken, FrameType::PathResponse] {
        assert!(t.belongs_to(one_rtt));
        assert!(!t.belongs_to(initial) && !t.belongs_to(handshake) && !t.belongs_to(zero_rtt));
    }
    assert!(FrameType::ConnectionClose(0).belongs_to(initial));
    assert!(FrameType::ConnectionClose(0).belongs_to(handshake));
    assert!(!FrameType::ConnectionClose(1).belongs_to(initial));
    assert!(!FrameType::ConnectionClose(1).belongs_to(handshake));
    assert!(FrameType::ConnectionClose(1).belongs_to(zero_rtt));
}

#[test]
fn reassembly_scenario() {
    let mut buf = RecvBuf::default();
    assert_eq!(buf.recv(0, Bytes::from("hell")), 4);
    assert_eq!(buf.recv(7, Bytes::from("world")), 8);
    assert_eq!(buf.recv(3, Bytes::from("lo, ")), 0);
    assert_eq!(buf.recv(7, Bytes::from("world!")), 1);
    let mut out = Vec::new();
    assert_eq!(buf.try_read(&mut out, 20), 13);
    assert_eq!(&out[..], b"hello, world!");
    assert_eq!(buf.nread(), 13);
    assert!(buf.is_empty());
}

#[test]
fn recv_twice_changes_nothing_the_second_time() {
    let mut buf = RecvBuf::default();
    assert_eq!(buf.recv(4, Bytes::from("abcd")), 8);
    assert_eq!(buf.recv(0, Bytes::from("0123456789")), 2);
    let count = buf.segment_count();
    assert_eq!(buf.recv(0, Bytes::from("0123456789")), 0);
    assert_eq!(buf.segment_count(), count);
    assert_eq!(buf.largest_offset(), 10);
}

#[test]
fn segments_stay_sorted_after_reads_and_late_data() {
    let mut buf = RecvBuf::new();
    buf.recv(10, Bytes::from("klm"));
    buf.recv(0, Bytes::from("abc"));
    assert!(buf.is_readable());
    let mut out = Vec::new();
    assert_eq!(buf.try_read(&mut out, 2), 2);
    assert_eq!(buf.nread(), 2);
    assert_eq!(buf.segment_offset(0), 2);
    // Data before what was read is dropped.
    assert_eq!(buf.recv(0, Bytes::from("ab")), 0);
    assert_eq!(buf.recv(1, Bytes::from("bcdef")), 0);
    assert_eq!(buf.available(), 4);
    assert!(!buf.is_empty());
    for i in 1..buf.segment_count() {
        assert!(buf.segment_offset(i - 1) < buf.segment_offset(i));
    }
    assert!(buf.segment_offset(0) >= buf.nread());
    assert!(buf.largest_offset() >= buf.segment_offset(buf.segment_count() - 1));
}

#[test]
fn anti_amplification_credit_scenario() {
    let mut aa = DefaultAntiAmplifier::new();
    assert_eq!(aa.balance(), Err(Signals::credit()));
    assert!(aa.on_rcvd(1));
    assert_eq!(aa.credit(), 3);
    assert_eq!(aa.balance(), Ok(Some(3)));
    aa.on_sent(3);
    assert_eq!(aa.credit(), 0);
    assert_eq!(aa.balance(), Err(Signals::credit()));
    assert!(aa.grant());
    assert_eq!(aa.balance(), Ok(Some(usize::MAX)));
    assert!(!aa.on_rcvd(10));
    aa.on_sent(100);
    assert_eq!(aa.balance(), Ok(Some(usize::MAX)));
    assert!(!aa.grant());
    assert!(!aa.abort());
    assert_eq!(aa.balance(), Ok(Some(usize::MAX)));
}

#[test]
fn anti_amplification_abort_is_final() {
    let mut aa = AntiAmplifier::<3>::new();
    aa.on_rcvd(2);
    assert!(aa.abort());
    assert_eq!(aa.balance(), Ok(None));
    assert!(!aa.grant());
    assert_eq!(aa.balance(), Ok(None));
    let _ = AmplifierState::Normal;
}

#[test]
fn anti_amplification_sends_at_most_three_times_received() {
    let mut aa = AntiAmplifier::<3>::new();
    let mut received = 0usize;
    let mut sent = 0usize;
    for step in 1..10usize {
        aa.on_rcvd(step);
        received += step;
        if let Ok(Some(budget)) = aa.balance() {
            let amount = budget.min(step * 2);
            aa.on_sent(amount);
            sent += amount;
        }
        assert!(sent <= 3 * received);
    }
    assert_eq!(aa.credit(), 3 * received - sent);
}

#[test]
fn ack_beyond_largest_sent_is_a_protocol_violation() {
    let clock = quic_core::clock::Clock::new();
    let mut journal: SentJournal<u32> = SentJournal::with_capacity(8);
    for i in 0..6u32 {
        let mut packet = journal.new_packet();
        packet.record_frame(i);
        packet.build_with_time(&mut journal, &clock, 1_000, 10_000);
    }
    assert_eq!(journal.next_pn(), 6);
    let err = journal.update_largest(&ack(7)).unwrap_err();
    assert_eq!(err.kind(), ErrorKind::ProtocolViolation);
    assert!(matches!(err.frame_type(), FrameType::Ack(_)));
    assert!(journal.update_largest(&ack(6)).is_err());
    assert!(journal.update_largest(&ack(5)).is_ok());
    assert_eq!(journal.largest_acked(), 5);
    assert!(journal.largest_acked() < journal.next_pn());
}

#[test]
fn packet_without_frames_consumes_no_pn() {
    let mut journal: SentJournal<u32> = SentJournal::with_capacity(4);
    let packet = journal.new_packet();
    let (pn, encoded) = packet.pn();
    assert_eq!(packet.pn().0, pn);
    assert_eq!(encoded, PacketNumber::U8(0));
    drop(packet);
    assert_eq!(journal.new_packet().pn().0, pn);

    let packet = journal.new_packet();
    journal.build_at(packet, 5, 100, 1000);
    assert_eq!(journal.next_pn(), pn);

    let mut packet = journal.new_packet();
    packet.record_trivial();
    journal.build_at(packet, 5, 100, 1000);
    assert_eq!(journal.next_pn(), pn + 1);
    assert_eq!(journal.nframes(), 0);
}

#[test]
fn acked_and_lost_packets_feed_back_their_frames() {
    let mut journal: SentJournal<u32> = SentJournal::with_capacity(4);
    let mut p0 = journal.new_packet();
    p0.record_frame(10);
    p0.record_frame(11);
    journal.build_at(p0, 0, 100, 1000);
    let mut p1 = journal.new_packet();
    p1.record_frame(20);
    journal.build_at(p1, 0, 100, 1000);

    assert_eq!(journal.may_loss_packet(1), vec![20]);
    assert_eq!(journal.may_loss_packet(1), vec![20]);
    assert_eq!(journal.on_packet_acked(0), vec![10, 11]);
    assert!(journal.on_packet_acked(0).is_empty());
    assert!(journal.may_loss_packet(0).is_empty());
    assert!(journal.on_packet_acked(7).is_empty());
    assert_eq!(journal.on_packet_acked(1), vec![20]);

    // Both records may go now.
    journal.resize_at(50);
    assert_eq!(journal.nframes(), 0);
    assert_eq!(journal.next_pn(), 2);
}

#[test]
fn fast_retransmit_hands_back_overdue_packets_below_largest_acked() {
    let mut journal: SentJournal<u32> = SentJournal::with_capacity(4);
    for (i, retran) in [(0u32, 10u64), (1, 500), (2, 10), (3, 10)] {
        let mut p = journal.new_packet();
        p.record_frame(i);
        journal.build_at(p, 0, retran, 10_000);
    }
    assert!(journal.update_largest(&ack(3)).is_ok());
    assert_eq!(journal.on_packet_acked(3), vec![3]);
    assert_eq!(journal.fast_retransmit_at(100), vec![0, 2]);
    assert!(journal.fast_retransmit_at(100).is_empty());
    // Retransmitted packets are kept until they expire.
    journal.resize_at(20_000);
    assert_eq!(journal.nframes(), 3);
    assert_eq!(journal.on_packet_acked(1), vec![1]);
    journal.resize_at(20_000);
    assert_eq!(journal.nframes(), 0);
}

#[test]
fn sent_packet_states() {
    let mut s = SentPktState::new(2, 0, 10, 100);
    assert_eq!(s.nframes(), 2);
    assert!(!s.should_retransmit_after(10));
    assert!(s.should_retransmit_after(11));
    assert!(s.should_remain_after(99));
    assert!(!s.should_remain_after(100));
    assert_eq!(s.be_acked(), 2);
    assert!(!s.should_remain_after(0));
    assert_eq!(SentPktState::skipped().nframes(), 0);
}

#[test]
fn packet_number_truncation() {
    assert_eq!(PacketNumber::encode(0xac5c02, 0xabe8b3), PacketNumber::U16(0x5c02));
    assert_eq!(PacketNumber::encode(0xace8fe, 0xabe8b3), PacketNumber::U24(0xace8fe));
    assert_eq!(PacketNumber::encode(5, 0).size(), 1);
}

#[test]
fn toggle_scenario() {
    let mut byte = 0b1111_1111u8;
    SpinBit::Zero.imply(&mut byte);
    assert_eq!(byte, 0b1101_1111);
    let mut byte = 0u8;
    SpinBit::One.imply(&mut byte);
    assert_eq!(byte, 0b0010_0000);
    assert_eq!(KeyPhaseBit::from(0b0000_0100u8), KeyPhaseBit::One);
    assert_eq!(KeyPhaseBit::from(0b1111_1011u8), KeyPhaseBit::Zero);

    let mut t = KeyPhaseBit::default();
    t.toggle();
    assert_eq!(t, Toggle::One);
    assert_eq!(t.value(), 0x04);
    assert_eq!(t.as_index(), 1);
    assert_eq!(!t, KeyPhaseBit::Zero);
    assert_eq!(u8::from(SpinBit::One), 0x20);
    assert!(bool::from(SpinBit::from(true)));
}

#[test]
fn reader_reports_wrong_and_incomplete_frames() {
    let mut reader = FrameReader::new(Bytes::from(vec![0x1e]), PacketType::Initial);
    assert_eq!(
        reader.next().unwrap().unwrap_err(),
        FrameError::WrongType(FrameType::HandshakeDone, PacketType::Initial)
    );
    let mut reader = FrameReader::new(Bytes::from(vec![0x06, 0x00, 0x05, 0x61]), PacketType::Initial);
    assert_eq!(reader.next().unwrap().unwrap_err(), FrameError::IncompleteFrame(FrameType::Crypto));
    assert_eq!(be_frame_type(&[0x40]), Err(FrameError::IncompleteType));
    assert_eq!(be_frame_type(&[0x08]), Ok((1, FrameType::Stream(0))));
}

#[test]
fn reader_reads_frame_bodies() {
    let payload = vec![
        0x02, 0x05, 0x00, 0x00, 0x01, // ACK largest 5, delay 0, no ranges, first range 1
        0x06, 0x00, 0x03, b'a', b'b', b'c', // CRYPTO at 0, 3 bytes
        0x1c, 0x0a, 0x06, 0x02, b'n', b'o', // CONNECTION_CLOSE transport
        0x0b, 0x04, 0x02, b'h', b'i', // STREAM 4 with LEN and FIN
    ];
    let mut reader = FrameReader::new(Bytes::from(payload), PacketType::OneRtt);
    match reader.next().unwrap().unwrap() {
        (Frame::Ack(f), FrameType::Ack(0)) => assert_eq!(f.largest(), 5),
        other => panic!("unexpected {other:?}"),
    }
    match reader.next().unwrap().unwrap() {
        (Frame::Crypto(f, data), FrameType::Crypto) => {
            assert_eq!(f.length.into_inner(), 3);
            assert_eq!(&data[..], b"abc");
        }
        other => panic!("unexpected {other:?}"),
    }
    match reader.next().unwrap().unwrap() {
        (Frame::Close(f), FrameType::ConnectionClose(0)) => {
            assert_eq!(f.error_code.into_inner(), 10);
            assert_eq!(f.reason, b"no".to_vec());
        }
        other => panic!("unexpected {other:?}"),
    }
    match reader.next().unwrap().unwrap() {
        (Frame::Stream(f, data), FrameType::Stream(3)) => {
            assert_eq!(f.stream_id.into_inner(), 4);
            assert_eq!(&data[..], b"hi");
        }
        other => panic!("unexpected {other:?}"),
    }
    assert!(reader.next().is_none());
    let (n, frame, t) = be_frame(&Bytes::from(vec![0x01, 0x00]), PacketType::Handshake).unwrap();
    assert_eq!((n, t), (1, FrameType::Ping));
    assert!(matches!(frame, Frame::Ping(_)));
}

#[test]
fn extension_frame_skipped_between_paddings() {
    let mut buf = vec![0x00u8, 0x00];
    buf.extend_from_slice(&[0x40, 0xff, 0x01, 0x02, 0x03]);
    buf.push(0x00);
    buf.extend_from_slice(&[0x40, 0xff, 0x01, 0x02, 0x03]);
    buf.extend_from_slice(&[0x40, 0xfe]);
    let mut reader = FrameReader::new(Bytes::from(buf), PacketType::OneRtt);
    let mut padding = 0;
    let mut errors = 0;
    while let Some(item) = reader.next() {
        match item {
            Ok((_, t)) => {
                assert_eq!(t, FrameType::Padding);
                padding += 1;
            }
            Err(FrameError::InvalidType(v)) if v.into_inner() == 0xff => {
                errors += 1;
                reader.advance(5);
            }
            Err(_) => reader.clear(),
        }
    }
    assert_eq!(padding, 3);
    assert_eq!(errors, 2);
}

#[test]
fn packet_summary_and_routing() {
    let c = PacketContains::new().with_frame(FrameType::Padding).with_frame(FrameType::Ack(0));
    assert!(!c.ack_eliciting());
    assert!(c.in_flight);
    let c = c.with_frame(FrameType::Stream(0));
    assert!(c.ack_eliciting() && c.in_flight && c.flow_controlled && !c.is_probing());
    assert!(PacketContains::new().with_frame(FrameType::PathChallenge).is_probing());

    assert_eq!(route(FrameType::MaxData, PacketType::OneRtt, false), Ok(Route::FlowControlSender));
    assert_eq!(route(FrameType::HandshakeDone, PacketType::OneRtt, false), Ok(Route::Handshake));
    let err = route(FrameType::HandshakeDone, PacketType::OneRtt, true).unwrap_err();
    assert_eq!(err.kind(), ErrorKind::ProtocolViolation);
    assert_eq!(route(FrameType::ConnectionClose(1), PacketType::OneRtt, true), Ok(Route::Closed));
    assert_eq!(route(FrameType::ConnectionClose(1), PacketType::ZeroRtt, true), Ok(Route::Drop));

    assert_eq!(zero_rtt_gate(true, true), Err(Signals::empty()));
    assert_eq!(zero_rtt_gate(false, false), Err(Signals::keys()));
    assert_eq!(zero_rtt_gate(false, true), Ok(()));
    assert_eq!(one_rtt_gate(false), Err(Signals::keys()));
    let signals = Signals::credit().union(Signals::congestion());
    assert_eq!(assembly_outcome(false, signals), Err(signals));
    assert!(signals.contains(Signals::credit()));
    assert_eq!(assembly_outcome(true, signals), Ok(()));
}

#[test]
fn ccf_pacing_and_draining() {
    let ccf = ConnectionCloseFrame { layer: 0, error_code: VarInt::from_u32(0), frame_type: None, reason: Vec::new() };
    let mut t = Terminator::new(ccf, 0);
    assert!(!t.should_send_at(10));
    assert!(!t.should_send_at(20));
    assert!(t.should_send_at(30));
    assert!(!t.should_send_at(40));
    assert!(t.should_send_at(1_000_041));
    let error = Error::App(AppError { code: 7, reason: "bye" });
    let mut term = Termination::closing(error);
    assert!(term.enter_draining());
    assert_eq!(term.state(), TerminationState::Draining);
    assert!(!term.enter_draining());
    assert_eq!(term.error(), error);
}

#[test]
fn client_picks_an_interface() {
    let free_v4 = InterfaceCandidate { kind: AddrKind::Ipv4, registered: true, strong_count: 1 };
    let used_v4 = InterfaceCandidate { kind: AddrKind::Ipv4, registered: true, strong_count: 3 };
    let v6 = InterfaceCandidate { kind: AddrKind::Ipv6, registered: true, strong_count: 1 };
    let list = vec![v6, used_v4, free_v4];
    assert_eq!(select_interface(&list, AddrKind::Ipv4, false), Some(2));
    assert_eq!(select_interface(&list, AddrKind::Ipv4, true), Some(1));
    assert_eq!(select_interface(&list, AddrKind::Other, true), None);
    assert_eq!(unspecified_bind_addr(AddrKind::Ipv6), Some("inet://::/alloc"));
    assert_eq!(unspecified_bind_addr(AddrKind::Other), None);
    assert!(leaves_reuse_cache(ConnEvent::Failed));
    assert!(!leaves_reuse_cache(ConnEvent::Handshaked));
}

#[test]
fn payload_is_parsed_and_routed_in_wire_order() {
    let payload = vec![0x01, 0x10, 0x05, 0x00, 0x1e];
    let parsed = parse_payload(Bytes::from(payload), PacketType::OneRtt, false);
    assert!(parsed.error.is_none());
    let routes: Vec<Route> = parsed.frames.iter().map(|(_, r)| *r).collect();
    assert_eq!(routes, vec![Route::Drop, Route::FlowControlSender, Route::Drop, Route::Handshake]);
    assert!(parsed.contains.ack_eliciting());

    let parsed = parse_payload(Bytes::from(vec![0x00, 0x1e]), PacketType::OneRtt, true);
    assert_eq!(parsed.frames.len(), 1);
    let err = parsed.error.unwrap();
    assert_eq!(err.kind(), ErrorKind::ProtocolViolation);
    assert_eq!(err.frame_type(), FrameType::HandshakeDone);

    // The frames before a bad one come back with the error.
    let parsed = parse_payload(Bytes::from(vec![0x01, 0x00, 0x10]), PacketType::OneRtt, false);
    assert_eq!(parsed.frames.len(), 2);
    let err = parsed.error.unwrap();
    assert_eq!(err.kind(), ErrorKind::FrameEncodingError);
    assert_eq!(err.frame_type(), FrameType::MaxData);

    let err = parse_payload(Bytes::from(vec![0x08]), PacketType::Initial, false).error.unwrap();
    assert_eq!(err.kind(), ErrorKind::ProtocolViolation);

    let empty = parse_payload(Bytes::new(), PacketType::Handshake, false);
    assert!(empty.frames.is_empty() && empty.error.is_none());
    assert_eq!(
        to_quic_error(FrameError::IncompleteType).kind(),
        ErrorKind::FrameEncodingError
    );
}

#[test]
fn ccf_packet_layout() {
    let journal: SentJournal<u32> = SentJournal::with_capacity(1);
    let closing = ClosingDataSpace::close(&journal);
    assert_eq!(journal.next_pn(), 0);
    let ccf = ConnectionCloseFrame {
        layer: 0,
        error_code: VarInt::from_u32(0x0a),
        frame_type: None,
        reason: b"no".to_vec(),
    };
    let mut buf = Vec::new();
    let n = closing.try_assemble_ccf_packet(&[1, 2, 3], &ccf, KeyPhaseBit::One, 1200, &mut buf);
    assert_eq!(n, Some(11));
    assert_eq!(buf, vec![0x44, 1, 2, 3, 0x00, 0x1c, 0x0a, 0x00, 0x02, b'n', b'o']);
    let mut small = Vec::new();
    assert_eq!(closing.try_assemble_ccf_packet(&[1, 2, 3], &ccf, KeyPhaseBit::Zero, 10, &mut small), None);
    assert!(small.is_empty());
}

#[test]
fn ack_choice_for_one_rtt_packets() {
    assert_eq!(ack_to_send(Some((9, 1)), Some((7, 2))), Ok((9, 1)));
    assert_eq!(ack_to_send(None, Some((7, 2))), Ok((7, 2)));
    assert_eq!(ack_to_send(None, None), Err(Signals::transport()));
}

#[test]
fn written_frames_read_back() {
    use_frames_written_and_read();
}

fn use_frames_written_and_read() {
    let ctl = StreamCtlFrame::ResetStream(ResetStreamFrame {
        stream_id: VarInt::from_u32(4),
        app_error_code: VarInt::from_u32(300),
        final_size: VarInt::from_u32(70000),
    });
    let mut buf = Vec::new();
    buf.put_frame(&ctl);
    assert_eq!(buf, vec![0x04, 0x04, 0x41, 0x2c, 0x80, 0x01, 0x11, 0x70]);
    let token = ReliableFrame::NewToken(NewTokenFrame { token: vec![9, 8, 7] });
    put_reliable_frame(&mut buf, &token);
    put_reliable_frame(&mut buf, &ReliableFrame::HandshakeDone(HandshakeDoneFrame));
    let streams = StreamCtlFrame::MaxStreams(MaxStreamsFrame { dir: 1, max_streams: VarInt::from_u32(16) });
    put_reliable_frame(&mut buf, &ReliableFrame::Stream(streams));

    let mut reader = FrameReader::new(Bytes::from(buf), PacketType::OneRtt);
    match reader.next().unwrap().unwrap() {
        (Frame::StreamCtl(f), FrameType::ResetStream) => assert_eq!(f, ctl),
        other => panic!("unexpected {other:?}"),
    }
    match reader.next().unwrap().unwrap() {
        (Frame::NewToken(f), FrameType::NewToken) => assert_eq!(f.token, vec![9, 8, 7]),
        other => panic!("unexpected {other:?}"),
    }
    assert_eq!(reader.next().unwrap().unwrap().1, FrameType::HandshakeDone);
    match reader.next().unwrap().unwrap() {
        (Frame::StreamCtl(f), FrameType::MaxStreams(1)) => assert_eq!(f, streams),
        other => panic!("unexpected {other:?}"),
    }
    assert!(reader.next().is_none());
}

#[test]
fn packet_number_decoding() {
    assert_eq!(PacketNumber::U16(0x9b32).decode(0xa82f30ea), 0xa82f9b32);
    assert_eq!(PacketNumber::U8(0x02).decode(0xff), 0x102);
    assert_eq!(PacketNumber::U8(0xfe).decode(0x100), 0xfe);
    assert_eq!(PacketNumber::U8(0x05).decode(0), 5);
    let pn = 0x1234_5678u64;
    let encoded = PacketNumber::encode(pn, pn - 10);
    assert_eq!(encoded.decode(pn - 1), pn);
}

#[test]
fn received_journal_reports_ranges_newest_first() {
    let mut journal = RcvdJournal::new(25);
    for pn in [0u64, 1, 2, 5, 6] {
        journal.register_pn(pn, false, 10);
    }
    journal.register_pn(9, true, 100);
    assert_eq!(journal.largest(), Some(9));
    assert!(journal.is_received(5) && !journal.is_received(7));
    assert_eq!(journal.decode_pn(PacketNumber::U8(5)), None);
    assert_eq!(journal.decode_pn(PacketNumber::U8(10)), Some(10));
    assert_eq!(journal.decode_pn(PacketNumber::U8(7)), Some(7));

    assert_eq!(journal.trigger_ack_frame(120), None);
    assert_eq!(journal.trigger_ack_frame(125), Some((9, 100)));

    let ack = journal.gen_ack_frame_util(VarInt::from_u32(3), 100).unwrap();
    assert_eq!(ack.largest(), 9);
    assert_eq!(ack.first_range.into_inner(), 0);
    let ranges: Vec<(u64, u64)> = ack.ranges.iter().map(|(g, l)| (g.into_inner(), l.into_inner())).collect();
    assert_eq!(ranges, vec![(1, 1), (1, 2)]);

    // Only the first range fits in 6 bytes: tag, largest, delay, count, first range.
    let ack = journal.gen_ack_frame_util(VarInt::from_u32(3), 6).unwrap();
    assert!(ack.ranges.is_empty());
    assert_eq!(journal.gen_ack_frame_util(VarInt::from_u32(3), 4), Err(Signals::transport()));

    journal.on_ack_sent();
    assert_eq!(journal.trigger_ack_frame(1000), None);
}

#[test]
fn received_journal_forgets_beyond_its_window() {
    let mut journal = RcvdJournal::new(0);
    journal.register_pn(3, true, 0);
    journal.register_pn(5000, false, 1);
    assert!(!journal.is_received(3));
    assert!(journal.is_received(5000));
    journal.register_pn(5001, false, 2);
    assert_eq!(journal.largest(), Some(5001));
    assert_eq!(journal.trigger_ack_frame(0), Some((5001, 2)));
}

#[test]
fn closing_space_finds_the_peer_ccf() {
    let journal: SentJournal<u32> = SentJournal::with_capacity(1);
    let closing = ClosingDataSpace::close(&journal);
    let payload = vec![0x00, 0x01, 0x1d, 0x05, 0x01, b'x', 0x1c, 0x01, 0x00, 0x00];
    let ccf = closing.recv_payload(Bytes::from(payload)).unwrap();
    assert_eq!(ccf.layer, 1);
    assert_eq!(ccf.error_code.into_inner(), 5);
    assert_eq!(ccf.reason, b"x".to_vec());
    assert!(closing.recv_payload(Bytes::from(vec![0x00, 0x01])).is_none());
    assert!(closing.recv_payload(Bytes::new()).is_none());
    // Reading stops at a frame that cannot be read.
    assert!(closing.recv_payload(Bytes::from(vec![0x40, 0xff, 0x1c, 0x01, 0x00, 0x00])).is_none());
}

#[test]
fn checked_receive_and_loss_routing() {
    use_checked_receive();
}

fn use_checked_receive() {
    let mut buf = RecvBuf::new();
    assert_eq!(buf.try_recv(0, Bytes::from("abc")), Some(3));
    assert_eq!(buf.try_recv(u64::MAX - 1, Bytes::from("abc")), None);
    assert_eq!(buf.largest_offset(), 3);
    assert_eq!(
        loss_target(&GuaranteedFrame::Crypto(quic_core::frames::CryptoFrame {
            offset: VarInt::from_u32(0),
            length: VarInt::from_u32(1),
        })),
        LossTarget::CryptoStream
    );
    assert_eq!(
        loss_target(&GuaranteedFrame::Reliable(ReliableFrame::HandshakeDone(HandshakeDoneFrame))),
        LossTarget::ReliableFrames
    );
    assert_eq!(unspecified_bind_addr(AddrKind::Ipv4), Some("inet://0.0.0.0/alloc"));
}
