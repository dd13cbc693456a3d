use bytes::Bytes;
use quic_core::frame_io::FrameReader;
use quic_core::frame_type::{ContainSpec, FrameFeture, FrameType, PacketType, Spec};
use quic_core::frames::Frame;
use quic_core::space::PacketContains;
use quic_core::varint::{decode, VarInt};

fn put_varint(buf: &mut Vec<u8>, v: u32) {
    VarInt::from_u32(v).encode(buf);
}

#[test]
fn test_frame_type_conversion() {
    let frame_types = vec![
        FrameType::Padding,
        FrameType::Ping,
        FrameType::Ack(0),
        FrameType::Stream(0),
        FrameType::MaxData,
        FrameType::ConnectionClose(0),
        FrameType::HandshakeDone,
        FrameType::Datagram(0),
    ];

    for frame_type in frame_types {
        let byte: VarInt = frame_type.into();
        assert_eq!(FrameType::try_from(byte).unwrap(), frame_type);
    }
}

#[test]
fn test_frame_type_specs() {
    assert!(FrameType::Padding.specs().contain(Spec::NonAckEliciting));
    assert!(FrameType::Ack(0).specs().contain(Spec::CongestionControlFree));
    assert!(FrameType::Stream(0).specs().contain(Spec::FlowControlled));
    assert!(FrameType::PathChallenge.specs().contain(Spec::ProbeNewPath));
}

#[test]
fn test_frame_type_belongs_to() {
    let initial = PacketType::Initial;
    assert!(FrameType::Padding.belongs_to(initial));
    assert!(FrameType::Ping.belongs_to(initial));
    assert!(FrameType::Ack(0).belongs_to(initial));
    assert!(!FrameType::Stream(0).belongs_to(initial));
}

#[test]
fn test_frame_reader() {
    let buf = vec![0x00u8, 0x01];
    let mut reader = FrameReader::new(Bytes::from(buf), PacketType::Initial);

    let (frame, frame_type) = reader.next().unwrap().unwrap();
    assert!(matches!(frame, Frame::Padding(_)));
    assert!(frame_type.specs().contain(Spec::NonAckEliciting));

    let (frame, frame_type) = reader.next().unwrap().unwrap();
    assert!(matches!(frame, Frame::Ping(_)));
    assert!(!frame_type.specs().contain(Spec::NonAckEliciting));

    assert!(reader.next().is_none());
}

#[test]
fn test_invalid_frame_type() {
    assert!(FrameType::try_from(VarInt::from_u32(0xFF)).is_err());
}

/// An extension frame: tag 0xff and three variable-length integers.
#[derive(Debug, Clone, PartialEq, Eq)]
struct AddAddressFrame {
    seq_num: VarInt,
    tire: VarInt,
    nat_type: VarInt,
}

fn put_add_address_frame(buf: &mut Vec<u8>, frame: &AddAddressFrame) {
    put_varint(buf, 0xff);
    frame.seq_num.encode(buf);
    frame.tire.encode(buf);
    frame.nat_type.encode(buf);
}

fn parse_address_frame(input: &[u8]) -> Option<(usize, AddAddressFrame)> {
    let (typ, mut pos) = decode(input)?;
    if typ != VarInt::from_u32(0xff) {
        return None;
    }
    let mut fields = Vec::new();
    for _ in 0..3 {
        let (v, n) = decode(&input[pos..])?;
        fields.push(v);
        pos += n;
    }
    Some((
        pos,
        AddAddressFrame {
            seq_num: fields[0],
            tire: fields[1],
            nat_type: fields[2],
        },
    ))
}

#[test]
fn test_extetion_frame_type() {
    let add_address_frame = AddAddressFrame {
        seq_num: VarInt::from_u32(0x01),
        tire: VarInt::from_u32(0x02),
        nat_type: VarInt::from_u32(0x03),
    };
    let mut buf = Vec::new();
    put_add_address_frame(&mut buf, &add_address_frame);
    buf.push(0x00);
    buf.push(0x00);
    put_add_address_frame(&mut buf, &add_address_frame);
    put_varint(&mut buf, 0xfe);

    let mut padding_count = 0;
    let mut add_address_count = 0;
    let mut reader = FrameReader::new(Bytes::from(buf), PacketType::OneRtt);
    loop {
        match reader.next() {
            Some(Ok((frame, typ))) => {
                assert!(matches!(frame, Frame::Padding(_)));
                assert_eq!(typ, FrameType::Padding);
                padding_count += 1;
            }
            Some(Err(_e)) => {
                let parsed = parse_address_frame(&reader.remaining()[..]);
                if let Some((consum, frame)) = parsed {
                    reader.advance(consum);
                    assert_eq!(frame, add_address_frame);
                    add_address_count += 1;
                } else {
                    reader.clear();
                }
            }
            None => break,
        };
    }
    assert_eq!(padding_count, 2);
    assert_eq!(add_address_count, 2);
}

#[test]
fn test_handless_extension_frame() {
    let mut buf = vec![0x00u8, 0x00];
    put_varint(&mut buf, 0xfe);
    buf.push(0x00);

    let mut padding_count = 0;
    let mut reader = FrameReader::new(Bytes::from(buf), PacketType::OneRtt);
    let mut contains = PacketContains::new();
    while let Some(item) = reader.next() {
        let Ok((frame, frame_type)) = item else {
            break;
        };
        assert!(matches!(frame, Frame::Padding(_)));
        assert_eq!(frame_type, FrameType::Padding);
        padding_count += 1;
        contains = contains.with_frame(frame_type);
    }

    assert_eq!(padding_count, 2);
    assert!(!contains.ack_eliciting());
}
