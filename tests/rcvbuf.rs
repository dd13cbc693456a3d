use bytes::Bytes;
use quic_core::rcvbuf::RecvBuf;

#[test]
fn test_no_overlap() {
    let mut buf = RecvBuf::default();
    assert_eq!(buf.recv(0, Bytes::from("hello")), 5);
    assert_eq!(buf.recv(6, Bytes::from("world")), 6);

    assert_eq!(buf.segment_count(), 2);
    assert_eq!(buf.segment_offset(0), 0);
    assert_eq!(buf.segment_offset(1), 6);

    assert_eq!(buf.recv(5, Bytes::from(" ")), 0);
    assert_eq!(buf.segment_count(), 3);
    assert_eq!(buf.segment_offset(0), 0);
    assert_eq!(buf.segment_offset(1), 5);
    assert_eq!(buf.segment_offset(2), 6);
}

#[test]
fn test_left_partially_overlap() {
    let mut buf = RecvBuf::default();
    assert_eq!(buf.recv(0, Bytes::from("01234")), 5);
    assert_eq!(buf.recv(2, Bytes::from("2345")), 1);
    assert_eq!(buf.recv(6, Bytes::from("6789")), 4);

    assert_eq!(buf.segment_count(), 3);
    assert_eq!(buf.segment_offset(0), 0);
    assert_eq!(buf.segment_offset(1), 5);
    assert_eq!(buf.segment_offset(2), 6);
    assert_eq!(buf.available(), 10);
}

#[test]
fn test_right_partially_overlap() {
    let mut buf = RecvBuf::default();
    assert_eq!(buf.recv(0, Bytes::from("hello")), 5);
    assert_eq!(buf.recv(6, Bytes::from("world!")), 7);
    assert_eq!(buf.recv(5, Bytes::from(" wor")), 0);

    assert_eq!(buf.segment_count(), 3);
    assert_eq!(buf.segment_offset(0), 0);
    assert_eq!(buf.segment_offset(1), 5);
    assert_eq!(buf.segment_offset(2), 6);
    assert_eq!(buf.available(), 12);
}

#[test]
fn test_same_offset() {
    let mut buf = RecvBuf::default();
    assert_eq!(buf.recv(0, Bytes::from("01234")), 5);
    assert_eq!(buf.recv(0, Bytes::from("0123456789")), 5);

    assert_eq!(buf.segment_count(), 2);
    assert_eq!(buf.segment_offset(0), 0);
    assert_eq!(buf.segment_offset(1), 5);
    assert_eq!(buf.available(), 10);
}

#[test]
fn test_fully_overlap_right() {
    let mut buf = RecvBuf::default();
    assert_eq!(buf.recv(0, Bytes::from("hello")), 5);
    assert_eq!(buf.recv(6, Bytes::from("world")), 6);
    assert_eq!(buf.recv(5, Bytes::from(" world!")), 1);

    assert_eq!(buf.segment_count(), 4);
    assert_eq!(buf.segment_offset(0), 0);
    assert_eq!(buf.segment_offset(1), 5);
    assert_eq!(buf.segment_offset(2), 6);
    assert_eq!(buf.segment_offset(3), 11);
    assert_eq!(buf.available(), 12);
}

#[test]
fn test_left_fully_overlap() {
    let mut buf = RecvBuf::default();
    assert_eq!(buf.recv(0, Bytes::from("114514")), 6);
    assert_eq!(buf.recv(2, Bytes::from("45")), 0);
    assert_eq!(buf.recv(2, Bytes::from("4514")), 0);
    assert_eq!(buf.segment_count(), 1);
    assert_eq!(buf.segment_offset(0), 0);
    assert_eq!(buf.available(), 6);
}

#[test]
fn test_right_fully_overlapp() {
    let mut buf = RecvBuf::default();
    assert_eq!(buf.recv(0, Bytes::from("114514")), 6);
    assert_eq!(buf.recv(6, Bytes::from("1919810")), 7);
    assert_eq!(buf.recv(8, Bytes::from("1981")), 0);
    assert_eq!(buf.recv(8, Bytes::from("19810")), 0);

    assert_eq!(buf.segment_count(), 2);
    assert_eq!(buf.segment_offset(0), 0);
    assert_eq!(buf.segment_offset(1), 6);
    assert_eq!(buf.available(), 13);
}

#[test]
fn test_left_right_partially_overlap() {
    let mut buf = RecvBuf::default();
    assert_eq!(buf.recv(0, Bytes::from("012345")), 6);
    assert_eq!(buf.recv(7, Bytes::from("789")), 4);
    assert_eq!(buf.recv(6, Bytes::from("6")), 0);

    assert_eq!(buf.segment_count(), 3);
    assert_eq!(buf.segment_offset(0), 0);
    assert_eq!(buf.segment_offset(1), 6);
    assert_eq!(buf.segment_offset(2), 7);
    assert_eq!(buf.available(), 10);
}

#[test]
fn test_left_right_fully_overlap() {
    let mut buf = RecvBuf::default();
    assert_eq!(buf.recv(0, Bytes::from("01234")), 5);
    assert_eq!(buf.recv(5, Bytes::from("56789")), 5);
    assert_eq!(buf.recv(2, Bytes::from("2345678")), 0);

    assert_eq!(buf.segment_count(), 2);
    assert_eq!(buf.segment_offset(0), 0);
    assert_eq!(buf.segment_offset(1), 5);
    assert_eq!(buf.available(), 10);
}

#[test]
fn test_recvbuf_read() {
    let mut rcvbuf = RecvBuf::default();
    assert_eq!(rcvbuf.recv(0, Bytes::from("hello")), 5);
    assert_eq!(rcvbuf.recv(6, Bytes::from("world")), 6);

    // A sink of 20 bytes.
    let capacity = 20usize;
    let mut dst = Vec::new();
    let n1 = rcvbuf.try_read(&mut dst, capacity);
    assert_eq!(capacity - n1, 15);

    assert_eq!(rcvbuf.recv(5, Bytes::from(" ")), 0);
    let n2 = rcvbuf.try_read(&mut dst, capacity - n1);

    assert_eq!(capacity - n1 - n2, 9);
    assert_eq!(dst[..11], b"hello world"[..]);
}
