//! Core QUIC transport state machinery: wire primitives, frame taxonomy,
//! stream reassembly, sent-packet bookkeeping and anti-amplification.

// Wire primitives.
pub mod buf;
pub mod varint;
pub mod packet_number;
pub mod signal;

// Frames.
pub mod frame_type;
pub mod frames;
pub mod frame_spec;
pub mod frame_io;
pub mod frame_write;

// Errors and send signals.
pub mod error;
pub mod tx;

// Receive reassembly and loss-recovery bookkeeping.
pub mod rcvbuf;
pub mod clock;
pub mod sent;
pub mod rcvd;

// Paths, spaces and connection lifecycle.
pub mod anti_amp;
pub mod status;
pub mod peer_certs;
pub mod space;
pub mod dispatch;
pub mod closing;
pub mod termination;
pub mod client;
