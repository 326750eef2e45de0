//! Client-side explicit messaging for CIP: request and reply envelopes, the
//! common-packet wrapper of a send, batches of requests in one multiple
//! service packet, the frames of unconnected and connected sends, and the
//! life cycle of a session.
//!
//! Byte buffers are `bytes::Bytes` and `bytes::BytesMut`; every contract speaks
//! of the bytes they hold, as sequences.

pub mod batch;
pub mod batch_proofs;
pub mod batch_reply;
pub mod buffer;
pub mod error;
pub mod common_packet;
pub mod message;
pub mod packet_items;
pub mod reply;
pub mod service;
pub mod session;
