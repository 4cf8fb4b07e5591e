//! Reconstruction of a length-prefixed application protocol from captured
//! TCP traffic.
//!
//! Captured link-layer frames do not line up with application messages, so
//! the decoder keeps the bytes of each traffic direction in a buffer of its
//! own and hands out a message only once all of its bytes have arrived.

pub mod chunks;
pub mod direction;
pub mod encoding;
pub mod frame_meta;
pub mod framing;
pub mod packet_decoder;
pub mod session;
pub mod stream;
