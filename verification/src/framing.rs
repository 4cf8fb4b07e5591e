//! The framing of the application protocol.
//!
//! A message travels as one frame:
//!
//! * two bytes, most significant first, that hold a 16-bit word. Its upper
//!   fourteen bits are the opcode; its lower two bits say how many bytes
//!   the length field takes (0, 1, 2 or 3);
//! * the length field, most significant byte first: the number of payload
//!   bytes. An absent length field means an empty payload;
//! * the payload.
//!
//! The two bytes of the word are the least a frame can be.

use vstd::prelude::*;

verus! {

/// The bytes that hold the opcode and the size of the length field: the
/// shortest header a frame can have.
pub const MIN_HEADER_LEN: usize = 2;

/// The most bytes a length field can take.
pub const MAX_LEN_FIELD: usize = 3;

/// One more than the largest opcode a frame can carry.
pub const OPCODE_LIMIT: u16 = 16384;

/// One more than the largest payload length a frame can declare.
pub const PAYLOAD_LIMIT: usize = 16777216;

/// What the front of a buffer holds.
#[derive(Clone, Copy, Debug, PartialEq, Eq, Structural)]
pub enum FrameStatus {
    /// Too few bytes to tell how long the next frame is.
    AwaitingHeader,
    /// The next frame declares `declared_len` payload bytes and not all of
    /// the frame has arrived.
    AwaitingBody { declared_len: usize },
    /// A whole frame is at the front: `header_len` bytes of header and then
    /// `payload_len` bytes of payload.
    Complete { opcode: u16, header_len: usize, payload_len: usize },
    /// The next frame declares `declared_len` payload bytes, more than the
    /// limit allows: the stream can no longer be trusted.
    Desynchronized { declared_len: usize },
}

impl FrameStatus {
    /// Whether more bytes are needed before anything can be said.
    pub open spec fn is_waiting(self) -> bool {
        self is AwaitingHeader || self is AwaitingBody
    }
}

/// The 16-bit word at the front of a buffer of at least two bytes.
pub open spec fn header_word(buf: Seq<u8>) -> int {
    buf[0] as int * 256 + buf[1] as int
}

/// The opcode in the header word.
pub open spec fn opcode_of(buf: Seq<u8>) -> int {
    header_word(buf) / 4
}

/// The number of bytes of the length field, from the header word.
pub open spec fn len_field_size(buf: Seq<u8>) -> int {
    header_word(buf) % 4
}

/// The number of bytes before the payload.
pub open spec fn header_len_of(buf: Seq<u8>) -> int {
    MIN_HEADER_LEN + len_field_size(buf)
}

/// The payload length that the length field declares. The buffer holds at
/// least `header_len_of(buf)` bytes.
pub open spec fn declared_len_of(buf: Seq<u8>) -> int {
    let size = len_field_size(buf);
    if size == 0 {
        0
    } else if size == 1 {
        buf[2] as int
    } else if size == 2 {
        buf[2] as int * 256 + buf[3] as int
    } else {
        buf[2] as int * 65536 + buf[3] as int * 256 + buf[4] as int
    }
}

/// Whether a declared length is more than the limit allows. Without a limit
/// every length is accepted.
pub open spec fn exceeds_limit(declared_len: int, max_frame_len: Option<usize>) -> bool {
    match max_frame_len {
        Some(max) => declared_len > max,
        None => false,
    }
}

/// What the front of `buf` holds under the limit `max_frame_len`.
pub open spec fn frame_status(buf: Seq<u8>, max_frame_len: Option<usize>) -> FrameStatus {
    if buf.len() < MIN_HEADER_LEN || buf.len() < header_len_of(buf) {
        FrameStatus::AwaitingHeader
    } else if exceeds_limit(declared_len_of(buf), max_frame_len) {
        FrameStatus::Desynchronized { declared_len: declared_len_of(buf) as usize }
    } else if buf.len() < header_len_of(buf) + declared_len_of(buf) {
        FrameStatus::AwaitingBody { declared_len: declared_len_of(buf) as usize }
    } else {
        FrameStatus::Complete {
            opcode: opcode_of(buf) as u16,
            header_len: header_len_of(buf) as usize,
            payload_len: declared_len_of(buf) as usize,
        }
    }
}

/// The ranges of the numbers that a header holds.
pub proof fn lemma_header_ranges(buf: Seq<u8>)
    ensures
        0 <= header_word(buf) < 65536,
        0 <= opcode_of(buf) < OPCODE_LIMIT,
        0 <= len_field_size(buf) <= MAX_LEN_FIELD,
        MIN_HEADER_LEN <= header_len_of(buf) <= MIN_HEADER_LEN + MAX_LEN_FIELD,
        0 <= declared_len_of(buf) < PAYLOAD_LIMIT,
{
}

/// Tells what the front of `buf` holds.
pub fn scan(buf: &[u8], max_frame_len: Option<usize>) -> (status: FrameStatus)
    ensures
        status == frame_status(buf@, max_frame_len),
        status matches FrameStatus::Complete { opcode, header_len, payload_len } ==> {
            &&& opcode < OPCODE_LIMIT
            &&& MIN_HEADER_LEN <= header_len <= MIN_HEADER_LEN + MAX_LEN_FIELD
            &&& payload_len < PAYLOAD_LIMIT
            &&& header_len + payload_len <= buf@.len()
        },
{
    proof {
        lemma_header_ranges(buf@);
    }
    let avail: usize = buf.len();
    if avail < MIN_HEADER_LEN {
        return FrameStatus::AwaitingHeader;
    }
    let word: u16 = (buf[0] as u16) * 256 + (buf[1] as u16);
    let opcode: u16 = word / 4;
    let size: usize = (word % 4) as usize;
    let header_len: usize = MIN_HEADER_LEN + size;
    if avail < header_len {
        return FrameStatus::AwaitingHeader;
    }
    let declared_len: usize = if size == 0 {
        0
    } else if size == 1 {
        buf[2] as usize
    } else if size == 2 {
        (buf[2] as usize) * 256 + (buf[3] as usize)
    } else {
        (buf[2] as usize) * 65536 + (buf[3] as usize) * 256 + (buf[4] as usize)
    };
    let over: bool = match max_frame_len {
        Some(max) => declared_len > max,
        None => false,
    };
    if over {
        FrameStatus::Desynchronized { declared_len }
    } else if avail - header_len < declared_len {
        FrameStatus::AwaitingBody { declared_len }
    } else {
        FrameStatus::Complete { opcode, header_len, payload_len: declared_len }
    }
}

} // verus!
