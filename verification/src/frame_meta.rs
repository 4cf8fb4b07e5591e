//! Transport addressing of a captured frame.
//!
//! A frame is taken to start with a fixed block of headers: 14 bytes of
//! Ethernet, 20 bytes of IPv4 without options and 20 bytes of TCP without
//! options. The addressing fields are read at their fixed places in that
//! block; no checksum and no protocol field is looked at.

use vstd::prelude::*;
use vstd::slice::slice_subrange;

verus! {

/// Place of the IPv4 source address in a frame.
pub const SRC_ADDR_OFFSET: usize = 26;

/// Place of the IPv4 destination address in a frame.
pub const DST_ADDR_OFFSET: usize = 30;

/// Place of the TCP source port in a frame.
pub const SRC_PORT_OFFSET: usize = 34;

/// Place of the TCP destination port in a frame.
pub const DST_PORT_OFFSET: usize = 36;

/// First byte after the last addressing field.
pub const ADDRESSING_END: usize = 38;

/// Length of the headers that precede the application payload when neither
/// IPv4 nor TCP carries options.
pub const DEFAULT_HEADER_LEN: usize = 54;

/// One link-layer frame as the capture facility delivered it.
#[derive(Clone, Debug, PartialEq, Eq)]
pub struct CapturedFrame {
    /// Seconds of the capture time.
    pub ts_sec: i64,
    /// Microseconds of the capture time.
    pub ts_usec: i64,
    /// The bytes of the frame, link-layer header first.
    pub data: Vec<u8>,
}

/// The transport addressing of one captured frame.
#[derive(Clone, Copy, Debug, PartialEq, Eq, Structural, Hash)]
pub struct SessionMeta {
    /// IPv4 source address, most significant octet first.
    pub src_addr: u32,
    /// TCP source port.
    pub src_port: u16,
    /// IPv4 destination address, most significant octet first.
    pub dst_addr: u32,
    /// TCP destination port.
    pub dst_port: u16,
}

/// Why a captured frame cannot be used.
#[derive(Clone, Copy, Debug, PartialEq, Eq, Structural)]
pub enum FrameError {
    /// The frame is shorter than the headers it is assumed to start with.
    MalformedFrame,
}

/// The 16-bit number that two bytes hold, most significant byte first.
pub open spec fn be16(bytes: Seq<u8>, at: int) -> int {
    bytes[at] as int * 256 + bytes[at + 1] as int
}

/// The 32-bit number that four bytes hold, most significant byte first.
pub open spec fn be32(bytes: Seq<u8>, at: int) -> int {
    bytes[at] as int * 16777216 + bytes[at + 1] as int * 65536 + bytes[at + 2] as int * 256
        + bytes[at + 3] as int
}

/// Whether a frame of `len` bytes is long enough to hold `header_len` bytes
/// of headers and every addressing field.
pub open spec fn frame_is_usable(len: nat, header_len: usize) -> bool {
    len >= header_len && len >= ADDRESSING_END
}

/// The addressing that a usable frame carries.
pub open spec fn meta_of(data: Seq<u8>) -> SessionMeta {
    SessionMeta {
        src_addr: be32(data, SRC_ADDR_OFFSET as int) as u32,
        src_port: be16(data, SRC_PORT_OFFSET as int) as u16,
        dst_addr: be32(data, DST_ADDR_OFFSET as int) as u32,
        dst_port: be16(data, DST_PORT_OFFSET as int) as u16,
    }
}

/// The application payload of a usable frame: what follows the headers.
pub open spec fn payload_of(data: Seq<u8>, header_len: usize) -> Seq<u8> {
    data.subrange(header_len as int, data.len() as int)
}

fn read_be16(data: &[u8], at: usize) -> (value: u16)
    requires
        at + 2 <= data.len(),
    ensures
        value == be16(data@, at as int),
{
    let hi: u16 = data[at] as u16;
    let lo: u16 = data[at + 1] as u16;
    hi * 256 + lo
}

fn read_be32(data: &[u8], at: usize) -> (value: u32)
    requires
        at + 4 <= data.len(),
    ensures
        value == be32(data@, at as int),
{
    let b0: u32 = data[at] as u32;
    let b1: u32 = data[at + 1] as u32;
    let b2: u32 = data[at + 2] as u32;
    let b3: u32 = data[at + 3] as u32;
    b0 * 16777216 + b1 * 65536 + b2 * 256 + b3
}

impl CapturedFrame {
    /// A frame captured at `ts_sec` seconds and `ts_usec` microseconds.
    pub fn new(ts_sec: i64, ts_usec: i64, data: Vec<u8>) -> (frame: CapturedFrame)
        ensures
            frame.ts_sec == ts_sec,
            frame.ts_usec == ts_usec,
            frame.data == data,
    {
        CapturedFrame { ts_sec, ts_usec, data }
    }
}

/// Reads the source and destination of a frame that starts with
/// `header_len` bytes of headers.
///
/// A frame shorter than `header_len`, or too short to hold the addressing
/// fields, is malformed; nothing is read from it.
pub fn extract_meta(frame: &CapturedFrame, header_len: usize) -> (res: Result<
    SessionMeta,
    FrameError,
>)
    ensures
        res is Ok <==> frame_is_usable(frame.data@.len(), header_len),
        res matches Ok(meta) ==> meta == meta_of(frame.data@),
        res matches Err(e) ==> e == FrameError::MalformedFrame,
{
    let data = frame.data.as_slice();
    if data.len() < header_len || data.len() < ADDRESSING_END {
        return Err(FrameError::MalformedFrame);
    }
    Ok(
        SessionMeta {
            src_addr: read_be32(data, SRC_ADDR_OFFSET),
            src_port: read_be16(data, SRC_PORT_OFFSET),
            dst_addr: read_be32(data, DST_ADDR_OFFSET),
            dst_port: read_be16(data, DST_PORT_OFFSET),
        },
    )
}

/// The application payload of a frame: the bytes after the first
/// `header_len`. A frame that `extract_meta` would refuse is refused here.
pub fn strip_header(frame: &CapturedFrame, header_len: usize) -> (res: Result<&[u8], FrameError>)
    ensures
        res is Ok <==> frame_is_usable(frame.data@.len(), header_len),
        res matches Ok(payload) ==> payload@ == payload_of(frame.data@, header_len),
        res matches Err(e) ==> e == FrameError::MalformedFrame,
{
    let data = frame.data.as_slice();
    if data.len() < header_len || data.len() < ADDRESSING_END {
        return Err(FrameError::MalformedFrame);
    }
    Ok(slice_subrange(data, header_len, data.len()))
}

} // verus!
