//! The bytes of a frame, written out.
//!
//! Decoding is defined on bytes alone; this is the way back. It fixes the
//! format from the other side: a frame written with the shortest length
//! field that holds its length decodes to itself, whatever its opcode.

use crate::chunks::{concat, feed_chunks, lemma_chunks_decode_as_whole, lemma_single_frame};
use crate::framing::{
    declared_len_of, exceeds_limit, frame_status, header_len_of, header_word, opcode_of,
    MIN_HEADER_LEN, OPCODE_LIMIT, PAYLOAD_LIMIT,
};
use crate::stream::{decode, first_frame, first_frame_len, lemma_decode_split, Frame};
use vstd::prelude::*;

verus! {

/// The fewest bytes that hold a payload length.
pub open spec fn len_field_size_for(len: nat) -> int {
    if len == 0 {
        0
    } else if len < 256 {
        1
    } else if len < 65536 {
        2
    } else {
        3
    }
}

/// The length field of a payload of `len` bytes.
pub open spec fn len_field_bytes(len: nat) -> Seq<u8> {
    let n = len as int;
    if n == 0 {
        Seq::empty()
    } else if n < 256 {
        seq![n as u8]
    } else if n < 65536 {
        seq![(n / 256) as u8, (n % 256) as u8]
    } else {
        seq![(n / 65536) as u8, (n / 256 % 256) as u8, (n % 256) as u8]
    }
}

/// Whether a frame can be written and is believed under the limit.
pub open spec fn frame_is_valid(frame: Frame, max_frame_len: Option<usize>) -> bool {
    &&& frame.opcode < OPCODE_LIMIT
    &&& frame.payload.len() < PAYLOAD_LIMIT
    &&& !exceeds_limit(frame.payload.len() as int, max_frame_len)
}

/// The bytes of one frame.
pub open spec fn frame_bytes(frame: Frame) -> Seq<u8> {
    let word = frame.opcode as int * 4 + len_field_size_for(frame.payload.len());
    seq![(word / 256) as u8, (word % 256) as u8] + len_field_bytes(frame.payload.len())
        + frame.payload
}

/// The bytes of a run of frames, one after the other.
pub open spec fn stream_bytes(frames: Seq<Frame>) -> Seq<u8>
    decreases frames.len(),
{
    if frames.len() == 0 {
        Seq::empty()
    } else {
        frame_bytes(frames[0]) + stream_bytes(frames.skip(1))
    }
}

/// The bytes of a valid frame are one whole frame that reads back as the
/// same opcode and the same payload.
pub proof fn lemma_frame_bytes_are_whole(frame: Frame, max_frame_len: Option<usize>)
    requires
        frame_is_valid(frame, max_frame_len),
    ensures
        frame_status(frame_bytes(frame), max_frame_len) is Complete,
        frame_bytes(frame).len() == first_frame_len(frame_bytes(frame)),
        first_frame(frame_bytes(frame)) == frame,
{
    let bytes = frame_bytes(frame);
    let n = frame.payload.len() as int;
    let size = len_field_size_for(frame.payload.len());
    let word = frame.opcode as int * 4 + size;
    let field = len_field_bytes(frame.payload.len());
    assert(field.len() == size);
    assert(bytes.len() == MIN_HEADER_LEN + size + n);
    assert(bytes[0] == (word / 256) as u8 && bytes[1] == (word % 256) as u8);
    assert(header_word(bytes) == word);
    assert(opcode_of(bytes) == frame.opcode);
    assert(header_len_of(bytes) == MIN_HEADER_LEN + size);
    assert(forall|i: int| 0 <= i < size ==> bytes[2 + i] == field[i]);
    if size == 1 {
        assert(bytes[2] == field[0]);
    } else if size == 2 {
        assert(bytes[2] == field[0] && bytes[3] == field[1]);
    } else if size == 3 {
        assert(bytes[2] == field[0] && bytes[3] == field[1] && bytes[4] == field[2]);
    }
    assert(declared_len_of(bytes) == n);
    assert(bytes.subrange(header_len_of(bytes), first_frame_len(bytes)) == frame.payload);
}

/// A valid frame decodes to itself: its opcode, whatever it is, and its
/// payload byte for byte.
pub proof fn lemma_frame_round_trip(frame: Frame, max_frame_len: Option<usize>)
    requires
        frame_is_valid(frame, max_frame_len),
    ensures
        decode(frame_bytes(frame), max_frame_len).frames == seq![frame],
        decode(frame_bytes(frame), max_frame_len).rest == Seq::<u8>::empty(),
        decode(frame_bytes(frame), max_frame_len).stop is AwaitingHeader,
{
    lemma_frame_bytes_are_whole(frame, max_frame_len);
    lemma_single_frame(frame_bytes(frame), max_frame_len);
}

/// A run of valid frames decodes to the same frames in the same order and
/// leaves nothing.
pub proof fn lemma_stream_round_trip(frames: Seq<Frame>, max_frame_len: Option<usize>)
    requires
        forall|i: int| 0 <= i < frames.len() ==> frame_is_valid(#[trigger] frames[i], max_frame_len),
    ensures
        decode(stream_bytes(frames), max_frame_len).frames == frames,
        decode(stream_bytes(frames), max_frame_len).rest == Seq::<u8>::empty(),
        decode(stream_bytes(frames), max_frame_len).stop is AwaitingHeader,
    decreases frames.len(),
{
    if frames.len() == 0 {
    } else {
        let head = frame_bytes(frames[0]);
        let later = stream_bytes(frames.skip(1));
        lemma_frame_round_trip(frames[0], max_frame_len);
        assert forall|i: int| 0 <= i < frames.skip(1).len() implies frame_is_valid(
            #[trigger] frames.skip(1)[i],
            max_frame_len,
        ) by {
            assert(frames.skip(1)[i] == frames[i + 1]);
        }
        lemma_stream_round_trip(frames.skip(1), max_frame_len);
        lemma_decode_split(head, later, max_frame_len);
        assert(Seq::<u8>::empty() + later == later);
        assert(seq![frames[0]] + frames.skip(1) == frames);
    }
}

/// The bytes of any number of valid frames, cut into chunks at any places
/// and fed to an empty buffer chunk by chunk, yield exactly those frames,
/// in their order and with their payload bytes, and leave the buffer empty.
pub proof fn lemma_frames_survive_chunking(
    frames: Seq<Frame>,
    chunks: Seq<Seq<u8>>,
    max_frame_len: Option<usize>,
)
    requires
        forall|i: int| 0 <= i < frames.len() ==> frame_is_valid(#[trigger] frames[i], max_frame_len),
        concat(chunks) == stream_bytes(frames),
    ensures
        feed_chunks(Seq::empty(), chunks, max_frame_len).frames == frames,
        feed_chunks(Seq::empty(), chunks, max_frame_len).frames.len() == frames.len(),
        feed_chunks(Seq::empty(), chunks, max_frame_len).rest == Seq::<u8>::empty(),
        feed_chunks(Seq::empty(), chunks, max_frame_len).stop is AwaitingHeader,
{
    lemma_stream_round_trip(frames, max_frame_len);
    assert(Seq::<u8>::empty() + concat(chunks) == concat(chunks));
    lemma_chunks_decode_as_whole(Seq::empty(), chunks, max_frame_len);
}

} // verus!
