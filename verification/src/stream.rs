//! What a byte stream decodes to.
//!
//! `decode` is the meaning of the stream decoder: the frames at the front
//! of a buffer, the bytes that stay behind, and why it stopped there.

use crate::framing::{declared_len_of, frame_status, header_len_of, opcode_of, FrameStatus};
use vstd::prelude::*;

verus! {

/// One frame of the stream: an opcode and the payload bytes as they came.
pub struct Frame {
    pub opcode: u16,
    pub payload: Seq<u8>,
}

/// The outcome of decoding a buffer.
pub struct Decoded {
    /// The whole frames at the front of the buffer, in order.
    pub frames: Seq<Frame>,
    /// The bytes that stay buffered.
    pub rest: Seq<u8>,
    /// What stopped the decoding. It is never `Complete`.
    pub stop: FrameStatus,
}

/// The number of bytes of the frame at the front of a buffer whose status
/// is `Complete`.
pub open spec fn first_frame_len(buf: Seq<u8>) -> int {
    header_len_of(buf) + declared_len_of(buf)
}

/// The frame at the front of a buffer whose status is `Complete`.
pub open spec fn first_frame(buf: Seq<u8>) -> Frame {
    Frame {
        opcode: opcode_of(buf) as u16,
        payload: buf.subrange(header_len_of(buf), first_frame_len(buf)),
    }
}

/// Decodes a buffer under the limit `max_frame_len`.
///
/// Whole frames are taken from the front for as long as there are any.
/// Decoding stops at a frame that has not fully arrived, whose bytes stay
/// buffered, or at a length that exceeds the limit, where every buffered
/// byte is given up.
pub open spec fn decode(buf: Seq<u8>, max_frame_len: Option<usize>) -> Decoded
    decreases buf.len(),
{
    let status = frame_status(buf, max_frame_len);
    if status is Complete {
        let tail = decode(buf.skip(first_frame_len(buf)), max_frame_len);
        Decoded { frames: seq![first_frame(buf)] + tail.frames, rest: tail.rest, stop: tail.stop }
    } else if status is Desynchronized {
        Decoded { frames: Seq::empty(), rest: Seq::empty(), stop: status }
    } else {
        Decoded { frames: Seq::empty(), rest: buf, stop: status }
    }
}

/// Decoding never stops at a whole frame. Where it stops for want of
/// bytes, what stays buffered is the unread end of the buffer, and it is
/// the front of a frame that has not fully arrived. Where it stops at a
/// length over the limit, nothing stays buffered.
pub proof fn lemma_decode_rest(buf: Seq<u8>, max_frame_len: Option<usize>)
    ensures
        !(decode(buf, max_frame_len).stop is Complete),
        decode(buf, max_frame_len).stop is Desynchronized ==> decode(buf, max_frame_len).rest
            == Seq::<u8>::empty(),
        decode(buf, max_frame_len).stop.is_waiting() ==> {
            let d = decode(buf, max_frame_len);
            &&& d.rest.len() <= buf.len()
            &&& d.rest == buf.skip(buf.len() - d.rest.len())
            &&& frame_status(d.rest, max_frame_len) == d.stop
        },
    decreases buf.len(),
{
    let status = frame_status(buf, max_frame_len);
    if status is Complete {
        let n = first_frame_len(buf);
        let tail = buf.skip(n);
        lemma_decode_rest(tail, max_frame_len);
        let d = decode(tail, max_frame_len);
        if d.stop.is_waiting() {
            assert(tail.skip(tail.len() - d.rest.len()) == buf.skip(buf.len() - d.rest.len()));
        }
    } else if status.is_waiting() {
        assert(buf.skip(0) == buf);
    }
}

/// Once the front of a buffer is a whole frame, or a length over the
/// limit, bytes that arrive later do not change it.
pub proof fn lemma_status_is_stable(a: Seq<u8>, b: Seq<u8>, max_frame_len: Option<usize>)
    requires
        !frame_status(a, max_frame_len).is_waiting(),
    ensures
        frame_status(a + b, max_frame_len) == frame_status(a, max_frame_len),
        frame_status(a, max_frame_len) is Complete ==> {
            &&& first_frame_len(a + b) == first_frame_len(a)
            &&& first_frame(a + b) == first_frame(a)
            &&& (a + b).skip(first_frame_len(a)) == a.skip(first_frame_len(a)) + b
        },
{
    let ab = a + b;
    assert(ab[0] == a[0] && ab[1] == a[1]);
    assert(header_len_of(ab) == header_len_of(a));
    assert(forall|i: int| 0 <= i < a.len() ==> ab[i] == a[i]);
    assert(declared_len_of(ab) == declared_len_of(a));
    if frame_status(a, max_frame_len) is Complete {
        assert(ab.subrange(header_len_of(a), first_frame_len(a)) == a.subrange(
            header_len_of(a),
            first_frame_len(a),
        ));
        assert(ab.skip(first_frame_len(a)) == a.skip(first_frame_len(a)) + b);
    }
}

/// Feeding `a` and then `b` gives what feeding both at once gives, unless
/// `a` alone runs into a length over the limit: the same frames in the same
/// order, the same bytes left, the same reason to stop.
pub proof fn lemma_decode_split(a: Seq<u8>, b: Seq<u8>, max_frame_len: Option<usize>)
    requires
        !(decode(a, max_frame_len).stop is Desynchronized),
    ensures
        decode(a + b, max_frame_len).frames == decode(a, max_frame_len).frames + decode(
            decode(a, max_frame_len).rest + b,
            max_frame_len,
        ).frames,
        decode(a + b, max_frame_len).rest == decode(
            decode(a, max_frame_len).rest + b,
            max_frame_len,
        ).rest,
        decode(a + b, max_frame_len).stop == decode(
            decode(a, max_frame_len).rest + b,
            max_frame_len,
        ).stop,
    decreases a.len(),
{
    let status = frame_status(a, max_frame_len);
    if status is Complete {
        let n = first_frame_len(a);
        lemma_status_is_stable(a, b, max_frame_len);
        lemma_decode_split(a.skip(n), b, max_frame_len);
        let da = decode(a.skip(n), max_frame_len);
        let dr = decode(da.rest + b, max_frame_len);
        assert(seq![first_frame(a)] + (da.frames + dr.frames) == (seq![first_frame(a)]
            + da.frames) + dr.frames);
    } else {
        assert(decode(a, max_frame_len).frames + decode(a + b, max_frame_len).frames == decode(
            a + b,
            max_frame_len,
        ).frames);
    }
}

/// A stream that decodes without a length over the limit has no such
/// length in any of its fronts.
pub proof fn lemma_front_is_clean(a: Seq<u8>, b: Seq<u8>, max_frame_len: Option<usize>)
    requires
        !(decode(a + b, max_frame_len).stop is Desynchronized),
    ensures
        !(decode(a, max_frame_len).stop is Desynchronized),
    decreases a.len(),
{
    let status = frame_status(a, max_frame_len);
    if status is Complete {
        lemma_status_is_stable(a, b, max_frame_len);
        lemma_front_is_clean(a.skip(first_frame_len(a)), b, max_frame_len);
    } else if status is Desynchronized {
        lemma_status_is_stable(a, b, max_frame_len);
    }
}

} // verus!
