//! A stream that arrives in chunks.
//!
//! Captured packets cut the stream wherever they like. `feed_chunks` is
//! what a buffer and a run of chunks come to when each chunk is fed in its
//! turn; the laws below say that the cuts do not matter.

use crate::framing::{declared_len_of, exceeds_limit, frame_status, header_len_of, FrameStatus};
use crate::framing::MIN_HEADER_LEN;
use crate::stream::{
    decode, first_frame, first_frame_len, lemma_decode_rest, lemma_decode_split,
    lemma_front_is_clean, lemma_status_is_stable, Decoded, Frame,
};
use vstd::prelude::*;

verus! {

/// The chunks put end to end.
pub open spec fn concat(chunks: Seq<Seq<u8>>) -> Seq<u8>
    decreases chunks.len(),
{
    if chunks.len() == 0 {
        Seq::empty()
    } else {
        chunks[0] + concat(chunks.skip(1))
    }
}

/// What feeding the chunks one after the other comes to, starting with
/// `buf` buffered: every frame completed on the way, what stays buffered
/// after the last chunk, and why the last feed stopped.
pub open spec fn feed_chunks(
    buf: Seq<u8>,
    chunks: Seq<Seq<u8>>,
    max_frame_len: Option<usize>,
) -> Decoded
    decreases chunks.len(),
{
    if chunks.len() == 0 {
        Decoded { frames: Seq::empty(), rest: buf, stop: frame_status(buf, max_frame_len) }
    } else {
        let first = decode(buf + chunks[0], max_frame_len);
        let later = feed_chunks(first.rest, chunks.skip(1), max_frame_len);
        Decoded { frames: first.frames + later.frames, rest: later.rest, stop: later.stop }
    }
}

/// Feeding a stream in chunks gives what feeding it in one piece gives:
/// the same frames in the same order with the same payload bytes, and the
/// same bytes left over. It holds of every stream in which no frame
/// declares a length over the limit, whatever the cuts.
pub proof fn lemma_chunks_decode_as_whole(
    buf: Seq<u8>,
    chunks: Seq<Seq<u8>>,
    max_frame_len: Option<usize>,
)
    requires
        frame_status(buf, max_frame_len).is_waiting(),
        !(decode(buf + concat(chunks), max_frame_len).stop is Desynchronized),
    ensures
        feed_chunks(buf, chunks, max_frame_len).frames == decode(
            buf + concat(chunks),
            max_frame_len,
        ).frames,
        feed_chunks(buf, chunks, max_frame_len).rest == decode(
            buf + concat(chunks),
            max_frame_len,
        ).rest,
        feed_chunks(buf, chunks, max_frame_len).stop == decode(
            buf + concat(chunks),
            max_frame_len,
        ).stop,
    decreases chunks.len(),
{
    if chunks.len() == 0 {
        assert(buf + concat(chunks) == buf);
    } else {
        let head = buf + chunks[0];
        let later = concat(chunks.skip(1));
        assert(buf + concat(chunks) == head + later);
        lemma_front_is_clean(head, later, max_frame_len);
        lemma_decode_split(head, later, max_frame_len);
        lemma_decode_rest(head, max_frame_len);
        let first = decode(head, max_frame_len);
        lemma_chunks_decode_as_whole(first.rest, chunks.skip(1), max_frame_len);
    }
}

/// Two ways of cutting the same stream give the same frames and leave the
/// same bytes.
pub proof fn lemma_cuts_do_not_matter(
    buf: Seq<u8>,
    one: Seq<Seq<u8>>,
    other: Seq<Seq<u8>>,
    max_frame_len: Option<usize>,
)
    requires
        frame_status(buf, max_frame_len).is_waiting(),
        concat(one) == concat(other),
        !(decode(buf + concat(one), max_frame_len).stop is Desynchronized),
    ensures
        feed_chunks(buf, one, max_frame_len).frames == feed_chunks(
            buf,
            other,
            max_frame_len,
        ).frames,
        feed_chunks(buf, one, max_frame_len).rest == feed_chunks(buf, other, max_frame_len).rest,
        feed_chunks(buf, one, max_frame_len).stop == feed_chunks(buf, other, max_frame_len).stop,
{
    lemma_chunks_decode_as_whole(buf, one, max_frame_len);
    lemma_chunks_decode_as_whole(buf, other, max_frame_len);
}

/// Fewer bytes than the shortest header decode to no frame: they stay
/// buffered and the decoder waits for the header.
pub proof fn lemma_short_input_waits(buf: Seq<u8>, max_frame_len: Option<usize>)
    requires
        buf.len() < MIN_HEADER_LEN,
    ensures
        decode(buf, max_frame_len).frames == Seq::<Frame>::empty(),
        decode(buf, max_frame_len).rest == buf,
        decode(buf, max_frame_len).stop is AwaitingHeader,
{
}

/// Feeding no bytes to a buffer that waits changes nothing and completes
/// nothing.
pub proof fn lemma_empty_feed_changes_nothing(buf: Seq<u8>, max_frame_len: Option<usize>)
    requires
        frame_status(buf, max_frame_len).is_waiting(),
    ensures
        decode(buf + Seq::<u8>::empty(), max_frame_len).frames == Seq::<Frame>::empty(),
        decode(buf + Seq::<u8>::empty(), max_frame_len).rest == buf,
        decode(buf + Seq::<u8>::empty(), max_frame_len).stop == frame_status(buf, max_frame_len),
{
    assert(buf + Seq::<u8>::empty() == buf);
}

/// A frame whose declared payload has not fully arrived is never taken for
/// a whole one: as long as the bytes supplied, in whatever chunks, stay
/// short of the declared length, no frame comes out, every byte stays
/// buffered, and the decoder waits for the body.
pub proof fn lemma_starved_frame_waits(
    buf: Seq<u8>,
    chunks: Seq<Seq<u8>>,
    max_frame_len: Option<usize>,
)
    requires
        (buf + concat(chunks)).len() >= MIN_HEADER_LEN,
        (buf + concat(chunks)).len() >= header_len_of(buf + concat(chunks)),
        !exceeds_limit(declared_len_of(buf + concat(chunks)), max_frame_len),
        (buf + concat(chunks)).len() < first_frame_len(buf + concat(chunks)),
    ensures
        feed_chunks(buf, chunks, max_frame_len).frames == Seq::<Frame>::empty(),
        feed_chunks(buf, chunks, max_frame_len).rest == buf + concat(chunks),
        feed_chunks(buf, chunks, max_frame_len).stop == (FrameStatus::AwaitingBody {
            declared_len: declared_len_of(buf + concat(chunks)) as usize,
        }),
{
    let all = buf + concat(chunks);
    if !frame_status(buf, max_frame_len).is_waiting() {
        lemma_status_is_stable(buf, concat(chunks), max_frame_len);
    }
    lemma_chunks_decode_as_whole(buf, chunks, max_frame_len);
}

/// A length over the limit gives up everything that is buffered, the bytes
/// that followed the length with it, and completes nothing.
pub proof fn lemma_desync_discards(buf: Seq<u8>, max_frame_len: Option<usize>)
    requires
        frame_status(buf, max_frame_len) is Desynchronized,
    ensures
        decode(buf, max_frame_len).frames == Seq::<Frame>::empty(),
        decode(buf, max_frame_len).rest == Seq::<u8>::empty(),
        decode(buf, max_frame_len).stop == frame_status(buf, max_frame_len),
{
}

/// A buffer that is exactly one whole frame decodes to that frame and
/// leaves nothing.
pub proof fn lemma_single_frame(bytes: Seq<u8>, max_frame_len: Option<usize>)
    requires
        frame_status(bytes, max_frame_len) is Complete,
        bytes.len() == first_frame_len(bytes),
    ensures
        decode(bytes, max_frame_len).frames == seq![first_frame(bytes)],
        decode(bytes, max_frame_len).rest == Seq::<u8>::empty(),
        decode(bytes, max_frame_len).stop is AwaitingHeader,
{
    let tail = bytes.skip(first_frame_len(bytes));
    assert(tail == Seq::<u8>::empty());
    lemma_short_input_waits(tail, max_frame_len);
    assert(seq![first_frame(bytes)] + Seq::<Frame>::empty() == seq![first_frame(bytes)]);
}

/// The stream recovers after a length over the limit: the feed that meets
/// it leaves the buffer empty, so a whole frame fed next decodes as if
/// nothing had come before it.
pub proof fn lemma_recovers_after_desync(
    buf: Seq<u8>,
    bad: Seq<u8>,
    next: Seq<u8>,
    max_frame_len: Option<usize>,
)
    requires
        decode(buf + bad, max_frame_len).stop is Desynchronized,
        frame_status(next, max_frame_len) is Complete,
        next.len() == first_frame_len(next),
    ensures
        decode(buf + bad, max_frame_len).rest == Seq::<u8>::empty(),
        decode(decode(buf + bad, max_frame_len).rest + next, max_frame_len).frames == seq![
            first_frame(next),
        ],
        decode(decode(buf + bad, max_frame_len).rest + next, max_frame_len).rest == Seq::<
            u8,
        >::empty(),
        decode(decode(buf + bad, max_frame_len).rest + next, max_frame_len).stop is AwaitingHeader,
{
    lemma_decode_rest(buf + bad, max_frame_len);
    assert(Seq::<u8>::empty() + next == next);
    lemma_single_frame(next, max_frame_len);
}

/// No byte is dropped and none is used twice: a buffer that decodes
/// without a length over the limit is the bytes of the frames handed out,
/// followed by the bytes that stay buffered. The front that was taken
/// decodes to those frames and to nothing more.
pub proof fn lemma_front_is_the_frames(buf: Seq<u8>, max_frame_len: Option<usize>)
    requires
        !(decode(buf, max_frame_len).stop is Desynchronized),
    ensures
        decode(buf, max_frame_len).rest.len() <= buf.len(),
        buf == buf.take(buf.len() - decode(buf, max_frame_len).rest.len()) + decode(
            buf,
            max_frame_len,
        ).rest,
        decode(
            buf.take(buf.len() - decode(buf, max_frame_len).rest.len()),
            max_frame_len,
        ).frames == decode(buf, max_frame_len).frames,
        decode(
            buf.take(buf.len() - decode(buf, max_frame_len).rest.len()),
            max_frame_len,
        ).rest == Seq::<u8>::empty(),
    decreases buf.len(),
{
    lemma_decode_rest(buf, max_frame_len);
    let d = decode(buf, max_frame_len);
    let used = buf.len() - d.rest.len();
    if frame_status(buf, max_frame_len) is Complete {
        let n = first_frame_len(buf);
        let tail = buf.skip(n);
        let head = buf.take(n);
        lemma_decode_rest(tail, max_frame_len);
        lemma_front_is_the_frames(tail, max_frame_len);
        let used_later = tail.len() - decode(tail, max_frame_len).rest.len();
        assert(head[0] == buf[0] && head[1] == buf[1]);
        assert(forall|i: int| 0 <= i < n ==> head[i] == buf[i]);
        assert(header_len_of(head) == header_len_of(buf));
        assert(declared_len_of(head) == declared_len_of(buf));
        assert(head.subrange(header_len_of(buf), n) == buf.subrange(header_len_of(buf), n));
        lemma_single_frame(head, max_frame_len);
        lemma_decode_split(head, tail.take(used_later), max_frame_len);
        assert(Seq::<u8>::empty() + tail.take(used_later) == tail.take(used_later));
        assert(buf.take(used) == head + tail.take(used_later));
    } else {
        assert(buf.take(0) == Seq::<u8>::empty());
        lemma_short_input_waits(buf.take(0), max_frame_len);
    }
}

} // verus!
