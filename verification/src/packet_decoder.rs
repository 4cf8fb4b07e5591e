//! The stream decoder: one byte buffer for each direction and a queue of
//! the messages completed so far.
//!
//! The structure of no message is known here: every opcode is passed on
//! with the payload bytes as they came.

use crate::direction::Direction;
use crate::framing::{frame_status, scan, FrameStatus, MIN_HEADER_LEN};
use crate::stream::{decode, first_frame, first_frame_len, lemma_decode_rest, Frame};
use vstd::prelude::*;
use vstd::slice::{slice_subrange, slice_to_vec};

verus! {

/// One complete message of the protocol.
#[derive(Clone, Debug, PartialEq, Eq)]
pub struct DofusPacket {
    /// The side that sent the message.
    pub direction: Direction,
    /// The numeric identifier of the message.
    pub opcode: u16,
    /// The payload bytes, unmodified.
    pub payload: Vec<u8>,
}

/// What a `DofusPacket` stands for.
pub struct ProtocolMessage {
    pub direction: Direction,
    pub opcode: u16,
    pub payload: Seq<u8>,
}

impl View for DofusPacket {
    type V = ProtocolMessage;

    open spec fn view(&self) -> ProtocolMessage {
        ProtocolMessage { direction: self.direction, opcode: self.opcode, payload: self.payload@ }
    }
}

/// The messages that a sequence of packets stands for.
pub open spec fn messages_of(packets: Seq<DofusPacket>) -> Seq<ProtocolMessage> {
    Seq::new(packets.len(), |i: int| packets[i]@)
}

/// The message that a frame sent by `direction` becomes.
pub open spec fn message_of(frame: Frame, direction: Direction) -> ProtocolMessage {
    ProtocolMessage { direction, opcode: frame.opcode, payload: frame.payload }
}

/// The messages that frames sent by `direction` become, in order.
pub open spec fn tagged(frames: Seq<Frame>, direction: Direction) -> Seq<ProtocolMessage> {
    Seq::new(frames.len(), |i: int| message_of(frames[i], direction))
}

impl DofusPacket {
    /// A message sent by `direction`.
    pub fn new(direction: Direction, opcode: u16, payload: Vec<u8>) -> (packet: DofusPacket)
        ensures
            packet@ == (ProtocolMessage { direction, opcode, payload: payload@ }),
    {
        DofusPacket { direction, opcode, payload }
    }
}

/// Takes every whole frame from the front of `buf` and queues it as a
/// message of `direction`.
fn extract_frames(
    buf: &mut Vec<u8>,
    queue: &mut Vec<DofusPacket>,
    direction: Direction,
    max_frame_len: Option<usize>,
) -> (stop: FrameStatus)
    ensures
        final(buf)@ == decode(old(buf)@, max_frame_len).rest,
        messages_of(final(queue)@) == messages_of(old(queue)@) + tagged(
            decode(old(buf)@, max_frame_len).frames,
            direction,
        ),
        stop == decode(old(buf)@, max_frame_len).stop,
{
    let ghost full = buf@;
    let ghost queued = messages_of(queue@);
    let ghost whole = decode(full, max_frame_len);
    let mut pos: usize = 0;
    let mut stop = FrameStatus::AwaitingHeader;
    assert(full.skip(0) == full);
    loop
        invariant_except_break
            buf@ == full,
            pos <= buf.len(),
            whole == decode(full, max_frame_len),
            whole.rest == decode(full.skip(pos as int), max_frame_len).rest,
            whole.stop == decode(full.skip(pos as int), max_frame_len).stop,
            queued + tagged(whole.frames, direction) == messages_of(queue@) + tagged(
                decode(full.skip(pos as int), max_frame_len).frames,
                direction,
            ),
        ensures
            buf@ == full,
            pos <= buf.len(),
            whole == decode(full, max_frame_len),
            stop == whole.stop,
            !(stop is Complete),
            stop == frame_status(full.skip(pos as int), max_frame_len),
            messages_of(queue@) == queued + tagged(whole.frames, direction),
            stop is Desynchronized ==> whole.rest == Seq::<u8>::empty(),
            !(stop is Desynchronized) ==> whole.rest == full.skip(pos as int),
        decreases buf.len() - pos,
    {
        let window = slice_subrange(buf.as_slice(), pos, buf.len());
        let status = scan(window, max_frame_len);
        let ghost here = full.skip(pos as int);
        assert(window@ == here);
        match status {
            FrameStatus::Complete { opcode, header_len, payload_len } => {
                let body = slice_subrange(window, header_len, header_len + payload_len);
                let payload = slice_to_vec(body);
                let ghost before = messages_of(queue@);
                let ghost tail = decode(here.skip(first_frame_len(here)), max_frame_len);
                queue.push(DofusPacket { direction, opcode, payload });
                proof {
                    let frame = first_frame(here);
                    assert(body@ == frame.payload);
                    assert(messages_of(queue@) == before.push(message_of(frame, direction)));
                    assert(tagged(seq![frame] + tail.frames, direction) == seq![
                        message_of(frame, direction),
                    ] + tagged(tail.frames, direction));
                    assert(here.skip(first_frame_len(here)) == full.skip(
                        pos + header_len + payload_len,
                    ));
                    assert(before + (seq![message_of(frame, direction)] + tagged(
                        tail.frames,
                        direction,
                    )) == before.push(message_of(frame, direction)) + tagged(
                        tail.frames,
                        direction,
                    ));
                }
                pos = pos + header_len + payload_len;
            },
            _ => {
                stop = status;
                proof {
                    assert(tagged(Seq::<Frame>::empty(), direction) == Seq::<
                        ProtocolMessage,
                    >::empty());
                    assert(messages_of(queue@) + Seq::<ProtocolMessage>::empty() == messages_of(
                        queue@,
                    ));
                }
                break ;
            },
        }
    }
    match stop {
        FrameStatus::Desynchronized { .. } => {
            buf.clear();
        },
        _ => {
            let rest = buf.split_off(pos);
            *buf = rest;
        },
    }
    stop
}

/// The stateful decoder of both directions of one connection.
pub struct PacketDecoder {
    client: Vec<u8>,
    server: Vec<u8>,
    queue: Vec<DofusPacket>,
    max_frame_len: Option<usize>,
}

impl PacketDecoder {
    /// The bytes buffered for `direction`: the front of a frame that has
    /// not fully arrived.
    pub closed spec fn buffer(&self, direction: Direction) -> Seq<u8> {
        match direction {
            Direction::ClientOrigin => self.client@,
            Direction::ServerOrigin => self.server@,
        }
    }

    /// The messages completed since the last drain, in the order in which
    /// they were completed.
    pub closed spec fn pending(&self) -> Seq<ProtocolMessage> {
        messages_of(self.queue@)
    }

    /// The largest payload length that is still believed, if there is one.
    pub closed spec fn limit(&self) -> Option<usize> {
        self.max_frame_len
    }

    /// Each buffer holds nothing but the front of a frame that has not
    /// fully arrived.
    pub open spec fn wf(&self) -> bool {
        &&& frame_status(self.buffer(Direction::ClientOrigin), self.limit()).is_waiting()
        &&& frame_status(self.buffer(Direction::ServerOrigin), self.limit()).is_waiting()
    }

    /// A decoder with empty buffers that believes every length.
    pub fn new() -> (decoder: PacketDecoder)
        ensures
            decoder.buffer(Direction::ClientOrigin) == Seq::<u8>::empty(),
            decoder.buffer(Direction::ServerOrigin) == Seq::<u8>::empty(),
            decoder.pending() == Seq::<ProtocolMessage>::empty(),
            decoder.limit() == None::<usize>,
            decoder.wf(),
    {
        PacketDecoder::with_max_frame_len(None)
    }

    /// A decoder with empty buffers that gives a direction's stream up when
    /// a frame declares more than `max_frame_len` payload bytes.
    pub fn with_max_frame_len(max_frame_len: Option<usize>) -> (decoder: PacketDecoder)
        ensures
            decoder.buffer(Direction::ClientOrigin) == Seq::<u8>::empty(),
            decoder.buffer(Direction::ServerOrigin) == Seq::<u8>::empty(),
            decoder.pending() == Seq::<ProtocolMessage>::empty(),
            decoder.limit() == max_frame_len,
            decoder.wf(),
    {
        let decoder = PacketDecoder {
            client: Vec::new(),
            server: Vec::new(),
            queue: Vec::new(),
            max_frame_len,
        };
        assert(decoder.pending() == Seq::<ProtocolMessage>::empty());
        decoder
    }

    /// Appends `payload` to the buffer of `direction` and queues every
    /// message that is now complete.
    ///
    /// The buffer and the new bytes are decoded as one stream, so a frame
    /// that arrives in pieces is completed by the call that brings its last
    /// byte. What is returned says why decoding stopped: for want of bytes,
    /// or at a length over the limit, where the bytes buffered for
    /// `direction` are given up. The other direction is not touched.
    pub fn feed(&mut self, payload: &[u8], direction: Direction) -> (stop: FrameStatus)
        ensures
            final(self).limit() == old(self).limit(),
            final(self).buffer(direction) == decode(
                old(self).buffer(direction) + payload@,
                old(self).limit(),
            ).rest,
            final(self).pending() == old(self).pending() + tagged(
                decode(old(self).buffer(direction) + payload@, old(self).limit()).frames,
                direction,
            ),
            stop == decode(old(self).buffer(direction) + payload@, old(self).limit()).stop,
            forall|other: Direction|
                other != direction ==> final(self).buffer(other) == old(self).buffer(other),
            !(stop is Complete),
            stop is Desynchronized ==> final(self).buffer(direction) == Seq::<u8>::empty(),
            stop.is_waiting() ==> frame_status(final(self).buffer(direction), final(self).limit())
                == stop,
            old(self).wf() ==> final(self).wf(),
            old(self).buffer(direction).len() + payload@.len() < MIN_HEADER_LEN ==> {
                &&& final(self).pending() == old(self).pending()
                &&& final(self).buffer(direction) == old(self).buffer(direction) + payload@
                &&& stop is AwaitingHeader
            },
    {
        proof {
            let input = old(self).buffer(direction) + payload@;
            lemma_decode_rest(input, old(self).limit());
            if input.len() < MIN_HEADER_LEN {
                assert(tagged(Seq::<Frame>::empty(), direction) == Seq::<ProtocolMessage>::empty());
                assert(old(self).pending() + Seq::<ProtocolMessage>::empty() == old(
                    self,
                ).pending());
            }
        }
        match direction {
            Direction::ClientOrigin => {
                self.client.extend_from_slice(payload);
                assert(self.client@ == old(self).client@ + payload@);
                extract_frames(&mut self.client, &mut self.queue, direction, self.max_frame_len)
            },
            Direction::ServerOrigin => {
                self.server.extend_from_slice(payload);
                assert(self.server@ == old(self).server@ + payload@);
                extract_frames(&mut self.server, &mut self.queue, direction, self.max_frame_len)
            },
        }
    }

    /// Hands out the messages completed since the last drain, oldest first,
    /// and leaves the queue empty. The buffers are not touched.
    pub fn drain_messages(&mut self) -> (messages: Vec<DofusPacket>)
        ensures
            messages_of(messages@) == old(self).pending(),
            final(self).pending() == Seq::<ProtocolMessage>::empty(),
            final(self).limit() == old(self).limit(),
            forall|direction: Direction|
                final(self).buffer(direction) == old(self).buffer(direction),
    {
        let messages = self.queue.split_off(0);
        assert(messages@ == old(self).queue@);
        assert(messages_of(self.queue@) == Seq::<ProtocolMessage>::empty());
        messages
    }

    /// The number of bytes buffered for `direction`.
    pub fn buffered_len(&self, direction: Direction) -> (len: usize)
        ensures
            len == self.buffer(direction).len(),
    {
        match direction {
            Direction::ClientOrigin => self.client.len(),
            Direction::ServerOrigin => self.server.len(),
        }
    }

    /// The number of messages that wait to be drained.
    pub fn pending_len(&self) -> (len: usize)
        ensures
            len == self.pending().len(),
    {
        self.queue.len()
    }

    /// The largest payload length that is still believed, if there is one.
    pub fn max_frame_len(&self) -> (max: Option<usize>)
        ensures
            max == self.limit(),
    {
        self.max_frame_len
    }
}

} // verus!
