//! One capture session: the settings, the decoder, and what to do with each
//! captured frame.
//!
//! A session is made once and lives as long as the capture does, so a frame
//! of the protocol that is split over two captured packets is never lost
//! between them.

use crate::direction::{direction_of_port, Direction, DirectionStrategy, PortHeuristic};
use crate::frame_meta::{
    extract_meta, frame_is_usable, meta_of, payload_of, strip_header, CapturedFrame, FrameError,
    DEFAULT_HEADER_LEN,
};
use crate::framing::frame_status;
use crate::packet_decoder::{messages_of, tagged, DofusPacket, PacketDecoder, ProtocolMessage};
use crate::stream::decode;
use vstd::prelude::*;

verus! {

/// The TCP port of the service when none is configured.
pub const DEFAULT_SERVICE_PORT: u16 = 5555;

/// The settings of a capture session.
#[derive(Clone, Copy, Debug, PartialEq, Eq, Structural)]
pub struct CaptureConfig {
    /// The TCP port the service listens on.
    pub service_port: u16,
    /// The number of header bytes before the application payload.
    pub header_len: usize,
    /// The largest payload length that is still believed, if any.
    pub max_frame_len: Option<usize>,
}

impl Default for CaptureConfig {
    fn default() -> (config: CaptureConfig)
        ensures
            config.service_port == DEFAULT_SERVICE_PORT,
            config.header_len == DEFAULT_HEADER_LEN,
            config.max_frame_len == None::<usize>,
    {
        CaptureConfig {
            service_port: DEFAULT_SERVICE_PORT,
            header_len: DEFAULT_HEADER_LEN,
            max_frame_len: None,
        }
    }
}

/// A batch of messages as it is handed to the consumer.
#[derive(Clone, Debug, PartialEq, Eq)]
pub struct ServerMessage {
    /// The messages, oldest first.
    pub data: Vec<DofusPacket>,
}

impl ServerMessage {
    /// A batch that holds `dp`.
    pub fn new(dp: Vec<DofusPacket>) -> (message: ServerMessage)
        ensures
            message.data == dp,
    {
        ServerMessage { data: dp }
    }
}

/// What the capture loop has to report to the session.
#[derive(Clone, Debug, PartialEq, Eq)]
pub enum CaptureEvent {
    /// The capture facility delivered a frame.
    FrameCaptured(CapturedFrame),
    /// The capture facility failed to deliver a frame.
    CaptureFailed,
    /// The consumer did not accept the last batch.
    EmissionFailed,
    /// The host asked the loop to stop.
    Cancelled,
}

/// Why the capture loop ends.
#[derive(Clone, Copy, Debug, PartialEq, Eq, Structural)]
pub enum StopReason {
    /// The capture facility no longer yields frames.
    CaptureFacilityFailure,
    /// The consumer rejected a batch; going on would lose messages unseen.
    EmissionFailure,
    /// The host asked for it.
    Cancelled,
}

/// What the capture loop has to do next.
#[derive(Clone, Debug, PartialEq, Eq)]
pub enum LoopAction {
    /// Hand the batch to the consumer, then pull the next frame.
    Emit(ServerMessage),
    /// The frame was unusable: pull the next one.
    Skip,
    /// Leave the loop and tell the host why.
    Stop(StopReason),
}

/// The state of one capture session.
pub struct Session {
    service_port: u16,
    header_len: usize,
    decoder: PacketDecoder,
}

impl Session {
    /// The settings the session was made with.
    pub closed spec fn config(&self) -> CaptureConfig {
        CaptureConfig {
            service_port: self.service_port,
            header_len: self.header_len,
            max_frame_len: self.decoder.limit(),
        }
    }

    /// The bytes buffered for `direction`.
    pub closed spec fn buffer(&self, direction: Direction) -> Seq<u8> {
        self.decoder.buffer(direction)
    }

    /// The messages completed and not yet handed out.
    pub closed spec fn pending(&self) -> Seq<ProtocolMessage> {
        self.decoder.pending()
    }

    /// Each buffer holds nothing but the front of a frame that has not
    /// fully arrived.
    pub open spec fn wf(&self) -> bool {
        &&& frame_status(
            self.buffer(Direction::ClientOrigin),
            self.config().max_frame_len,
        ).is_waiting()
        &&& frame_status(
            self.buffer(Direction::ServerOrigin),
            self.config().max_frame_len,
        ).is_waiting()
    }

    /// What a usable frame does to a session in which `direction` is the
    /// side that sent it: the payload is fed to that side's buffer, and
    /// every message that is complete goes into `batch`.
    pub open spec fn frame_was_processed(
        before: Session,
        after: Session,
        frame: Seq<u8>,
        direction: Direction,
        batch: Seq<ProtocolMessage>,
    ) -> bool {
        let decoded = decode(
            before.buffer(direction) + payload_of(frame, before.config().header_len),
            before.config().max_frame_len,
        );
        &&& after.config() == before.config()
        &&& batch == before.pending() + tagged(decoded.frames, direction)
        &&& after.pending() == Seq::<ProtocolMessage>::empty()
        &&& after.buffer(direction) == decoded.rest
        &&& forall|other: Direction|
            other != direction ==> after.buffer(other) == before.buffer(other)
    }

    /// A session with empty buffers.
    pub fn new(config: CaptureConfig) -> (session: Session)
        ensures
            session.config() == config,
            session.buffer(Direction::ClientOrigin) == Seq::<u8>::empty(),
            session.buffer(Direction::ServerOrigin) == Seq::<u8>::empty(),
            session.pending() == Seq::<ProtocolMessage>::empty(),
            session.wf(),
    {
        Session {
            service_port: config.service_port,
            header_len: config.header_len,
            decoder: PacketDecoder::with_max_frame_len(config.max_frame_len),
        }
    }

    /// The TCP port the service listens on.
    pub fn service_port(&self) -> (port: u16)
        ensures
            port == self.config().service_port,
    {
        self.service_port
    }

    /// The number of header bytes before the application payload.
    pub fn header_len(&self) -> (len: usize)
        ensures
            len == self.config().header_len,
    {
        self.header_len
    }

    /// The largest payload length that is still believed, if any.
    pub fn max_frame_len(&self) -> (max: Option<usize>)
        ensures
            max == self.config().max_frame_len,
    {
        self.decoder.max_frame_len()
    }

    /// The number of bytes buffered for `direction`.
    pub fn buffered_len(&self, direction: Direction) -> (len: usize)
        ensures
            len == self.buffer(direction).len(),
    {
        self.decoder.buffered_len(direction)
    }

    /// Takes one captured frame through the pipeline, with the direction
    /// told by `strategy`: reads the addressing, strips the headers, feeds
    /// the payload to the decoder and hands out every message that is
    /// complete.
    ///
    /// A frame that is too short is refused and changes nothing.
    pub fn process_frame_with<S: DirectionStrategy>(
        &mut self,
        frame: &CapturedFrame,
        strategy: &S,
    ) -> (res: Result<ServerMessage, FrameError>)
        ensures
            res is Ok <==> frame_is_usable(frame.data@.len(), old(self).config().header_len),
            res matches Err(e) ==> e == FrameError::MalformedFrame && *final(self) == *old(self),
            res matches Ok(batch) ==> Session::frame_was_processed(
                *old(self),
                *final(self),
                frame.data@,
                strategy.direction_of(meta_of(frame.data@)),
                messages_of(batch.data@),
            ),
            old(self).wf() ==> final(self).wf(),
    {
        let meta = match extract_meta(frame, self.header_len) {
            Ok(meta) => meta,
            Err(e) => {
                return Err(e);
            },
        };
        let payload = match strip_header(frame, self.header_len) {
            Ok(payload) => payload,
            Err(e) => {
                return Err(e);
            },
        };
        let direction = strategy.classify(&meta);
        self.decoder.feed(payload, direction);
        let messages = self.decoder.drain_messages();
        Ok(ServerMessage::new(messages))
    }

    /// Takes one captured frame through the pipeline, with the direction
    /// told by the service port: a frame sent from that port is the
    /// server's, any other the client's.
    pub fn process_frame(&mut self, frame: &CapturedFrame) -> (res: Result<
        ServerMessage,
        FrameError,
    >)
        ensures
            res is Ok <==> frame_is_usable(frame.data@.len(), old(self).config().header_len),
            res matches Err(e) ==> e == FrameError::MalformedFrame && *final(self) == *old(self),
            res matches Ok(batch) ==> Session::frame_was_processed(
                *old(self),
                *final(self),
                frame.data@,
                direction_of_port(meta_of(frame.data@).src_port, old(self).config().service_port),
                messages_of(batch.data@),
            ),
            old(self).wf() ==> final(self).wf(),
    {
        let strategy = PortHeuristic::new(self.service_port);
        self.process_frame_with(frame, &strategy)
    }

    /// Decides what the capture loop does after `event`.
    ///
    /// A frame is taken through the pipeline: a usable one gives a batch to
    /// emit, which may be empty, and an unusable one is skipped without a
    /// trace. A failure of the capture facility or of the consumer ends the
    /// loop, as does a request to stop; none of them touches the session.
    pub fn step(&mut self, event: CaptureEvent) -> (action: LoopAction)
        ensures
            old(self).wf() ==> final(self).wf(),
            match event {
                CaptureEvent::FrameCaptured(frame) => {
                    if frame_is_usable(frame.data@.len(), old(self).config().header_len) {
                        action matches LoopAction::Emit(batch) && Session::frame_was_processed(
                            *old(self),
                            *final(self),
                            frame.data@,
                            direction_of_port(
                                meta_of(frame.data@).src_port,
                                old(self).config().service_port,
                            ),
                            messages_of(batch.data@),
                        )
                    } else {
                        action == LoopAction::Skip && *final(self) == *old(self)
                    }
                },
                CaptureEvent::CaptureFailed => action == LoopAction::Stop(
                    StopReason::CaptureFacilityFailure,
                ) && *final(self) == *old(self),
                CaptureEvent::EmissionFailed => action == LoopAction::Stop(
                    StopReason::EmissionFailure,
                ) && *final(self) == *old(self),
                CaptureEvent::Cancelled => action == LoopAction::Stop(StopReason::Cancelled)
                    && *final(self) == *old(self),
            },
    {
        match event {
            CaptureEvent::FrameCaptured(frame) => match self.process_frame(&frame) {
                Ok(batch) => LoopAction::Emit(batch),
                Err(_) => LoopAction::Skip,
            },
            CaptureEvent::CaptureFailed => LoopAction::Stop(StopReason::CaptureFacilityFailure),
            CaptureEvent::EmissionFailed => LoopAction::Stop(StopReason::EmissionFailure),
            CaptureEvent::Cancelled => LoopAction::Stop(StopReason::Cancelled),
        }
    }
}

} // verus!
