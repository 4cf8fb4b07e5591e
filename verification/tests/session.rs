use dofus_stream::direction::{Direction, DirectionStrategy};
use dofus_stream::frame_meta::{CapturedFrame, FrameError, SessionMeta};
use dofus_stream::packet_decoder::DofusPacket;
use dofus_stream::session::{
    CaptureConfig, CaptureEvent, LoopAction, ServerMessage, Session, StopReason,
};

fn captured(src_port: u16, dst_port: u16, payload: &[u8]) -> CapturedFrame {
    let mut data = vec![0u8; 54];
    data[26..30].copy_from_slice(&[10, 0, 0, 1]);
    data[30..34].copy_from_slice(&[10, 0, 0, 2]);
    data[34..36].copy_from_slice(&src_port.to_be_bytes());
    data[36..38].copy_from_slice(&dst_port.to_be_bytes());
    data.extend_from_slice(payload);
    CapturedFrame::new(0, 0, data)
}

fn packet(direction: Direction, opcode: u16, payload: &[u8]) -> DofusPacket {
    DofusPacket { direction, opcode, payload: payload.to_vec() }
}

#[test]
fn default_config_has_the_usual_port_and_headers() {
    let config = CaptureConfig::default();
    assert_eq!(config.service_port, 5555);
    assert_eq!(config.header_len, 54);
    assert_eq!(config.max_frame_len, None);
}

#[test]
fn session_keeps_its_settings() {
    let config = CaptureConfig { service_port: 443, header_len: 66, max_frame_len: Some(1024) };
    let session = Session::new(config);
    assert_eq!(session.service_port(), 443);
    assert_eq!(session.header_len(), 66);
    assert_eq!(session.max_frame_len(), Some(1024));
    assert_eq!(session.buffered_len(Direction::ClientOrigin), 0);
    assert_eq!(session.buffered_len(Direction::ServerOrigin), 0);
}

#[test]
fn server_message_holds_the_batch() {
    let batch = vec![packet(Direction::ClientOrigin, 1, &[2])];
    let message = ServerMessage::new(batch.clone());
    assert_eq!(message.data, batch);
    assert_eq!(ServerMessage::new(Vec::new()).data, vec![]);
}

#[test]
fn frame_from_the_client_is_decoded_as_client_origin() {
    let mut session = Session::new(CaptureConfig::default());
    let frame = captured(40000, 5555, &[0x00, 0x29, 0x03, 1, 2, 3]);
    let batch = session.process_frame(&frame).unwrap();
    assert_eq!(batch.data, vec![packet(Direction::ClientOrigin, 10, &[1, 2, 3])]);
    assert_eq!(session.buffered_len(Direction::ClientOrigin), 0);
}

#[test]
fn frame_from_the_service_port_is_decoded_as_server_origin() {
    let mut session = Session::new(CaptureConfig::default());
    let frame = captured(5555, 40000, &[0x00, 0x29, 0x03, 1, 2, 3]);
    let batch = session.process_frame(&frame).unwrap();
    assert_eq!(batch.data, vec![packet(Direction::ServerOrigin, 10, &[1, 2, 3])]);
}

#[test]
fn message_split_over_two_captured_frames_is_kept() {
    let mut session = Session::new(CaptureConfig::default());
    let first = session.process_frame(&captured(5555, 40000, &[0x00, 0x29, 0x03])).unwrap();
    assert_eq!(first.data, vec![]);
    assert_eq!(session.buffered_len(Direction::ServerOrigin), 3);
    let second = session.process_frame(&captured(5555, 40000, &[1, 2, 3])).unwrap();
    assert_eq!(second.data, vec![packet(Direction::ServerOrigin, 10, &[1, 2, 3])]);
    assert_eq!(session.buffered_len(Direction::ServerOrigin), 0);
}

#[test]
fn interleaved_directions_do_not_mix() {
    let mut session = Session::new(CaptureConfig::default());
    session.process_frame(&captured(5555, 40000, &[0x00, 0x29, 0x03, 1])).unwrap();
    let batch = session.process_frame(&captured(40000, 5555, &[0x00, 0x09, 0x01, 9])).unwrap();
    assert_eq!(batch.data, vec![packet(Direction::ClientOrigin, 2, &[9])]);
    let batch = session.process_frame(&captured(5555, 40000, &[2, 3])).unwrap();
    assert_eq!(batch.data, vec![packet(Direction::ServerOrigin, 10, &[1, 2, 3])]);
}

#[test]
fn malformed_frame_is_refused_and_changes_nothing() {
    let mut session = Session::new(CaptureConfig::default());
    session.process_frame(&captured(5555, 40000, &[0x00, 0x29, 0x03, 1])).unwrap();
    let short = CapturedFrame::new(0, 0, vec![0u8; 53]);
    assert_eq!(session.process_frame(&short), Err(FrameError::MalformedFrame));
    assert_eq!(session.buffered_len(Direction::ServerOrigin), 4);
    assert_eq!(session.buffered_len(Direction::ClientOrigin), 0);
    let batch = session.process_frame(&captured(5555, 40000, &[2, 3])).unwrap();
    assert_eq!(batch.data, vec![packet(Direction::ServerOrigin, 10, &[1, 2, 3])]);
}

#[test]
fn frame_with_no_payload_gives_an_empty_batch() {
    let mut session = Session::new(CaptureConfig::default());
    let batch = session.process_frame(&captured(5555, 40000, &[])).unwrap();
    assert_eq!(batch, ServerMessage::new(Vec::new()));
}

#[test]
fn session_limit_triggers_discard_and_recovery() {
    let config = CaptureConfig { service_port: 5555, header_len: 54, max_frame_len: Some(2) };
    let mut session = Session::new(config);
    let batch = session.process_frame(&captured(40000, 5555, &[0x00, 0x29, 0x03, 1])).unwrap();
    assert_eq!(batch.data, vec![]);
    assert_eq!(session.buffered_len(Direction::ClientOrigin), 0);
    let batch = session.process_frame(&captured(40000, 5555, &[0x00, 0x29, 0x02, 7, 8])).unwrap();
    assert_eq!(batch.data, vec![packet(Direction::ClientOrigin, 10, &[7, 8])]);
}

struct AlwaysServer;

impl DirectionStrategy for AlwaysServer {
    fn direction_of(&self, _meta: SessionMeta) -> Direction {
        Direction::ServerOrigin
    }

    fn classify(&self, _meta: &SessionMeta) -> Direction {
        Direction::ServerOrigin
    }
}

#[test]
fn another_strategy_can_tell_the_direction() {
    let mut session = Session::new(CaptureConfig::default());
    let frame = captured(40000, 5555, &[0x00, 0x29, 0x03, 1, 2, 3]);
    let batch = session.process_frame_with(&frame, &AlwaysServer).unwrap();
    assert_eq!(batch.data, vec![packet(Direction::ServerOrigin, 10, &[1, 2, 3])]);
}

#[test]
fn step_emits_the_batch_of_a_usable_frame() {
    let mut session = Session::new(CaptureConfig::default());
    let frame = captured(5555, 40000, &[0x00, 0x29, 0x03, 1, 2, 3]);
    let action = session.step(CaptureEvent::FrameCaptured(frame));
    assert_eq!(
        action,
        LoopAction::Emit(ServerMessage::new(vec![packet(Direction::ServerOrigin, 10, &[1, 2, 3])]))
    );
}

#[test]
fn step_emits_an_empty_batch_while_a_message_is_incomplete() {
    let mut session = Session::new(CaptureConfig::default());
    let frame = captured(5555, 40000, &[0x00, 0x29]);
    let action = session.step(CaptureEvent::FrameCaptured(frame));
    assert_eq!(action, LoopAction::Emit(ServerMessage::new(Vec::new())));
    assert_eq!(session.buffered_len(Direction::ServerOrigin), 2);
}

#[test]
fn step_skips_a_malformed_frame() {
    let mut session = Session::new(CaptureConfig::default());
    let action = session.step(CaptureEvent::FrameCaptured(CapturedFrame::new(0, 0, vec![1; 10])));
    assert_eq!(action, LoopAction::Skip);
    assert_eq!(session.buffered_len(Direction::ClientOrigin), 0);
    assert_eq!(session.buffered_len(Direction::ServerOrigin), 0);
}

#[test]
fn step_stops_on_failures_and_on_request() {
    let mut session = Session::new(CaptureConfig::default());
    session.step(CaptureEvent::FrameCaptured(captured(5555, 40000, &[0x00, 0x29])));
    assert_eq!(
        session.step(CaptureEvent::CaptureFailed),
        LoopAction::Stop(StopReason::CaptureFacilityFailure)
    );
    assert_eq!(
        session.step(CaptureEvent::EmissionFailed),
        LoopAction::Stop(StopReason::EmissionFailure)
    );
    assert_eq!(session.step(CaptureEvent::Cancelled), LoopAction::Stop(StopReason::Cancelled));
    assert_eq!(session.buffered_len(Direction::ServerOrigin), 2);
}
