use dofus_stream::direction::{classify_direction, Direction, DirectionStrategy, PortHeuristic};
use dofus_stream::frame_meta::{
    extract_meta, strip_header, CapturedFrame, FrameError, SessionMeta, ADDRESSING_END,
    DEFAULT_HEADER_LEN,
};

fn headers(src: [u8; 4], src_port: u16, dst: [u8; 4], dst_port: u16) -> Vec<u8> {
    let mut data = vec![0u8; 54];
    data[12] = 0x08;
    data[14] = 0x45;
    data[23] = 6;
    data[26..30].copy_from_slice(&src);
    data[30..34].copy_from_slice(&dst);
    data[34..36].copy_from_slice(&src_port.to_be_bytes());
    data[36..38].copy_from_slice(&dst_port.to_be_bytes());
    data
}

fn meta_with_source_port(src_port: u16) -> SessionMeta {
    SessionMeta { src_addr: 1, src_port, dst_addr: 2, dst_port: 9 }
}

#[test]
fn addressing_is_read_at_its_fixed_places() {
    let data = headers([192, 168, 1, 20], 5555, [10, 0, 0, 7], 49152);
    let frame = CapturedFrame::new(1_700_000_000, 250_000, data);
    let meta = extract_meta(&frame, DEFAULT_HEADER_LEN).unwrap();
    assert_eq!(
        meta,
        SessionMeta {
            src_addr: 0xc0a8_0114,
            src_port: 5555,
            dst_addr: 0x0a00_0007,
            dst_port: 49152,
        }
    );
}

#[test]
fn extreme_addressing_values_are_read_whole() {
    let data = headers([255, 255, 255, 255], 65535, [0, 0, 0, 0], 0);
    let frame = CapturedFrame::new(0, 0, data);
    let meta = extract_meta(&frame, 54).unwrap();
    assert_eq!(meta.src_addr, u32::MAX);
    assert_eq!(meta.src_port, u16::MAX);
    assert_eq!(meta.dst_addr, 0);
    assert_eq!(meta.dst_port, 0);
}

#[test]
fn port_bytes_are_most_significant_first() {
    let mut data = vec![0u8; 54];
    data[34] = 0x15;
    data[35] = 0xb3;
    data[36] = 0x00;
    data[37] = 0x50;
    let meta = extract_meta(&CapturedFrame::new(0, 0, data), 54).unwrap();
    assert_eq!(meta.src_port, 5555);
    assert_eq!(meta.dst_port, 80);
}

#[test]
fn frame_shorter_than_the_headers_is_malformed() {
    let data = vec![0u8; 53];
    let frame = CapturedFrame::new(0, 0, data);
    assert_eq!(extract_meta(&frame, 54), Err(FrameError::MalformedFrame));
    assert_eq!(strip_header(&frame, 54), Err(FrameError::MalformedFrame));
}

#[test]
fn empty_frame_is_malformed() {
    let frame = CapturedFrame::new(0, 0, Vec::new());
    assert_eq!(extract_meta(&frame, 54), Err(FrameError::MalformedFrame));
    assert_eq!(extract_meta(&frame, 0), Err(FrameError::MalformedFrame));
    assert_eq!(strip_header(&frame, 0), Err(FrameError::MalformedFrame));
}

#[test]
fn frame_of_exactly_the_headers_has_an_empty_payload() {
    let data = headers([1, 2, 3, 4], 1000, [5, 6, 7, 8], 2000);
    let frame = CapturedFrame::new(0, 0, data);
    assert!(extract_meta(&frame, 54).is_ok());
    assert_eq!(strip_header(&frame, 54), Ok(&[][..]));
}

#[test]
fn payload_is_what_follows_the_headers() {
    let mut data = headers([1, 2, 3, 4], 1000, [5, 6, 7, 8], 2000);
    data.extend([0xaa, 0xbb, 0xcc]);
    let frame = CapturedFrame::new(0, 0, data);
    assert_eq!(strip_header(&frame, 54), Ok(&[0xaa, 0xbb, 0xcc][..]));
}

#[test]
fn longer_headers_can_be_configured() {
    let mut data = headers([1, 2, 3, 4], 1000, [5, 6, 7, 8], 2000);
    data.extend([0u8; 12]);
    data.extend([0x77, 0x88]);
    let frame = CapturedFrame::new(0, 0, data);
    assert_eq!(strip_header(&frame, 66), Ok(&[0x77, 0x88][..]));
    assert_eq!(extract_meta(&frame, 66).unwrap().src_port, 1000);
    assert_eq!(extract_meta(&frame, 69), Err(FrameError::MalformedFrame));
    assert_eq!(strip_header(&frame, 69), Err(FrameError::MalformedFrame));
}

#[test]
fn addressing_fields_must_be_present_whatever_the_header_length() {
    assert_eq!(ADDRESSING_END, 38);
    let short = CapturedFrame::new(0, 0, vec![0u8; 37]);
    assert_eq!(extract_meta(&short, 20), Err(FrameError::MalformedFrame));
    assert_eq!(strip_header(&short, 20), Err(FrameError::MalformedFrame));
    let enough = CapturedFrame::new(0, 0, vec![0u8; 38]);
    assert!(extract_meta(&enough, 20).is_ok());
    assert_eq!(strip_header(&enough, 20).unwrap().len(), 18);
}

#[test]
fn captured_frame_keeps_its_timestamp_and_bytes() {
    let frame = CapturedFrame::new(12, 34, vec![1, 2, 3]);
    assert_eq!(frame.ts_sec, 12);
    assert_eq!(frame.ts_usec, 34);
    assert_eq!(frame.data, vec![1, 2, 3]);
}

#[test]
fn source_port_equal_to_service_port_is_the_server() {
    assert_eq!(
        classify_direction(&meta_with_source_port(5555), 5555),
        Direction::ServerOrigin
    );
}

#[test]
fn any_other_source_port_is_the_client() {
    assert_eq!(
        classify_direction(&meta_with_source_port(5554), 5555),
        Direction::ClientOrigin
    );
    assert_eq!(
        classify_direction(&meta_with_source_port(49152), 5555),
        Direction::ClientOrigin
    );
}

#[test]
fn classification_holds_for_every_port() {
    for service_port in [0u16, 1, 80, 5555, 65535] {
        for src_port in 0..=65535u16 {
            let expected = if src_port == service_port {
                Direction::ServerOrigin
            } else {
                Direction::ClientOrigin
            };
            assert_eq!(
                classify_direction(&meta_with_source_port(src_port), service_port),
                expected
            );
        }
    }
}

#[test]
fn destination_port_does_not_decide() {
    let meta = SessionMeta { src_addr: 1, src_port: 40000, dst_addr: 2, dst_port: 5555 };
    assert_eq!(classify_direction(&meta, 5555), Direction::ClientOrigin);
    let both = SessionMeta { src_addr: 1, src_port: 5555, dst_addr: 2, dst_port: 5555 };
    assert_eq!(classify_direction(&both, 5555), Direction::ServerOrigin);
}

#[test]
fn port_heuristic_is_a_strategy() {
    let rule = PortHeuristic::new(443);
    assert_eq!(rule.service_port, 443);
    assert_eq!(rule.classify(&meta_with_source_port(443)), Direction::ServerOrigin);
    assert_eq!(rule.classify(&meta_with_source_port(444)), Direction::ClientOrigin);
}
