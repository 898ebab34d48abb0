use can_core::errors::CanError;
use can_core::frame::{Frame, FrameKind};

#[test]
fn standard_id_boundaries() {
    // Every standard identifier up to 0x7FF is accepted.
    assert!(Frame::make_data(0x000, false, false, vec![]).is_ok());
    assert!(Frame::make_data(0x123, false, false, vec![1, 2]).is_ok());
    assert!(Frame::make_data(0x7FF, false, false, vec![]).is_ok());
    // Values from 0x800 upward submitted as standard fail with InvalidId.
    assert_eq!(
        Frame::make_data(0x800, false, false, vec![]).unwrap_err(),
        CanError::InvalidId
    );
    assert_eq!(
        Frame::make_data(0x1FFFFFFF, false, false, vec![]).unwrap_err(),
        CanError::InvalidId
    );
}

#[test]
fn extended_id_boundaries() {
    assert!(Frame::make_data(0x800, true, false, vec![]).is_ok());
    assert!(Frame::make_data(0x1FFFFFFF, true, false, vec![]).is_ok());
    assert_eq!(
        Frame::make_data(0x2000_0000, true, false, vec![]).unwrap_err(),
        CanError::InvalidId
    );
}

#[test]
fn data_frame_payload_limits() {
    assert!(Frame::make_data(0x100, false, false, vec![0; 8]).is_ok());
    assert_eq!(
        Frame::make_data(0x100, false, false, vec![0; 9]).unwrap_err(),
        CanError::PayloadTooLong
    );
    assert!(Frame::make_data(0x100, false, true, vec![0; 64]).is_ok());
    assert_eq!(
        Frame::make_data(0x100, false, true, vec![0; 65]).unwrap_err(),
        CanError::PayloadTooLong
    );
}

#[test]
fn data_frame_fields() {
    let f = Frame::make_data(0x123, false, false, vec![0xAA, 0xBB]).unwrap();
    assert_eq!(f.id, 0x123);
    assert!(!f.extended);
    assert!(!f.fd);
    assert_eq!(f.kind, FrameKind::Data);
    assert_eq!(f.payload, vec![0xAA, 0xBB]);
    assert_eq!(f.dlc, 2);
}

#[test]
fn remote_frame_carries_no_bytes() {
    // The requested length only informs the length code; the payload is
    // empty regardless.
    let f = Frame::make_remote(0x456, false, 4).unwrap();
    assert_eq!(f.id, 0x456);
    assert_eq!(f.kind, FrameKind::Remote);
    assert!(f.payload.is_empty());
    assert_eq!(f.dlc, 4);
    assert_eq!(
        Frame::make_remote(0x800, false, 4).unwrap_err(),
        CanError::InvalidId
    );
}

#[test]
fn classify_data_frame() {
    let f = Frame::classify_received(0x123, false, vec![1, 2, 3, 4], false, false, false);
    assert_eq!(f.id, 0x123);
    assert_eq!(f.kind, FrameKind::Data);
    assert_eq!(f.payload, vec![1, 2, 3, 4]);
    assert!(!f.fd);
}

#[test]
fn classify_remote_frame_drops_payload() {
    let f = Frame::classify_received(0x123, false, vec![1, 2], false, true, false);
    assert_eq!(f.kind, FrameKind::Remote);
    assert!(f.payload.is_empty());
}

#[test]
fn classify_error_frame_keeps_diagnostic_bytes() {
    let f = Frame::classify_received(0x123, false, vec![0xDE, 0xAD], false, false, true);
    assert_eq!(f.kind, FrameKind::Error);
    assert_eq!(f.payload, vec![0xDE, 0xAD]);
    // An error-flagged frame keeps its bytes even when the remote flag is
    // also set.
    let g = Frame::classify_received(0x123, false, vec![0xBE], false, true, true);
    assert_eq!(g.kind, FrameKind::Error);
    assert_eq!(g.payload, vec![0xBE]);
}

#[test]
fn classify_fd_frame_is_always_data() {
    let f = Frame::classify_received(0x123, false, vec![0; 64], true, false, false);
    assert_eq!(f.kind, FrameKind::Data);
    assert!(f.fd);
    assert_eq!(f.payload.len(), 64);
}
