use can_core::errors::CanError;
use can_core::filter::{DeviceFilter, FilterRule};
use can_core::socket::{interpret_receive, SocketKind, SocketState, WireFrame};
use can_core::codec::FrameRecord;

#[test]
fn classic_socket_accepts_up_to_eight_bytes() {
    let s = SocketState::new(SocketKind::Classic);
    for len in 0..=8usize {
        assert!(
            s.prepare_send(0x123, vec![0; len], false, false, false).is_ok(),
            "classic socket should accept {} bytes",
            len
        );
    }
    assert_eq!(
        s.prepare_send(0x123, vec![0; 9], false, false, false).unwrap_err(),
        CanError::PayloadTooLong
    );
}

#[test]
fn fd_socket_payload_limits() {
    let s = SocketState::new(SocketKind::Fd);
    // With the fd flag: up to 64 bytes.
    assert!(s.prepare_send(0x123, vec![0; 64], false, true, false).is_ok());
    assert_eq!(
        s.prepare_send(0x123, vec![0; 65], false, true, false).unwrap_err(),
        CanError::PayloadTooLong
    );
    // Without the fd flag: classic-format validation on the FD transport.
    assert!(s.prepare_send(0x123, vec![0; 8], false, false, false).is_ok());
    assert_eq!(
        s.prepare_send(0x123, vec![0; 9], false, false, false).unwrap_err(),
        CanError::PayloadTooLong
    );
}

#[test]
fn fd_flag_rejected_on_classic_socket() {
    let s = SocketState::new(SocketKind::Classic);
    assert_eq!(
        s.prepare_send(0x123, vec![1], false, true, false).unwrap_err(),
        CanError::UnsupportedOperation
    );
}

#[test]
fn remote_rejected_on_fd_socket() {
    let s = SocketState::new(SocketKind::Fd);
    assert_eq!(
        s.prepare_send(0x123, vec![], false, false, true).unwrap_err(),
        CanError::UnsupportedOperation
    );
}

#[test]
fn remote_send_shapes_length_code() {
    let s = SocketState::new(SocketKind::Classic);
    match s.prepare_send(0x456, vec![0; 4], false, false, true).unwrap() {
        WireFrame::ClassicRemote { id, extended, dlc } => {
            assert_eq!(id, 0x456);
            assert!(!extended);
            assert_eq!(dlc, 4);
        }
        other => panic!("expected a classic remote wire frame, got {:?}", other),
    }
}

#[test]
fn fd_send_shapes_fd_wire_frame() {
    let s = SocketState::new(SocketKind::Fd);
    match s.prepare_send(0x10, vec![9; 16], false, true, false).unwrap() {
        WireFrame::Fd { id, data, .. } => {
            assert_eq!(id, 0x10);
            assert_eq!(data, vec![9; 16]);
        }
        other => panic!("expected an FD wire frame, got {:?}", other),
    }
}

#[test]
fn test_error_conditions() {
    let sender = SocketState::new(SocketKind::Classic);

    // Data too long for a classic frame.
    let test_id = 0x123;
    let long_data = vec![0xFF; 16];
    let send_result = sender.prepare_send(test_id, long_data, false, false, false);
    assert!(
        send_result.is_err(),
        "Should fail with data too long for regular CAN"
    );

    // Invalid standard identifier.
    let invalid_id = 0x800;
    let test_data = vec![0x01, 0x02];
    let send_result = sender.prepare_send(invalid_id, test_data, false, false, false);
    assert!(
        send_result.is_err(),
        "Should fail with invalid standard CAN ID"
    );
}

#[test]
fn timeout_maps_to_deadline() {
    let mut s = SocketState::new(SocketKind::Classic);
    assert_eq!(s.prepare_receive(Some(300)), 300);
    // No timeout becomes the large-but-finite default, about an hour.
    assert_eq!(s.prepare_receive(None), 3_600_000);
}

#[test]
fn set_and_clear_filters_state() {
    let mut s = SocketState::new(SocketKind::Classic);
    // A fresh socket starts in the accept-all state.
    assert_eq!(s.filters(), &vec![DeviceFilter { id: 0, mask: 0 }]);

    let rules = vec![FilterRule { id: 0x150, mask: 0x7FF, extended: false }];
    let device = s.set_filters(&rules);
    assert_eq!(device, vec![DeviceFilter { id: 0x150, mask: 0x7FF }]);
    assert_eq!(s.filters(), &device);

    // Clearing normalizes to the explicit accept-all filter.
    let cleared = s.clear_filters();
    assert_eq!(cleared, vec![DeviceFilter { id: 0, mask: 0 }]);
    let snapshot = s.filters().clone();

    // Clearing twice in a row leaves the accept-all state unchanged.
    let cleared_again = s.clear_filters();
    assert_eq!(cleared_again, cleared);
    assert_eq!(s.filters(), &snapshot);
}

#[test]
fn close_is_idempotent() {
    let mut s = SocketState::new(SocketKind::Fd);
    assert!(s.is_open());
    s.close();
    assert!(!s.is_open());
    s.close();
    assert!(!s.is_open());
    assert_eq!(s.kind(), SocketKind::Fd);
}

#[test]
fn interpret_receive_classifies_frames() {
    let raw = FrameRecord {
        id: 0x123,
        data: vec![1, 2, 3],
        extended: false,
        fd: false,
        remote: false,
        error: false,
    };
    let f = interpret_receive(Ok(raw)).unwrap();
    assert_eq!(f.id, 0x123);
    assert_eq!(f.payload, vec![1, 2, 3]);

    let raw_remote = FrameRecord {
        id: 0x200,
        data: vec![7, 7],
        extended: false,
        fd: false,
        remote: true,
        error: false,
    };
    let r = interpret_receive(Ok(raw_remote)).unwrap();
    assert!(r.payload.is_empty());
}

#[test]
fn interpret_receive_maps_timeouts() {
    let e = interpret_receive(Err(b"operation timed out".to_vec())).unwrap_err();
    assert_eq!(e, CanError::Timeout);
    let e = interpret_receive(Err(b"resource temporarily unavailable".to_vec())).unwrap_err();
    assert_eq!(e, CanError::Timeout);
    let e = interpret_receive(Err(b"no such device".to_vec())).unwrap_err();
    assert_eq!(e, CanError::TransportError(b"no such device".to_vec()));
}
