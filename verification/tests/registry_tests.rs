use can_core::errors::CanError;
use can_core::filter::{DeviceFilter, FilterRule};
use can_core::registry::Registry;
use can_core::socket::SocketKind;

#[test]
fn handles_increase_and_are_never_reused() {
    let mut reg = Registry::new();
    let h1 = reg.create(SocketKind::Classic);
    let h2 = reg.create(SocketKind::Fd);
    let h3 = reg.create(SocketKind::Classic);
    assert_eq!((h1, h2, h3), (1, 2, 3));
    reg.remove(h2).unwrap();
    // A removed handle's value is never assigned again.
    let h4 = reg.create(SocketKind::Fd);
    assert_eq!(h4, 4);
}

#[test]
fn lookup_finds_live_sockets() {
    let mut reg = Registry::new();
    let h = reg.create(SocketKind::Fd);
    let s = reg.lookup(h).unwrap();
    assert_eq!(s.kind(), SocketKind::Fd);
    assert!(s.is_open());
    assert_eq!(reg.lookup(99).unwrap_err(), CanError::HandleNotFound);
}

#[test]
fn removed_handles_fail_with_handle_not_found() {
    let mut reg = Registry::new();
    let h = reg.create(SocketKind::Classic);
    reg.remove(h).unwrap();
    assert_eq!(reg.lookup(h).unwrap_err(), CanError::HandleNotFound);
    assert_eq!(reg.remove(h).unwrap_err(), CanError::HandleNotFound);
    assert_eq!(
        reg.prepare_send(h, 0x123, vec![1], false, false, false)
            .unwrap_err(),
        CanError::HandleNotFound
    );
    assert_eq!(
        reg.set_filters(h, &vec![]).unwrap_err(),
        CanError::HandleNotFound
    );
    assert_eq!(reg.clear_filters(h).unwrap_err(), CanError::HandleNotFound);
    assert_eq!(
        reg.prepare_receive(h, Some(10)).unwrap_err(),
        CanError::HandleNotFound
    );
}

#[test]
fn send_through_registry_applies_socket_rules() {
    let mut reg = Registry::new();
    let classic = reg.create(SocketKind::Classic);
    let fd = reg.create(SocketKind::Fd);
    assert!(reg
        .prepare_send(classic, 0x123, vec![1, 2], false, false, false)
        .is_ok());
    assert_eq!(
        reg.prepare_send(classic, 0x800, vec![], false, false, false)
            .unwrap_err(),
        CanError::InvalidId
    );
    assert_eq!(
        reg.prepare_send(classic, 0x123, vec![0; 9], false, false, false)
            .unwrap_err(),
        CanError::PayloadTooLong
    );
    assert_eq!(
        reg.prepare_send(classic, 0x123, vec![], false, true, false)
            .unwrap_err(),
        CanError::UnsupportedOperation
    );
    assert!(reg
        .prepare_send(fd, 0x123, vec![0; 64], false, true, false)
        .is_ok());
    assert_eq!(
        reg.prepare_send(fd, 0x123, vec![], false, false, true)
            .unwrap_err(),
        CanError::UnsupportedOperation
    );
}

#[test]
fn filters_update_through_registry() {
    let mut reg = Registry::new();
    let h = reg.create(SocketKind::Classic);
    let rules = vec![FilterRule { id: 0x150, mask: 0x7FF, extended: false }];
    let device = reg.set_filters(h, &rules).unwrap();
    assert_eq!(device, vec![DeviceFilter { id: 0x150, mask: 0x7FF }]);
    assert_eq!(reg.lookup(h).unwrap().filters(), &device);

    let cleared = reg.clear_filters(h).unwrap();
    assert_eq!(cleared, vec![DeviceFilter { id: 0, mask: 0 }]);
    assert_eq!(reg.lookup(h).unwrap().filters(), &cleared);
}

#[test]
fn receive_deadline_through_registry() {
    let mut reg = Registry::new();
    let h = reg.create(SocketKind::Classic);
    assert_eq!(reg.prepare_receive(h, Some(300)).unwrap(), 300);
    assert_eq!(reg.prepare_receive(h, None).unwrap(), 3_600_000);
}
