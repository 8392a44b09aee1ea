use rmk::{ConnectedDevice, DeviceAddress, DeviceManager, DeviceState, MultiDeviceFrame, MAX_DEVICES};

#[test]
fn test_device_address_valid() {
    assert!(DeviceAddress::new(0x1234, 0).is_valid());
    assert!(!DeviceAddress::new(0x0000, 0).is_valid());
    assert!(!DeviceAddress::new(0xFFFF, 0).is_valid());
}

#[test]
fn test_broadcast_address() {
    let broadcast = DeviceAddress::broadcast();
    assert_eq!(broadcast.device_id, 0xFFFF);
    assert_eq!(broadcast.pipe, 0xFF);
}

#[test]
fn test_multi_device_frame_serialize() {
    let addr = DeviceAddress::new(0x1234, 0);
    let mut payload = heapless::Vec::new();
    payload.push(0xAA).unwrap();
    payload.push(0xBB).unwrap();

    let frame = MultiDeviceFrame::new(addr, payload);
    let serialized = frame.serialize().unwrap();

    assert_eq!(serialized[0], 0x12); // Device ID high
    assert_eq!(serialized[1], 0x34); // Device ID low
    assert_eq!(serialized[2], 2); // Length
    assert_eq!(serialized[3], 0xAA); // Payload
    assert_eq!(serialized[4], 0xBB);
}

#[test]
fn test_multi_device_frame_deserialize() {
    let data = [0x12, 0x34, 0x02, 0xAA, 0xBB];
    let frame = MultiDeviceFrame::deserialize(&data).unwrap();

    assert_eq!(frame.device_addr.device_id, 0x1234);
    assert_eq!(frame.payload.len(), 2);
    assert_eq!(frame.payload[0], 0xAA);
    assert_eq!(frame.payload[1], 0xBB);
}

#[test]
fn test_device_manager_register() {
    let mut manager = DeviceManager::new();
    let addr = DeviceAddress::new(0x1234, 0);

    assert!(manager.register_device(addr).is_ok());
    assert_eq!(manager.connected_count(), 0); // Still connecting
    assert!(manager.get_device(0x1234).is_some());
}

#[test]
fn test_device_manager_update() {
    let mut manager = DeviceManager::new();
    let addr = DeviceAddress::new(0x1234, 0);

    manager.register_device(addr).unwrap();
    manager.update_device(0x1234, 1000, Some(-50));

    let device = manager.get_device(0x1234).unwrap();
    assert_eq!(device.state, DeviceState::Connected);
    assert_eq!(device.last_seen_ms, 1000);
    assert_eq!(device.rssi, Some(-50));
}

#[test]
fn test_device_manager_timeout() {
    let mut manager = DeviceManager::new();
    manager.set_timeout(1000);

    let addr = DeviceAddress::new(0x1234, 0);
    manager.register_device(addr).unwrap();
    manager.update_device(0x1234, 1000, None);

    // Not timed out yet
    manager.check_timeouts(1500);
    assert_eq!(manager.get_device(0x1234).unwrap().state, DeviceState::Connected);

    // Timed out
    manager.check_timeouts(2500);
    assert_eq!(manager.get_device(0x1234).unwrap().state, DeviceState::Lost);
}

#[test]
fn test_device_manager_max_devices() {
    let mut manager = DeviceManager::new();

    // Register MAX_DEVICES devices
    for i in 0..MAX_DEVICES {
        let addr = DeviceAddress::new(0x1000 + i as u16, i as u8);
        assert!(manager.register_device(addr).is_ok());
    }

    // Next registration should fail
    let addr = DeviceAddress::new(0x2000, 0);
    assert!(manager.register_device(addr).is_err());
}

#[test]
fn frame_scenario_round_trip() {
    let data = [0x12, 0x34, 0x02, 0xAA, 0xBB];
    let frame = MultiDeviceFrame::deserialize(&data).unwrap();
    assert_eq!(frame.device_addr.pipe, 0);
    assert_eq!(&frame.payload[..], &[0xAA, 0xBB]);
    let bytes = frame.serialize().unwrap();
    assert_eq!(&bytes[..], &data[..]);
}

#[test]
fn frame_round_trip_empty_and_full() {
    let empty = MultiDeviceFrame::new(DeviceAddress::new(0xBEEF, 3), heapless::Vec::new());
    let bytes = empty.serialize().unwrap();
    assert_eq!(&bytes[..], &[0xBE, 0xEF, 0x00]);
    let back = MultiDeviceFrame::deserialize(&bytes).unwrap();
    assert_eq!(back.device_addr, DeviceAddress::new(0xBEEF, 0));
    assert_eq!(back.payload.len(), 0);

    let mut payload: heapless::Vec<u8, 64> = heapless::Vec::new();
    for i in 0..64u8 {
        payload.push(i.wrapping_mul(7)).unwrap();
    }
    let full = MultiDeviceFrame::new(DeviceAddress::new(0x0102, 1), payload.clone());
    let bytes = full.serialize().unwrap();
    assert_eq!(bytes.len(), 67);
    assert_eq!(bytes[2], 64);
    let back = MultiDeviceFrame::deserialize(&bytes).unwrap();
    assert_eq!(back.device_addr.device_id, 0x0102);
    assert_eq!(&back.payload[..], &payload[..]);
}

#[test]
fn frame_deserialize_rejects() {
    assert!(MultiDeviceFrame::deserialize(&[]).is_err());
    assert!(MultiDeviceFrame::deserialize(&[0x12, 0x34]).is_err());
    // declared length beyond the bytes given
    assert!(MultiDeviceFrame::deserialize(&[0x12, 0x34, 0x03, 0xAA, 0xBB]).is_err());
    // declared length beyond the payload capacity
    let mut long = vec![0x00, 0x01, 65];
    long.extend(std::iter::repeat(0x55).take(65));
    assert!(MultiDeviceFrame::deserialize(&long).is_err());
    // trailing bytes beyond the declared length are ignored
    let frame = MultiDeviceFrame::deserialize(&[0x00, 0x07, 0x01, 0x99, 0x42]).unwrap();
    assert_eq!(frame.device_addr.device_id, 7);
    assert_eq!(&frame.payload[..], &[0x99]);
}

#[test]
fn connected_device_transitions() {
    let mut dev = ConnectedDevice::new(DeviceAddress::new(0x0042, 2));
    assert_eq!(dev.state, DeviceState::Connecting);
    assert_eq!(dev.last_seen_ms, 0);
    assert_eq!(dev.rssi, None);
    assert!(dev.is_active());
    dev.update_last_seen(10);
    assert_eq!(dev.state, DeviceState::Connected);
    assert_eq!(dev.last_seen_ms, 10);
    dev.state = DeviceState::Lost;
    assert!(!dev.is_active());
    dev.update_last_seen(20);
    assert_eq!(dev.state, DeviceState::Connected);
    dev.state = DeviceState::Disconnected;
    dev.update_last_seen(30);
    assert_eq!(dev.state, DeviceState::Disconnected);
}

#[test]
fn timed_out_saturates() {
    let mut dev = ConnectedDevice::new(DeviceAddress::new(0x0042, 2));
    dev.update_last_seen(1000);
    assert!(!dev.is_timed_out(500, 100));
    assert!(!dev.is_timed_out(1100, 100));
    assert!(dev.is_timed_out(1101, 100));
}

#[test]
fn register_twice_is_idempotent() {
    let mut manager = DeviceManager::new();
    manager.register_device(DeviceAddress::new(0x1234, 0)).unwrap();
    manager.update_device(0x1234, 5, None);
    assert!(manager.register_device(DeviceAddress::new(0x1234, 4)).is_ok());
    assert_eq!(manager.connected_count(), 1);
    assert_eq!(manager.active_devices().len(), 1);
    assert_eq!(manager.get_device(0x1234).unwrap().address.pipe, 0);
}

#[test]
fn timeout_boundary() {
    let mut manager = DeviceManager::new();
    manager.set_timeout(1000);
    manager.register_device(DeviceAddress::new(0x0101, 1)).unwrap();
    manager.update_device(0x0101, 5000, Some(-40));
    manager.check_timeouts(5999);
    assert_eq!(manager.get_device(0x0101).unwrap().state, DeviceState::Connected);
    manager.check_timeouts(6000);
    assert_eq!(manager.get_device(0x0101).unwrap().state, DeviceState::Connected);
    manager.check_timeouts(6001);
    assert_eq!(manager.get_device(0x0101).unwrap().state, DeviceState::Lost);
    // an earlier clock never times out a device
    manager.update_device(0x0101, 9000, None);
    manager.check_timeouts(10);
    assert_eq!(manager.get_device(0x0101).unwrap().state, DeviceState::Connected);
    // a lost device is kept and comes back on the next packet
    manager.check_timeouts(20000);
    assert!(manager.get_device(0x0101).is_some());
    assert_eq!(manager.active_devices().len(), 0);
    manager.update_device(0x0101, 20001, None);
    assert_eq!(manager.get_device(0x0101).unwrap().state, DeviceState::Connected);
}

#[test]
fn capacity_boundary_keeps_entries() {
    let mut manager = DeviceManager::new();
    for i in 0..MAX_DEVICES {
        assert!(manager.register_device(DeviceAddress::new(0x1000 + i as u16, i as u8)).is_ok());
    }
    assert!(manager.register_device(DeviceAddress::new(0x2000, 0)).is_err());
    assert!(manager.get_device(0x2000).is_none());
    let active = manager.active_devices();
    assert_eq!(active.len(), MAX_DEVICES);
    for i in 0..MAX_DEVICES {
        assert_eq!(active[i], DeviceAddress::new(0x1000 + i as u16, i as u8));
    }
    // an id already present still registers when the table is full
    assert!(manager.register_device(DeviceAddress::new(0x1003, 9)).is_ok());
}

#[test]
fn unregister_frees_first_slot() {
    let mut manager = DeviceManager::default();
    manager.register_device(DeviceAddress::new(1, 0)).unwrap();
    manager.register_device(DeviceAddress::new(2, 0)).unwrap();
    manager.register_device(DeviceAddress::new(3, 0)).unwrap();
    manager.unregister_device(1);
    manager.unregister_device(0x7777);
    assert!(manager.get_device(1).is_none());
    manager.register_device(DeviceAddress::new(4, 0)).unwrap();
    let active = manager.active_devices();
    assert_eq!(active[0].device_id, 4);
    assert_eq!(active[1].device_id, 2);
    assert_eq!(active[2].device_id, 3);
}

#[test]
fn counts_and_active_list() {
    let mut manager = DeviceManager::new();
    manager.set_timeout(100);
    manager.register_device(DeviceAddress::new(10, 0)).unwrap();
    manager.register_device(DeviceAddress::new(11, 1)).unwrap();
    manager.register_device(DeviceAddress::new(12, 2)).unwrap();
    manager.update_device(10, 50, Some(-70));
    manager.update_device(11, 500, None);
    assert_eq!(manager.connected_count(), 2);
    // 10 is lost at 400, 12 (never seen, last seen 0) is lost too, 11 stays
    manager.check_timeouts(400);
    assert_eq!(manager.connected_count(), 1);
    let active = manager.active_devices();
    assert_eq!(active.len(), 1);
    assert_eq!(active[0], DeviceAddress::new(11, 1));
    assert_eq!(manager.get_device(12).unwrap().state, DeviceState::Lost);
}

#[test]
fn get_device_mut_changes_in_place() {
    let mut manager = DeviceManager::new();
    manager.register_device(DeviceAddress::new(0x0A0A, 0)).unwrap();
    manager.get_device_mut(0x0A0A).unwrap().rssi = Some(-33);
    assert_eq!(manager.get_device(0x0A0A).unwrap().rssi, Some(-33));
    assert!(manager.get_device_mut(0x0B0B).is_none());
    manager.update_device(0x0B0B, 1, None);
    assert!(manager.get_device(0x0B0B).is_none());
}
