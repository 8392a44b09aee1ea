use rmk::{GazellConfig, GazellTransport, GazellTransportAsync, WirelessError, WirelessTransport};

#[test]
fn test_create_transport() {
    let config = GazellConfig::default();
    let transport = GazellTransport::new(config);
    assert!(!transport.is_ready());
}

#[test]
fn test_init() {
    let config = GazellConfig::default();
    let mut transport = GazellTransport::new(config);
    assert!(transport.init().is_ok());
    assert!(transport.is_ready());
}

#[test]
fn test_send_before_init_fails() {
    let config = GazellConfig::default();
    let mut transport = GazellTransport::new(config);
    let frame = [0xAA, 0xBB, 0xCC];
    assert_eq!(transport.send_frame(&frame), Err(WirelessError::NotInitialized));
}

#[test]
fn test_frame_too_large() {
    let config = GazellConfig::default();
    let mut transport = GazellTransport::new(config);
    transport.init().unwrap();

    let large_frame = [0u8; 128]; // Exceeds max size
    assert_eq!(transport.send_frame(&large_frame), Err(WirelessError::FrameTooLarge));
}

#[test]
fn test_invalid_config() {
    let mut config = GazellConfig::default();
    config.channel = 101; // Invalid

    let mut transport = GazellTransport::new(config);
    assert_eq!(transport.init(), Err(WirelessError::InvalidConfig));
}

#[test]
fn roles_need_init() {
    let mut transport = GazellTransport::new(GazellConfig::low_latency());
    assert_eq!(transport.set_device_mode(), Err(WirelessError::NotInitialized));
    assert_eq!(transport.set_host_mode(), Err(WirelessError::NotInitialized));
    assert_eq!(transport.flush(), Err(WirelessError::NotInitialized));
    assert_eq!(transport.recv_frame(), Err(WirelessError::NotInitialized));
    transport.init().unwrap();
    assert_eq!(transport.set_device_mode(), Ok(()));
    assert_eq!(transport.set_host_mode(), Ok(()));
    assert_eq!(transport.flush(), Ok(()));
    assert_eq!(transport.recv_frame(), Ok(None));
}

#[test]
fn frame_size_limit() {
    let mut transport = GazellTransport::new(GazellConfig::default());
    transport.init().unwrap();
    assert_eq!(transport.max_frame_size(), 32);
    assert_eq!(transport.send_frame(&[0u8; 32]), Ok(()));
    assert_eq!(transport.send_frame(&[0u8; 33]), Err(WirelessError::FrameTooLarge));
}

#[test]
fn set_config_validates_first() {
    let mut transport = GazellTransport::new(GazellConfig::default());
    let mut bad = GazellConfig::long_range();
    bad.max_retries = 16;
    assert_eq!(transport.set_config(bad), Err(WirelessError::InvalidConfig));
    assert!(!transport.is_ready());
    assert_eq!(transport.config().max_retries, 3);
    assert_eq!(transport.set_config(GazellConfig::long_range()), Ok(()));
    assert!(transport.is_ready());
    assert_eq!(transport.config().ack_timeout_us, 500);
}

#[test]
fn async_wrapper_starts_uninitialized() {
    let mut transport = GazellTransportAsync::new(GazellConfig::default());
    assert!(!transport.inner_mut().is_ready());
    transport.inner_mut().init().unwrap();
    assert!(transport.inner_mut().is_ready());
}

#[test]
fn error_messages() {
    assert_eq!(WirelessError::FrameTooLarge.message(), "Frame too large");
    assert_eq!(WirelessError::NotInitialized.message(), "Transport not initialized");
    assert_eq!(WirelessError::HardwareError.message(), "Hardware error");
}
