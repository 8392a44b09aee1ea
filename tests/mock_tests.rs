use rmk::{MockTransport, MockTransportPair, WirelessError, WirelessTransport};

#[test]
fn test_mock_transport_send_recv() {
    let mut transport = MockTransport::new();

    // Send a frame
    let frame = [0xAA, 0xBB, 0xCC];
    assert!(transport.send_frame(&frame).is_ok());
    assert_eq!(transport.frames_sent, 1);

    // Check it's in send queue
    assert_eq!(transport.send_queue.len(), 1);
    assert_eq!(&transport.send_queue[0][..], &frame);

    // Simulate receiving
    transport.simulate_receive(&[0xDD, 0xEE]).unwrap();
    let received = transport.recv_frame().unwrap().unwrap();
    assert_eq!(&received[..], &[0xDD, 0xEE]);
    assert_eq!(transport.frames_received, 1);
}

#[test]
fn test_mock_transport_packet_loss() {
    let mut transport = MockTransport::new();
    transport.set_packet_loss_rate(100); // Drop all packets

    let frame = [0xAA, 0xBB];
    assert!(transport.send_frame(&frame).is_err());
    assert_eq!(transport.frames_dropped, 1);
    assert_eq!(transport.send_queue.len(), 0); // Not queued
}

#[test]
fn test_mock_transport_max_size() {
    let mut transport = MockTransport::new();
    transport.set_max_size(4);

    let small_frame = [0xAA, 0xBB];
    assert!(transport.send_frame(&small_frame).is_ok());

    let large_frame = [0xAA, 0xBB, 0xCC, 0xDD, 0xEE];
    assert_eq!(transport.send_frame(&large_frame), Err(WirelessError::FrameTooLarge));
}

#[test]
fn test_mock_transport_pair() {
    let mut pair = MockTransportPair::new();

    // Keyboard sends to dongle
    pair.keyboard.send_frame(&[0xAA, 0xBB]).unwrap();
    assert_eq!(pair.keyboard.send_queue.len(), 1);

    // Transfer
    let count = pair.transfer_keyboard_to_dongle().unwrap();
    assert_eq!(count, 1);
    assert_eq!(pair.keyboard.send_queue.len(), 0);
    assert_eq!(pair.dongle.recv_queue.len(), 1);

    // Dongle receives
    let frame = pair.dongle.recv_frame().unwrap().unwrap();
    assert_eq!(&frame[..], &[0xAA, 0xBB]);
}

#[test]
fn test_mock_transport_pair_bidirectional() {
    let mut pair = MockTransportPair::new();

    // Keyboard to dongle
    pair.keyboard.send_frame(&[0x01, 0x02]).unwrap();

    // Dongle to keyboard
    pair.dongle.send_frame(&[0x03, 0x04]).unwrap();

    // Transfer both
    let (k_to_d, d_to_k) = pair.transfer_both().unwrap();
    assert_eq!(k_to_d, 1);
    assert_eq!(d_to_k, 1);

    // Verify
    let frame1 = pair.dongle.recv_frame().unwrap().unwrap();
    assert_eq!(&frame1[..], &[0x01, 0x02]);

    let frame2 = pair.keyboard.recv_frame().unwrap().unwrap();
    assert_eq!(&frame2[..], &[0x03, 0x04]);
}

#[test]
fn test_mock_transport_clear() {
    let mut transport = MockTransport::new();
    transport.send_frame(&[0xAA]).unwrap();
    transport.simulate_receive(&[0xBB]).unwrap();

    assert_eq!(transport.send_queue.len(), 1);
    assert_eq!(transport.recv_queue.len(), 1);

    transport.clear();

    assert_eq!(transport.send_queue.len(), 0);
    assert_eq!(transport.recv_queue.len(), 0);
}

#[test]
fn test_mock_transport_stats() {
    let mut transport = MockTransport::new();

    transport.send_frame(&[0xAA]).unwrap();
    transport.send_frame(&[0xBB]).unwrap();
    assert_eq!(transport.frames_sent, 2);

    transport.simulate_receive(&[0xCC]).unwrap();
    transport.recv_frame().unwrap();
    assert_eq!(transport.frames_received, 1);

    transport.reset_stats();
    assert_eq!(transport.frames_sent, 0);
    assert_eq!(transport.frames_received, 0);
}

#[test]
fn pair_without_loss_delivers_in_order() {
    let mut pair = MockTransportPair::new();
    pair.set_packet_loss_rate(0);
    let frames: [&[u8]; 4] = [&[1], &[2, 2], &[3, 3, 3], &[]];
    for f in frames.iter() {
        assert_eq!(pair.keyboard.send_frame(f), Ok(()));
    }
    assert_eq!(pair.transfer_keyboard_to_dongle(), Ok(4));
    for f in frames.iter() {
        let got = pair.dongle.recv_frame().unwrap().unwrap();
        assert_eq!(&got[..], *f);
    }
    assert_eq!(pair.dongle.recv_frame(), Ok(None));
    assert_eq!(pair.dongle.frames_received, 4);
}

#[test]
fn pair_with_full_loss_queues_nothing() {
    let mut pair = MockTransportPair::new();
    pair.set_packet_loss_rate(100);
    for i in 0..5u8 {
        assert_eq!(pair.keyboard.send_frame(&[i]), Err(WirelessError::SendFailed));
    }
    assert_eq!(pair.keyboard.frames_dropped, 5);
    assert_eq!(pair.keyboard.frames_sent, 0);
    assert_eq!(pair.transfer_keyboard_to_dongle(), Ok(0));
    assert_eq!(pair.dongle.recv_frame(), Ok(None));
}

#[test]
fn loss_rate_is_clamped_and_deterministic() {
    let mut transport = MockTransport::new();
    transport.set_packet_loss_rate(250);
    assert_eq!(transport.send_frame(&[1]), Err(WirelessError::SendFailed));
    transport.set_packet_loss_rate(0);
    assert_eq!(transport.send_frame(&[1]), Ok(()));
    // at 50% a send is dropped whenever the count of frames sent is even
    transport.set_packet_loss_rate(50);
    assert_eq!(transport.send_frame(&[2]), Ok(()));
    assert_eq!(transport.send_frame(&[3]), Err(WirelessError::SendFailed));
    assert_eq!(transport.frames_sent, 2);
}

#[test]
fn queues_are_bounded() {
    let mut transport = MockTransport::new();
    for i in 0..16u8 {
        assert_eq!(transport.send_frame(&[i]), Ok(()));
        assert_eq!(transport.simulate_receive(&[i]), Ok(()));
    }
    assert_eq!(transport.send_frame(&[16]), Err(WirelessError::Busy));
    assert_eq!(transport.simulate_receive(&[16]), Err(WirelessError::Busy));
    assert_eq!(transport.simulate_receive(&[0u8; 65]), Err(WirelessError::FrameTooLarge));
    assert_eq!(transport.get_sent_frame(3).unwrap()[0], 3);
    assert!(transport.get_sent_frame(16).is_none());
    assert_eq!(transport.flush(), Ok(()));
    assert_eq!(transport.send_queue.len(), 0);
    assert_eq!(transport.recv_queue.len(), 16);
}

#[test]
fn transfer_overflow_is_busy() {
    let mut pair = MockTransportPair::default();
    for i in 0..10u8 {
        pair.keyboard.send_frame(&[i]).unwrap();
        pair.dongle.simulate_receive(&[i]).unwrap();
    }
    assert_eq!(pair.transfer_keyboard_to_dongle(), Err(WirelessError::Busy));
    assert_eq!(pair.dongle.recv_queue.len(), 16);
}

#[test]
fn mock_limits() {
    let transport = MockTransport::default();
    assert!(transport.is_ready());
    assert_eq!(transport.max_frame_size(), 64);
}
