use mstp_gateway::mstp_driver::{MstpDriver, MstpError};
use mstp_gateway::mstp_frame::build_frame;

#[test]
fn new_driver_starts_initializing() {
    let d = MstpDriver::new(3, 127, 0);
    assert_eq!(d.get_station_address(), 3);
    assert_eq!(d.get_max_master(), 127);
    assert_eq!(d.get_state_name(), "Initialize");
    assert!(!d.has_token());
    let s = d.get_stats(0);
    assert_eq!(s.rx_frames, 0);
    assert_eq!(s.station_address, 3);
}

#[test]
fn poll_for_master_is_answered() {
    let mut d = MstpDriver::new(3, 127, 0);
    let pfm = build_frame(0x01, 3, 5, &[]);
    let r = d.receive_frame(&pfm, 10);
    assert!(r.is_none());
    let tx = d.take_tx_frames();
    assert!(tx.contains(&build_frame(0x02, 5, 3, &[])));
    assert!(d.take_tx_frames().is_empty());
}

#[test]
fn data_frame_is_delivered() {
    let mut d = MstpDriver::new(3, 127, 0);
    let npdu = [0x01, 0x00, 0x10, 0x08];
    let frame = build_frame(0x06, 3, 5, &npdu);
    let r = d.receive_frame(&frame, 10);
    assert_eq!(r, Some((npdu.to_vec(), 5)));
    let (rx, _) = d.get_frame_stats();
    assert!(rx >= 1);
}

#[test]
fn broadcast_data_frame_is_delivered_in_pieces() {
    let mut d = MstpDriver::new(3, 127, 0);
    let npdu = [0x01, 0x00, 0x10, 0x08];
    let frame = build_frame(0x06, 255, 9, &npdu);
    assert_eq!(d.receive_frame(&frame[..5], 10), None);
    assert_eq!(d.receive_frame(&frame[5..], 11), Some((npdu.to_vec(), 9)));
}

#[test]
fn corrupted_frame_is_counted_not_delivered() {
    let mut d = MstpDriver::new(3, 127, 0);
    let mut frame = build_frame(0x06, 3, 5, &[0x01, 0x00, 0x10, 0x08]);
    frame[4] ^= 0x01;
    assert_eq!(d.receive_frame(&frame, 10), None);
    assert_eq!(d.get_stats(10).crc_errors, 1);
}

#[test]
fn token_is_taken_when_idle() {
    let mut d = MstpDriver::new(3, 127, 0);
    let token = build_frame(0x00, 3, 5, &[]);
    let _ = d.receive_frame(&token, 10);
    assert_eq!(d.get_stats(10).tokens_received, 1);
}

#[test]
fn send_queue_holds_sixteen_frames() {
    let mut d = MstpDriver::new(3, 127, 0);
    for _ in 0..16 {
        assert!(d.send_frame(&[0x01, 0x00], 7, false).is_ok());
    }
    assert!(matches!(d.send_frame(&[0x01, 0x00], 7, false), Err(MstpError::BufferFull)));
    assert!(matches!(d.send_frame_simple(&[0x01, 0x00], 7), Err(MstpError::BufferFull)));
    assert_eq!(d.get_stats(0).send_queue_len, 16);
}

#[test]
fn reply_is_sent_as_data_not_expecting_reply() {
    let mut d = MstpDriver::new(3, 127, 0);
    assert!(d.send_reply(&[0x01, 0x00, 0x20, 0x01], 9, 5).is_ok());
    assert_eq!(d.take_tx_frames(), vec![build_frame(0x06, 9, 3, &[0x01, 0x00, 0x20, 0x01])]);
}
