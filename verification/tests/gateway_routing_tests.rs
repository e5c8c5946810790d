use mstp_gateway::bytes::IpEndpoint;
use mstp_gateway::gateway::BacnetGateway;
use mstp_gateway::npdu::GatewayError;

const MSTP_NET: u16 = 1;
const IP_NET: u16 = 2;

fn gateway() -> BacnetGateway {
    BacnetGateway::new_default(MSTP_NET, IP_NET, [192, 168, 1, 100])
}

fn client() -> IpEndpoint {
    IpEndpoint::new(192, 168, 1, 50, 47808)
}

fn bvlc(function: u8, npdu: &[u8]) -> Vec<u8> {
    let len = (npdu.len() + 4) as u16;
    let mut v = vec![0x81, function, (len >> 8) as u8, (len & 0xFF) as u8];
    v.extend_from_slice(npdu);
    v
}

#[test]
fn i_am_from_mstp_is_broadcast_on_ip_with_source_address() {
    let mut gw = gateway();
    let i_am_apdu = [0x10, 0x00, 0xC4, 0x02, 0x00, 0x00, 0x07, 0x22, 0x01, 0xE0, 0x91, 0x03, 0x21, 0x05];
    let mut npdu = vec![0x01, 0x00];
    npdu.extend_from_slice(&i_am_apdu);
    let r = gw.route_from_mstp(&npdu, 5, 1_000);
    assert!(matches!(r, Ok(None)));
    let packets = gw.take_ip_packets();
    assert_eq!(packets.len(), 1);
    let (bytes, dest) = &packets[0];
    assert_eq!(*dest, IpEndpoint::new(192, 168, 1, 255, 47808));
    let mut expected_npdu = vec![0x01, 0x08, 0x00, 0x01, 0x01, 0x05];
    expected_npdu.extend_from_slice(&i_am_apdu);
    assert_eq!(bytes, &bvlc(0x0B, &expected_npdu));
    assert_eq!(gw.get_stats().mstp_to_ip_packets, 1);
    assert!(gw.take_ip_packets().is_empty());
}

#[test]
fn confirmed_request_is_tracked_and_its_answer_returns_to_the_client() {
    let mut gw = gateway();
    // ReadProperty (invoke 42) from the IP client to station 7 on the MS/TP network.
    let apdu = [0x00, 0x05, 42, 0x0C, 0x0C, 0x02, 0x00, 0x00, 0x07, 0x19, 0x4D];
    let mut npdu = vec![0x01, 0x24, 0x00, 0x01, 0x01, 0x07, 0xFF];
    npdu.extend_from_slice(&apdu);
    let r = gw.route_from_ip(&bvlc(0x0A, &npdu), client(), 1_000).unwrap();
    let (routed, dest) = r.expect("routed to MS/TP");
    assert_eq!(dest, 7);
    let mut expected = vec![0x01, 0x0C, 0x00, 0x02, 0x06, 192, 168, 1, 50, 0xBA, 0xC0];
    expected.extend_from_slice(&apdu);
    assert_eq!(routed, expected);
    assert_eq!(gw.active_transaction_count(), 1);

    // Station 7 answers with a Complex-ACK addressed back to the client.
    let ack = [0x30, 42, 0x0C, 0x0C, 0x02, 0x00, 0x00, 0x07, 0x19, 0x4D, 0x3E, 0x75, 0x03, 0x00, 0x41, 0x42, 0x3F];
    let mut reply = vec![0x01, 0x20, 0x00, 0x02, 0x06, 192, 168, 1, 50, 0xBA, 0xC0, 0xFF];
    reply.extend_from_slice(&ack);
    let r = gw.route_from_mstp(&reply, 7, 1_200);
    assert!(matches!(r, Ok(None)));
    let packets = gw.take_ip_packets();
    assert_eq!(packets.len(), 1);
    assert_eq!(packets[0].1, client());
    let mut back = vec![0x01, 0x08, 0x00, 0x01, 0x01, 0x07];
    back.extend_from_slice(&ack);
    assert_eq!(packets[0].0, bvlc(0x0A, &back));
    assert_eq!(gw.active_transaction_count(), 0);
    assert_eq!(gw.get_transaction_stats().total_completed, 1);
}

#[test]
fn unknown_network_from_mstp_is_rejected() {
    let mut gw = gateway();
    let npdu = [0x01, 0x20, 0x03, 0xE7, 0x00, 0xFF, 0x10, 0x08];
    let r = gw.route_from_mstp(&npdu, 9, 0).unwrap();
    let (reject, dest) = r.expect("reject");
    assert_eq!(dest, 9);
    assert_eq!(reject, vec![0x01, 0x80, 0x03, 0x01, 0x03, 0xE7]);
}

#[test]
fn exhausted_hop_count_is_discarded() {
    let mut gw = gateway();
    let npdu = [0x01, 0x20, 0xFF, 0xFF, 0x00, 0x00, 0x10, 0x08];
    let r = gw.route_from_ip(&bvlc(0x0B, &npdu), client(), 0);
    assert!(matches!(r, Err(GatewayError::HopCountExhausted)));
    assert_eq!(gw.get_stats().routing_errors, 1);
}

#[test]
fn bad_bvlc_length_is_refused() {
    let mut gw = gateway();
    let mut p = bvlc(0x0A, &[0x01, 0x00, 0x10, 0x08]);
    p[3] = 0x20;
    assert!(matches!(gw.route_from_ip(&p, client(), 0), Err(GatewayError::InvalidFrame)));
}

#[test]
fn who_is_from_ip_goes_to_mstp_broadcast() {
    let mut gw = gateway();
    let npdu = [0x01, 0x00, 0x10, 0x08];
    let r = gw.route_from_ip(&bvlc(0x0B, &npdu), client(), 0).unwrap();
    let (routed, dest) = r.expect("routed");
    assert_eq!(dest, 255);
    assert_eq!(routed, vec![0x01, 0x08, 0x00, 0x02, 0x06, 192, 168, 1, 50, 0xBA, 0xC0, 0x10, 0x08]);
}

#[test]
fn foreign_device_registration_is_acknowledged_and_listed() {
    let mut gw = gateway();
    let fd = IpEndpoint::new(10, 0, 0, 9, 47808);
    let r = gw.route_from_ip(&[0x81, 0x05, 0x00, 0x06, 0x00, 0x3C], fd, 0);
    assert!(matches!(r, Ok(None)));
    assert_eq!(gw.foreign_device_count(), 1);
    let packets = gw.take_ip_packets();
    assert_eq!(packets, vec![(vec![0x81, 0x00, 0x00, 0x06, 0x00, 0x00], fd)]);
    // Registering again refreshes the entry.
    let _ = gw.route_from_ip(&[0x81, 0x05, 0x00, 0x06, 0x00, 0x78], fd, 10_000);
    assert_eq!(gw.foreign_device_count(), 1);
    // Read-FDT lists it with its TTL and the time left.
    let _ = gw.take_ip_packets();
    let _ = gw.route_from_ip(&[0x81, 0x06, 0x00, 0x04], client(), 20_000);
    let packets = gw.take_ip_packets();
    assert_eq!(
        packets[0].0,
        vec![0x81, 0x07, 0x00, 0x0E, 10, 0, 0, 9, 0xBA, 0xC0, 0x00, 0x78, 0x00, 0x6E]
    );
}

#[test]
fn write_bdt_then_read_bdt_gives_back_the_entries() {
    let mut gw = gateway();
    let entries = [10, 1, 1, 1, 0xBA, 0xC0, 255, 255, 255, 255, 10, 2, 2, 2, 0xBA, 0xC1, 255, 255, 255, 0];
    let mut write = vec![0x81, 0x01, 0x00, 0x18];
    write.extend_from_slice(&entries);
    let _ = gw.route_from_ip(&write, client(), 0);
    let ack = gw.take_ip_packets();
    assert_eq!(ack, vec![(vec![0x81, 0x00, 0x00, 0x06, 0x00, 0x00], client())]);
    let _ = gw.route_from_ip(&[0x81, 0x02, 0x00, 0x04], client(), 0);
    let read = gw.take_ip_packets();
    let mut expected = vec![0x81, 0x03, 0x00, 0x18];
    expected.extend_from_slice(&entries);
    assert_eq!(read[0].0, expected);
    assert_eq!(gw.get_bdt_entries().len(), 2);
    assert_eq!(gw.take_table_changes(), (true, false));
}

#[test]
fn write_bdt_with_partial_entry_is_refused() {
    let mut gw = gateway();
    let _ = gw.route_from_ip(&[0x81, 0x01, 0x00, 0x07, 1, 2, 3], client(), 0);
    let nak = gw.take_ip_packets();
    assert_eq!(nak, vec![(vec![0x81, 0x00, 0x00, 0x06, 0x00, 0x10], client())]);
    assert_eq!(gw.get_bdt_entries().len(), 0);
}

#[test]
fn who_is_router_is_answered_with_both_networks() {
    let mut gw = gateway();
    let r = gw.route_from_ip(&bvlc(0x0B, &[0x01, 0x80, 0x00]), client(), 0);
    assert!(r.is_ok());
    let packets = gw.take_ip_packets();
    assert_eq!(packets.len(), 2);
    assert_eq!(packets[0].1, IpEndpoint::new(192, 168, 1, 255, 47808));
    assert_eq!(packets[1].1, client());
    let reply = &packets[0].0;
    assert_eq!(&reply[4..], &[0x01, 0x80, 0x01, 0x00, 0x01, 0x00, 0x02]);
}

#[test]
fn transaction_timeout_aborts_to_client_after_retries() {
    let mut gw = gateway();
    let apdu = [0x00, 0x05, 9, 0x0C, 0x0C, 0x02, 0x00, 0x00, 0x07, 0x19, 0x4D];
    let mut npdu = vec![0x01, 0x24, 0x00, 0x01, 0x01, 0x07, 0xFF];
    npdu.extend_from_slice(&apdu);
    let _ = gw.route_from_ip(&bvlc(0x0A, &npdu), client(), 0).unwrap();
    assert_eq!(gw.active_transaction_count(), 1);
    // Before the 10 s timeout nothing happens.
    assert_eq!(gw.process_transaction_timeouts(5_000), 0);
    // After it, the request is retried on MS/TP.
    let _ = gw.process_transaction_timeouts(10_001);
    let retries = gw.drain_mstp_send_queue();
    assert_eq!(retries.len(), 1);
    assert_eq!(retries[0].1, 7);
    assert_eq!(gw.active_transaction_count(), 1);
}

#[test]
fn stats_summary_names_activity() {
    let gw = gateway();
    let s = gw.get_stats_summary(0);
    assert!(s.contains("never"));
}

#[test]
fn response_goes_back_to_requesting_client() {
    let mut gw = gateway();
    let d: u8 = 5;
    let i: u8 = 7;
    let req = vec![0x81, 0x0A, 0x00, 0x0F, 0x01, 0x24, 0x00, 0x01, 0x01, d, 0xFF, 0x00, 0x05, i, 0x0C];
    let routed = gw.route_from_ip(&req, client(), 1_000).unwrap().unwrap();
    assert_eq!(routed.1, d);
    assert_eq!(gw.active_transaction_count(), 1);
    gw.take_ip_packets();
    let resp = vec![0x01, 0x00, 0x20, i, 0x0C];
    assert!(matches!(gw.route_from_mstp(&resp, d, 1_200), Ok(None)));
    let out = gw.take_ip_packets();
    assert_eq!(out.len(), 1);
    assert_eq!(out[0].1, client());
    assert_eq!(out[0].0, vec![0x81, 0x0A, 0x00, 0x0D, 0x01, 0x08, 0x00, 0x01, 0x01, d, 0x20, i, 0x0C]);
    assert_eq!(gw.active_transaction_count(), 0);
}

#[test]
fn segment_ack_keeps_transaction_open() {
    let mut gw = gateway();
    let req = vec![0x81, 0x0A, 0x00, 0x0F, 0x01, 0x24, 0x00, 0x01, 0x01, 5, 0xFF, 0x00, 0x05, 9, 0x0C];
    gw.route_from_ip(&req, client(), 1_000).unwrap();
    assert_eq!(gw.active_transaction_count(), 1);
    let seg_ack = vec![0x01, 0x00, 0x40, 9, 0, 1];
    let _ = gw.route_from_mstp(&seg_ack, 5, 1_100);
    assert_eq!(gw.active_transaction_count(), 1);
}
