use mstp_gateway::schedule::{main_loop_step, LoopCounters};
use mstp_gateway::bytes::IpEndpoint;
use mstp_gateway::local_device::{DiscoveredDevice, LocalDevice};
use mstp_gateway::local_dispatch::SourceRouteInfo;
use mstp_gateway::rx_dispatch::{
    announcement_npdus, heard_i_am, ip_reply_packets, mstp_local_reply, npdu_expects_reply,
    record_discovered, remote_reply_npdu, who_is_npdus,
};

#[test]
fn who_is_scan_broadcasts() {
    let (local, global) = who_is_npdus(65001, 3);
    assert_eq!(local, vec![0x01, 0x00, 0x10, 0x08]);
    assert_eq!(global, vec![0x01, 0x28, 0xFF, 0xFF, 0x00, 0xFD, 0xE9, 0x01, 0x03, 0xFF, 0x10, 0x08]);
}

#[test]
fn announcements_carry_i_am_and_router_network() {
    let device = LocalDevice::new(1234);
    let (i_am, router) = announcement_npdus(&device, 10001);
    assert_eq!(&i_am[..4], &[0x01, 0x00, 0x10, 0x00]);
    assert_eq!(i_am.len(), 2 + 15);
    assert_eq!(router, vec![0x01, 0x80, 0x01, 0x27, 0x11]);
}

#[test]
fn expecting_reply_flag() {
    assert!(npdu_expects_reply(&[0x01, 0x04]));
    assert!(!npdu_expects_reply(&[0x01, 0x00]));
    assert!(!npdu_expects_reply(&[0x01]));
}

#[test]
fn discovered_devices_are_not_listed_twice() {
    let mut list = Vec::new();
    let a = DiscoveredDevice { device_instance: 10, mac_address: 5, max_apdu_length: 480, segmentation: 3, vendor_id: 1 };
    let b = DiscoveredDevice { device_instance: 11, mac_address: 5, ..a };
    let c = DiscoveredDevice { device_instance: 12, mac_address: 6, ..a };
    assert!(record_discovered(&mut list, a));
    assert!(!record_discovered(&mut list, b));
    assert!(record_discovered(&mut list, c));
    assert_eq!(list, vec![a, c]);
}

#[test]
fn i_am_is_read_from_an_npdu() {
    let device = LocalDevice::new(77);
    let mut npdu = vec![0x01, 0x00];
    npdu.extend_from_slice(&device.build_i_am());
    let d = heard_i_am(&npdu, 4).expect("an I-Am");
    assert_eq!(d.device_instance, 77);
    assert_eq!(d.mac_address, 4);
    assert_eq!(d.vendor_id, 65535);
    assert!(heard_i_am(&[0x01, 0x00, 0x10, 0x08], 4).is_none());
}

#[test]
fn who_is_on_mstp_is_answered_by_broadcast_i_am() {
    let device = LocalDevice::new(1234);
    let (npdu, dest) = mstp_local_reply(&[0x01, 0x00, 0x10, 0x08], 5, &device, 65001).expect("I-Am");
    assert_eq!(dest, 255);
    assert_eq!(&npdu[..4], &[0x01, 0x00, 0x10, 0x00]);
}

#[test]
fn remote_request_answer_goes_back_through_the_router() {
    let src = SourceRouteInfo { source_network: 2, source_address: vec![192, 168, 1, 50, 0xBA, 0xC0] };
    let r = remote_reply_npdu(&[0x01, 0x00, 0x10, 0x00, 0xAA], &src);
    assert_eq!(r, vec![0x01, 0x20, 0x00, 0x02, 0x06, 192, 168, 1, 50, 0xBA, 0xC0, 0xFF, 0x10, 0x00, 0xAA]);
}

#[test]
fn ip_answers_go_to_requester_and_broadcast() {
    let src = IpEndpoint::new(10, 0, 0, 5, 47808);
    let p = ip_reply_packets(&[0x01, 0x00, 0x10, 0x00], true, src);
    assert_eq!(p.len(), 2);
    assert_eq!(p[0].0, vec![0x81, 0x0B, 0x00, 0x08, 0x01, 0x00, 0x10, 0x00]);
    assert_eq!(p[0].1, IpEndpoint::new(255, 255, 255, 255, 47808));
    assert_eq!(p[1].1, src);
    let p = ip_reply_packets(&[0x01, 0x00], false, src);
    assert_eq!(p, vec![(vec![0x81, 0x0A, 0x00, 0x06, 0x01, 0x00], src)]);
}

#[test]
fn main_loop_cadence() {
    let mut c = LoopCounters::new();
    let mut announcements = Vec::new();
    let mut timeout_checks = 0;
    let mut wifi_checks = 0;
    for pass in 1..=6000u64 {
        let (next, due) = main_loop_step(c);
        c = next;
        if due.announce {
            announcements.push(pass);
        }
        if due.check_timeouts {
            timeout_checks += 1;
        }
        if due.check_wifi {
            wifi_checks += 1;
        }
    }
    assert_eq!(announcements, vec![1, 3001]);
    assert_eq!(timeout_checks, 60);
    assert_eq!(wifi_checks, 120);
    assert_eq!(c.loop_count, 6000);
}
