use mstp_gateway::local_device::{DiscoveredDevice, LocalDevice};

#[test]
fn device_identity() {
    let d = LocalDevice::new(1234);
    assert_eq!(d.device_name, "BACman Gateway 1234");
    assert_eq!(d.vendor_name, "Madlogix");
    assert_eq!(d.max_master, 127);
}

#[test]
fn i_am_encoding_and_reading_back() {
    let d = LocalDevice::new(1234);
    let i_am = d.build_i_am();
    assert_eq!(
        i_am,
        vec![0x10, 0x00, 0xC4, 0x02, 0x00, 0x04, 0xD2, 0x22, 0x01, 0xE0, 0x91, 0x03, 0x22, 0xFF, 0xFF]
    );
    let back = DiscoveredDevice::from_i_am(&i_am, 9).unwrap();
    assert_eq!(back, DiscoveredDevice { device_instance: 1234, mac_address: 9, max_apdu_length: 480, segmentation: 3, vendor_id: 65535 });
    assert!(DiscoveredDevice::from_i_am(&i_am[..11], 9).is_none());
}

#[test]
fn who_is_is_answered_in_range_only() {
    let d = LocalDevice::new(1234);
    let (resp, broadcast) = d.process_apdu(&[0x10, 0x08]).expect("answer");
    assert!(broadcast);
    assert_eq!(resp, d.build_i_am());
    // Range 1000..=2000 holds the device.
    let r = d.process_apdu(&[0x10, 0x08, 0x0A, 0x03, 0xE8, 0x1A, 0x07, 0xD0]);
    assert!(r.is_some());
    // Range 1..=10 does not.
    let r = d.process_apdu(&[0x10, 0x08, 0x09, 0x01, 0x19, 0x0A]);
    assert!(r.is_none());
}

#[test]
fn who_is_builders() {
    assert_eq!(LocalDevice::build_who_is(), vec![0x10, 0x08]);
    assert_eq!(LocalDevice::build_who_is_range(1, 300), vec![0x10, 0x08, 0x09, 0x01, 0x1A, 0x01, 0x2C]);
    assert_eq!(LocalDevice::build_i_am_router_to_network(&[1, 2]), vec![0x01, 0x80, 0x01, 0x00, 0x01, 0x00, 0x02]);
}

#[test]
fn read_property_object_name() {
    let d = LocalDevice::new(1234);
    // ReadProperty(device 1234, object-name)
    let apdu = [0x00, 0x05, 0x11, 0x0C, 0x0C, 0x02, 0x00, 0x04, 0xD2, 0x19, 0x4D];
    let (resp, broadcast) = d.process_apdu(&apdu).expect("answer");
    assert!(!broadcast);
    assert_eq!(&resp[..3], &[0x30, 0x11, 0x0C]);
    let name = "BACman Gateway 1234".as_bytes();
    assert!(resp.windows(name.len()).any(|w| w == name));
}

#[test]
fn unknown_property_gets_an_error() {
    let d = LocalDevice::new(1234);
    let apdu = [0x00, 0x05, 0x12, 0x0C, 0x0C, 0x02, 0x00, 0x04, 0xD2, 0x19, 0x7F];
    let (resp, _) = d.process_apdu(&apdu).expect("answer");
    assert_eq!(resp[0], 0x50);
    assert_eq!(resp[1], 0x12);
}

#[test]
fn who_is_range_built_here_is_honoured() {
    let d = LocalDevice::new(1234);
    assert_eq!(LocalDevice::build_who_is_range(10, 300), vec![0x10, 0x08, 0x09, 0x0A, 0x1A, 0x01, 0x2C]);
    assert!(d.process_apdu(&LocalDevice::build_who_is_range(10, 300)).is_none());
    assert_eq!(d.process_apdu(&LocalDevice::build_who_is_range(1000, 2000)), Some((d.build_i_am(), true)));
    assert_eq!(d.process_apdu(&LocalDevice::build_who_is_range(1234, 1234)), Some((d.build_i_am(), true)));
    assert!(d.process_apdu(&LocalDevice::build_who_is_range(1235, 4194303)).is_none());
}
