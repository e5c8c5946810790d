use mstp_gateway::config::GatewayConfig;
use mstp_gateway::local_device::DiscoveredDevice;
use mstp_gateway::web::{
    generate_bdt_json, generate_device_grid_html, generate_devices_json, generate_status_json,
    get_state_name, parse_bdt_add_form, parse_bdt_remove_form, parse_config_form, WebState,
};
use mstp_gateway::bytes::IpEndpoint;

fn state() -> WebState {
    WebState::new(GatewayConfig::default(), 1_000)
}

#[test]
fn config_form_takes_valid_settings() {
    let mut c = GatewayConfig::default();
    parse_config_form("wifi_ssid=Office%20Net&mstp_addr=5&mstp_max=64&mstp_baud=76800&dev_name=Main+GW&ip_port=47809", &mut c);
    assert_eq!(c.wifi_ssid, "Office Net");
    assert_eq!(c.mstp_address, 5);
    assert_eq!(c.mstp_max_master, 64);
    assert_eq!(c.mstp_baud_rate, 76800);
    assert_eq!(c.device_name, "Main+GW");
    assert_eq!(c.bacnet_ip_port, 47809);
}

#[test]
fn config_form_keeps_invalid_settings() {
    let mut c = GatewayConfig::default();
    parse_config_form("mstp_addr=200&mstp_max=2&mstp_baud=57600&mstp_net=0&ip_net=65535&dev_inst=4194303&wifi_pass=short&ap_ssid=&ip_port=0&dev_name=", &mut c);
    let d = GatewayConfig::default();
    assert_eq!(c.mstp_address, d.mstp_address);
    assert_eq!(c.mstp_max_master, d.mstp_max_master);
    assert_eq!(c.mstp_baud_rate, d.mstp_baud_rate);
    assert_eq!(c.mstp_network, d.mstp_network);
    assert_eq!(c.ip_network, d.ip_network);
    assert_eq!(c.device_instance, d.device_instance);
    assert_eq!(c.wifi_password, d.wifi_password);
    assert_eq!(c.ap_ssid, d.ap_ssid);
    assert_eq!(c.bacnet_ip_port, d.bacnet_ip_port);
    assert_eq!(c.device_name, d.device_name);
    parse_config_form("dev_inst=%2B4194302&wifi_pass=longenough", &mut c);
    assert_eq!(c.device_instance, 4194302);
    assert_eq!(c.wifi_password, "longenough");
}

#[test]
fn bdt_add_form() {
    let mut s = state();
    assert_eq!(parse_bdt_add_form("ip=10.1.2.3&port=47809&mask=255.255.255.0", &mut s), "BDT entry add requested. Entry will be added.");
    assert_eq!(s.bdt_add_request, Some((IpEndpoint::new(10, 1, 2, 3, 47809), [255, 255, 255, 0])));
    let mut s = state();
    assert_eq!(parse_bdt_add_form("ip=10.1.2.3", &mut s), "BDT entry add requested. Entry will be added.");
    assert_eq!(s.bdt_add_request, Some((IpEndpoint::new(10, 1, 2, 3, 47808), [255, 255, 255, 255])));
    let mut s = state();
    assert_eq!(parse_bdt_add_form("ip=10.1.2.300", &mut s), "Invalid IP address format");
    assert_eq!(parse_bdt_add_form("ip=10.01.2.3", &mut s), "Invalid IP address format");
    assert_eq!(parse_bdt_add_form("ip=10.1.2.3&mask=255.255", &mut s), "Invalid subnet mask format");
    assert_eq!(s.bdt_add_request, None);
}

#[test]
fn bdt_remove_form() {
    let mut s = state();
    assert_eq!(parse_bdt_remove_form("addr=10.1.2.3%3A47808", &mut s), "BDT entry remove requested. Entry will be removed.");
    assert_eq!(s.bdt_remove_request, Some(IpEndpoint::new(10, 1, 2, 3, 47808)));
    let mut s = state();
    assert_eq!(parse_bdt_remove_form("addr=10.1.2.3", &mut s), "Invalid address format (expected IP:port)");
    assert_eq!(parse_bdt_remove_form("addr=10.1.2.3:70000", &mut s), "Invalid address format (expected IP:port)");
    assert_eq!(s.bdt_remove_request, None);
}

#[test]
fn uptime_text() {
    let s = state();
    assert_eq!(s.uptime_formatted(1_000 + 59_000), "0m");
    assert_eq!(s.uptime_formatted(1_000 + 3_660_000), "1h 1m");
    assert_eq!(s.uptime_formatted(1_000 + 2 * 86_400_000 + 5 * 3_600_000 + 30 * 60_000), "2d 5h 30m");
    assert_eq!(s.uptime_secs(500), 0);
}

#[test]
fn state_names() {
    assert_eq!(get_state_name(0), "Initialize");
    assert_eq!(get_state_name(8), "DoneWithToken");
    assert_eq!(get_state_name(9), "Unknown");
}

#[test]
fn device_grid_marks_self_and_masters() {
    let html = generate_device_grid_html(0b1010, 3);
    assert!(html.starts_with("<div class=\"grid-cell\" id=\"dev-0\" title=\"Address 0\">0</div>"));
    assert!(html.contains("<div class=\"grid-cell active\" id=\"dev-1\" title=\"Address 1\" onclick=\"showGridDeviceInfo(1)\">1</div>"));
    assert!(html.contains("<div class=\"grid-cell self\" id=\"dev-3\" title=\"Address 3\" onclick=\"showGridDeviceInfo(3)\">3</div>"));
    assert!(html.ends_with("<div class=\"grid-cell\" id=\"dev-127\" title=\"Address 127\">127</div>"));
}

#[test]
fn json_answers() {
    let mut s = state();
    s.discovered_devices.push(DiscoveredDevice { device_instance: 10, mac_address: 5, max_apdu_length: 480, segmentation: 3, vendor_id: 7 });
    assert_eq!(
        generate_devices_json(&s),
        "{\"scan_in_progress\":false,\"devices\":[{\"mac\":5,\"instance\":10,\"vendor\":7,\"max_apdu\":480,\"segmentation\":3}]}"
    );
    s.bdt_entries.push((IpEndpoint::new(10, 0, 0, 1, 47808), [255, 255, 255, 255]));
    assert_eq!(generate_bdt_json(&s), "{\"entries\":[{\"address\":\"10.0.0.1:47808\",\"mask\":\"255.255.255.255\"}]}");
    s.mstp_stats.discovered_masters = 0x0F;
    let j = generate_status_json(&s, 61_000);
    assert!(j.starts_with("{\"rx_frames\":0,"));
    assert!(j.contains("\"discovered_masters\":\"0000000000000000000000000000000f\""));
    assert!(j.ends_with("\"uptime_secs\":60,\"uptime\":\"1m\"}"));
}

#[test]
fn scan_requests_and_frame_history() {
    let mut s = state();
    assert_eq!(s.request_scan(), "{\"status\":\"ok\",\"message\":\"Scan started\"}");
    assert_eq!(s.request_scan(), "{\"status\":\"busy\",\"message\":\"Scan already in progress\"}");
    assert!(s.take_scan_request());
    assert!(!s.take_scan_request());
    s.stop_scan();
    assert!(!s.scan_in_progress);
    for i in 0..12u8 {
        s.add_rx_frame(i, &[i, 0xAB]);
    }
    assert_eq!(s.last_rx_frames.len(), 10);
    assert_eq!(s.last_rx_frames[0], (2, "02 AB".to_string()));
    assert!(s.debug_frames_json().starts_with("{\"frames\":[{\"mac\":2,\"data\":\"02 AB\"},"));
}
