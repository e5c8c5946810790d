use mstp_gateway::bytes::IpEndpoint;
use mstp_gateway::config::GatewayConfig;
use mstp_gateway::pages::{
    generate_bdt_page, generate_bdt_page_with_message, generate_config_page, generate_config_page_with_message,
    generate_status_page, CSS_STYLES,
};
use mstp_gateway::web::WebState;

fn state() -> WebState {
    WebState::new(GatewayConfig::default(), 1_000)
}

#[test]
fn status_page_shows_statistics() {
    let mut s = state();
    s.mstp_stats.rx_frames = 4711;
    s.mstp_stats.crc_errors = 2;
    s.mstp_stats.sole_master = true;
    s.wifi_connected = true;
    s.ip_address = "10.0.0.7".to_string();
    let page = generate_status_page(&s, 3_723_000);
    assert!(page.starts_with("<!DOCTYPE html>"));
    assert!(page.contains(CSS_STYLES));
    assert!(page.contains(r#"<span class="value" id="rx_frames">4711</span>"#));
    assert!(page.contains(r#"<span class="value error" id="crc_errors">2</span>"#));
    assert!(page.contains(r#"<span class="value " id="frame_errors">0</span>"#));
    assert!(page.contains(r#"<span class="value warning" id="sole_master">Yes</span>"#));
    assert!(page.contains("Connected"));
    assert!(page.contains("10.0.0.7"));
    assert!(page.contains(r#"<span class="value" id="uptime">1h 2m</span>"#));
    assert!(page.contains("65001"));
    assert!(page.contains("updateDeviceGrid('00000000000000000000000000000000', 0)"));
    assert!(page.ends_with("</html>"));
}

#[test]
fn config_page_message_box() {
    let s = state();
    let plain = generate_config_page(&s);
    assert_eq!(plain, generate_config_page_with_message(&s, ""));
    assert!(!plain.contains(r#"<div class="message">"#));
    let saved = generate_config_page_with_message(&s, "Saved");
    assert!(saved.contains(r#"<div class="message">Saved</div>"#));
    assert!(saved.contains(r#"<option value="38400" selected>38400</option>"#));
    assert!(saved.contains(r#"<option value="9600" >9600</option>"#));
    assert!(saved.contains(r#"value="BACman-Gateway""#));
}

#[test]
fn bdt_page_lists_entries() {
    let mut s = state();
    let empty = generate_bdt_page(&s);
    assert!(empty.contains("No BDT entries configured"));
    s.bdt_entries.push((IpEndpoint::new(192, 168, 1, 10, 47808), [255, 255, 255, 0]));
    s.bdt_entries.push((IpEndpoint::new(10, 0, 0, 1, 47809), [255, 255, 0, 0]));
    let page = generate_bdt_page_with_message(&s, "Added");
    assert!(!page.contains("No BDT entries configured"));
    assert!(page.contains(r#"<span class="addr">192.168.1.10:47808</span>"#));
    assert!(page.contains(r#"<span class="mask">mask: 255.255.0.0</span>"#));
    assert!(page.contains(r#"<input type="hidden" name="addr" value="10.0.0.1:47809">"#));
    assert!(page.contains("</div>\n<div class=\"bdt-entry\">"));
    assert!(page.contains(r#"<div class="message">Added</div>"#));
}
