use mstp_gateway::display::{
    cut_to_bytes, plan_ap_screen, plan_connection_screen, plan_status_screen, DisplayScreen,
    GatewayStatus, TextColor,
};

fn status() -> GatewayStatus {
    GatewayStatus {
        wifi_connected: true,
        ip_address: "192.168.1.100".to_string(),
        mstp_network: 65001,
        ip_network: 10001,
        rx_frames: 12,
        tx_frames: 7,
        crc_errors: 0,
        token_loop_ms: 35,
        master_count: 3,
        mstp_address: 3,
        mstp_max_master: 127,
        mstp_baud_rate: 38400,
        mstp_state: "Idle".to_string(),
        has_token: false,
        ap_mode_active: false,
        ap_ssid: "BACman-Gateway".to_string(),
        ap_ip: String::new(),
        ap_clients: 0,
    }
}

#[test]
fn screens_cycle() {
    assert_eq!(DisplayScreen::Status.next(), DisplayScreen::Connection);
    assert_eq!(DisplayScreen::Splash.next(), DisplayScreen::Status);
    assert_eq!(DisplayScreen::from_u8(6), DisplayScreen::APConfig);
    assert_eq!(DisplayScreen::default(), DisplayScreen::Status);
}

#[test]
fn status_screen_draws_everything_first_then_changes() {
    let s = status();
    let all = plan_status_screen(&None, &s);
    assert_eq!(all.len(), 7);
    assert_eq!(all[0].text, "WiFi:OK 192.168.1.100");
    assert_eq!(all[0].color, TextColor::Green);
    assert_eq!(all[1].text, "65001<->10001");
    assert_eq!(all[4].text, "35ms");
    let mut s2 = s.clone();
    s2.rx_frames = 13;
    s2.crc_errors = 2;
    let changes = plan_status_screen(&Some(s.clone()), &s2);
    assert_eq!(changes.len(), 2);
    assert_eq!((changes[0].x, changes[0].y), (28, 75));
    assert_eq!(changes[0].text, "13");
    assert_eq!(changes[1].color, TextColor::Red);
    assert!(plan_status_screen(&Some(s.clone()), &s).is_empty());
}

#[test]
fn connection_screen() {
    let s = status();
    let all = plan_connection_screen(&None, &s);
    assert_eq!(all.len(), 5);
    assert_eq!(all[0].text, "Connected (192.168.1.100)");
    assert_eq!(all[3].text, "3 (max: 127)");
    assert_eq!(all[4].text, "Waiting");
    let mut s2 = s.clone();
    s2.has_token = true;
    let ch = plan_connection_screen(&Some(s), &s2);
    assert_eq!(ch.len(), 2);
    assert_eq!(ch[1].text, "Have Token");
}

#[test]
fn ap_screen_and_ssid_cut() {
    let mut s = status();
    s.ap_ssid = "An-Access-Point-Name-Long".to_string();
    let all = plan_ap_screen(&None, &s);
    assert_eq!(all.len(), 4);
    assert_eq!(all[0].text, "Inactive");
    assert_eq!(all[1].text, "An-Access-Point-Na");
    assert_eq!(all[2].text, "192.168.4.1");
    assert_eq!(all[3].text, "-");
    let mut s2 = s.clone();
    s2.ap_mode_active = true;
    s2.ap_ip = "192.168.4.1".to_string();
    s2.ap_clients = 2;
    let ch = plan_ap_screen(&Some(s), &s2);
    assert_eq!(ch.len(), 4);
    assert_eq!(ch[0].text, "ACTIVE");
    assert_eq!(ch[3].text, "2");
    let chars: Vec<char> = "héllo".chars().collect();
    assert_eq!(cut_to_bytes(&chars, 3).iter().collect::<String>(), "hé");
}
