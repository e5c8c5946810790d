use mstp_gateway::config::StoredConfig;
use mstp_gateway::bytes::IpEndpoint;
use mstp_gateway::config::{BdtEntryConfig, GatewayConfig, NetworkTablePersistence, RoutingTableEntryConfig};

#[test]
fn default_configuration() {
    let c = GatewayConfig::default();
    assert_eq!(c.mstp_address, 3);
    assert_eq!(c.mstp_max_master, 127);
    assert_eq!(c.mstp_baud_rate, 38400);
    assert_eq!(c.mstp_network, 65001);
    assert_eq!(c.bacnet_ip_port, 47808);
    assert_eq!(c.ip_network, 10001);
    assert_eq!(c.device_instance, 1234);
    assert_eq!(c.ap_ssid, "BACman-Gateway");
    assert!(c.wifi_ssid.is_empty());
}

#[test]
fn bdt_blob_roundtrip() {
    let entries = vec![
        BdtEntryConfig { address: IpEndpoint::new(10, 1, 1, 1, 47808), broadcast_mask: 0xFFFF_FFFF },
        BdtEntryConfig { address: IpEndpoint::new(172, 16, 0, 9, 47809), broadcast_mask: 0xFFFF_FF00 },
    ];
    let (count, blob) = NetworkTablePersistence::encode_bdt(&entries);
    assert_eq!(count, 2);
    assert_eq!(blob.len(), 20);
    assert_eq!(&blob[..10], &[10, 1, 1, 1, 0xBA, 0xC0, 0xFF, 0xFF, 0xFF, 0xFF]);
    let back = NetworkTablePersistence::decode_bdt(&blob);
    assert_eq!(back.len(), 2);
    assert_eq!(back[1].address, entries[1].address);
    assert_eq!(back[1].broadcast_mask, 0xFFFF_FF00);
    // A trailing partial entry is ignored.
    let mut longer = blob.clone();
    longer.push(7);
    assert_eq!(NetworkTablePersistence::decode_bdt(&longer).len(), 2);
}

#[test]
fn routing_table_blob_roundtrip() {
    let entries = vec![
        RoutingTableEntryConfig { network: 5, port_id: 1, port_info: vec![] },
        RoutingTableEntryConfig { network: 300, port_id: 2, port_info: vec![9, 8, 7] },
    ];
    let (count, blob) = NetworkTablePersistence::encode_routing_table(&entries);
    assert_eq!(count, 2);
    assert_eq!(blob, vec![0, 5, 1, 0, 1, 44, 2, 3, 9, 8, 7]);
    let back = NetworkTablePersistence::decode_routing_table(count, &blob);
    assert_eq!(back.len(), 2);
    assert_eq!(back[1].network, 300);
    assert_eq!(back[1].port_info, vec![9, 8, 7]);
    // Fewer entries than counted: decoding stops at the end of the data.
    assert_eq!(NetworkTablePersistence::decode_routing_table(5, &blob).len(), 2);
}

fn nothing_stored() -> StoredConfig {
    StoredConfig {
        configured: None,
        wifi_ssid: None,
        wifi_password: None,
        ap_ssid: None,
        ap_password: None,
        mstp_address: None,
        mstp_max_master: None,
        mstp_baud_rate: None,
        mstp_network: None,
        bacnet_ip_port: None,
        ip_network: None,
        device_instance: None,
        device_name: None,
    }
}

#[test]
fn stored_values_apply_only_when_saved() {
    let mut st = nothing_stored();
    st.mstp_address = Some(9);
    st.wifi_ssid = Some("Plant".to_string());
    let c = GatewayConfig::from_stored(st.clone());
    assert_eq!(c.mstp_address, 3);
    assert_eq!(c.wifi_ssid, "");
    st.configured = Some(0);
    let c = GatewayConfig::from_stored(st.clone());
    assert_eq!(c.mstp_address, 3);
    st.configured = Some(1);
    let c = GatewayConfig::from_stored(st);
    assert_eq!(c.mstp_address, 9);
    assert_eq!(c.wifi_ssid, "Plant");
    assert_eq!(c.mstp_max_master, 127);
    assert_eq!(c.mstp_baud_rate, 38400);
    assert_eq!(c.device_name, "BACman-Gateway");
}
