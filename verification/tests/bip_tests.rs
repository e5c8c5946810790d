use mstp_gateway::router_msgs::mask_of_prefix;
use mstp_gateway::bip::{
    detect_subnet_mask, global_broadcast, BacnetIpDataLink, BroadcastConfig, BroadcastFailure,
    BroadcastResult, BroadcastSuccess, BroadcastType, BvlcFunction, BvlcHeader, DataLinkError,
};
use mstp_gateway::bytes::IpEndpoint;
use mstp_gateway::router_msgs::calculate_broadcast_address;

fn loopback() -> IpEndpoint {
    IpEndpoint::new(127, 0, 0, 1, 0)
}

#[test]
fn test_bvlc_header_encode_decode() {
    let header = BvlcHeader::new(BvlcFunction::OriginalUnicastNpdu, 1024);
    let encoded = header.encode();
    assert_eq!(encoded.len(), 4);
    assert_eq!(encoded[0], 0x81);
    assert_eq!(encoded[1], 0x0A);
    assert_eq!(encoded[2], 0x04);
    assert_eq!(encoded[3], 0x00);
    let decoded = BvlcHeader::decode(&encoded).unwrap();
    assert_eq!(decoded.bvlc_type, 0x81);
    assert_eq!(decoded.function, BvlcFunction::OriginalUnicastNpdu);
    assert_eq!(decoded.length, 1024);
}

#[test]
fn test_bacnet_ip_creation() {
    let datalink = BacnetIpDataLink::new(loopback(), None);
    assert_eq!(*datalink.subnet_mask(), [255, 0, 0, 0]);
    assert_eq!(datalink.local_broadcast_addr().ip, [127, 255, 255, 255]);
}

#[test]
fn test_broadcast_address_calculation() {
    let ip = [192, 168, 1, 100];
    assert_eq!(calculate_broadcast_address(ip, [255, 255, 255, 0]), [192, 168, 1, 255]);
    assert_eq!(calculate_broadcast_address(ip, [255, 255, 0, 0]), [192, 168, 255, 255]);
    assert_eq!(calculate_broadcast_address([10, 20, 30, 40], [255, 0, 0, 0]), [10, 255, 255, 255]);
    let mask = [255, 255, 255, 128];
    assert_eq!(calculate_broadcast_address([172, 16, 10, 50], mask), [172, 16, 10, 127]);
    assert_eq!(calculate_broadcast_address([172, 16, 10, 200], mask), [172, 16, 10, 255]);
}

#[test]
fn test_broadcast_config_default() {
    let config = BroadcastConfig::default();
    assert!(config.use_global_broadcast);
    assert!(config.use_local_broadcast);
    assert!(config.subnet_mask.is_none());
    assert!(config.additional_broadcasts.is_empty());
}

#[test]
fn test_broadcast_config_with_subnet_mask() {
    let config = BroadcastConfig::with_subnet_mask([255, 255, 0, 0]);
    assert!(config.use_global_broadcast);
    assert!(config.use_local_broadcast);
    assert_eq!(config.subnet_mask, Some([255, 255, 0, 0]));
}

#[test]
fn test_broadcast_config_global_only() {
    let config = BroadcastConfig::global_only();
    assert!(config.use_global_broadcast);
    assert!(!config.use_local_broadcast);
}

#[test]
fn test_broadcast_config_local_only() {
    let config = BroadcastConfig::local_only();
    assert!(!config.use_global_broadcast);
    assert!(config.use_local_broadcast);
}

#[test]
fn test_broadcast_config_with_additional() {
    let config = BroadcastConfig::default()
        .with_additional_broadcast([192, 168, 1, 255])
        .with_additional_broadcast([10, 0, 0, 255]);
    assert_eq!(config.additional_broadcasts.len(), 2);
    assert_eq!(config.additional_broadcasts[0], [192, 168, 1, 255]);
    assert_eq!(config.additional_broadcasts[1], [10, 0, 0, 255]);
}

#[test]
fn test_broadcast_config_builder_chain() {
    let config = BroadcastConfig::with_subnet_mask([255, 255, 255, 0])
        .without_global_broadcast()
        .with_additional_broadcast([192, 168, 2, 255]);
    assert!(!config.use_global_broadcast);
    assert!(config.use_local_broadcast);
    assert_eq!(config.subnet_mask, Some([255, 255, 255, 0]));
    assert_eq!(config.additional_broadcasts.len(), 1);
}

#[test]
fn test_detect_subnet_mask_classful() {
    let mask = detect_subnet_mask([10, 0, 0, 1], None);
    assert!(mask[0] == 255);
    let mask = detect_subnet_mask([172, 16, 0, 1], None);
    assert!(mask[0] == 255 && mask[1] == 255);
    let mask = detect_subnet_mask([192, 168, 1, 1], None);
    assert!(mask[0] == 255 && mask[1] == 255 && mask[2] == 255);
    assert_eq!(detect_subnet_mask([192, 168, 1, 1], Some([255, 255, 252, 0])), [255, 255, 252, 0]);
}

#[test]
fn test_bacnet_ip_with_config() {
    let config = BroadcastConfig::with_subnet_mask([255, 255, 255, 0]);
    let datalink = BacnetIpDataLink::with_config(loopback(), config, None);
    assert_eq!(datalink.subnet_mask(), &[255, 255, 255, 0]);
    assert!(datalink.broadcast_config().use_global_broadcast);
    assert!(datalink.broadcast_config().use_local_broadcast);
}

#[test]
fn test_global_broadcast_constant() {
    assert_eq!(global_broadcast(), [255, 255, 255, 255]);
}

#[test]
fn test_broadcast_result() {
    let mut result = BroadcastResult::default();
    assert_eq!(result.success_count(), 0);
    assert_eq!(result.failure_count(), 0);
    assert!(!result.any_success());
    assert!(!result.all_success());

    result.successes.push(BroadcastSuccess {
        address: IpEndpoint::new(192, 168, 1, 255, 47808),
        bytes_sent: 100,
        broadcast_type: BroadcastType::LocalSubnet,
    });
    assert_eq!(result.success_count(), 1);
    assert!(result.any_success());
    assert!(result.all_success());
    assert_eq!(result.total_bytes_sent(), 100);

    result.failures.push(BroadcastFailure {
        address: IpEndpoint::new(10, 0, 0, 255, 47808),
        error: "Network unreachable".to_string(),
        broadcast_type: BroadcastType::Additional,
    });
    assert_eq!(result.failure_count(), 1);
    assert!(result.any_success());
    assert!(!result.all_success());
}

#[test]
fn test_set_broadcast_config() {
    let mut datalink = BacnetIpDataLink::new(loopback(), None);
    let initial_mask = *datalink.subnet_mask();
    let new_config = BroadcastConfig::with_subnet_mask([255, 255, 0, 0]);
    datalink.set_broadcast_config(new_config);
    assert_eq!(datalink.subnet_mask(), &[255, 255, 0, 0]);
    assert_ne!(*datalink.subnet_mask(), initial_mask);
    assert_eq!(datalink.local_broadcast_addr().ip, [127, 0, 255, 255]);
}

#[test]
fn broadcast_destinations_in_order_without_duplicates() {
    let config = BroadcastConfig::with_subnet_mask([255, 255, 255, 0])
        .with_additional_broadcast([192, 168, 1, 255])
        .with_additional_broadcast([10, 0, 0, 255]);
    let mut datalink = BacnetIpDataLink::with_config(IpEndpoint::new(192, 168, 1, 10, 47808), config, None);
    datalink.add_bdt_entry(IpEndpoint::new(10, 1, 1, 1, 47808), [255, 255, 255, 255]);
    let d = datalink.broadcast_destinations();
    assert_eq!(d.len(), 4);
    assert_eq!(d[0], (IpEndpoint::new(255, 255, 255, 255, 47808), BroadcastType::Global));
    assert_eq!(d[1], (IpEndpoint::new(192, 168, 1, 255, 47808), BroadcastType::LocalSubnet));
    assert_eq!(d[2], (IpEndpoint::new(10, 0, 0, 255, 47808), BroadcastType::Additional));
    assert_eq!(d[3], (IpEndpoint::new(10, 1, 1, 1, 47808), BroadcastType::Bbmd));
}

#[test]
fn bvlc_decode_rejects_bad_headers() {
    assert!(matches!(BvlcHeader::decode(&[0x81, 0x0A, 0x00]), Err(DataLinkError::InvalidFrame)));
    assert!(BvlcHeader::decode(&[0x82, 0x0A, 0x00, 0x04]).is_err());
    assert!(BvlcHeader::decode(&[0x81, 0x7F, 0x00, 0x04]).is_err());
}

#[test]
fn masks_of_prefix_lengths() {
    assert_eq!(mask_of_prefix(0), [0, 0, 0, 0]);
    assert_eq!(mask_of_prefix(8), [255, 0, 0, 0]);
    assert_eq!(mask_of_prefix(20), [255, 255, 240, 0]);
    assert_eq!(mask_of_prefix(24), [255, 255, 255, 0]);
    assert_eq!(mask_of_prefix(32), [255, 255, 255, 255]);
}
