use mstp_gateway::gateway::BacnetGateway;
use mstp_gateway::npdu::{hex_dump, parse_npdu, GatewayError};
use mstp_gateway::router_msgs::{RejectReason, NL_REJECT_MESSAGE_TO_NETWORK};

#[test]
fn test_hex_dump_short() {
    let data = vec![0x01, 0x02, 0x03, 0x04];
    let result = hex_dump(&data, 64);
    assert_eq!(result, "len=4 [01 02 03 04]");
}

#[test]
fn test_hex_dump_long() {
    let data = vec![0xAA; 100];
    let result = hex_dump(&data, 8);
    assert!(result.contains("len=100"));
    assert!(result.contains("...and 92 more"));
    assert!(result.contains("AA AA AA AA AA AA AA AA"));
}

#[test]
fn test_hex_dump_empty() {
    let data = vec![];
    let result = hex_dump(&data, 64);
    assert_eq!(result, "len=0 []");
}

#[test]
fn test_parse_npdu_too_short() {
    let data = vec![0x01];
    let result = parse_npdu(&data);
    assert!(result.is_err());
    if let Err(GatewayError::NpduError(msg)) = result {
        assert!(msg.contains("too short"));
        assert!(msg.contains("minimum 2"));
    }
}

#[test]
fn test_parse_npdu_invalid_version() {
    let data = vec![0x02, 0x00];
    let result = parse_npdu(&data);
    assert!(result.is_err());
    if let Err(GatewayError::NpduError(msg)) = result {
        assert!(msg.contains("Invalid NPDU version"));
        assert!(msg.contains("expected 1, got 2"));
    }
}

#[test]
fn test_parse_npdu_truncated_destination() {
    let data = vec![0x01, 0x20, 0x00, 0x01, 0x05];
    let result = parse_npdu(&data);
    assert!(result.is_err());
    if let Err(GatewayError::NpduError(msg)) = result {
        assert!(msg.contains("destination address truncated"));
    }
}

#[test]
fn test_parse_npdu_valid_simple() {
    let data = vec![0x01, 0x00];
    let result = parse_npdu(&data);
    assert!(result.is_ok());
    let (npdu, len) = result.unwrap();
    assert_eq!(len, 2);
    assert!(!npdu.network_message);
    assert!(!npdu.destination_present);
    assert!(!npdu.source_present);
}

#[test]
fn test_reject_reason_codes() {
    assert_eq!(RejectReason::Other as u8, 0);
    assert_eq!(RejectReason::NotRouterToDnet as u8, 1);
    assert_eq!(RejectReason::RouterBusy as u8, 2);
    assert_eq!(RejectReason::UnknownNetworkMessage as u8, 3);
    assert_eq!(RejectReason::MessageTooLong as u8, 4);
    assert_eq!(RejectReason::SecurityError as u8, 5);
    assert_eq!(RejectReason::AddressingError as u8, 6);
    assert_eq!(RejectReason::AddressingError.code(), 6);
}

#[test]
fn test_build_reject_message_to_network() {
    let gateway = BacnetGateway::new_default(1, 2, [192, 168, 1, 100]);
    let reject = gateway.build_reject_message_to_network(RejectReason::NotRouterToDnet, 999);
    assert_eq!(reject[0], 0x01);
    assert_eq!(reject[1], 0x80);
    assert_eq!(reject[2], NL_REJECT_MESSAGE_TO_NETWORK);
    assert_eq!(reject[3], RejectReason::NotRouterToDnet as u8);
    assert_eq!(reject[4], (999u16 >> 8) as u8);
    assert_eq!(reject[5], (999u16 & 0xFF) as u8);
}
