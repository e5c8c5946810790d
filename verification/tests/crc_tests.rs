use mstp_gateway::crc::{
    calculate_data_crc, calculate_data_crc_register, calculate_header_crc,
    calculate_header_crc_register,
};
use mstp_gateway::mstp_frame::{build_frame, find_preamble};

#[test]
fn test_header_crc_token_frame_ashrae_vector() {
    let header = [0x00u8, 0x10, 0x05, 0x00, 0x00];
    let register = calculate_header_crc_register(&header);
    assert_eq!(register, 0x73, "Header CRC register mismatch: expected 0x73, got 0x{:02X}", register);
    let crc = calculate_header_crc(&header);
    assert_eq!(crc, 0x8C, "Header CRC mismatch: expected 0x8C, got 0x{:02X}", crc);
}

#[test]
fn test_header_crc_receiver_validation() {
    let header_with_crc = [0x00u8, 0x10, 0x05, 0x00, 0x00, 0x8C];
    let register = calculate_header_crc_register(&header_with_crc);
    assert_eq!(register, 0x55, "Receiver validation failed: expected 0x55, got 0x{:02X}", register);
}

#[test]
fn test_header_crc_poll_for_master() {
    let header = [0x01u8, 0x7F, 0x03, 0x00, 0x00];
    let crc = calculate_header_crc(&header);
    let mut header_with_crc = header.to_vec();
    header_with_crc.push(crc);
    let receiver_check = calculate_header_crc_register(&header_with_crc);
    assert_eq!(receiver_check, 0x55, "PFM receiver validation failed: expected 0x55, got 0x{:02X}", receiver_check);
}

#[test]
fn test_header_crc_data_frame() {
    let header = [0x06u8, 0x0A, 0x14, 0x00, 0x04];
    let crc = calculate_header_crc(&header);
    let mut header_with_crc = header.to_vec();
    header_with_crc.push(crc);
    let receiver_check = calculate_header_crc_register(&header_with_crc);
    assert_eq!(receiver_check, 0x55, "Data frame receiver validation failed: expected 0x55, got 0x{:02X}", receiver_check);
}

#[test]
fn test_data_crc_ashrae_vector() {
    let data = [0x01u8, 0x22, 0x30];
    // The register after each byte is the register of the prefix read so far.
    let crc = calculate_data_crc_register(&data[..1]);
    assert_eq!(crc, 0x1E0E, "After 0x01: expected 0x1E0E, got 0x{:04X}", crc);
    let crc = calculate_data_crc_register(&data[..2]);
    assert_eq!(crc, 0xEB70, "After 0x22: expected 0xEB70, got 0x{:04X}", crc);
    let crc = calculate_data_crc_register(&data[..3]);
    assert_eq!(crc, 0x42EF, "After 0x30: expected 0x42EF, got 0x{:04X}", crc);
    let final_crc = calculate_data_crc(&data);
    assert_eq!(final_crc, 0xBD10, "Final CRC mismatch: expected 0xBD10, got 0x{:04X}", final_crc);
}

#[test]
fn test_data_crc_receiver_validation() {
    let data_with_crc = [0x01u8, 0x22, 0x30, 0x10, 0xBD];
    let register = calculate_data_crc_register(&data_with_crc);
    assert_eq!(register, 0xF0B8, "Receiver validation failed: expected 0xF0B8, got 0x{:04X}", register);
}

#[test]
fn test_data_crc_empty() {
    let data: [u8; 0] = [];
    let crc = calculate_data_crc(&data);
    assert_eq!(crc, 0x0000, "Empty data CRC mismatch: expected 0x0000, got 0x{:04X}", crc);
}

#[test]
fn test_data_crc_single_byte() {
    let data = [0x00u8];
    let crc = calculate_data_crc(&data);
    let mut data_with_crc = data.to_vec();
    data_with_crc.push((crc & 0xFF) as u8);
    data_with_crc.push((crc >> 8) as u8);
    let receiver_check = calculate_data_crc_register(&data_with_crc);
    assert_eq!(receiver_check, 0xF0B8, "Single byte receiver validation failed: expected 0xF0B8, got 0x{:04X}", receiver_check);
}

#[test]
fn test_token_frame_encoding() {
    let frame = build_frame(0x00, 0x10, 0x05, &[]);
    assert_eq!(frame.len(), 8, "Token frame should be 8 bytes");
    assert_eq!(frame[0], 0x55, "Preamble 1 should be 0x55");
    assert_eq!(frame[1], 0xFF, "Preamble 2 should be 0xFF");
    assert_eq!(frame[7], 0x8C, "Header CRC should be 0x8C");
}

#[test]
fn test_poll_for_master_frame_encoding() {
    let frame = build_frame(0x01, 0x7F, 0x03, &[]);
    assert_eq!(frame.len(), 8, "PFM frame should be 8 bytes");
    let receiver_check = calculate_header_crc_register(&frame[2..8]);
    assert_eq!(receiver_check, 0x55, "PFM frame CRC validation failed");
}

#[test]
fn test_data_frame_encoding() {
    let data = [0x01u8, 0x02, 0x03, 0x04];
    let frame = build_frame(0x06, 0x0A, 0x14, &data);
    assert_eq!(frame.len(), 14, "Data frame should be 14 bytes");
    let header_check = calculate_header_crc_register(&frame[2..8]);
    assert_eq!(header_check, 0x55, "Data frame header CRC validation failed");
    let data_check = calculate_data_crc_register(&frame[8..14]);
    assert_eq!(data_check, 0xF0B8, "Data frame data CRC validation failed");
    assert_eq!(&frame[8..12], &data);
}

#[test]
fn test_preamble_detection() {
    let valid_preamble = [0x55u8, 0xFF];
    assert_eq!(valid_preamble[0], 0x55);
    assert_eq!(valid_preamble[1], 0xFF);
    assert_eq!(find_preamble(&valid_preamble), Some(0));

    // Several 0x55 sync bytes before 0xFF: the preamble is the last 0x55 and the 0xFF.
    let extended_preamble = [0x55u8, 0x55, 0x55, 0xFF];
    let ff_pos = find_preamble(&extended_preamble).map(|i| i + 1);
    assert_eq!(ff_pos, Some(3), "Should find 0xFF at position 3");
}

#[test]
fn test_frame_parsing() {
    let frame = [0x55u8, 0xFF, 0x00, 0x10, 0x05, 0x00, 0x00, 0x8C];
    assert_eq!(frame[0], 0x55, "First byte should be 0x55");
    assert_eq!(frame[1], 0xFF, "Second byte should be 0xFF");
    let frame_type = frame[2];
    let dest = frame[3];
    let src = frame[4];
    let len = ((frame[5] as u16) << 8) | (frame[6] as u16);
    let header_crc = frame[7];
    assert_eq!(frame_type, 0x00, "Frame type should be Token (0x00)");
    assert_eq!(dest, 0x10, "Destination should be 0x10");
    assert_eq!(src, 0x05, "Source should be 0x05");
    assert_eq!(len, 0, "Length should be 0");
    assert_eq!(header_crc, 0x8C, "Header CRC should be 0x8C");
    let crc_check = calculate_header_crc_register(&frame[2..8]);
    assert_eq!(crc_check, 0x55, "CRC validation should yield 0x55");
}

#[test]
fn test_header_crc_detects_single_bit_error() {
    let frame = [0x55u8, 0xFF, 0x00, 0x10, 0x05, 0x00, 0x00, 0x8C];
    let mut corrupted = frame;
    corrupted[3] ^= 0x01;
    let crc_check = calculate_header_crc_register(&corrupted[2..8]);
    assert_ne!(crc_check, 0x55, "CRC should detect single bit error");
}

#[test]
fn test_data_crc_detects_single_bit_error() {
    let data = [0x01u8, 0x22, 0x30];
    let crc = calculate_data_crc(&data);
    let mut data_with_crc = data.to_vec();
    data_with_crc.push((crc & 0xFF) as u8);
    data_with_crc.push((crc >> 8) as u8);
    data_with_crc[1] ^= 0x01;
    let crc_check = calculate_data_crc_register(&data_with_crc);
    assert_ne!(crc_check, 0xF0B8, "Data CRC should detect single bit error");
}
