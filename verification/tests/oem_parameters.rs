use pokeys_lib::communication::Protocol;
use pokeys_lib::oem_parameters::{
    parse_oem_read_response, parse_oem_write_response, validate_index, LOCATION_PARAMETER_INDEX, OEM_PARAMETER_MAX_INDEX,
    OEM_PARAM_CLEAR, OEM_PARAM_CMD, OEM_PARAM_READ, OEM_PARAM_WRITE, RESP_STATUS, RESP_SUBCMD, RESP_VALUE_START,
};
use pokeys_lib::types::{REQUEST_HEADER, RESPONSE_BUFFER_SIZE, RESPONSE_HEADER};
use pokeys_lib::PoKeysError;


#[test]
fn validate_index_accepts_boundary_values() {
    assert!(validate_index(0).is_ok());
    assert!(validate_index(61).is_ok());
}

#[test]
fn validate_index_rejects_out_of_range() {
    let err = validate_index(62).unwrap_err();
    assert!(matches!(err, PoKeysError::Parameter(_)));
    assert!(err.to_string().contains("62"));
}


#[test]
fn read_request_packet_layout() {
    let mut protocol = Protocol::new();
    let pkt = protocol.prepare_request(OEM_PARAM_CMD, OEM_PARAM_READ, 5, 1, 0, None);

    assert_eq!(pkt[0], REQUEST_HEADER); // 0xBB
    assert_eq!(pkt[1], OEM_PARAM_CMD); // 0xFD
    assert_eq!(pkt[2], OEM_PARAM_READ); // 0x00
    assert_eq!(pkt[3], 5); // parameter index
    assert_eq!(pkt[4], 1); // count
    assert_eq!(pkt[5], 0); // reserved
    assert_eq!(pkt[7], Protocol::calculate_checksum(&pkt));
}


#[test]
fn write_request_packet_layout() {
    let mut protocol = Protocol::new();
    let mut pkt = protocol.prepare_request(OEM_PARAM_CMD, OEM_PARAM_WRITE, 3, 0, 0, None);

    let value: i32 = 0x0102_0304;
    let value_bytes = value.to_le_bytes();
    pkt[8..12].copy_from_slice(&value_bytes);
    pkt[7] = Protocol::calculate_checksum(&pkt);

    assert_eq!(pkt[1], OEM_PARAM_CMD);
    assert_eq!(pkt[2], OEM_PARAM_WRITE);
    assert_eq!(pkt[3], 3); // parameter index
    assert_eq!(&pkt[8..12], &value_bytes);
    assert_eq!(pkt[7], Protocol::calculate_checksum(&pkt));
}


#[test]
fn read_response_parses_set_parameter() {
    let mut response = [0u8; RESPONSE_BUFFER_SIZE];
    response[0] = RESPONSE_HEADER; // 0xAA
    response[1] = OEM_PARAM_CMD; // 0xFD
    response[2] = OEM_PARAM_READ; // 0x00
    response[3] = LOCATION_PARAMETER_INDEX; // index
    response[4] = 1; // count
    response[5] = 0x01; // status: bit 0 set → parameter is set
    response[6] = 1; // request ID
    let value: i32 = 42;
    response[8..12].copy_from_slice(&value.to_le_bytes());
    response[7] = Protocol::calculate_checksum(&response);

    assert_eq!(response[RESP_SUBCMD], OEM_PARAM_READ);
    assert_ne!(response[RESP_STATUS] & 0x01, 0);
    let parsed = i32::from_le_bytes([
        response[RESP_VALUE_START],
        response[RESP_VALUE_START + 1],
        response[RESP_VALUE_START + 2],
        response[RESP_VALUE_START + 3],
    ]);
    assert_eq!(parsed, 42);
}

#[test]
fn read_response_detects_unset_parameter() {
    let mut response = [0u8; RESPONSE_BUFFER_SIZE];
    response[0] = RESPONSE_HEADER;
    response[1] = OEM_PARAM_CMD;
    response[2] = OEM_PARAM_READ;
    response[5] = 0x00; // status: bit 0 clear → parameter not set
    response[6] = 1;
    response[7] = Protocol::calculate_checksum(&response);

    assert_eq!(response[RESP_STATUS] & 0x01, 0);
}

#[test]
fn write_response_echo_check() {
    let value: i32 = -99;
    let mut response = [0u8; RESPONSE_BUFFER_SIZE];
    response[0] = RESPONSE_HEADER;
    response[1] = OEM_PARAM_CMD;
    response[2] = OEM_PARAM_WRITE;
    response[3] = LOCATION_PARAMETER_INDEX;
    response[6] = 1;
    response[8..12].copy_from_slice(&value.to_le_bytes());
    response[7] = Protocol::calculate_checksum(&response);

    let echoed = i32::from_le_bytes([
        response[RESP_VALUE_START],
        response[RESP_VALUE_START + 1],
        response[RESP_VALUE_START + 2],
        response[RESP_VALUE_START + 3],
    ]);
    assert_eq!(echoed, value);
}


#[test]
fn clear_request_packet_layout() {
    let mut protocol = Protocol::new();
    let pkt = protocol.prepare_request(OEM_PARAM_CMD, OEM_PARAM_CLEAR, 7, 0, 0, None);

    assert_eq!(pkt[0], REQUEST_HEADER);
    assert_eq!(pkt[1], OEM_PARAM_CMD);
    assert_eq!(pkt[2], OEM_PARAM_CLEAR);
    assert_eq!(pkt[3], 7); // parameter index
    assert_eq!(pkt[4], 0); // reserved
    assert_eq!(pkt[5], 0); // reserved
    assert_eq!(pkt[7], Protocol::calculate_checksum(&pkt));
}

#[test]
fn clear_response_subcmd_check() {
    let mut response = [0u8; RESPONSE_BUFFER_SIZE];
    response[0] = RESPONSE_HEADER;
    response[1] = OEM_PARAM_CMD;
    response[2] = OEM_PARAM_CLEAR;
    response[3] = 7; // parameter index echoed
    response[6] = 1;
    response[7] = Protocol::calculate_checksum(&response);

    assert_eq!(response[RESP_SUBCMD], OEM_PARAM_CLEAR);
}


#[test]
fn location_index_is_within_range() {
    assert!(LOCATION_PARAMETER_INDEX <= OEM_PARAMETER_MAX_INDEX);
}

#[test]
fn read_response_parser_matches_the_layout() {
    let mut response = [0u8; RESPONSE_BUFFER_SIZE];
    response[5] = 1;
    response[8..12].copy_from_slice(&(-7i32).to_le_bytes());
    assert_eq!(parse_oem_read_response(&response).unwrap(), Some(-7));
    response[5] = 2;
    assert_eq!(parse_oem_read_response(&response).unwrap(), None);
    response[2] = 1;
    match parse_oem_read_response(&response) {
        Err(PoKeysError::Protocol(m)) => assert_eq!(m, "OEM read: unexpected response sub-command 0x01"),
        _ => panic!("expected a protocol error"),
    }
}

#[test]
fn write_response_parser_checks_the_echo() {
    let mut response = [0u8; RESPONSE_BUFFER_SIZE];
    response[2] = 1;
    response[8..12].copy_from_slice(&5i32.to_le_bytes());
    assert!(parse_oem_write_response(&response, 5).is_ok());
    match parse_oem_write_response(&response, -3) {
        Err(PoKeysError::Protocol(m)) => assert_eq!(m, "OEM write: echoed value 5 does not match written value -3"),
        _ => panic!("expected a protocol error"),
    }
}

#[test]
fn index_message_names_the_range() {
    match validate_index(200) {
        Err(PoKeysError::Parameter(m)) => assert_eq!(m, "OEM parameter index 200 out of range (valid range 0–61)"),
        _ => panic!("expected a parameter error"),
    }
}
