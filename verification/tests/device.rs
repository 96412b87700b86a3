use pokeys_lib::device::{
    check_pokeys57cnc_pin_capability, decode_matrix_kb_mapping_chunk, encode_matrix_kb_config_payload,
    encode_matrix_kb_mapping_chunk, parse_matrix_kb_config_readback, parse_system_load_response,
    validate_matrix_kb_mapping_response, verify_matrix_kb_config_matches, PoKeysDevice,
};
use pokeys_lib::io::PinCapability;
use pokeys_lib::types::{DeviceConnectionType, RESPONSE_BUFFER_SIZE};
use pokeys_lib::{PoKeysError, Result};

#[test]
fn test_device_creation() {
    let device = PoKeysDevice::new(DeviceConnectionType::UsbDevice);
    assert_eq!(device.connection_type, DeviceConnectionType::UsbDevice);
    assert_eq!(device.pins.len(), 0);
}

#[test]
fn test_parse_system_load_response() {
    let mut response = [0u8; RESPONSE_BUFFER_SIZE];
    response[1] = 0x05;
    response[2] = 42;
    assert_eq!(parse_system_load_response(&response), 42);

    response[2] = 0;
    assert_eq!(parse_system_load_response(&response), 0);

    response[2] = 100;
    assert_eq!(parse_system_load_response(&response), 100);
}

#[test]
fn test_encode_matrix_kb_config_payload_layout() {
    let row_pins: Vec<u8> = (1..=16).collect();
    let col_pins = vec![21u8, 22, 23, 24];
    let data = encode_matrix_kb_config_payload(4, 16, &col_pins, &row_pins);

    assert_eq!(data[0], 1);
    assert_eq!(data[1], 0x3F);
    for i in 0..8 {
        assert_eq!(data[2 + i], i as u8, "row {} (low half)", i);
    }
    for i in 0..4 {
        assert_eq!(data[10 + i], 20 + i as u8, "column {}", i);
    }
    assert!(data[18..34].iter().all(|&b| b == 0), "direct/macro bitmap must be zero by default");
    for i in 0..8 {
        assert_eq!(data[34 + i], (8 + i) as u8, "row {} (extended; high half)", 8 + i);
    }
    assert_eq!(data[42], 0);
}

#[test]
fn test_encode_matrix_kb_config_payload_no_extended_rows_when_height_le_8() {
    let row_pins = vec![1u8, 2, 3, 4];
    let col_pins = vec![21u8, 22, 23, 24];
    let data = encode_matrix_kb_config_payload(4, 4, &col_pins, &row_pins);
    assert!(data[34..42].iter().all(|&b| b == 0), "extended row pins must not be written when height <= 8");
}

#[test]
fn test_encode_matrix_kb_mapping_chunk_writes_codes_modifiers_and_triggered_bitmap() {
    let codes: Vec<u8> = (0..128).map(|i| i as u8).collect();
    let modifiers: Vec<u8> = (0..128).map(|i| (i as u8).wrapping_mul(2)).collect();
    let mut triggered = vec![0u8; 128];
    triggered[33] = 1;
    triggered[47] = 99;

    let chunk = encode_matrix_kb_mapping_chunk(&codes, &modifiers, Some(&triggered), 32);
    for i in 0..16 {
        assert_eq!(chunk[i], (32 + i) as u8, "code {i}");
        assert_eq!(chunk[16 + i], (32 + i) as u8 * 2, "modifier {i}");
    }
    let bitmap = u16::from_le_bytes([chunk[32], chunk[33]]);
    assert_eq!(bitmap, (1 << 1) | (1 << 15));
}

#[test]
fn test_encode_matrix_kb_mapping_chunk_omits_bitmap_when_no_triggered() {
    let codes = vec![0u8; 128];
    let modifiers = vec![0u8; 128];
    let chunk = encode_matrix_kb_mapping_chunk(&codes, &modifiers, None, 0);
    assert_eq!(chunk[32], 0);
    assert_eq!(chunk[33], 0);
}

#[test]
fn test_decode_matrix_kb_mapping_chunk_roundtrip() {
    let codes_in: Vec<u8> = (0..128).map(|i| (i as u8).wrapping_add(7)).collect();
    let modifiers_in: Vec<u8> = (0..128).map(|i| (i as u8).wrapping_mul(3)).collect();
    let mut triggered_in = vec![0u8; 128];
    triggered_in[5] = 1;
    triggered_in[20] = 1;

    let chunk = encode_matrix_kb_mapping_chunk(&codes_in, &modifiers_in, Some(&triggered_in), 16);
    let mut response = [0u8; RESPONSE_BUFFER_SIZE];
    response[1] = 0xCA;
    response[8..8 + 16].copy_from_slice(&chunk[0..16]);
    response[24..24 + 16].copy_from_slice(&chunk[16..32]);
    response[40] = chunk[32];
    response[41] = chunk[33];

    let mut codes_out = vec![0u8; 128];
    let mut modifiers_out = vec![0u8; 128];
    let mut triggered_out = vec![0u8; 128];
    decode_matrix_kb_mapping_chunk(&response, &mut codes_out, &mut modifiers_out, Some(&mut triggered_out), 16);

    for i in 16..32 {
        assert_eq!(codes_out[i], codes_in[i], "code {i}");
        assert_eq!(modifiers_out[i], modifiers_in[i], "modifier {i}");
    }
    assert_eq!(triggered_out[20], 1);
    assert_eq!(triggered_out[16], 0);
    assert_eq!(codes_out[0], 0);
    assert_eq!(codes_out[40], 0);
}

#[test]
fn test_validate_matrix_kb_mapping_response_rejects_wrong_command() {
    let mut response = [0u8; RESPONSE_BUFFER_SIZE];
    response[1] = 0xC9;
    assert!(validate_matrix_kb_mapping_response(&response, 12).is_err());
}

#[test]
fn test_validate_matrix_kb_mapping_response_rejects_short_response() {
    let mut response = [0u8; 30];
    response[1] = 0xCA;
    assert!(validate_matrix_kb_mapping_response(&response, 12).is_err());
}

#[test]
fn test_validate_matrix_kb_mapping_response_accepts_valid() {
    let mut response = [0u8; RESPONSE_BUFFER_SIZE];
    response[1] = 0xCA;
    assert!(validate_matrix_kb_mapping_response(&response, 12).is_ok());
}

#[test]
fn test_configure_matrix_keyboard_rejects_pin_in_both_row_and_col() {
    let mut device = PoKeysDevice::new(DeviceConnectionType::UsbDevice);
    let cols = [5u8, 6, 7, 8];
    let rows = [1u8, 2, 3, 5];
    let err = device.configure_matrix_keyboard(4, 4, &cols, &rows).expect_err("must reject overlapping pin assignment");
    match err {
        PoKeysError::Parameter(msg) => {
            assert!(msg.contains("Pin 5"), "error must name the offending pin, got: {msg}");
        }
        other => panic!("expected Parameter error, got {other:?}"),
    }
}

#[test]
fn test_configure_matrix_keyboard_rejects_pin_zero() {
    let mut device = PoKeysDevice::new(DeviceConnectionType::UsbDevice);
    let cols = [5u8, 6, 7, 8];
    let rows = [0u8, 2, 3, 4];
    let err = device.configure_matrix_keyboard(4, 4, &cols, &rows).expect_err("must reject pin 0");
    assert!(matches!(err, PoKeysError::Parameter(_)));
}

#[test]
fn test_configure_matrix_keyboard_rejects_pin_above_55() {
    let mut device = PoKeysDevice::new(DeviceConnectionType::UsbDevice);
    let cols = [5u8, 6, 7, 8];
    let rows = [1u8, 2, 3, 56];
    let err = device.configure_matrix_keyboard(4, 4, &cols, &rows).expect_err("must reject pin 56");
    assert!(matches!(err, PoKeysError::Parameter(_)));
}

#[test]
fn test_configure_matrix_keyboard_only_validates_used_pins() {
    let mut device = PoKeysDevice::new(DeviceConnectionType::UsbDevice);
    let cols = [5u8, 6, 7, 8, 0, 99, 99, 99];
    let rows = [1u8, 2, 3, 4, 0, 99, 99, 99];
    let err = device.configure_matrix_keyboard(4, 4, &cols, &rows).expect_err("expected NotConnected, not Parameter");
    assert!(!matches!(err, PoKeysError::Parameter(_)), "validation should have accepted these pins; got Parameter error: {err:?}");
}

fn make_matrix_kb_readback(enabled: bool, width: u8, height: u8, rows: &[u8], cols: &[u8]) -> [u8; RESPONSE_BUFFER_SIZE] {
    let mut r = [0u8; RESPONSE_BUFFER_SIZE];
    r[1] = 0xCA;
    r[8] = if enabled { 1 } else { 0 };
    r[9] = ((width.saturating_sub(1)) << 4) | (height.saturating_sub(1));
    for (i, &p) in rows.iter().enumerate().take(8) {
        r[10 + i] = p.saturating_sub(1);
    }
    for (i, &p) in cols.iter().enumerate().take(8) {
        r[18 + i] = p.saturating_sub(1);
    }
    for (offset, &p) in rows.iter().enumerate().skip(8).take(8) {
        r[42 + (offset - 8)] = p.saturating_sub(1);
    }
    r
}

fn parse_and_verify(r: &[u8], width: u8, height: u8, cols: &[u8], rows: &[u8], enabled: bool) -> Result<()> {
    let cfg = parse_matrix_kb_config_readback(r)?;
    verify_matrix_kb_config_matches(&cfg, width, height, cols, rows, enabled)
}

#[test]
fn test_parse_readback_returns_full_config() {
    let rows: Vec<u8> = (1..=16).collect();
    let cols = [17u8, 18, 19, 20, 21, 22, 23, 24];
    let mut r = make_matrix_kb_readback(true, 8, 16, &rows, &cols);
    r[26] = 0b0000_0101;
    r[50] = 7;
    r[51] = 25;
    let cfg = parse_matrix_kb_config_readback(&r).expect("parse");
    assert!(cfg.enabled);
    assert_eq!(cfg.width, 8);
    assert_eq!(cfg.height, 16);
    for i in 0..16 {
        assert_eq!(cfg.row_pins[i], (i + 1) as u8);
    }
    for i in 0..8 {
        assert_eq!(cfg.column_pins[i], (17 + i) as u8);
    }
    assert_eq!(cfg.direct_macro_bitmap[0], 0b0000_0101);
    assert_eq!(cfg.alternate_function_pin, 7);
    assert_eq!(cfg.scanning_decimation, 25);
    assert_eq!(cfg.size_byte(), (8u8 - 1) << 4 | (16u8 - 1));
}

#[test]
fn test_verify_readback_accepts_matching_4x4() {
    let rows = [1u8, 2, 3, 4];
    let cols = [5u8, 6, 7, 8];
    let r = make_matrix_kb_readback(true, 4, 4, &rows, &cols);
    parse_and_verify(&r, 4, 4, &cols, &rows, true).expect("must accept");
}

#[test]
fn test_verify_readback_accepts_matching_16x8() {
    let rows: Vec<u8> = (1..=16).collect();
    let cols = [17u8, 18, 19, 20, 21, 22, 23, 24];
    let r = make_matrix_kb_readback(true, 8, 16, &rows, &cols);
    parse_and_verify(&r, 8, 16, &cols, &rows, true).expect("must accept");
}

#[test]
fn test_verify_readback_rejects_disabled_when_expecting_enabled() {
    let rows = [1u8, 2, 3, 4];
    let cols = [5u8, 6, 7, 8];
    let r = make_matrix_kb_readback(false, 4, 4, &rows, &cols);
    let err = parse_and_verify(&r, 4, 4, &cols, &rows, true).expect_err("must reject silent rejection");
    match err {
        PoKeysError::Protocol(msg) => assert!(
            msg.contains("enabled=false") && msg.contains("locked"),
            "error must hint at locked state, got: {msg}"
        ),
        other => panic!("expected Protocol error, got {other:?}"),
    }
}

#[test]
fn test_verify_readback_rejects_wrong_size() {
    let rows = [1u8, 2, 3, 4];
    let cols = [5u8, 6, 7, 8];
    let r = make_matrix_kb_readback(true, 4, 4, &rows, &cols);
    let err = parse_and_verify(&r, 8, 4, &cols, &rows, true).expect_err("must reject size mismatch");
    match err {
        PoKeysError::Protocol(msg) => assert!(
            msg.contains("width=4") && msg.contains("expected width=8"),
            "error must report both actual and expected, got: {msg}"
        ),
        other => panic!("expected Protocol error, got {other:?}"),
    }
}

#[test]
fn test_verify_readback_rejects_wrong_row_pin() {
    let rows = [1u8, 2, 3, 4];
    let cols = [5u8, 6, 7, 8];
    let mut r = make_matrix_kb_readback(true, 4, 4, &rows, &cols);
    r[12] = 99;
    let err = parse_and_verify(&r, 4, 4, &cols, &rows, true).expect_err("must reject pin mismatch");
    assert!(matches!(err, PoKeysError::Protocol(msg) if msg.contains("row pin 2")));
}

#[test]
fn test_verify_readback_rejects_wrong_extended_row_pin() {
    let rows: Vec<u8> = (1..=12).collect();
    let cols = [13u8, 14, 15, 16];
    let mut r = make_matrix_kb_readback(true, 4, 12, &rows, &cols);
    r[44] = 99;
    let err = parse_and_verify(&r, 4, 12, &cols, &rows, true).expect_err("must reject extended row pin mismatch");
    assert!(matches!(err, PoKeysError::Protocol(msg) if msg.contains("extended row pin 10")));
}

#[test]
fn test_parse_readback_rejects_short_response() {
    let mut r = [0u8; 30];
    r[1] = 0xCA;
    let err = parse_matrix_kb_config_readback(&r).expect_err("must reject short response");
    assert!(matches!(err, PoKeysError::Protocol(msg) if msg.contains("readback too short")));
}

#[test]
fn test_verify_readback_disabled_path_skips_size_and_pin_checks() {
    let mut r = [0u8; RESPONSE_BUFFER_SIZE];
    r[1] = 0xCA;
    r[8] = 0;
    r[9] = 0xFF;
    parse_and_verify(&r, 0, 0, &[], &[], false).expect("must accept");
}

#[test]
fn test_parse_readback_rejects_wrong_command_echo() {
    let mut r = [0u8; RESPONSE_BUFFER_SIZE];
    r[1] = 0xC9;
    let err = parse_matrix_kb_config_readback(&r).expect_err("must reject wrong echo");
    assert!(matches!(err, PoKeysError::Protocol(msg) if msg.contains("echo mismatch")));
}

#[test]
fn test_parse_device_data_populates_lock_status() {
    let mut device = PoKeysDevice::new(DeviceConnectionType::UsbDevice);
    let mut response = [0u8; RESPONSE_BUFFER_SIZE];
    response[8..12].copy_from_slice(b"PK58");
    response[4] = 0x12;
    response[5] = 3;
    response[58] = 1;
    device.parse_device_data_response(&response).expect("parse must succeed");
    assert_eq!(device.device_data.device_lock_status, 1);
    assert!(device.device_data.device_locked());
}

#[test]
fn test_parse_device_data_lock_status_zero_means_unlocked() {
    let mut device = PoKeysDevice::new(DeviceConnectionType::UsbDevice);
    let mut response = [0u8; RESPONSE_BUFFER_SIZE];
    response[8..12].copy_from_slice(b"PKEx");
    response[4] = 0x10;
    response[5] = 1;
    response[58] = 0;
    device.parse_device_data_response(&response).expect("parse must succeed");
    assert!(!device.device_data.device_locked());
}

#[test]
fn test_pin_capability_checking() {
    assert!(check_pokeys57cnc_pin_capability(1, PinCapability::DigitalInput));
    assert!(check_pokeys57cnc_pin_capability(1, PinCapability::DigitalOutput));
    assert!(!check_pokeys57cnc_pin_capability(14, PinCapability::DigitalOutput));
    assert!(!check_pokeys57cnc_pin_capability(100, PinCapability::DigitalInput));
}

#[test]
fn unconnected_device_answers_not_connected() {
    let mut device = PoKeysDevice::new(DeviceConnectionType::UsbDevice);
    assert!(matches!(device.get_system_load(), Err(PoKeysError::NotConnected)));
    assert!(matches!(device.save_configuration(), Err(PoKeysError::NotConnected)));
}

#[test]
fn mapping_chunk_law_keys_read_back_as_written() {
    let codes: Vec<u8> = (0..128).map(|i| (i as u8) ^ 0x5A).collect();
    let modifiers: Vec<u8> = (0..128).map(|i| (i as u8).wrapping_add(100)).collect();
    let mut triggered = vec![0u8; 128];
    triggered[100] = 3;
    let chunk = encode_matrix_kb_mapping_chunk(&codes, &modifiers, Some(&triggered), 96);
    let mut response = [0u8; RESPONSE_BUFFER_SIZE];
    response[8..42].copy_from_slice(&chunk);
    let mut c = vec![0u8; 128];
    let mut m = vec![0u8; 128];
    let mut t = vec![9u8; 128];
    decode_matrix_kb_mapping_chunk(&response, &mut c, &mut m, Some(&mut t), 96);
    for k in 96..112 {
        assert_eq!(c[k], codes[k]);
        assert_eq!(m[k], modifiers[k]);
        assert_eq!(t[k], if k == 100 { 1 } else { 0 });
    }
    assert_eq!(t[95], 9);
}

/// A USB transport that answers every request with a valid echo.
struct EchoUsb {
    pending: Option<[u8; RESPONSE_BUFFER_SIZE]>,
}

impl pokeys_lib::communication::UsbHidInterface for EchoUsb {
    fn write(&mut self, data: &[u8]) -> Result<usize> {
        let mut r = [0u8; RESPONSE_BUFFER_SIZE];
        r[0] = 0xAA;
        r[1] = data[2];
        r[6] = data[7];
        r[7] = r[..7].iter().fold(0u8, |a, b| a.wrapping_add(*b));
        self.pending = Some(r);
        Ok(data.len())
    }

    fn read(&mut self, _buffer: &mut [u8]) -> Result<usize> {
        Ok(0)
    }

    fn read_timeout(&mut self, buffer: &mut [u8], _timeout: std::time::Duration) -> Result<usize> {
        match self.pending.take() {
            Some(r) => {
                buffer[..RESPONSE_BUFFER_SIZE].copy_from_slice(&r);
                Ok(RESPONSE_BUFFER_SIZE)
            }
            None => Ok(0),
        }
    }
}

fn echo_device_with_encoders(n: usize) -> PoKeysDevice {
    let mut device = PoKeysDevice::new(DeviceConnectionType::UsbDevice);
    device.attach_usb_interface(Box::new(EchoUsb { pending: None }));
    for _ in 0..n {
        device.encoders.push(pokeys_lib::encoders::EncoderData::new());
    }
    device
}

#[test]
fn long_values_of_group_0_land_at_encoders_0_to_12() {
    let mut device = echo_device_with_encoders(26);
    let values: Vec<i32> = (1..=13).collect();
    device.set_encoder_long_values(0, &values).unwrap();
    for i in 0..13 {
        assert_eq!(device.encoders[i].encoder_value, values[i]);
    }
    assert_eq!(device.encoders[13].encoder_value, 0);
}

#[test]
fn long_values_of_group_1_land_at_encoders_13_to_24() {
    let mut device = echo_device_with_encoders(26);
    let values: Vec<i32> = (101..=112).collect();
    device.set_encoder_long_values(1, &values).unwrap();
    assert_eq!(device.encoders[12].encoder_value, 0);
    for i in 0..12 {
        assert_eq!(device.encoders[13 + i].encoder_value, values[i]);
    }
    assert_eq!(device.encoders[25].encoder_value, 0);
}
