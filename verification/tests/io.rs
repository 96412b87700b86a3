use pokeys_lib::io::{
    apply_device_status_response, compose_pin_function_byte, decode_pin_function_from_cache,
    encode_analog_output_10bit, parse_bulk_pin_settings_response, PinData, PinFunction, CMD_INPUT_OUTPUT_EXTENDED,
};
use pokeys_lib::encoders::EncoderData;


#[test]
fn test_pin_data_creation() {
    let pin_data = PinData::new();
    assert_eq!(pin_data.pin_function, PinFunction::PinRestricted.value());
    assert_eq!(pin_data.digital_value_get, 0);
    assert_eq!(pin_data.digital_value_set, 0);
}

#[test]
fn test_pin_function_checks() {
    let mut pin_data = PinData::new();

    pin_data.pin_function = PinFunction::DigitalInput.value();
    assert!(pin_data.is_digital_input());
    assert!(!pin_data.is_digital_output());

    pin_data.pin_function = PinFunction::DigitalOutput.value();
    assert!(!pin_data.is_digital_input());
    assert!(pin_data.is_digital_output());

    pin_data.pin_function =
        (PinFunction::DigitalInput.value()) | (PinFunction::DigitalOutput.value());
    assert!(pin_data.is_digital_input());
    assert!(pin_data.is_digital_output());
}

#[test]
fn test_encode_analog_output_10bit() {
    assert_eq!(encode_analog_output_10bit(0), (0x00, 0x00));
    assert_eq!(encode_analog_output_10bit(1023), (0xFF, 0xC0));
    assert_eq!(encode_analog_output_10bit(512), (0x80, 0x00));
    assert_eq!(encode_analog_output_10bit(3), (0x00, 0xC0));
    assert_eq!(encode_analog_output_10bit(1), (0x00, 0x40));
    assert_eq!(encode_analog_output_10bit(0xFFFF), (0xFF, 0xC0));
}

#[test]
fn test_apply_device_status_response() {

    let mut response = [0u8; 64];

    response[8] = 0b0000_0001; // pin 1
    response[9] = 0b0000_0001; // pin 9
    response[14] = 0b0100_0000; // pin 55 = bit (55-1) % 8 = 6 of byte 14

    response[15] = 0x12;
    response[16] = 0x34;
    response[17] = 0xAB;
    response[18] = 0xCD;

    response[25] = 0xFF;
    response[26] = 0x05;

    let mut pins = vec![PinData::new(); 55];
    pins[0].pin_function = PinFunction::DigitalInput.value(); // pin 1 digital
    pins[8].pin_function = PinFunction::DigitalInput.value(); // pin 9 digital
    pins[40].pin_function = PinFunction::AnalogInput.value(); // first analog-capable pin
    pins[41].pin_function = PinFunction::AnalogInput.value(); // second analog-capable pin

    let mut encoders = vec![EncoderData::new(); 25];

    apply_device_status_response(&response, &mut pins, &mut encoders);

    assert_eq!(pins[0].digital_value_get, 1);
    assert_eq!(pins[1].digital_value_get, 0);
    assert_eq!(pins[8].digital_value_get, 1);
    assert_eq!(pins[54].digital_value_get, 1);

    assert_eq!(pins[40].analog_value, 0x1234);
    assert_eq!(pins[41].analog_value, 0xABCD);

    assert_eq!(encoders[0].encoder_value, -1);
    assert_eq!(encoders[1].encoder_value, 5);
    assert_eq!(encoders[2].encoder_value, 0);
}

#[test]
fn test_compose_pin_function_byte() {
    
    assert_eq!(
        compose_pin_function_byte(PinFunction::DigitalInput, false),
        0x02
    );
    assert_eq!(
        compose_pin_function_byte(PinFunction::DigitalOutput, false),
        0x04
    );
    assert_eq!(
        compose_pin_function_byte(PinFunction::TriggeredInput, false),
        0x20
    );

    assert_eq!(
        compose_pin_function_byte(PinFunction::DigitalInput, true),
        0x82
    );
    assert_eq!(
        compose_pin_function_byte(PinFunction::DigitalOutput, true),
        0x84
    );
    assert_eq!(
        compose_pin_function_byte(PinFunction::TriggeredInput, true),
        0xA0
    );
}

#[test]
fn test_decode_pin_function_from_cache() {
    assert_eq!(
        decode_pin_function_from_cache(0x82),
        PinFunction::DigitalInput
    );
    assert_eq!(
        decode_pin_function_from_cache(0x84),
        PinFunction::DigitalOutput
    );
    assert_eq!(
        decode_pin_function_from_cache(0xA0),
        PinFunction::TriggeredInput
    );

    assert_eq!(
        decode_pin_function_from_cache(0x02),
        PinFunction::DigitalInput
    );
    assert_eq!(
        decode_pin_function_from_cache(0x00),
        PinFunction::PinRestricted
    );

    assert_eq!(
        decode_pin_function_from_cache(0x80),
        PinFunction::PinRestricted
    );
}

#[test]
fn test_pin_data_invert_accessors() {
    let mut pin_data = PinData::new();

    pin_data.pin_function = 0x82; // DigitalInput | Invert
    assert!(pin_data.is_inverted());
    assert_eq!(pin_data.base_function(), PinFunction::DigitalInput);
    assert!(pin_data.is_digital_input());
    assert!(!pin_data.is_digital_output());

    pin_data.pin_function = 0x02; // DigitalInput, no invert
    assert!(!pin_data.is_inverted());
    assert_eq!(pin_data.base_function(), PinFunction::DigitalInput);
}

#[test]
fn test_parse_bulk_pin_settings_response_preserves_invert_bit() {
    
    let mut response = [0u8; 64];
    response[1] = CMD_INPUT_OUTPUT_EXTENDED;
    response[8] = 0x82; // pin 1 = DigitalInput | Invert
    response[9] = 0x04; // pin 2 = DigitalOutput (no invert)
    response[10] = 0xA0; // pin 3 = TriggeredInput | Invert

    let raw = parse_bulk_pin_settings_response(&response).unwrap();
    assert_eq!(raw[0], 0x82);
    assert_eq!(raw[1], 0x04);
    assert_eq!(raw[2], 0xA0);

    assert_eq!(
        PinFunction::from_u8(raw[0]).unwrap(),
        PinFunction::DigitalInput
    );
    assert_eq!(
        PinFunction::from_u8(raw[2]).unwrap(),
        PinFunction::TriggeredInput
    );
}

#[test]
fn test_parse_bulk_pin_settings_response_rejects_short() {
    let short = [0u8; 32];
    assert!(parse_bulk_pin_settings_response(&short).is_err());
}

#[test]
fn test_parse_bulk_pin_settings_response_rejects_wrong_command() {
    let mut response = [0u8; 64];
    response[1] = 0x12; // not InputOutputExtended
    assert!(parse_bulk_pin_settings_response(&response).is_err());
}

#[test]
fn pin_settings_round_trip_through_their_byte() {
    for f in [PinFunction::DigitalInput, PinFunction::DigitalOutput, PinFunction::AnalogInput, PinFunction::TriggeredInput] {
        for inv in [false, true] {
            let b = compose_pin_function_byte(f, inv);
            assert_eq!(decode_pin_function_from_cache(b), f);
            assert_eq!(b & 0x80 != 0, inv);
        }
    }
}

#[test]
fn short_status_response_leaves_pins_alone() {
    let response = [0xFFu8; 10];
    let mut pins = vec![PinData::new(); 55];
    let mut encoders = vec![pokeys_lib::encoders::EncoderData::new(); 25];
    apply_device_status_response(&response, &mut pins, &mut encoders);
    assert_eq!(pins[0].digital_value_get, 1);
    assert_eq!(pins[15].digital_value_get, 1);
    assert_eq!(pins[16].digital_value_get, 0);
    assert_eq!(encoders[0].encoder_value, 0);
}
