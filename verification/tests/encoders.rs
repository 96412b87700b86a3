use pokeys_lib::encoders::{EncoderData, EncoderOptions, MAX_ENCODERS, MAX_FAST_ENCODERS, ULTRA_FAST_ENCODER_INDEX};


#[test]
fn test_encoder_options_4x_sampling() {
    let options = EncoderOptions::with_4x_sampling();
    assert!(options.enabled);
    assert!(options.sampling_4x);
    assert!(!options.sampling_2x);

    let byte = options.to_byte();
    assert_eq!(byte & 0b00000011, 0b00000011); // enabled + 4x sampling

    let options_from_byte = EncoderOptions::from_byte(byte);
    assert!(options_from_byte.enabled);
    assert!(options_from_byte.sampling_4x);
    assert!(!options_from_byte.sampling_2x);
}

#[test]
fn test_encoder_options_2x_sampling() {
    let options = EncoderOptions::with_2x_sampling();
    assert!(options.enabled);
    assert!(!options.sampling_4x);
    assert!(options.sampling_2x);

    let byte = options.to_byte();
    assert_eq!(byte & 0b00000111, 0b00000101); // enabled + 2x sampling

    let options_from_byte = EncoderOptions::from_byte(byte);
    assert!(options_from_byte.enabled);
    assert!(!options_from_byte.sampling_4x);
    assert!(options_from_byte.sampling_2x);
}

#[test]
fn test_encoder_options_key_mapping() {
    let mut options = EncoderOptions::new();
    options.enabled = true;
    options.direct_key_mapping_a = true;
    options.macro_mapping_b = true;

    let byte = options.to_byte();
    assert_eq!(byte & 0b11110001, 0b10010001); // enabled + key_a + macro_b

    let options_from_byte = EncoderOptions::from_byte(byte);
    assert!(options_from_byte.enabled);
    assert!(options_from_byte.direct_key_mapping_a);
    assert!(options_from_byte.macro_mapping_b);
    assert!(!options_from_byte.direct_key_mapping_b);
    assert!(!options_from_byte.macro_mapping_a);
}

#[test]
fn test_encoder_data_sampling_modes() {
    let mut encoder = EncoderData::new();

    let options_4x = EncoderOptions::with_4x_sampling();
    encoder.set_options(options_4x);
    assert!(encoder.is_4x_sampling());
    assert!(!encoder.is_2x_sampling());
    assert_eq!(encoder.sampling_mode_str(), "4x (both edges)");

    let options_2x = EncoderOptions::with_2x_sampling();
    encoder.set_options(options_2x);
    assert!(!encoder.is_4x_sampling());
    assert!(encoder.is_2x_sampling());
    assert_eq!(encoder.sampling_mode_str(), "2x (A edges only)");

    let options_disabled = EncoderOptions::new();
    encoder.set_options(options_disabled);
    assert!(!encoder.is_4x_sampling());
    assert!(!encoder.is_2x_sampling());
    assert_eq!(encoder.sampling_mode_str(), "1x (disabled)");
}

#[test]
fn test_encoder_constants() {
    assert_eq!(MAX_ENCODERS, 25);
    assert_eq!(MAX_FAST_ENCODERS, 3);
    assert_eq!(ULTRA_FAST_ENCODER_INDEX, 25);
}

#[test]
fn options_round_trip_through_their_byte() {
    for b in 0u8..=255 {
        if b & 0x08 == 0 {
            assert_eq!(EncoderOptions::from_byte(b).to_byte(), b);
        }
    }
    let mut o = EncoderOptions::new();
    o.macro_mapping_a = true;
    o.direct_key_mapping_b = true;
    assert_eq!(EncoderOptions::from_byte(o.to_byte()), o);
}
