use pokeys_lib::devices::spi::max7219::{
    digit_pattern, DECODE_B_ALL, DECODE_NONE, NORMAL_MODE, REG_DECODE_MODE, REG_DIGIT0, REG_DISPLAY_TEST,
    REG_INTENSITY, REG_NOOP, REG_SCAN_LIMIT, REG_SHUTDOWN, SCAN_LIMIT_8, SHUTDOWN_MODE, SYMBOL_DASH,
    SYMBOL_LEFT_BRACKET, SYMBOL_RIGHT_BRACKET,
};
use pokeys_lib::devices::spi::{DisplayMode, TextJustification};
use pokeys_lib::devices::spi::max7219::{char_to_segments, justify_text, SYMBOL_DP};
use pokeys_lib::devices::spi::max7219::{LETTER_B_LOWER, LETTER_B_UPPER, LETTER_D_LOWER};
use pokeys_lib::device::PoKeysDevice;
use pokeys_lib::devices::spi::Max7219;
use pokeys_lib::types::DeviceConnectionType;
use pokeys_lib::PoKeysError;
#[test]
fn test_digit_patterns() {
    assert_eq!((0..10).map(digit_pattern).count(), 10);

    assert_eq!(digit_pattern(0), 0b01111110); // 0
    assert_eq!(digit_pattern(1), 0b00110000); // 1
    assert_eq!(digit_pattern(8), 0b01111111); // 8
}

#[test]
fn test_display_modes() {
    assert_eq!(DisplayMode::CodeB, DisplayMode::CodeB);
    assert_eq!(DisplayMode::RawSegments, DisplayMode::RawSegments);
    assert_ne!(DisplayMode::CodeB, DisplayMode::RawSegments);
}

#[test]
fn test_register_addresses() {
    assert_eq!(REG_DIGIT0, 0x01);
    assert_eq!(REG_DECODE_MODE, 0x09);
    assert_eq!(REG_INTENSITY, 0x0A);
    assert_eq!(REG_SCAN_LIMIT, 0x0B);
    assert_eq!(REG_SHUTDOWN, 0x0C);
    assert_eq!(REG_DISPLAY_TEST, 0x0F);
}

#[test]
fn test_configuration_values() {
    assert_eq!(DECODE_B_ALL, 0xFF);
    assert_eq!(DECODE_NONE, 0x00);
    assert_eq!(SCAN_LIMIT_8, 0x07);
    assert_eq!(NORMAL_MODE, 0x01);
    assert_eq!(SHUTDOWN_MODE, 0x00);
}

#[test]
fn test_text_justification_enum() {
    assert_eq!(TextJustification::Left, TextJustification::Left);
    assert_eq!(TextJustification::Right, TextJustification::Right);
    assert_eq!(TextJustification::Center, TextJustification::Center);
    assert_ne!(TextJustification::Left, TextJustification::Right);
    assert_ne!(TextJustification::Left, TextJustification::Center);
    assert_ne!(TextJustification::Right, TextJustification::Center);
}

#[test]
fn test_justification_logic() {
    let text_length = 5; // "HELLO"
    let left_start = match TextJustification::Left {
        TextJustification::Left => 0,
        TextJustification::Right => {
            if text_length >= 8 {
                0
            } else {
                8 - text_length
            }
        }
        TextJustification::Center => {
            if text_length >= 8 {
                0
            } else {
                (8 - text_length) / 2
            }
        }
    };
    assert_eq!(left_start, 0);

    let right_start = match TextJustification::Right {
        TextJustification::Left => 0,
        TextJustification::Right => {
            if text_length >= 8 {
                0
            } else {
                8 - text_length
            }
        }
        TextJustification::Center => {
            if text_length >= 8 {
                0
            } else {
                (8 - text_length) / 2
            }
        }
    };
    assert_eq!(right_start, 3); // 8 - 5 = 3

    let center_start = match TextJustification::Center {
        TextJustification::Left => 0,
        TextJustification::Right => {
            if text_length >= 8 {
                0
            } else {
                8 - text_length
            }
        }
        TextJustification::Center => {
            if text_length >= 8 {
                0
            } else {
                (8 - text_length) / 2
            }
        }
    };
    assert_eq!(center_start, 1); // (8 - 5) / 2 = 1 (integer division)
}

#[test]
fn test_justification_edge_cases() {
    let text_length = 8;

    let left_start = match TextJustification::Left {
        TextJustification::Left => 0,
        TextJustification::Right => {
            if text_length >= 8 {
                0
            } else {
                8 - text_length
            }
        }
        TextJustification::Center => {
            if text_length >= 8 {
                0
            } else {
                (8 - text_length) / 2
            }
        }
    };
    assert_eq!(left_start, 0);

    let right_start = match TextJustification::Right {
        TextJustification::Left => 0,
        TextJustification::Right => {
            if text_length >= 8 {
                0
            } else {
                8 - text_length
            }
        }
        TextJustification::Center => {
            if text_length >= 8 {
                0
            } else {
                (8 - text_length) / 2
            }
        }
    };
    assert_eq!(right_start, 0);

    let center_start = match TextJustification::Center {
        TextJustification::Left => 0,
        TextJustification::Right => {
            if text_length >= 8 {
                0
            } else {
                8 - text_length
            }
        }
        TextJustification::Center => {
            if text_length >= 8 {
                0
            } else {
                (8 - text_length) / 2
            }
        }
    };
    assert_eq!(center_start, 0);

    let text_length = 1;

    let right_start = match TextJustification::Right {
        TextJustification::Left => 0,
        TextJustification::Right => {
            if text_length >= 8 {
                0
            } else {
                8 - text_length
            }
        }
        TextJustification::Center => {
            if text_length >= 8 {
                0
            } else {
                (8 - text_length) / 2
            }
        }
    };
    assert_eq!(right_start, 7); // 8 - 1 = 7

    let center_start = match TextJustification::Center {
        TextJustification::Left => 0,
        TextJustification::Right => {
            if text_length >= 8 {
                0
            } else {
                8 - text_length
            }
        }
        TextJustification::Center => {
            if text_length >= 8 {
                0
            } else {
                (8 - text_length) / 2
            }
        }
    };
    assert_eq!(center_start, 3); // (8 - 1) / 2 = 3
}

#[test]
fn test_bracket_symbols() {
    assert_eq!(SYMBOL_LEFT_BRACKET, 0b01001110); // A,D,E,F segments (like 'C')
    assert_eq!(SYMBOL_RIGHT_BRACKET, 0b01111000); // A,B,C,D segments (like reversed 'C')

    assert_eq!(SYMBOL_DASH, 0b00000001); // G segment only

    assert_ne!(SYMBOL_LEFT_BRACKET, SYMBOL_RIGHT_BRACKET);
    assert_ne!(SYMBOL_LEFT_BRACKET, SYMBOL_DASH);
    assert_ne!(SYMBOL_RIGHT_BRACKET, SYMBOL_DASH);
}

#[test]
fn test_chain_length_validation() {
    for length in 1..=8 {
        assert!(
            (1..=8).contains(&length),
            "Chain length {} should be valid",
            length
        );
    }

    const INVALID_LENGTH_0: usize = 0;
    const INVALID_LENGTH_9: usize = 9;
    assert!(
        !(1..=8).contains(&INVALID_LENGTH_0),
        "Chain length 0 should be invalid"
    );
    assert!(
        !(1..=8).contains(&INVALID_LENGTH_9),
        "Chain length 9 should be invalid"
    );
}

#[test]
fn test_display_index_validation() {
    for chain_length in 1..=8 {
        for display_index in 0..chain_length {
            assert!(
                display_index < chain_length,
                "Display index {} should be valid for chain length {}",
                display_index,
                chain_length
            );
        }

        assert!(
            chain_length >= chain_length,
            "Display index {} should be invalid for chain length {}",
            chain_length,
            chain_length
        );
    }
}

#[test]
fn test_chain_spi_command_length() {
    for chain_length in 1..=8 {
        let expected_command_length = (chain_length as usize) * 2; // 2 bytes per display
        assert_eq!(
            expected_command_length,
            (chain_length as usize) * 2,
            "Chain length {} should produce {} byte SPI command",
            chain_length,
            expected_command_length
        );
    }
}

#[test]
fn test_noop_register() {
    assert_eq!(REG_NOOP, 0x00);

    assert_ne!(REG_NOOP, REG_DIGIT0);
    assert_ne!(REG_NOOP, REG_DECODE_MODE);
    assert_ne!(REG_NOOP, REG_INTENSITY);
    assert_ne!(REG_NOOP, REG_SCAN_LIMIT);
    assert_ne!(REG_NOOP, REG_SHUTDOWN);
    assert_ne!(REG_NOOP, REG_DISPLAY_TEST);
}

#[test]
fn test_chain_command_ordering() {
    let chain_length = 3u8;
    let target_display = 1u8;

    let mut command_positions = Vec::new();
    for display_index in (0..chain_length).rev() {
        command_positions.push(display_index);
    }

    assert_eq!(command_positions, vec![2, 1, 0]);

    let target_position = command_positions.iter().position(|&x| x == target_display);
    assert_eq!(target_position, Some(1)); // Display 1 should be at position 1
}

#[test]
fn test_backward_compatibility() {
    let single_chain_length = 1u8;
    let single_target_display = 0u8;

    assert_eq!(single_chain_length, 1);
    assert_eq!(single_target_display, 0);

    let single_command_length = (single_chain_length as usize) * 2;
    assert_eq!(single_command_length, 2);
}

#[test]
fn test_flash_text_parameters() {

    let zero_freq = 0.0;
    let negative_freq = -1.0;
    let positive_freq = 1.0;
    assert!(zero_freq <= 0.0, "Zero frequency should be invalid");
    assert!(negative_freq < 0.0, "Negative frequency should be invalid");
    assert!(positive_freq > 0.0, "Positive frequency should be valid");

    let zero_duration = 0.0;
    let negative_duration = -1.0;
    let positive_duration = 1.0;
    assert!(zero_duration <= 0.0, "Zero duration should be invalid");
    assert!(
        negative_duration < 0.0,
        "Negative duration should be invalid"
    );
    assert!(positive_duration > 0.0, "Positive duration should be valid");

    let frequency_hz = 2.0;
    let half_period_ms = (1000.0 / (frequency_hz * 2.0)) as u64;
    assert_eq!(half_period_ms, 250, "Half period should be 250ms for 2Hz");

    let frequency_hz = 5.0;
    let half_period_ms = (1000.0 / (frequency_hz * 2.0)) as u64;
    assert_eq!(half_period_ms, 100, "Half period should be 100ms for 5Hz");

    let frequency_hz = 0.5;
    let half_period_ms = (1000.0 / (frequency_hz * 2.0)) as u64;
    assert_eq!(
        half_period_ms, 1000,
        "Half period should be 1000ms for 0.5Hz"
    );

    let frequency_hz = 10.0;
    let half_period_ms = (1000.0 / (frequency_hz * 2.0)) as u64;
    assert_eq!(half_period_ms, 50, "Half period should be 50ms for 10Hz");
}

#[test]
fn justified_text_places_patterns_and_decimal_points() {
    let d = justify_text("1.23", TextJustification::Right);
    assert_eq!(d[0..5], [0u8; 5]);
    assert_eq!(d[5], digit_pattern(1) | SYMBOL_DP);
    assert_eq!(d[6], digit_pattern(2));
    assert_eq!(d[7], digit_pattern(3));

    let l = justify_text("HELLO", TextJustification::Left);
    assert_eq!(l[0], char_to_segments('H'));
    assert_eq!(l[4], char_to_segments('O'));
    assert_eq!(l[5..8], [0u8; 3]);

    let c = justify_text("HELLO", TextJustification::Center);
    assert_eq!(c[0], 0);
    assert_eq!(c[1], char_to_segments('H'));

    let long = justify_text("ABCDEFGHIJ", TextJustification::Right);
    assert_eq!(long[0], char_to_segments('A'));
    assert_eq!(long[7], char_to_segments('H'));
}

#[test]
fn characters_map_case_sensitively() {
    assert_eq!(char_to_segments('B'), LETTER_B_UPPER);
    assert_eq!(char_to_segments('b'), LETTER_B_LOWER);
    assert_eq!(char_to_segments('D'), LETTER_D_LOWER);
    assert_eq!(char_to_segments('?'), SYMBOL_DASH);
    assert_eq!(char_to_segments('['), SYMBOL_LEFT_BRACKET);
}

#[test]
fn chain_length_is_checked_before_any_request() {
    let mut device = PoKeysDevice::new(DeviceConnectionType::UsbDevice);
    match Max7219::new_chain(&mut device, 24, 9) {
        Err(PoKeysError::Parameter(m)) => assert_eq!(m, "Chain length must be 1-8, got 9"),
        _ => panic!("expected a parameter error"),
    }
    assert!(matches!(Max7219::new(&mut device, 24), Err(PoKeysError::NotConnected)));
}
