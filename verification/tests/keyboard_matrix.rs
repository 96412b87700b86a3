use pokeys_lib::keyboard_matrix::{MatrixKeyboard, MatrixKeyboardConfig};


#[test]
fn test_matrix_keyboard_config_size_byte() {
    let cfg = MatrixKeyboardConfig {
        enabled: true,
        width: 4,
        height: 12,
        row_pins: [0u8; 16],
        column_pins: [0u8; 8],
        direct_macro_bitmap: [0u8; 16],
        alternate_function_pin: 0,
        scanning_decimation: 0,
    };
    assert_eq!(cfg.size_byte(), 0x3B);
}

#[test]
fn test_matrix_keyboard_config_size_byte_min() {
    let cfg = MatrixKeyboardConfig {
        enabled: false,
        width: 1,
        height: 1,
        row_pins: [0u8; 16],
        column_pins: [0u8; 8],
        direct_macro_bitmap: [0u8; 16],
        alternate_function_pin: 0,
        scanning_decimation: 0,
    };
    assert_eq!(cfg.size_byte(), 0);
}

#[test]
fn test_matrix_keyboard_creation() {
    let kb = MatrixKeyboard::new();
    assert!(!kb.is_enabled());
    assert_eq!(kb.width, 0);
    assert_eq!(kb.height, 0);
}

#[test]
fn test_matrix_keyboard_configuration() {
    let mut kb = MatrixKeyboard::new();

    assert_eq!(kb.configuration, 0);
    assert_eq!(kb.width, 0);
    assert_eq!(kb.height, 0);
    assert_eq!(kb.scanning_decimation, 0);
    assert_eq!(kb.column_pins.len(), 8);
    assert_eq!(kb.row_pins.len(), 16);

    kb.configuration = 1;
    kb.width = 4;
    kb.height = 4;

    assert!(kb.is_enabled());
    assert_eq!(kb.width, 4);
    assert_eq!(kb.height, 4);
}

#[test]
fn test_get_key_state() {
    let mut kb = MatrixKeyboard::new();
    kb.width = 4;
    kb.height = 4;

    assert!(!kb.get_key_state(0, 0)); // Should be false initially
    assert!(!kb.get_key_state(4, 0)); // Out of bounds
    assert!(!kb.get_key_state(0, 4)); // Out of bounds

    kb.key_values[0] = 1; // Row 0, Col 0
    assert!(kb.get_key_state(0, 0));

    kb.key_values[8] = 1; // Row 1, Col 0 (1*8 + 0 = 8)
    assert!(kb.get_key_state(1, 0));
}

#[test]
fn test_key_index_calculation() {
    let mut kb = MatrixKeyboard::new();
    kb.width = 3;
    kb.height = 3;

    kb.key_values[0] = 1; // (0,0) = 0*8 + 0 = 0
    kb.key_values[1] = 1; // (0,1) = 0*8 + 1 = 1
    kb.key_values[8] = 1; // (1,0) = 1*8 + 0 = 8
    kb.key_values[9] = 1; // (1,1) = 1*8 + 1 = 9

    assert!(kb.get_key_state(0, 0));
    assert!(kb.get_key_state(0, 1));
    assert!(!kb.get_key_state(0, 2));
    assert!(kb.get_key_state(1, 0));
    assert!(kb.get_key_state(1, 1));
    assert!(!kb.get_key_state(1, 2));
}

#[test]
fn size_byte_of_largest_keyboard() {
    let cfg = MatrixKeyboardConfig {
        enabled: true,
        width: 8,
        height: 16,
        row_pins: [0u8; 16],
        column_pins: [0u8; 8],
        direct_macro_bitmap: [0u8; 16],
        alternate_function_pin: 0,
        scanning_decimation: 0,
    };
    assert_eq!(cfg.size_byte(), 0x7F);
}
