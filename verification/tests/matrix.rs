use pokeys_lib::matrix::MatrixLed;


#[test]
fn test_matrix_led_creation() {
    let mut led = MatrixLed::new();
    assert!(!led.is_enabled());

    led.display_enabled = 1;
    led.rows = 8;
    led.columns = 8;

    assert!(led.is_enabled());
    assert!(!led.get_led(0, 0));

    assert!(led.set_led(0, 0, true).is_ok());
    assert!(led.get_led(0, 0));

    assert!(led.set_led(0, 0, false).is_ok());
    assert!(!led.get_led(0, 0));
}

#[test]
fn test_matrix_led_bounds_checking() {
    let mut led = MatrixLed::new();
    led.rows = 4;
    led.columns = 8;

    assert!(led.set_led(0, 0, true).is_ok());
    assert!(led.set_led(3, 7, true).is_ok());

    assert!(led.set_led(4, 0, true).is_err()); // Row out of bounds
    assert!(led.set_led(0, 8, true).is_err()); // Column out of bounds
}
