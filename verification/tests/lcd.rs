use pokeys_lib::lcd::LcdData;


#[test]
fn test_lcd_data_creation() {
    let lcd = LcdData::new();
    assert!(!lcd.is_enabled());
    assert_eq!(lcd.rows, 0);
    assert_eq!(lcd.columns, 0);
}

#[test]
fn test_lcd_line_operations() {
    let mut lcd = LcdData::new();

    assert!(lcd.set_line_text(1, "Hello").is_ok());
    assert_eq!(lcd.get_line_text(1).unwrap(), "Hello");

    assert!(lcd.clear_line(1).is_ok());
    assert_eq!(lcd.get_line_text(1).unwrap(), "");

    assert!(lcd.set_line_text(0, "Test").is_err());
    assert!(lcd.set_line_text(5, "Test").is_err());
}

#[test]
fn test_lcd_text_length_limit() {
    let mut lcd = LcdData::new();

    let text_20 = "12345678901234567890";
    assert!(lcd.set_line_text(1, text_20).is_ok());

    let text_21 = "123456789012345678901";
    assert!(lcd.set_line_text(1, text_21).is_err());
}

#[test]
fn test_custom_characters() {
    let mut lcd = LcdData::new();
    let pattern = [0x1F, 0x11, 0x11, 0x11, 0x11, 0x11, 0x11, 0x1F];

    assert!(lcd.set_custom_character(0, &pattern).is_ok());
    assert_eq!(lcd.get_custom_character(0).unwrap(), pattern);

    assert!(lcd.set_custom_character(8, &pattern).is_err());
}

#[test]
fn test_progress_bar_generation() {
    let width = 10;
    let progress = 0.5;
    let filled_chars = (progress * width as f32) as usize;

    assert_eq!(filled_chars, 5);

    let mut bar = String::new();
    bar.push('[');
    for i in 0..width {
        if i < filled_chars {
            bar.push('█');
        } else {
            bar.push(' ');
        }
    }
    bar.push(']');

    assert_eq!(bar, "[█████     ]");
}

#[test]
fn lcd_line_read_gives_back_what_was_written() {
    let mut lcd = LcdData::new();
    for line in 1..=4 {
        lcd.set_line_text(line, "abc").unwrap();
        assert_eq!(lcd.get_line_text(line).unwrap(), "abc");
    }
    assert!(lcd.get_line_text(5).is_err());
}
