use pokeys_lib::models::table_generator::{generate_pin_capability_table, text_lt};
use pokeys_lib::models::{DeviceModel, PinModel};
use std::collections::HashMap;

fn pin(caps: &[&str]) -> PinModel {
    PinModel { capabilities: caps.iter().map(|c| c.to_string()).collect(), active: true }
}

#[test]
fn test_table_of_plain_pins() {
    let mut model = DeviceModel { name: "Dev".to_string(), pins: HashMap::new() };
    model.pins.insert(2, pin(&["DigitalInput", "AnalogInput"]));
    model.pins.insert(1, pin(&["DigitalInput", "DigitalOutput", "PWM_1", "Counter"]));
    let table = generate_pin_capability_table(&model);
    let expected = "# Pin Capabilities for Dev\n\n\
| Pin | Digital Input | Digital Output | Analog Input | Special Functions |\n\
|-----|--------------|----------------|--------------|-------------------|\n\
| 1 | \u{2713} | \u{2713} |   | PWM_1, Counter |\n\
| 2 | \u{2713} |   | \u{2713} |   |\n";
    assert_eq!(table, expected);
}

#[test]
fn test_table_with_encoders_and_matrix() {
    let mut model = DeviceModel { name: "Enc".to_string(), pins: HashMap::new() };
    model.pins.insert(3, pin(&["Encoder_1A", "MatrixKeyboard_Row2"]));
    model.pins.insert(4, pin(&["Encoder_1B", "MatrixKeyboard_Col1"]));
    model.pins.insert(5, pin(&["Encoder_10A", "MatrixKeyboard_Row1"]));
    let table = generate_pin_capability_table(&model);
    let expected = "# Pin Capabilities for Enc\n\n\
| Pin | Digital Input | Digital Output | Analog Input | Special Functions |\n\
|-----|--------------|----------------|--------------|-------------------|\n\
| 3 |   |   |   | Encoder_1A, MatrixKeyboard_Row2 |\n\
| 4 |   |   |   | Encoder_1B, MatrixKeyboard_Col1 |\n\
| 5 |   |   |   | Encoder_10A, MatrixKeyboard_Row1 |\n\
\n## Encoder Pairs\n\n\
| Encoder | Pin A | Pin B |\n\
|---------|-------|-------|\n\
| 1 | 3 | 4 |\n\
| 10 | 5 | 0 |\n\
\n## Matrix Keyboard\n\n\
### Rows\n\n\
| Pin | Row |\n\
|-----|-----|\n\
| 5 | 1 |\n\
| 3 | 2 |\n\
\n### Columns\n\n\
| Pin | Column |\n\
|-----|--------|\n\
| 4 | 1 |\n";
    assert_eq!(table, expected);
}

#[test]
fn test_table_matrix_needs_rows_and_columns() {
    let mut model = DeviceModel { name: "M".to_string(), pins: HashMap::new() };
    model.pins.insert(7, pin(&["MatrixKeyboard_Row1"]));
    let table = generate_pin_capability_table(&model);
    assert!(!table.contains("Matrix Keyboard"));
    assert!(!table.contains("Encoder Pairs"));
    assert!(table.ends_with("| 7 |   |   |   | MatrixKeyboard_Row1 |\n"));
}

#[test]
fn test_text_order() {
    assert!(text_lt("1", "10"));
    assert!(text_lt("10", "2"));
    assert!(!text_lt("2", "10"));
    assert!(!text_lt("a", "a"));
    assert!(text_lt("", "a"));
}

#[test]
fn test_table_matrix_labels_are_numbers() {
    let mut model = DeviceModel { name: "K".to_string(), pins: HashMap::new() };
    model.pins.insert(1, pin(&["MatrixKeyboard_Row1"]));
    model.pins.insert(2, pin(&["MatrixKeyboard_Col1"]));
    let t = generate_pin_capability_table(&model);
    assert!(t.contains("### Rows\n\n| Pin | Row |\n|-----|-----|\n| 1 | 1 |\n"));
    assert!(t.contains("### Columns\n\n| Pin | Column |\n|-----|--------|\n| 2 | 1 |\n"));
}
