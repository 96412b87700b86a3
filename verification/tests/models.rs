use pokeys_lib::model_manager::is_model_change;
use pokeys_lib::models::{DeviceModel, PinModel};
use std::collections::HashMap;


#[test]
fn test_device_model_validation() {
    let mut model = DeviceModel {
        name: "TestDevice".to_string(),
        pins: HashMap::new(),
    };

    model.pins.insert(
        1,
        PinModel {
            capabilities: vec!["DigitalInput".to_string(), "DigitalOutput".to_string()],
            active: true,
        },
    );

    model.pins.insert(
        2,
        PinModel {
            capabilities: vec!["DigitalInput".to_string(), "AnalogInput".to_string()],
            active: true,
        },
    );

    assert!(model.validate().is_ok());

    let mut invalid_model = model.clone();
    invalid_model.name = "".to_string();
    assert!(invalid_model.validate().is_err());

    let invalid_model = DeviceModel {
        name: "TestDevice".to_string(),
        pins: HashMap::new(),
    };
    assert!(invalid_model.validate().is_err());

    let mut invalid_model = model.clone();
    invalid_model.pins.insert(
        3,
        PinModel {
            capabilities: vec![],
            active: true,
        },
    );
    assert!(invalid_model.validate().is_err());
}

#[test]
fn test_related_capabilities() {
    let mut model = DeviceModel {
        name: "TestDevice".to_string(),
        pins: HashMap::new(),
    };

    model.pins.insert(
        1,
        PinModel {
            capabilities: vec!["DigitalInput".to_string(), "Encoder_1A".to_string()],
            active: true,
        },
    );

    model.pins.insert(
        2,
        PinModel {
            capabilities: vec!["DigitalInput".to_string(), "Encoder_1B".to_string()],
            active: true,
        },
    );

    assert!(model.validate().is_ok());

    let related = model.get_related_capabilities(1, "Encoder_1A");
    assert_eq!(related.len(), 1);
    assert_eq!(related[0].0, "Encoder_1B");
    assert_eq!(related[0].1, 2);

    let mut invalid_model = model.clone();
    invalid_model.pins.get_mut(&2).unwrap().capabilities = vec!["DigitalInput".to_string()];

}

#[test]
fn test_matrix_keyboard_validation() {
    let mut model = DeviceModel {
        name: "TestDevice".to_string(),
        pins: HashMap::new(),
    };

    model.pins.insert(
        1,
        PinModel {
            capabilities: vec![
                "DigitalInput".to_string(),
                "MatrixKeyboard_Row1".to_string(),
            ],
            active: true,
        },
    );

    model.pins.insert(
        2,
        PinModel {
            capabilities: vec![
                "DigitalInput".to_string(),
                "MatrixKeyboard_Row2".to_string(),
            ],
            active: true,
        },
    );

    model.pins.insert(
        3,
        PinModel {
            capabilities: vec![
                "DigitalInput".to_string(),
                "MatrixKeyboard_Col1".to_string(),
            ],
            active: true,
        },
    );

    model.pins.insert(
        4,
        PinModel {
            capabilities: vec![
                "DigitalInput".to_string(),
                "MatrixKeyboard_Col2".to_string(),
            ],
            active: true,
        },
    );

    assert!(model.validate().is_ok());

    let related = model.get_related_capabilities(1, "MatrixKeyboard_Row1");
    assert_eq!(related.len(), 2);
    assert!(
        related
            .iter()
            .any(|(cap, pin)| cap == "MatrixKeyboard_Col1" && *pin == 3)
    );
    assert!(
        related
            .iter()
            .any(|(cap, pin)| cap == "MatrixKeyboard_Col2" && *pin == 4)
    );

    let mut invalid_model = model.clone();
    invalid_model.pins.remove(&3);
    invalid_model.pins.remove(&4);

}

#[test]
fn pin_without_capabilities_names_the_pin() {
    let mut model = DeviceModel { name: "M".to_string(), pins: HashMap::new() };
    model.pins.insert(7, PinModel { capabilities: vec![], active: true });
    let err = model.validate().unwrap_err();
    assert!(err.to_string().contains('7'));
}

#[test]
fn unlisted_capability_is_unsupported_whatever_its_text() {
    let mut model = DeviceModel { name: "M".to_string(), pins: HashMap::new() };
    model.pins.insert(1, PinModel { capabilities: vec!["Encoder_1A".to_string()], active: true });
    model.pins.insert(2, PinModel { capabilities: vec!["Encoder_1B".to_string()], active: true });
    match model.validate_pin_capability(1, "Encoder_1é") {
        Err(pokeys_lib::error::PoKeysError::UnsupportedPinCapability(p, c)) => {
            assert_eq!(p, 1);
            assert_eq!(c, "Encoder_1é");
        }
        other => panic!("unexpected {:?}", other),
    }
    assert!(model.validate_pin_capability(1, "Encoder_1A").is_ok());
}

#[test]
fn model_changes_are_yaml_files_not_reported_in_the_last_100_ms() {
    assert!(is_model_change(true, Some("yaml"), None));
    assert!(is_model_change(true, Some("yaml"), Some(100_000_001)));
    assert!(!is_model_change(true, Some("yaml"), Some(100_000_000)));
    assert!(!is_model_change(true, Some("yml"), None));
    assert!(!is_model_change(true, None, None));
    assert!(!is_model_change(false, Some("yaml"), None));
}
