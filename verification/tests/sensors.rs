use pokeys_lib::sensors::{CustomSensorUnit, EasySensor};
use pokeys_lib::device::PoKeysDevice;
use pokeys_lib::types::DeviceConnectionType;
use pokeys_lib::PoKeysError;


#[test]
fn test_easy_sensor_creation() {
    let sensor = EasySensor::new();
    assert_eq!(sensor.sensor_value, 0);
    assert!(!sensor.is_ok());
    assert_eq!(sensor.sensor_refresh_period as f32 * 0.1, 0.0);
}

#[test]
fn test_failsafe_configuration() {
    let mut sensor = EasySensor::new();

    sensor.set_failsafe_timeout(30);
    assert_eq!(sensor.get_failsafe_timeout(), 30);

    sensor.set_failsafe_invalid_zero(true);
    assert!(sensor.is_failsafe_invalid_zero());
    assert!(!sensor.is_failsafe_invalid_max());

    sensor.set_failsafe_invalid_max(true);
    assert!(sensor.is_failsafe_invalid_zero());
    assert!(sensor.is_failsafe_invalid_max());

    sensor.set_failsafe_invalid_zero(false);
    assert!(!sensor.is_failsafe_invalid_zero());
    assert!(sensor.is_failsafe_invalid_max());
}

#[test]
fn test_custom_sensor_unit() {
    let mut unit = CustomSensorUnit::new();

    assert!(unit.set_html_code("&deg;C").is_ok());
    assert_eq!(unit.get_html_code(), "&deg;C");

    assert!(unit.set_simple_text("°C").is_ok());
    assert_eq!(unit.get_simple_text(), "°C");

    assert!(unit.set_html_code(&"x".repeat(33)).is_err());
    assert!(unit.set_simple_text(&"x".repeat(9)).is_err());
}

#[test]
fn test_temperature_conversion() {
    let raw_value = 400; // 25.0°C in DS18B20 format
    let temperature = raw_value as f32 * 0.0625;
    assert_eq!(temperature, 25.0);

    let raw_value = -160; // -10.0°C in DS18B20 format
    let temperature = raw_value as f32 * 0.0625;
    assert_eq!(temperature, -10.0);
}

#[test]
fn test_voltage_conversion() {
    let raw_value = 2048; // Half scale
    let reference_voltage = 5.0;
    let voltage = (raw_value as f32 / 4095.0) * reference_voltage;
    assert!((voltage - 2.5).abs() < 0.01);

    let raw_value = 4095; // Full scale
    let voltage = (raw_value as f32 / 4095.0) * reference_voltage;
    assert!((voltage - 5.0).abs() < 0.01);
}

#[test]
fn failsafe_timeout_keeps_the_flags() {
    let mut sensor = EasySensor::new();
    sensor.set_failsafe_invalid_max(true);
    sensor.set_failsafe_timeout(0xFF);
    assert_eq!(sensor.get_failsafe_timeout(), 0x3F);
    assert!(sensor.is_failsafe_invalid_max());
    assert_eq!(sensor.sensor_failsafe_config, 0xBF);
}

#[test]
fn sensor_index_is_checked() {
    let mut device = PoKeysDevice::new(DeviceConnectionType::UsbDevice);
    match device.read_easy_sensor(0) {
        Err(PoKeysError::Parameter(m)) => assert_eq!(m, "Invalid sensor index"),
        _ => panic!("expected a parameter error"),
    }
    assert!(device.get_sensor_status(3).is_err());
}
