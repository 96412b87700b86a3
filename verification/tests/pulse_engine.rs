use pokeys_lib::pulse_engine::PulseEngineV2;
use pokeys_lib::types::{PulseEngineAxisState, PulseEngineState};
use pokeys_lib::device::PoKeysDevice;
use pokeys_lib::types::DeviceConnectionType;
use pokeys_lib::PoKeysError;


#[test]
fn test_pulse_engine_creation() {
    let pe = PulseEngineV2::new();
    assert!(!pe.is_enabled());
    assert!(!pe.is_activated());
    assert_eq!(pe.get_state(), PulseEngineState::Stopped);
}

#[test]
fn test_axis_state_conversion() {
    let mut pe = PulseEngineV2::new();

    pe.axes_state[0] = 1;
    assert_eq!(pe.get_axis_state(0), PulseEngineAxisState::Ready);

    pe.axes_state[0] = 2;
    assert_eq!(pe.get_axis_state(0), PulseEngineAxisState::Running);

    pe.axes_state[0] = 20;
    assert_eq!(pe.get_axis_state(0), PulseEngineAxisState::Error);
}

#[test]
fn test_axis_enable_mask() {
    let mut pe = PulseEngineV2::new();

    assert!(!pe.is_axis_enabled(0));

    pe.axis_enabled_mask = 0b00000001;
    assert!(pe.is_axis_enabled(0));
    assert!(!pe.is_axis_enabled(1));

    pe.axis_enabled_mask = 0b00000011;
    assert!(pe.is_axis_enabled(0));
    assert!(pe.is_axis_enabled(1));
    assert!(!pe.is_axis_enabled(2));
}

#[test]
fn axis_configuration_payload_layout() {
    let mut device = PoKeysDevice::new(DeviceConnectionType::UsbDevice);
    assert!(matches!(device.set_axis_configuration(8), Err(PoKeysError::Parameter(_))));
    assert!(matches!(device.get_axis_position(9), Err(PoKeysError::Parameter(_))));
    assert!(matches!(device.emergency_stop(), Err(PoKeysError::NotConnected)));
}
