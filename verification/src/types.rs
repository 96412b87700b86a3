//! Core types and structures of the PoKeys protocol.

use vstd::prelude::*;
use vstd::string::*;
use std::collections::{HashMap, HashSet};
use crate::text::{dec, push_dec, string_of, trim_trailing_nul, trim_end_nul, utf8_lossy, from_utf8_lossy};

verus! {

/// Device connection type.
#[derive(Debug, Clone, Copy, PartialEq, Eq, Structural)]
pub enum DeviceConnectionType {
    UsbDevice,
    NetworkDevice,
    FastUsbDevice,
}

/// Device connection parameters.
#[derive(Debug, Clone, Copy, PartialEq, Eq, Structural)]
pub enum ConnectionParam {
    Tcp,
    Udp,
}

/// Device type IDs.
#[derive(Debug, Clone, Copy, PartialEq, Eq, Structural)]
pub enum DeviceTypeId {
    Bootloader55,
    Bootloader56U,
    Bootloader56E,
    Bootloader58,
    Device55v1,
    Device55v2,
    Device55v3,
    Device56U,
    Device56E,
    Device27U,
    Device27E,
    Device57U,
    Device57E,
    PoKeys57CNC,
    PoKeys57CNCpro4x25,
    PoKeys57CNCdb25,
    PoKeys57Utest,
    LiniTester,
    Device57Uv0,
    Device57Ev0,
    Device58EU,
    PoPLC58,
    OEM1,
    SerialReader,
    X15_02_24,
}

/// The protocol number of a device type.
pub open spec fn device_type_id_value(t: DeviceTypeId) -> u8 {
    match t {
        DeviceTypeId::Bootloader55 => 3,
        DeviceTypeId::Bootloader56U => 15,
        DeviceTypeId::Bootloader56E => 16,
        DeviceTypeId::Bootloader58 => 41,
        DeviceTypeId::Device55v1 => 0,
        DeviceTypeId::Device55v2 => 1,
        DeviceTypeId::Device55v3 => 2,
        DeviceTypeId::Device56U => 10,
        DeviceTypeId::Device56E => 11,
        DeviceTypeId::Device27U => 20,
        DeviceTypeId::Device27E => 21,
        DeviceTypeId::Device57U => 30,
        DeviceTypeId::Device57E => 31,
        DeviceTypeId::PoKeys57CNC => 32,
        DeviceTypeId::PoKeys57CNCpro4x25 => 33,
        DeviceTypeId::PoKeys57CNCdb25 => 38,
        DeviceTypeId::PoKeys57Utest => 39,
        DeviceTypeId::LiniTester => 43,
        DeviceTypeId::Device57Uv0 => 28,
        DeviceTypeId::Device57Ev0 => 29,
        DeviceTypeId::Device58EU => 40,
        DeviceTypeId::PoPLC58 => 50,
        DeviceTypeId::OEM1 => 100,
        DeviceTypeId::SerialReader => 101,
        DeviceTypeId::X15_02_24 => 102,
    }
}

/// The protocol numbers of the device types, as the protocol documents them; no
/// two share a number.
pub proof fn lemma_device_type_id_value_table(s: DeviceTypeId, t: DeviceTypeId)
    ensures
        s is Bootloader55 ==> device_type_id_value(s) == 3,
        s is Bootloader56U ==> device_type_id_value(s) == 15,
        s is Bootloader56E ==> device_type_id_value(s) == 16,
        s is Bootloader58 ==> device_type_id_value(s) == 41,
        s is Device55v1 ==> device_type_id_value(s) == 0,
        s is Device55v2 ==> device_type_id_value(s) == 1,
        s is Device55v3 ==> device_type_id_value(s) == 2,
        s is Device56U ==> device_type_id_value(s) == 10,
        s is Device56E ==> device_type_id_value(s) == 11,
        s is Device27U ==> device_type_id_value(s) == 20,
        s is Device27E ==> device_type_id_value(s) == 21,
        s is Device57U ==> device_type_id_value(s) == 30,
        s is Device57E ==> device_type_id_value(s) == 31,
        s is PoKeys57CNC ==> device_type_id_value(s) == 32,
        s is PoKeys57CNCpro4x25 ==> device_type_id_value(s) == 33,
        s is PoKeys57CNCdb25 ==> device_type_id_value(s) == 38,
        s is PoKeys57Utest ==> device_type_id_value(s) == 39,
        s is LiniTester ==> device_type_id_value(s) == 43,
        s is Device57Uv0 ==> device_type_id_value(s) == 28,
        s is Device57Ev0 ==> device_type_id_value(s) == 29,
        s is Device58EU ==> device_type_id_value(s) == 40,
        s is PoPLC58 ==> device_type_id_value(s) == 50,
        s is OEM1 ==> device_type_id_value(s) == 100,
        s is SerialReader ==> device_type_id_value(s) == 101,
        s is X15_02_24 ==> device_type_id_value(s) == 102,
        s != t ==> device_type_id_value(s) != device_type_id_value(t),
{
}

impl DeviceTypeId {
    /// The protocol number of this device type.
    pub fn value(&self) -> (r: u8)
        ensures
            r == device_type_id_value(*self),
    {
        match self {
            DeviceTypeId::Bootloader55 => 3,
            DeviceTypeId::Bootloader56U => 15,
            DeviceTypeId::Bootloader56E => 16,
            DeviceTypeId::Bootloader58 => 41,
            DeviceTypeId::Device55v1 => 0,
            DeviceTypeId::Device55v2 => 1,
            DeviceTypeId::Device55v3 => 2,
            DeviceTypeId::Device56U => 10,
            DeviceTypeId::Device56E => 11,
            DeviceTypeId::Device27U => 20,
            DeviceTypeId::Device27E => 21,
            DeviceTypeId::Device57U => 30,
            DeviceTypeId::Device57E => 31,
            DeviceTypeId::PoKeys57CNC => 32,
            DeviceTypeId::PoKeys57CNCpro4x25 => 33,
            DeviceTypeId::PoKeys57CNCdb25 => 38,
            DeviceTypeId::PoKeys57Utest => 39,
            DeviceTypeId::LiniTester => 43,
            DeviceTypeId::Device57Uv0 => 28,
            DeviceTypeId::Device57Ev0 => 29,
            DeviceTypeId::Device58EU => 40,
            DeviceTypeId::PoPLC58 => 50,
            DeviceTypeId::OEM1 => 100,
            DeviceTypeId::SerialReader => 101,
            DeviceTypeId::X15_02_24 => 102,
        }
    }
}

/// Device type masks for capability checking.
#[derive(Debug, Clone, Copy)]
pub struct DeviceTypeMask(pub u64);

/// The bit of each device family in a `DeviceTypeMask`.
impl DeviceTypeMask {
    pub const BOOTLOADER: u64 = 0x1;
    pub const BOOTLOADER55: u64 = 0x2;
    pub const BOOTLOADER56: u64 = 0x4;
    pub const BOOTLOADER56U: u64 = 0x8;
    pub const BOOTLOADER56E: u64 = 0x10;
    pub const BOOTLOADER58: u64 = 0x20;
    pub const DEVICE55: u64 = 0x400;
    pub const DEVICE55V1: u64 = 0x800;
    pub const DEVICE55V2: u64 = 0x1000;
    pub const DEVICE55V3: u64 = 0x2000;
    pub const DEVICE56: u64 = 0x4000;
    pub const DEVICE56U: u64 = 0x8000;
    pub const DEVICE56E: u64 = 0x10000;
    pub const DEVICE27: u64 = 0x20000;
    pub const DEVICE27U: u64 = 0x40000;
    pub const DEVICE27E: u64 = 0x80000;
    pub const DEVICE57: u64 = 0x100000;
    pub const DEVICE57U: u64 = 0x1000000;
    pub const DEVICE57E: u64 = 0x2000000;
    pub const DEVICE57CNC: u64 = 0x4000000;
    pub const DEVICE57CNCDB25: u64 = 0x8000000;
    pub const DEVICE57UTEST: u64 = 0x10000000;
    pub const DEVICE57CNCPRO4X25: u64 = 0x20000000;
    pub const DEVICE58: u64 = 0x200000;
    pub const POPLC58: u64 = 0x400000;
    pub const POKEYS16RF: u64 = 0x800000;
}


/// Pulse engine state.
#[derive(Debug, Clone, Copy, PartialEq, Eq, Structural)]
pub enum PulseEngineState {
    Stopped,
    Internal,
    Buffer,
    Running,
    Jogging,
    Stopping,
    Home,
    Homing,
    ProbeComplete,
    Probe,
    ProbeError,
    HybridProbeStopping,
    HybridProbeComplete,
    StopLimit,
    StopEmergency,
}

/// The protocol number of a pulse engine state.
pub open spec fn pulse_engine_state_value(s: PulseEngineState) -> u8 {
    match s {
        PulseEngineState::Stopped => 0,
        PulseEngineState::Internal => 1,
        PulseEngineState::Buffer => 2,
        PulseEngineState::Running => 3,
        PulseEngineState::Jogging => 10,
        PulseEngineState::Stopping => 11,
        PulseEngineState::Home => 20,
        PulseEngineState::Homing => 21,
        PulseEngineState::ProbeComplete => 30,
        PulseEngineState::Probe => 31,
        PulseEngineState::ProbeError => 32,
        PulseEngineState::HybridProbeStopping => 40,
        PulseEngineState::HybridProbeComplete => 41,
        PulseEngineState::StopLimit => 100,
        PulseEngineState::StopEmergency => 101,
    }
}

/// The protocol numbers of the pulse engine states, as the protocol documents them; no
/// two share a number.
pub proof fn lemma_pulse_engine_state_value_table(s: PulseEngineState, t: PulseEngineState)
    ensures
        s is Stopped ==> pulse_engine_state_value(s) == 0,
        s is Internal ==> pulse_engine_state_value(s) == 1,
        s is Buffer ==> pulse_engine_state_value(s) == 2,
        s is Running ==> pulse_engine_state_value(s) == 3,
        s is Jogging ==> pulse_engine_state_value(s) == 10,
        s is Stopping ==> pulse_engine_state_value(s) == 11,
        s is Home ==> pulse_engine_state_value(s) == 20,
        s is Homing ==> pulse_engine_state_value(s) == 21,
        s is ProbeComplete ==> pulse_engine_state_value(s) == 30,
        s is Probe ==> pulse_engine_state_value(s) == 31,
        s is ProbeError ==> pulse_engine_state_value(s) == 32,
        s is HybridProbeStopping ==> pulse_engine_state_value(s) == 40,
        s is HybridProbeComplete ==> pulse_engine_state_value(s) == 41,
        s is StopLimit ==> pulse_engine_state_value(s) == 100,
        s is StopEmergency ==> pulse_engine_state_value(s) == 101,
        s != t ==> pulse_engine_state_value(s) != pulse_engine_state_value(t),
{
}

impl PulseEngineState {
    /// The protocol number of this state.
    pub fn value(&self) -> (r: u8)
        ensures
            r == pulse_engine_state_value(*self),
    {
        match self {
            PulseEngineState::Stopped => 0,
            PulseEngineState::Internal => 1,
            PulseEngineState::Buffer => 2,
            PulseEngineState::Running => 3,
            PulseEngineState::Jogging => 10,
            PulseEngineState::Stopping => 11,
            PulseEngineState::Home => 20,
            PulseEngineState::Homing => 21,
            PulseEngineState::ProbeComplete => 30,
            PulseEngineState::Probe => 31,
            PulseEngineState::ProbeError => 32,
            PulseEngineState::HybridProbeStopping => 40,
            PulseEngineState::HybridProbeComplete => 41,
            PulseEngineState::StopLimit => 100,
            PulseEngineState::StopEmergency => 101,
        }
    }
}

/// Pulse engine axis state.
#[derive(Debug, Clone, Copy, PartialEq, Eq, Structural)]
pub enum PulseEngineAxisState {
    Stopped,
    Ready,
    Running,
    HomingResetting,
    HomingBackingOff,
    Home,
    HomingStart,
    HomingSearch,
    HomingBack,
    Probed,
    ProbeStart,
    ProbeSearch,
    Error,
    Limit,
}

/// The protocol number of an axis state.
pub open spec fn axis_state_value(s: PulseEngineAxisState) -> u8 {
    match s {
        PulseEngineAxisState::Stopped => 0,
        PulseEngineAxisState::Ready => 1,
        PulseEngineAxisState::Running => 2,
        PulseEngineAxisState::HomingResetting => 8,
        PulseEngineAxisState::HomingBackingOff => 9,
        PulseEngineAxisState::Home => 10,
        PulseEngineAxisState::HomingStart => 11,
        PulseEngineAxisState::HomingSearch => 12,
        PulseEngineAxisState::HomingBack => 13,
        PulseEngineAxisState::Probed => 14,
        PulseEngineAxisState::ProbeStart => 15,
        PulseEngineAxisState::ProbeSearch => 16,
        PulseEngineAxisState::Error => 20,
        PulseEngineAxisState::Limit => 30,
    }
}

/// The protocol numbers of the axis states, as the protocol documents them; no
/// two share a number.
pub proof fn lemma_axis_state_value_table(s: PulseEngineAxisState, t: PulseEngineAxisState)
    ensures
        s is Stopped ==> axis_state_value(s) == 0,
        s is Ready ==> axis_state_value(s) == 1,
        s is Running ==> axis_state_value(s) == 2,
        s is HomingResetting ==> axis_state_value(s) == 8,
        s is HomingBackingOff ==> axis_state_value(s) == 9,
        s is Home ==> axis_state_value(s) == 10,
        s is HomingStart ==> axis_state_value(s) == 11,
        s is HomingSearch ==> axis_state_value(s) == 12,
        s is HomingBack ==> axis_state_value(s) == 13,
        s is Probed ==> axis_state_value(s) == 14,
        s is ProbeStart ==> axis_state_value(s) == 15,
        s is ProbeSearch ==> axis_state_value(s) == 16,
        s is Error ==> axis_state_value(s) == 20,
        s is Limit ==> axis_state_value(s) == 30,
        s != t ==> axis_state_value(s) != axis_state_value(t),
{
}

impl PulseEngineAxisState {
    /// The protocol number of this axis state.
    pub fn value(&self) -> (r: u8)
        ensures
            r == axis_state_value(*self),
    {
        match self {
            PulseEngineAxisState::Stopped => 0,
            PulseEngineAxisState::Ready => 1,
            PulseEngineAxisState::Running => 2,
            PulseEngineAxisState::HomingResetting => 8,
            PulseEngineAxisState::HomingBackingOff => 9,
            PulseEngineAxisState::Home => 10,
            PulseEngineAxisState::HomingStart => 11,
            PulseEngineAxisState::HomingSearch => 12,
            PulseEngineAxisState::HomingBack => 13,
            PulseEngineAxisState::Probed => 14,
            PulseEngineAxisState::ProbeStart => 15,
            PulseEngineAxisState::ProbeSearch => 16,
            PulseEngineAxisState::Error => 20,
            PulseEngineAxisState::Limit => 30,
        }
    }
}

/// I2C status codes.
#[derive(Debug, Clone, Copy, PartialEq, Eq, Structural)]
pub enum I2cStatus {
    Error,
    Success,
    Complete,
    InProgress,
}

/// The protocol number of an I2C status.
pub open spec fn i2c_status_value(s: I2cStatus) -> u8 {
    match s {
        I2cStatus::Error => 0,
        I2cStatus::Success => 1,
        I2cStatus::Complete => 2,
        I2cStatus::InProgress => 0x10,
    }
}

/// The protocol numbers of the I2C statuses, as the protocol documents them; no
/// two share a number.
pub proof fn lemma_i2c_status_value_table(s: I2cStatus, t: I2cStatus)
    ensures
        s is Error ==> i2c_status_value(s) == 0,
        s is Success ==> i2c_status_value(s) == 1,
        s is Complete ==> i2c_status_value(s) == 2,
        s is InProgress ==> i2c_status_value(s) == 0x10,
        s != t ==> i2c_status_value(s) != i2c_status_value(t),
{
}

impl I2cStatus {
    /// The protocol number of this status.
    pub fn value(&self) -> (r: u8)
        ensures
            r == i2c_status_value(*self),
    {
        match self {
            I2cStatus::Error => 0,
            I2cStatus::Success => 1,
            I2cStatus::Complete => 2,
            I2cStatus::InProgress => 0x10,
        }
    }
}

/// Validation levels for protocol validation.
#[derive(Debug, PartialEq, Eq)]
pub enum ValidationLevel {
    /// Pass everything through.
    Disabled,
    /// Validate packet structure only.
    Basic,
    /// Full protocol validation.
    Strict,
    Custom(ValidationConfig),
}

/// Custom validation configuration.
#[derive(Debug, PartialEq, Eq)]
pub struct ValidationConfig {
    pub validate_checksums: bool,
    pub validate_command_ids: bool,
    pub validate_device_ids: bool,
    pub validate_packet_structure: bool,
    pub max_device_id: u8,
    pub valid_commands: HashSet<u8>,
}

impl Default for ValidationConfig {
    fn default() -> (r: Self)
        ensures
            r.validate_checksums,
            r.validate_command_ids,
            r.validate_device_ids,
            r.validate_packet_structure,
            r.max_device_id == 255,
            r.valid_commands@ == Set::<u8>::empty(),
    {
        ValidationConfig {
            validate_checksums: true,
            validate_command_ids: true,
            validate_device_ids: true,
            validate_packet_structure: true,
            max_device_id: 255,
            valid_commands: HashSet::new(),
        }
    }
}

/// I2C configuration options.
#[derive(Debug)]
pub struct I2cConfig {
    pub max_packet_size: usize,
    pub auto_fragment: bool,
    pub fragment_delay_ms: u64,
    pub validation_level: ValidationLevel,
}

impl Default for I2cConfig {
    fn default() -> (r: Self)
        ensures
            r.max_packet_size == 32,
            !r.auto_fragment,
            r.fragment_delay_ms == 10,
            r.validation_level is Disabled,
    {
        I2cConfig {
            max_packet_size: 32,
            auto_fragment: false,
            fragment_delay_ms: 10,
            validation_level: ValidationLevel::Disabled,
        }
    }
}

/// I2C performance metrics.
#[derive(Debug)]
pub struct I2cMetrics {
    pub total_commands: u64,
    pub successful_commands: u64,
    pub failed_commands: u64,
    pub average_response_time: std::time::Duration,
    pub max_response_time: std::time::Duration,
    pub min_response_time: std::time::Duration,
    pub error_counts: HashMap<String, u32>,
}

/// Name for the duration that `Duration::from_millis` makes of a count of
/// milliseconds.
pub uninterp spec fn duration_from_millis(ms: u64) -> std::time::Duration;

/// A duration of `ms` milliseconds.
///
/// Calls `std::time::Duration::from_millis`. Trusted: the result is the named
/// duration of that many milliseconds.
#[verifier::external_body]
pub(crate) fn millis(ms: u64) -> (r: std::time::Duration)
    ensures
        r == duration_from_millis(ms),
{
    std::time::Duration::from_millis(ms)
}

impl Default for I2cMetrics {
    fn default() -> (r: Self)
        ensures
            r.total_commands == 0,
            r.successful_commands == 0,
            r.failed_commands == 0,
            r.average_response_time == duration_from_millis(0),
            r.max_response_time == duration_from_millis(0),
            r.min_response_time == duration_from_millis(0),
            r.error_counts@ == Map::<String, u32>::empty(),
    {
        I2cMetrics {
            total_commands: 0,
            successful_commands: 0,
            failed_commands: 0,
            average_response_time: millis(0),
            max_response_time: millis(0),
            min_response_time: millis(0),
            error_counts: HashMap::new(),
        }
    }
}

/// Connectivity status.
#[derive(Debug, Clone)]
pub enum ConnectivityStatus {
    Healthy,
    Degraded(String),
    Failed(String),
}

/// I2C health status.
#[derive(Debug, Clone)]
pub enum I2cHealthStatus {
    Healthy,
    Degraded(String),
    Failed(String),
}

/// LCD mode.
#[derive(Debug, Clone, Copy, PartialEq, Eq, Structural)]
pub enum LcdMode {
    Direct,
    Buffered,
}

impl LcdMode {
    /// The protocol number of this mode.
    pub fn value(&self) -> (r: u8)
        ensures
            r == (if *self == LcdMode::Direct { 0u8 } else { 1u8 }),
    {
        match self {
            LcdMode::Direct => 0,
            LcdMode::Buffered => 1,
        }
    }
}

/// Device information: counts of peripherals and feature flags.
#[derive(Debug, Clone, Copy, PartialEq, Eq, Structural)]
pub struct DeviceInfo {
    pub pin_count: u32,
    pub pwm_count: u32,
    pub basic_encoder_count: u32,
    pub encoders_count: u32,
    pub fast_encoders: u32,
    pub ultra_fast_encoders: u32,
    pub pwm_internal_frequency: u32,
    pub analog_inputs: u32,
    pub key_mapping: u32,
    pub triggered_key_mapping: u32,
    pub key_repeat_delay: u32,
    pub digital_counters: u32,
    pub joystick_button_axis_mapping: u32,
    pub joystick_analog_to_digital_mapping: u32,
    pub macros: u32,
    pub matrix_keyboard: u32,
    pub matrix_keyboard_triggered_mapping: u32,
    pub lcd: u32,
    pub matrix_led: u32,
    pub connection_signal: u32,
    pub po_ext_bus: u32,
    pub po_net: u32,
    pub analog_filtering: u32,
    pub init_outputs_start: u32,
    pub prot_i2c: u32,
    pub prot_1wire: u32,
    pub additional_options: u32,
    pub load_status: u32,
    pub custom_device_name: u32,
    pub po_tlog27_support: u32,
    pub sensor_list: u32,
    pub web_interface: u32,
    pub fail_safe_settings: u32,
    pub joystick_hat_switch: u32,
    pub pulse_engine: u32,
    pub pulse_engine_v2: u32,
    pub easy_sensors: u32,
}

/// Device-specific data.
#[derive(Debug, Clone, Copy)]
pub struct DeviceData {
    pub device_type_id: u32,
    pub serial_number: u32,
    pub device_name: [u8; 30],
    pub device_type_name: [u8; 30],
    pub build_date: [u8; 12],
    pub activation_code: [u8; 8],
    pub firmware_version_major: u8,
    pub firmware_version_minor: u8,
    pub firmware_revision: u8,
    pub user_id: u8,
    pub device_type: u8,
    pub activated_options: u8,
    pub device_lock_status: u8,
    pub hw_type: u8,
    pub fw_type: u8,
    pub product_id: u8,
    pub secondary_firmware_version_major: u8,
    pub secondary_firmware_version_minor: u8,
    pub device_is_bootloader: u8,
}

/// A `DeviceData` whose numbers are all zero and whose text fields are empty.
pub open spec fn device_data_is_blank(d: DeviceData) -> bool {
    &&& d.device_type_id == 0
    &&& d.serial_number == 0
    &&& d.device_name@ == Seq::new(30, |i: int| 0u8)
    &&& d.device_type_name@ == Seq::new(30, |i: int| 0u8)
    &&& d.build_date@ == Seq::new(12, |i: int| 0u8)
    &&& d.activation_code@ == Seq::new(8, |i: int| 0u8)
    &&& d.firmware_version_major == 0
    &&& d.firmware_version_minor == 0
    &&& d.firmware_revision == 0
    &&& d.user_id == 0
    &&& d.device_type == 0
    &&& d.activated_options == 0
    &&& d.device_lock_status == 0
    &&& d.hw_type == 0
    &&& d.fw_type == 0
    &&& d.product_id == 0
    &&& d.secondary_firmware_version_major == 0
    &&& d.secondary_firmware_version_minor == 0
    &&& d.device_is_bootloader == 0
}

impl Default for DeviceData {
    fn default() -> (r: Self)
        ensures
            device_data_is_blank(r),
    {
        let r = DeviceData {
            device_type_id: 0,
            serial_number: 0,
            device_name: [0u8; 30],
            device_type_name: [0u8; 30],
            build_date: [0u8; 12],
            activation_code: [0u8; 8],
            firmware_version_major: 0,
            firmware_version_minor: 0,
            firmware_revision: 0,
            user_id: 0,
            device_type: 0,
            activated_options: 0,
            device_lock_status: 0,
            hw_type: 0,
            fw_type: 0,
            product_id: 0,
            secondary_firmware_version_major: 0,
            secondary_firmware_version_minor: 0,
            device_is_bootloader: 0,
        };
        assert(r.device_name@ =~= Seq::new(30, |i: int| 0u8));
        assert(r.device_type_name@ =~= Seq::new(30, |i: int| 0u8));
        assert(r.build_date@ =~= Seq::new(12, |i: int| 0u8));
        assert(r.activation_code@ =~= Seq::new(8, |i: int| 0u8));
        r
    }
}

/// Major software version: one more than the high nibble of the version byte.
pub open spec fn sw_major(b: u8) -> nat {
    (1 + b / 16) as nat
}

/// Minor software version: the low nibble of the version byte.
pub open spec fn sw_minor(b: u8) -> nat {
    (b % 16) as nat
}

/// `major.minor.revision` rendered from the version and revision bytes.
pub open spec fn software_version_text(version: u8, revision: u8) -> Seq<char> {
    dec(sw_major(version)) + seq!['.'] + dec(sw_minor(version)) + seq!['.'] + dec(revision as nat)
}

/// The product name of a hardware type, where the table knows it.
pub open spec fn hw_type_name(hw: u8) -> Option<Seq<char>> {
    if hw == 1 || hw == 2 || hw == 3 { Some("PoKeys55"@) }
    else if hw == 10 { Some("Pokeys56U"@) }
    else if hw == 11 { Some("Pokeys56E"@) }
    else if hw == 28 { Some("Pokeys57U"@) }
    else if hw == 29 { Some("Pokeys57E"@) }
    else if hw == 30 { Some("PoKeys57Uv1.1"@) }
    else if hw == 31 { Some("PoKeys57Ev1.1"@) }
    else if hw == 32 { Some("PoKeys57CNC"@) }
    else if hw == 35 || hw == 36 { Some("PoKeys57U OEM"@) }
    else if hw == 37 { Some("PoPLC57NG"@) }
    else if hw == 38 { Some("PoKeys57CNCdb25 "@) }
    else if hw == 39 { Some("PoKeys57Utest "@) }
    else if hw == 40 { Some("PoKeys58EU"@) }
    else if hw == 41 { Some("PoBootload (series 58)"@) }
    else if hw == 43 { Some("LiniTester programmer"@) }
    else if hw == 44 { Some("LiniTester calibrator  "@) }
    else if hw == 45 { Some("PoKeys57Industrial1 "@) }
    else if hw == 50 { Some("PoPLC v1.0"@) }
    else if hw == 60 { Some("PoKeys16"@) }
    else { None }
}

/// The product names of the hardware types, as the device table gives
/// them; other hardware types have no name.
pub proof fn lemma_hw_type_names(hw: u8)
    ensures
        hw_type_name(1) == Some("PoKeys55"@),
        hw_type_name(2) == Some("PoKeys55"@),
        hw_type_name(3) == Some("PoKeys55"@),
        hw_type_name(10) == Some("Pokeys56U"@),
        hw_type_name(11) == Some("Pokeys56E"@),
        hw_type_name(28) == Some("Pokeys57U"@),
        hw_type_name(29) == Some("Pokeys57E"@),
        hw_type_name(30) == Some("PoKeys57Uv1.1"@),
        hw_type_name(31) == Some("PoKeys57Ev1.1"@),
        hw_type_name(32) == Some("PoKeys57CNC"@),
        hw_type_name(35) == Some("PoKeys57U OEM"@),
        hw_type_name(36) == Some("PoKeys57U OEM"@),
        hw_type_name(37) == Some("PoPLC57NG"@),
        hw_type_name(38) == Some("PoKeys57CNCdb25 "@),
        hw_type_name(39) == Some("PoKeys57Utest "@),
        hw_type_name(40) == Some("PoKeys58EU"@),
        hw_type_name(41) == Some("PoBootload (series 58)"@),
        hw_type_name(43) == Some("LiniTester programmer"@),
        hw_type_name(44) == Some("LiniTester calibrator  "@),
        hw_type_name(45) == Some("PoKeys57Industrial1 "@),
        hw_type_name(50) == Some("PoPLC v1.0"@),
        hw_type_name(60) == Some("PoKeys16"@),
        !(hw == 1 || hw == 2 || hw == 3 || hw == 10 || hw == 11 || hw == 28 || hw == 29 || hw == 30 || hw == 31 || hw == 32 || hw == 35 || hw == 36 || hw == 37 || hw == 38 || hw == 39 || hw == 40 || hw == 41 || hw == 43 || hw == 44 || hw == 45 || hw == 50 || hw == 60) ==> hw_type_name(hw) is None,
{
}

/// `Unknown Device (ID: <id>, HW: <hw>)`.
pub open spec fn unknown_device_text(id: u32, hw: u8) -> Seq<char> {
    "Unknown Device (ID: "@ + dec(id as nat) + ", HW: "@ + dec(hw as nat) + ")"@
}

fn known_hw_type_name(hw: u8) -> (r: Option<&'static str>)
    ensures
        match hw_type_name(hw) {
            Some(n) => r is Some && r->0@ == n,
            None => r is None,
        },
{
    if hw == 1 || hw == 2 || hw == 3 { Some("PoKeys55") }
    else if hw == 10 { Some("Pokeys56U") }
    else if hw == 11 { Some("Pokeys56E") }
    else if hw == 28 { Some("Pokeys57U") }
    else if hw == 29 { Some("Pokeys57E") }
    else if hw == 30 { Some("PoKeys57Uv1.1") }
    else if hw == 31 { Some("PoKeys57Ev1.1") }
    else if hw == 32 { Some("PoKeys57CNC") }
    else if hw == 35 || hw == 36 { Some("PoKeys57U OEM") }
    else if hw == 37 { Some("PoPLC57NG") }
    else if hw == 38 { Some("PoKeys57CNCdb25 ") }
    else if hw == 39 { Some("PoKeys57Utest ") }
    else if hw == 40 { Some("PoKeys58EU") }
    else if hw == 41 { Some("PoBootload (series 58)") }
    else if hw == 43 { Some("LiniTester programmer") }
    else if hw == 44 { Some("LiniTester calibrator  ") }
    else if hw == 45 { Some("PoKeys57Industrial1 ") }
    else if hw == 50 { Some("PoPLC v1.0") }
    else if hw == 60 { Some("PoKeys16") }
    else { None }
}

impl DeviceData {
    /// Whether the device reports its configuration as locked.
    pub fn device_locked(&self) -> (r: bool)
        ensures
            r == (self.device_lock_status != 0),
    {
        self.device_lock_status != 0
    }

    /// The activated option bits.
    pub fn device_features(&self) -> (r: u8)
        ensures
            r == self.activated_options,
    {
        self.activated_options
    }

    /// The software version as `major.minor.revision`: the major version is one
    /// more than the high nibble of `firmware_version_major`, the minor version
    /// its low nibble, and the revision is `firmware_version_minor`.
    pub fn software_version_string(&self) -> (r: String)
        ensures
            r@ == software_version_text(self.firmware_version_major, self.firmware_version_minor),
    {
        let b = self.firmware_version_major;
        proof { crate::bits::lemma_nibbles(b); }
        let major: u8 = 1 + ((b >> 4) & 0x0F);
        let minor: u8 = b & 0x0F;
        let mut s = String::new();
        push_dec(&mut s, major as u64);
        s.append(".");
        push_dec(&mut s, minor as u64);
        s.append(".");
        push_dec(&mut s, self.firmware_version_minor as u64);
        proof {
            reveal_strlit(".");
        }
        assert(s@ =~= software_version_text(self.firmware_version_major, self.firmware_version_minor));
        s
    }

    /// The device name: the lossy UTF-8 text of the name bytes, without
    /// trailing NUL characters.
    pub fn device_name(&self) -> (r: String)
        ensures
            r@ == trim_trailing_nul(utf8_lossy(self.device_name@)),
    {
        let t = from_utf8_lossy(&self.device_name);
        trim_end_nul(t.as_str())
    }

    /// The product name of the hardware type, or
    /// `Unknown Device (ID: <device_type_id>, HW: <hw_type>)`.
    pub fn device_type_name(&self) -> (r: String)
        ensures
            r@ == match hw_type_name(self.hw_type) {
                Some(n) => n,
                None => unknown_device_text(self.device_type_id, self.hw_type),
            },
    {
        match known_hw_type_name(self.hw_type) {
            Some(n) => string_of(n),
            None => {
                let mut s = string_of("Unknown Device (ID: ");
                push_dec(&mut s, self.device_type_id as u64);
                s.append(", HW: ");
                push_dec(&mut s, self.hw_type as u64);
                s.append(")");
                s
            },
        }
    }

    /// The build date: the lossy UTF-8 text of its bytes, without trailing
    /// NUL characters.
    pub fn build_date_string(&self) -> (r: String)
        ensures
            r@ == trim_trailing_nul(utf8_lossy(self.build_date@)),
    {
        let t = from_utf8_lossy(&self.build_date);
        trim_end_nul(t.as_str())
    }
}

/// Network device summary for enumeration.
#[derive(Debug, Clone, Copy)]
pub struct NetworkDeviceSummary {
    pub serial_number: u32,
    pub ip_address: [u8; 4],
    pub host_ip: [u8; 4],
    pub firmware_version_major: u8,
    pub firmware_version_minor: u8,
    pub firmware_revision: u8,
    pub user_id: u8,
    pub dhcp: u8,
    pub hw_type: u8,
    pub use_udp: u8,
}

/// Network device information.
#[derive(Debug, Clone, Copy)]
pub struct NetworkDeviceInfo {
    pub ip_address_current: [u8; 4],
    pub ip_address_setup: [u8; 4],
    pub subnet_mask: [u8; 4],
    pub gateway_ip: [u8; 4],
    pub tcp_timeout: u16,
    pub additional_network_options: u8,
    pub dhcp: u8,
}

impl Default for NetworkDeviceInfo {
    fn default() -> (r: Self)
        ensures
            r.ip_address_current@ == seq![0u8, 0, 0, 0],
            r.ip_address_setup@ == seq![0u8, 0, 0, 0],
            r.subnet_mask@ == seq![0u8, 0, 0, 0],
            r.gateway_ip@ == seq![0u8, 0, 0, 0],
            r.tcp_timeout == 0,
            r.additional_network_options == 0,
            r.dhcp == 0,
    {
        let r = NetworkDeviceInfo {
            ip_address_current: [0u8; 4],
            ip_address_setup: [0u8; 4],
            subnet_mask: [0u8; 4],
            gateway_ip: [0u8; 4],
            tcp_timeout: 0,
            additional_network_options: 0,
            dhcp: 0,
        };
        assert(r.ip_address_current@ =~= seq![0u8, 0, 0, 0]);
        assert(r.ip_address_setup@ =~= seq![0u8, 0, 0, 0]);
        assert(r.subnet_mask@ =~= seq![0u8, 0, 0, 0]);
        assert(r.gateway_ip@ =~= seq![0u8, 0, 0, 0]);
        r
    }
}

impl NetworkDeviceInfo {
    /// The current IP address.
    pub fn ip_address(&self) -> (r: [u8; 4])
        ensures
            r == self.ip_address_current,
    {
        self.ip_address_current
    }

    /// The gateway address.
    pub fn gateway(&self) -> (r: [u8; 4])
        ensures
            r == self.gateway_ip,
    {
        self.gateway_ip
    }

    /// The DNS server; this structure does not hold one, so it is all zeros.
    pub fn dns_server(&self) -> (r: [u8; 4])
        ensures
            r@ == seq![0u8, 0, 0, 0],
    {
        let r = [0u8; 4];
        assert(r@ =~= seq![0u8, 0, 0, 0]);
        r
    }

    /// The MAC address; this structure does not hold one, so it is all zeros.
    pub fn mac_address(&self) -> (r: [u8; 6])
        ensures
            r@ == seq![0u8, 0, 0, 0, 0, 0],
    {
        let r = [0u8; 6];
        assert(r@ =~= seq![0u8, 0, 0, 0, 0, 0]);
        r
    }

    /// The device name; this structure does not hold one, so it is empty.
    pub fn device_name(&self) -> (r: String)
        ensures
            r@ == Seq::<char>::empty(),
    {
        String::new()
    }

    /// The HTTP port (80).
    pub fn http_port(&self) -> (r: u16)
        ensures
            r == 80,
    {
        80
    }

    /// The TCP port of the PoKeys protocol (20055).
    pub fn tcp_port(&self) -> (r: u16)
        ensures
            r == 20055,
    {
        20055
    }

    /// The UDP port of the PoKeys protocol (20055).
    pub fn udp_port(&self) -> (r: u16)
        ensures
            r == 20055,
    {
        20055
    }

    /// Whether DHCP is enabled.
    pub fn dhcp_enabled(&self) -> (r: bool)
        ensures
            r == (self.dhcp != 0),
    {
        self.dhcp != 0
    }
}

/// Real-time clock structure.
#[derive(Debug, Clone, Copy, PartialEq, Eq, Structural)]
pub struct RealTimeClock {
    pub sec: u8,
    pub min: u8,
    pub hour: u8,
    pub dow: u8,
    pub dom: u8,
    pub tmp: u8,
    pub doy: u16,
    pub month: u16,
    pub year: u16,
}

/// CAN message structure.
#[derive(Debug, Clone, Copy)]
pub struct CanMessage {
    pub id: u32,
    pub data: [u8; 8],
    pub len: u8,
    pub format: u8,
    pub msg_type: u8,
}

/// Size of a request packet.
pub const REQUEST_BUFFER_SIZE: usize = 68;
/// Size of a response packet.
pub const RESPONSE_BUFFER_SIZE: usize = 68;
/// Size of a multipart packet.
pub const MULTIPART_BUFFER_SIZE: usize = 448;

/// USB vendor ID.
pub const USB_VENDOR_ID: u16 = 0x1DC3;
/// USB product ID, first variant.
pub const USB_PRODUCT_ID_1: u16 = 0x1001;
/// USB product ID, second variant.
pub const USB_PRODUCT_ID_2: u16 = 0x1002;

/// First byte of every request.
pub const REQUEST_HEADER: u8 = 0xBB;
/// First byte of every response.
pub const RESPONSE_HEADER: u8 = 0xAA;
/// Number of leading bytes covered by the checksum.
pub const CHECKSUM_LENGTH: usize = 7;

} // verus!
