//! uSPIBridge: commands, segment mappings and chain configuration for
//! MAX7219 displays behind an I2C bridge.

use vstd::prelude::*;

verus! {

/// uSPIBridge commands carried over I2C.
#[derive(Debug, Clone, Copy, PartialEq, Eq, Structural)]
pub enum USPIBridgeCommand {
    SetBrightness,
    DisplayText,
    DisplayNumber,
    SetCharacter,
    SetPattern,
    SetDecimal,
    ClearDevice,
    SetSegmentMapping,
    SetSegmentMappingType,
    GetSegmentMapping,
    TestSegmentMapping,
    CreateVirtualDevice,
    DeleteVirtualDevice,
    ListVirtualDevices,
    VirtualText,
    VirtualBrightness,
    VirtualClear,
    VirtualScrollLeft,
    VirtualScrollRight,
    VirtualFlash,
    VirtualStop,
    SystemReset,
    SystemStatus,
    SystemConfig,
}

/// The command byte of a uSPIBridge command.
pub open spec fn uspibridge_command_value(c: USPIBridgeCommand) -> u8 {
    match c {
        USPIBridgeCommand::SetBrightness => 0x11,
        USPIBridgeCommand::DisplayText => 0x20,
        USPIBridgeCommand::DisplayNumber => 0x21,
        USPIBridgeCommand::SetCharacter => 0x22,
        USPIBridgeCommand::SetPattern => 0x23,
        USPIBridgeCommand::SetDecimal => 0x24,
        USPIBridgeCommand::ClearDevice => 0x25,
        USPIBridgeCommand::SetSegmentMapping => 0x26,
        USPIBridgeCommand::SetSegmentMappingType => 0x27,
        USPIBridgeCommand::GetSegmentMapping => 0x28,
        USPIBridgeCommand::TestSegmentMapping => 0x29,
        USPIBridgeCommand::CreateVirtualDevice => 0x40,
        USPIBridgeCommand::DeleteVirtualDevice => 0x41,
        USPIBridgeCommand::ListVirtualDevices => 0x42,
        USPIBridgeCommand::VirtualText => 0x43,
        USPIBridgeCommand::VirtualBrightness => 0x44,
        USPIBridgeCommand::VirtualClear => 0x45,
        USPIBridgeCommand::VirtualScrollLeft => 0x46,
        USPIBridgeCommand::VirtualScrollRight => 0x47,
        USPIBridgeCommand::VirtualFlash => 0x48,
        USPIBridgeCommand::VirtualStop => 0x49,
        USPIBridgeCommand::SystemReset => 0x50,
        USPIBridgeCommand::SystemStatus => 0x51,
        USPIBridgeCommand::SystemConfig => 0x52,
    }
}

impl USPIBridgeCommand {
    /// The command byte.
    pub fn value(&self) -> (r: u8)
        ensures
            r == uspibridge_command_value(*self),
    {
        match self {
            USPIBridgeCommand::SetBrightness => 0x11,
            USPIBridgeCommand::DisplayText => 0x20,
            USPIBridgeCommand::DisplayNumber => 0x21,
            USPIBridgeCommand::SetCharacter => 0x22,
            USPIBridgeCommand::SetPattern => 0x23,
            USPIBridgeCommand::SetDecimal => 0x24,
            USPIBridgeCommand::ClearDevice => 0x25,
            USPIBridgeCommand::SetSegmentMapping => 0x26,
            USPIBridgeCommand::SetSegmentMappingType => 0x27,
            USPIBridgeCommand::GetSegmentMapping => 0x28,
            USPIBridgeCommand::TestSegmentMapping => 0x29,
            USPIBridgeCommand::CreateVirtualDevice => 0x40,
            USPIBridgeCommand::DeleteVirtualDevice => 0x41,
            USPIBridgeCommand::ListVirtualDevices => 0x42,
            USPIBridgeCommand::VirtualText => 0x43,
            USPIBridgeCommand::VirtualBrightness => 0x44,
            USPIBridgeCommand::VirtualClear => 0x45,
            USPIBridgeCommand::VirtualScrollLeft => 0x46,
            USPIBridgeCommand::VirtualScrollRight => 0x47,
            USPIBridgeCommand::VirtualFlash => 0x48,
            USPIBridgeCommand::VirtualStop => 0x49,
            USPIBridgeCommand::SystemReset => 0x50,
            USPIBridgeCommand::SystemStatus => 0x51,
            USPIBridgeCommand::SystemConfig => 0x52,
        }
    }
}

/// Predefined segment mapping types of the bridge firmware.
#[derive(Debug, Clone, Copy, PartialEq, Eq, Structural)]
pub enum SegmentMappingType {
    /// Standard MAX7219 mapping.
    Standard,
    /// Reversed bit order.
    Reversed,
    /// Common cathode variant.
    CommonCathode,
    /// SparkFun serial display.
    SparkfunSerial,
    /// Adafruit LED backpack.
    AdafruitBackpack,
    /// User-defined mapping.
    Custom,
}

/// The firmware number of a mapping type (0 to 5).
pub open spec fn mapping_type_value(t: SegmentMappingType) -> u8 {
    match t {
        SegmentMappingType::Standard => 0,
        SegmentMappingType::Reversed => 1,
        SegmentMappingType::CommonCathode => 2,
        SegmentMappingType::SparkfunSerial => 3,
        SegmentMappingType::AdafruitBackpack => 4,
        SegmentMappingType::Custom => 5,
    }
}

impl SegmentMappingType {
    /// The firmware number of this mapping type.
    pub fn value(&self) -> (r: u8)
        ensures
            r == mapping_type_value(*self),
    {
        match self {
            SegmentMappingType::Standard => 0,
            SegmentMappingType::Reversed => 1,
            SegmentMappingType::CommonCathode => 2,
            SegmentMappingType::SparkfunSerial => 3,
            SegmentMappingType::AdafruitBackpack => 4,
            SegmentMappingType::Custom => 5,
        }
    }
}

impl Default for SegmentMappingType {
    fn default() -> (r: Self)
        ensures
            r == SegmentMappingType::Standard,
    {
        SegmentMappingType::Standard
    }
}

/// Segment mapping: a predefined type, or a custom bit order.
#[derive(Debug, Clone, Copy)]
pub struct SegmentMapping {
    pub mapping_type: SegmentMappingType,
    /// The custom bit order, used when the type is `Custom`.
    pub custom_mapping: Option<[u8; 8]>,
}

/// The standard mapping with no custom order.
pub open spec fn is_default_mapping(m: SegmentMapping) -> bool {
    m.mapping_type == SegmentMappingType::Standard && m.custom_mapping is None
}

impl Default for SegmentMapping {
    fn default() -> (r: Self)
        ensures
            is_default_mapping(r),
    {
        SegmentMapping { mapping_type: SegmentMappingType::Standard, custom_mapping: None }
    }
}

impl SegmentMapping {
    /// A mapping of a predefined type.
    pub fn new(mapping_type: SegmentMappingType) -> (r: Self)
        ensures
            r.mapping_type == mapping_type,
            r.custom_mapping is None,
    {
        SegmentMapping { mapping_type, custom_mapping: None }
    }

    /// A custom mapping.
    pub fn custom(mapping: [u8; 8]) -> (r: Self)
        ensures
            r.mapping_type == SegmentMappingType::Custom,
            r.custom_mapping == Some(mapping),
    {
        SegmentMapping { mapping_type: SegmentMappingType::Custom, custom_mapping: Some(mapping) }
    }

    /// Whether the mapping is of the custom type.
    pub fn is_custom(&self) -> (r: bool)
        ensures
            r == (self.mapping_type == SegmentMappingType::Custom),
    {
        self.mapping_type == SegmentMappingType::Custom
    }

    /// The custom bit order, where there is one.
    pub fn get_custom_mapping(&self) -> (r: Option<&[u8; 8]>)
        ensures
            r matches Some(m) ==> self.custom_mapping == Some(*m),
            r is None <==> self.custom_mapping is None,
    {
        match &self.custom_mapping {
            Some(m) => Some(m),
            None => None,
        }
    }
}

/// uSPIBridge configuration for a chain of MAX7219 devices.
#[derive(Debug, Clone)]
pub struct USPIBridgeConfig {
    /// Number of devices in the chain.
    pub device_count: u8,
    /// Segment mapping of each device.
    pub segment_mappings: Vec<SegmentMapping>,
    /// Default brightness (0 to 15).
    pub default_brightness: u8,
    /// Maximum number of virtual devices.
    pub max_virtual_devices: u8,
}

impl Default for USPIBridgeConfig {
    fn default() -> (r: Self)
        ensures
            r.device_count == 8,
            r.segment_mappings@.len() == 8,
            forall|i: int| 0 <= i < 8 ==> is_default_mapping(#[trigger] r.segment_mappings@[i]),
            r.default_brightness == 8,
            r.max_virtual_devices == 16,
    {
        USPIBridgeConfig::new()
    }
}

fn default_mappings(n: usize) -> (r: Vec<SegmentMapping>)
    ensures
        r@.len() == n,
        forall|i: int| 0 <= i < n ==> is_default_mapping(#[trigger] r@[i]),
{
    let mut v: Vec<SegmentMapping> = Vec::new();
    let mut i: usize = 0;
    while i < n
        invariant
            i <= n,
            v@.len() == i,
            forall|k: int| 0 <= k < i ==> is_default_mapping(#[trigger] v@[k]),
        decreases n - i,
    {
        v.push(SegmentMapping::default());
        i = i + 1;
    }
    v
}

impl USPIBridgeConfig {
    /// Eight devices with the standard mapping, brightness 8, up to 16
    /// virtual devices.
    pub fn new() -> (r: Self)
        ensures
            r.device_count == 8,
            r.segment_mappings@.len() == 8,
            forall|i: int| 0 <= i < 8 ==> is_default_mapping(#[trigger] r.segment_mappings@[i]),
            r.default_brightness == 8,
            r.max_virtual_devices == 16,
    {
        USPIBridgeConfig {
            device_count: 8,
            segment_mappings: default_mappings(8),
            default_brightness: 8,
            max_virtual_devices: 16,
        }
    }

    /// Set the device count; the mapping list is cut or extended with
    /// standard mappings to that many entries.
    pub fn with_device_count(self, count: u8) -> (r: Self)
        ensures
            r.device_count == count,
            r.segment_mappings@.len() == count,
            forall|i: int| 0 <= i < count && i < self.segment_mappings@.len()
                ==> r.segment_mappings@[i] == self.segment_mappings@[i],
            forall|i: int| self.segment_mappings@.len() <= i < count ==> is_default_mapping(#[trigger] r.segment_mappings@[i]),
            r.default_brightness == self.default_brightness,
            r.max_virtual_devices == self.max_virtual_devices,
    {
        let n = count as usize;
        let mut v: Vec<SegmentMapping> = Vec::new();
        let mut i: usize = 0;
        while i < n
            invariant
                i <= n,
                v@.len() == i,
                forall|k: int| 0 <= k < i && k < self.segment_mappings@.len() ==> v@[k] == self.segment_mappings@[k],
                forall|k: int| self.segment_mappings@.len() <= k < i ==> is_default_mapping(#[trigger] v@[k]),
            decreases n - i,
        {
            if i < self.segment_mappings.len() {
                v.push(self.segment_mappings[i]);
            } else {
                v.push(SegmentMapping::default());
            }
            i = i + 1;
        }
        USPIBridgeConfig {
            device_count: count,
            segment_mappings: v,
            default_brightness: self.default_brightness,
            max_virtual_devices: self.max_virtual_devices,
        }
    }

    /// Set the mapping of one device; ignored past the list's end.
    pub fn with_segment_mapping(self, device_id: usize, mapping: SegmentMapping) -> (r: Self)
        ensures
            r.segment_mappings@ == (if device_id < self.segment_mappings@.len() {
                self.segment_mappings@.update(device_id as int, mapping)
            } else {
                self.segment_mappings@
            }),
            r.device_count == self.device_count,
            r.default_brightness == self.default_brightness,
            r.max_virtual_devices == self.max_virtual_devices,
    {
        let mut s = self;
        if device_id < s.segment_mappings.len() {
            s.segment_mappings.set(device_id, mapping);
        }
        s
    }

    /// Set the same mapping for every device.
    pub fn with_all_devices_segment_mapping(self, mapping: SegmentMapping) -> (r: Self)
        ensures
            r.segment_mappings@ == Seq::new(self.segment_mappings@.len(), |i: int| mapping),
            r.device_count == self.device_count,
            r.default_brightness == self.default_brightness,
            r.max_virtual_devices == self.max_virtual_devices,
    {
        let mut s = self;
        let n = s.segment_mappings.len();
        let mut i: usize = 0;
        while i < n
            invariant
                n == s.segment_mappings@.len(),
                i <= n,
                forall|k: int| 0 <= k < i ==> s.segment_mappings@[k] == mapping,
                s.device_count == self.device_count,
                s.default_brightness == self.default_brightness,
                s.max_virtual_devices == self.max_virtual_devices,
            decreases n - i,
        {
            s.segment_mappings.set(i, mapping);
            i = i + 1;
        }
        assert(s.segment_mappings@ =~= Seq::new(self.segment_mappings@.len(), |i: int| mapping));
        s
    }

    /// Set the default brightness, capped at 15.
    pub fn with_default_brightness(self, brightness: u8) -> (r: Self)
        ensures
            r.default_brightness == (if brightness < 15 { brightness } else { 15 }),
            r.device_count == self.device_count,
            r.segment_mappings@ == self.segment_mappings@,
            r.max_virtual_devices == self.max_virtual_devices,
    {
        let mut s = self;
        s.default_brightness = if brightness < 15 { brightness } else { 15 };
        s
    }

    /// Set the maximum number of virtual devices.
    pub fn with_max_virtual_devices(self, max_devices: u8) -> (r: Self)
        ensures
            r.max_virtual_devices == max_devices,
            r.device_count == self.device_count,
            r.segment_mappings@ == self.segment_mappings@,
            r.default_brightness == self.default_brightness,
    {
        let mut s = self;
        s.max_virtual_devices = max_devices;
        s
    }
}

} // verus!
