//! uSPIBridge commands of a device: framed packets written over I2C.
//!
//! A packet is the command byte, the device ID, the data length, the data
//! and an XOR checksum of all of them. Each command starts an I2C write
//! (see [`PoKeysDevice::i2c_write_start`]) and returns the status that the
//! start reports; an in-progress write is finished by the caller with
//! [`PoKeysDevice::i2c_write_result`] after a pause.

use vstd::prelude::*;
use vstd::string::*;
use crate::device::{PoKeysDevice, le_bytes, xor_all};
use crate::device::bus_ops::{i2c_status_of, i2c_too_large};
use crate::error::{PoKeysError, Result};
use crate::types::I2cStatus;
use crate::uspibridge::{SegmentMappingType, USPIBridgeCommand, mapping_type_value, uspibridge_command_value};

verus! {

/// The uSPIBridge packet of a command: command byte, device ID, data
/// length, data, and the XOR of all of those.
pub open spec fn uspi_packet(command: u8, device_id: u8, data: Seq<u8>) -> Seq<u8> {
    let body = seq![command, device_id, data.len() as u8] + data;
    body.push(xor_all(body))
}

/// `after` is `before` after starting an I2C write of packet `p` to
/// `address` (see [`PoKeysDevice::i2c_write_start`]), with result `r`.
pub open spec fn i2c_write_started(after: PoKeysDevice, before: PoKeysDevice, address: u8, p: Seq<u8>,
    r: Result<I2cStatus>) -> bool {
    &&& after.same_link(&before)
    &&& after.same_data(&before)
    &&& p.len() > 32 ==> i2c_too_large(r, p.len()) && after.unchanged(&before)
    &&& 1 <= p.len() <= 32 ==> {
        &&& after.tried_with_data(&before, r)
        &&& after.log() != before.log() ==> after.exchanged(&before, 0xDB, 0x10, address, p.len() as u8, 0, p)
            && r == Ok::<I2cStatus, PoKeysError>(i2c_status_of(after.reply()[3]))
        &&& after.log() == before.log() ==> r is Err
    }
}

/// The two little-endian bytes of a 16-bit value.
pub open spec fn le16(v: u16) -> Seq<u8> {
    seq![(v % 256) as u8, (v / 256) as u8]
}

/// A brightness limited to 15.
pub open spec fn brightness_byte(b: u8) -> u8 {
    if b < 15 { b } else { 15 }
}

/// Frame a uSPIBridge command (see [`uspi_packet`]).
pub fn uspibridge_packet(command: u8, device_id: u8, data: &[u8]) -> (r: Vec<u8>)
    ensures
        r@ == uspi_packet(command, device_id, data@),
{
    let mut packet: Vec<u8> = Vec::new();
    packet.push(command);
    packet.push(device_id);
    packet.push(data.len() as u8);
    let mut i: usize = 0;
    while i < data.len()
        invariant
            i <= data@.len(),
            packet@ == seq![command, device_id, data@.len() as u8] + data@.take(i as int),
        decreases data@.len() - i,
    {
        packet.push(data[i]);
        assert(packet@ =~= seq![command, device_id, data@.len() as u8] + data@.take(i + 1));
        i = i + 1;
    }
    assert(data@.take(data@.len() as int) =~= data@);
    let ghost body = packet@;
    let mut checksum: u8 = 0;
    let mut j: usize = 0;
    while j < packet.len()
        invariant
            j <= packet@.len(),
            packet@ == body,
            checksum == xor_all(body.take(j as int)),
        decreases packet@.len() - j,
    {
        assert(body.take(j + 1).drop_last() =~= body.take(j as int));
        checksum = checksum ^ packet[j];
        j = j + 1;
    }
    assert(body.take(body.len() as int) =~= body);
    packet.push(checksum);
    packet
}

/// The bytes of a text followed by the two little-endian bytes of a
/// 16-bit value.
fn text_and_u16(text: &str, v: u16) -> (r: Vec<u8>)
    ensures
        r@ == text.spec_bytes() + le16(v),
{
    let bytes = text.as_bytes();
    let mut r: Vec<u8> = Vec::new();
    let mut i: usize = 0;
    while i < bytes.len()
        invariant
            i <= bytes@.len(),
            r@ == bytes@.take(i as int),
        decreases bytes@.len() - i,
    {
        r.push(bytes[i]);
        assert(r@ =~= bytes@.take(i + 1));
        i = i + 1;
    }
    r.push((v & 0xFF) as u8);
    r.push((v >> 8u16) as u8);
    assert((v & 0xFF) as u8 == (v % 256) as u8 && (v >> 8u16) as u8 == (v / 256) as u8) by (bit_vector);
    assert(r@ =~= text.spec_bytes() + le16(v));
    r
}

impl PoKeysDevice {
    /// Start writing a uSPIBridge command to the bridge at `slave_address`
    /// (see [`uspi_packet`] and [`i2c_write_started`]).
    pub fn uspibridge_write_command(&mut self, slave_address: u8, command: USPIBridgeCommand, device_id: u8, data: &[u8])
        -> (r: Result<I2cStatus>)
        ensures
            i2c_write_started(*final(self), *old(self), slave_address, uspi_packet(uspibridge_command_value(command),
                device_id, data@), r),
    {
        let packet = uspibridge_packet(command.value(), device_id, data);
        self.i2c_write_start(slave_address, packet.as_slice())
    }

    /// Set the custom segment mapping of a display.
    pub fn uspibridge_set_segment_mapping(&mut self, slave_address: u8, device_id: u8, mapping: &[u8; 8])
        -> (r: Result<I2cStatus>)
        ensures
            i2c_write_started(*final(self), *old(self), slave_address, uspi_packet(0x26, device_id, mapping@), r),
    {
        self.uspibridge_write_command(slave_address, USPIBridgeCommand::SetSegmentMapping, device_id, mapping)
    }

    /// Select a predefined segment mapping of a display.
    pub fn uspibridge_set_segment_mapping_type(&mut self, slave_address: u8, device_id: u8,
        mapping_type: SegmentMappingType) -> (r: Result<I2cStatus>)
        ensures
            i2c_write_started(*final(self), *old(self), slave_address, uspi_packet(0x27, device_id, seq![
                mapping_type_value(mapping_type)]), r),
    {
        let data = [mapping_type.value()];
        assert(data@ =~= seq![mapping_type_value(mapping_type)]);
        self.uspibridge_write_command(slave_address, USPIBridgeCommand::SetSegmentMappingType, device_id, &data)
    }

    /// Show a test pattern on a display to check its segment mapping.
    pub fn uspibridge_test_segment_mapping(&mut self, slave_address: u8, device_id: u8, test_pattern: u8)
        -> (r: Result<I2cStatus>)
        ensures
            i2c_write_started(*final(self), *old(self), slave_address, uspi_packet(0x29, device_id, seq![test_pattern]),
                r),
    {
        let data = [test_pattern];
        assert(data@ =~= seq![test_pattern]);
        self.uspibridge_write_command(slave_address, USPIBridgeCommand::TestSegmentMapping, device_id, &data)
    }

    /// Show text on a display.
    pub fn uspibridge_display_text(&mut self, slave_address: u8, device_id: u8, text: &str) -> (r: Result<I2cStatus>)
        ensures
            i2c_write_started(*final(self), *old(self), slave_address, uspi_packet(0x20, device_id, text.spec_bytes()), r),
    {
        self.uspibridge_write_command(slave_address, USPIBridgeCommand::DisplayText, device_id, text.as_bytes())
    }

    /// Show a number on a display (its four little-endian bytes).
    pub fn uspibridge_display_number(&mut self, slave_address: u8, device_id: u8, number: u32) -> (r: Result<I2cStatus>)
        ensures
            i2c_write_started(*final(self), *old(self), slave_address, uspi_packet(0x21, device_id, le_bytes(number)), r),
    {
        let data = [(number & 0xFF) as u8, ((number >> 8u32) & 0xFF) as u8, ((number >> 16u32) & 0xFF) as u8,
            ((number >> 24u32) & 0xFF) as u8];
        proof { crate::bits::lemma_le_split(number); }
        assert(data@ =~= le_bytes(number));
        self.uspibridge_write_command(slave_address, USPIBridgeCommand::DisplayNumber, device_id, &data)
    }

    /// Set the character at a position of a display.
    pub fn uspibridge_set_character(&mut self, slave_address: u8, device_id: u8, position: u8, character: u8)
        -> (r: Result<I2cStatus>)
        ensures
            i2c_write_started(*final(self), *old(self), slave_address, uspi_packet(0x22, device_id, seq![position,
                character]), r),
    {
        let data = [position, character];
        assert(data@ =~= seq![position, character]);
        self.uspibridge_write_command(slave_address, USPIBridgeCommand::SetCharacter, device_id, &data)
    }

    /// Set the raw segment pattern at a position of a display.
    pub fn uspibridge_set_pattern(&mut self, slave_address: u8, device_id: u8, position: u8, pattern: u8)
        -> (r: Result<I2cStatus>)
        ensures
            i2c_write_started(*final(self), *old(self), slave_address, uspi_packet(0x23, device_id, seq![position,
                pattern]), r),
    {
        let data = [position, pattern];
        assert(data@ =~= seq![position, pattern]);
        self.uspibridge_write_command(slave_address, USPIBridgeCommand::SetPattern, device_id, &data)
    }

    /// Set or clear the decimal point at a position of a display.
    pub fn uspibridge_set_decimal(&mut self, slave_address: u8, device_id: u8, position: u8, state: bool)
        -> (r: Result<I2cStatus>)
        ensures
            i2c_write_started(*final(self), *old(self), slave_address, uspi_packet(0x24, device_id, seq![position,
                if state { 1u8 } else { 0u8 }]), r),
    {
        let data = [position, if state { 1u8 } else { 0u8 }];
        assert(data@ =~= seq![position, if state { 1u8 } else { 0u8 }]);
        self.uspibridge_write_command(slave_address, USPIBridgeCommand::SetDecimal, device_id, &data)
    }

    /// Set the brightness of a display (at most 15).
    pub fn uspibridge_set_brightness(&mut self, slave_address: u8, device_id: u8, brightness: u8)
        -> (r: Result<I2cStatus>)
        ensures
            i2c_write_started(*final(self), *old(self), slave_address, uspi_packet(0x11, device_id, seq![
                brightness_byte(brightness)]), r),
    {
        let data = [if brightness < 15 { brightness } else { 15 }];
        assert(data@ =~= seq![brightness_byte(brightness)]);
        self.uspibridge_write_command(slave_address, USPIBridgeCommand::SetBrightness, device_id, &data)
    }

    /// Clear a display.
    pub fn uspibridge_clear_device(&mut self, slave_address: u8, device_id: u8) -> (r: Result<I2cStatus>)
        ensures
            i2c_write_started(*final(self), *old(self), slave_address, uspi_packet(0x25, device_id, Seq::empty()), r),
    {
        let data: [u8; 0] = [];
        assert(data@ =~= Seq::<u8>::empty());
        self.uspibridge_write_command(slave_address, USPIBridgeCommand::ClearDevice, device_id, &data)
    }

    /// Show text on a virtual display.
    pub fn uspibridge_virtual_text(&mut self, slave_address: u8, virtual_id: u8, text: &str) -> (r: Result<I2cStatus>)
        ensures
            i2c_write_started(*final(self), *old(self), slave_address, uspi_packet(0x43, virtual_id, text.spec_bytes()),
                r),
    {
        self.uspibridge_write_command(slave_address, USPIBridgeCommand::VirtualText, virtual_id, text.as_bytes())
    }

    /// Create a virtual display over physical displays.
    pub fn uspibridge_create_virtual_device(&mut self, slave_address: u8, virtual_id: u8, physical_devices: &[u8])
        -> (r: Result<I2cStatus>)
        ensures
            i2c_write_started(*final(self), *old(self), slave_address, uspi_packet(0x40, virtual_id, physical_devices@),
                r),
    {
        self.uspibridge_write_command(slave_address, USPIBridgeCommand::CreateVirtualDevice, virtual_id, physical_devices)
    }

    /// Delete a virtual display.
    pub fn uspibridge_delete_virtual_device(&mut self, slave_address: u8, virtual_id: u8) -> (r: Result<I2cStatus>)
        ensures
            i2c_write_started(*final(self), *old(self), slave_address, uspi_packet(0x41, virtual_id, Seq::empty()), r),
    {
        let data: [u8; 0] = [];
        assert(data@ =~= Seq::<u8>::empty());
        self.uspibridge_write_command(slave_address, USPIBridgeCommand::DeleteVirtualDevice, virtual_id, &data)
    }

    /// Set the brightness of a virtual display (at most 15).
    pub fn uspibridge_virtual_brightness(&mut self, slave_address: u8, virtual_id: u8, brightness: u8)
        -> (r: Result<I2cStatus>)
        ensures
            i2c_write_started(*final(self), *old(self), slave_address, uspi_packet(0x44, virtual_id, seq![
                brightness_byte(brightness)]), r),
    {
        let data = [if brightness < 15 { brightness } else { 15 }];
        assert(data@ =~= seq![brightness_byte(brightness)]);
        self.uspibridge_write_command(slave_address, USPIBridgeCommand::VirtualBrightness, virtual_id, &data)
    }

    /// Scroll text on a virtual display, left or right, at `speed_ms`.
    pub fn uspibridge_virtual_scroll(&mut self, slave_address: u8, virtual_id: u8, text: &str, speed_ms: u16,
        direction_left: bool) -> (r: Result<I2cStatus>)
        ensures
            i2c_write_started(*final(self), *old(self), slave_address, uspi_packet(if direction_left { 0x46u8 } else {
                0x47u8 }, virtual_id, text.spec_bytes() + le16(speed_ms)), r),
    {
        let data = text_and_u16(text, speed_ms);
        let command = if direction_left { USPIBridgeCommand::VirtualScrollLeft } else {
            USPIBridgeCommand::VirtualScrollRight };
        self.uspibridge_write_command(slave_address, command, virtual_id, data.as_slice())
    }

    /// Flash text on a virtual display every `interval_ms`.
    pub fn uspibridge_virtual_flash(&mut self, slave_address: u8, virtual_id: u8, text: &str, interval_ms: u16)
        -> (r: Result<I2cStatus>)
        ensures
            i2c_write_started(*final(self), *old(self), slave_address, uspi_packet(0x48, virtual_id, text.spec_bytes()
                + le16(interval_ms)), r),
    {
        let data = text_and_u16(text, interval_ms);
        self.uspibridge_write_command(slave_address, USPIBridgeCommand::VirtualFlash, virtual_id, data.as_slice())
    }

    /// Stop the effects on a virtual display.
    pub fn uspibridge_virtual_stop(&mut self, slave_address: u8, virtual_id: u8) -> (r: Result<I2cStatus>)
        ensures
            i2c_write_started(*final(self), *old(self), slave_address, uspi_packet(0x49, virtual_id, Seq::empty()), r),
    {
        let data: [u8; 0] = [];
        assert(data@ =~= Seq::<u8>::empty());
        self.uspibridge_write_command(slave_address, USPIBridgeCommand::VirtualStop, virtual_id, &data)
    }

    /// Clear a virtual display.
    pub fn uspibridge_virtual_clear(&mut self, slave_address: u8, virtual_id: u8) -> (r: Result<I2cStatus>)
        ensures
            i2c_write_started(*final(self), *old(self), slave_address, uspi_packet(0x45, virtual_id, Seq::empty()), r),
    {
        let data: [u8; 0] = [];
        assert(data@ =~= Seq::<u8>::empty());
        self.uspibridge_write_command(slave_address, USPIBridgeCommand::VirtualClear, virtual_id, &data)
    }

    /// Reset the bridge.
    pub fn uspibridge_system_reset(&mut self, slave_address: u8) -> (r: Result<I2cStatus>)
        ensures
            i2c_write_started(*final(self), *old(self), slave_address, uspi_packet(0x50, 0, Seq::empty()), r),
    {
        let data: [u8; 0] = [];
        assert(data@ =~= Seq::<u8>::empty());
        self.uspibridge_write_command(slave_address, USPIBridgeCommand::SystemReset, 0, &data)
    }
}

} // verus!
