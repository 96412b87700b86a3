//! Encoder requests of a device: configuration, key mapping, raw and long
//! values, bulk options, fast and ultra-fast encoders.

use vstd::prelude::*;
use vstd::string::*;
use crate::device::{DeviceField, PoKeysDevice, Req, le_u32, packets, plain, plus_one_wrap, lemma_exchange_none,
    lemma_exchange_step};
use crate::encoders::{EncoderData, EncoderOptions, blank_encoder, has_bit, options_byte, options_of_byte,
    sampling_mode_text};
use crate::device::link_error;
use crate::error::{PoKeysError, Result};
use crate::io::signed_byte;
use crate::text::{dec, hex2, push_dec, push_hex2, string_of};

verus! {

/// The error of an encoder ID beyond the encoder list.
pub open spec fn invalid_encoder<T>(id: u8, r: Result<T>) -> bool {
    r matches Err(PoKeysError::Parameter(m)) && m@ == "Invalid encoder ID: "@ + dec(id as nat)
}

fn encoder_id_error(id: u8) -> (e: PoKeysError)
    ensures
        invalid_encoder::<()>(id, Err(e)),
{
    let mut m = string_of("Invalid encoder ID: ");
    push_dec(&mut m, id as u64);
    PoKeysError::Parameter(m)
}

/// The message of a refused encoder configuration.
pub open spec fn encoder_status_message(id: u8, status: u8) -> Seq<char> {
    if status == 1 {
        "Encoder "@ + dec(id as nat) + " configuration failed: encoder ID out of range or configuration locked"@
    } else {
        "Encoder "@ + dec(id as nat) + " configuration failed with status: "@ + dec(status as nat) + " (0x"@
            + hex2(status) + ")"@
    }
}

/// The encoder after a configuration: 0-based pins (pin 0 stays 0) and the
/// options byte.
pub open spec fn configured_encoder(e: EncoderData, a: u8, b: u8, o: EncoderOptions) -> EncoderData {
    EncoderData {
        channel_a_pin: if a > 0 { (a - 1) as u8 } else { 0 },
        channel_b_pin: if b > 0 { (b - 1) as u8 } else { 0 },
        encoder_options: options_byte(o),
        ..e
    }
}

/// A signed 32-bit little-endian value at byte `at`.
pub open spec fn long_value(r: Seq<u8>, at: int) -> i32 {
    le_u32(r[at], r[at + 1], r[at + 2], r[at + 3]) as i32
}

pub(crate) fn read_long(r: &[u8], at: usize) -> (v: i32)
    requires
        at + 4 <= r@.len(),
    ensures
        v == long_value(r@, at as int),
{
    let b0 = r[at];
    let b1 = r[at + 1];
    let b2 = r[at + 2];
    let b3 = r[at + 3];
    let u: u32 = (b0 as u32) | ((b1 as u32) << 8u32) | ((b2 as u32) << 16u32) | ((b3 as u32) << 24u32);
    proof { crate::bits::lemma_le_join(b0, b1, b2, b3); }
    u as i32
}

impl PoKeysDevice {
    /// Configure encoder `encoder_id` (`0x11`): the pins go on the wire and
    /// into the cache 0-based, the options as their byte; the cache is set
    /// before sending. Status byte 2 must be 0 (see
    /// [`encoder_status_message`]).
    pub fn configure_encoder(&mut self, encoder_id: u8, channel_a_pin: u8, channel_b_pin: u8, options: EncoderOptions)
        -> (r: Result<()>)
        ensures
            encoder_id < old(self).encoders@.len() ==> final(self).tried(old(self), r),
            final(self).same_link(old(self)),
            encoder_id >= old(self).encoders@.len() ==> invalid_encoder(encoder_id, r) && final(self).unchanged(old(self)),
            encoder_id < old(self).encoders@.len() ==> {
                let e = configured_encoder(old(self).encoders@[encoder_id as int], channel_a_pin, channel_b_pin, options);
                &&& final(self).encoders@ == old(self).encoders@.update(encoder_id as int, e)
                &&& final(self).same_data_except(old(self), set![DeviceField::Encoders])
                &&& (!old(self).connected() ==> (r matches Err(PoKeysError::NotConnected)))
                &&& final(self).log() == old(self).log() ==> r is Err
                &&& final(self).log() != old(self).log() ==> final(self).exchanged(old(self), 0x11, encoder_id,
                    options_byte(options), e.channel_a_pin, e.channel_b_pin, Seq::empty()) && (if final(self).reply()[2]
                    == 0 { r is Ok } else { r matches Err(PoKeysError::Protocol(m)) && m@ == encoder_status_message(
                    encoder_id, final(self).reply()[2]) })
            },
    {
        if encoder_id as usize >= self.encoders.len() {
            return Err(encoder_id_error(encoder_id));
        }
        let protocol_pin_a: u8 = if channel_a_pin > 0 { channel_a_pin - 1 } else { 0 };
        let protocol_pin_b: u8 = if channel_b_pin > 0 { channel_b_pin - 1 } else { 0 };
        let idx = encoder_id as usize;
        let mut e = self.encoders[idx];
        e.channel_a_pin = protocol_pin_a;
        e.channel_b_pin = protocol_pin_b;
        e.set_options(options);
        self.encoders.set(idx, e);
        let response = self.send_request(0x11, encoder_id, options.to_byte(), protocol_pin_a, protocol_pin_b)?;
        let status = response[2];
        if status == 0 {
            Ok(())
        } else if status == 1 {
            let mut m = string_of("Encoder ");
            push_dec(&mut m, encoder_id as u64);
            m.append(" configuration failed: encoder ID out of range or configuration locked");
            Err(PoKeysError::Protocol(m))
        } else {
            let mut m = string_of("Encoder ");
            push_dec(&mut m, encoder_id as u64);
            m.append(" configuration failed with status: ");
            push_dec(&mut m, status as u64);
            m.append(" (0x");
            push_hex2(&mut m, status);
            m.append(")");
            Err(PoKeysError::Protocol(m))
        }
    }

    /// Read the settings of encoder `encoder_id` (below 25, `0x16`): options
    /// from byte 3 and the pins from bytes 4 and 5, made 1-based (wrapping);
    /// the rest of the returned data is blank. The cache is not touched.
    pub fn read_encoder_settings(&mut self, encoder_id: u8) -> (r: Result<EncoderData>)
        ensures
            encoder_id < 25 ==> final(self).tried(old(self), r),
            final(self).same_link(old(self)),
            final(self).same_data(old(self)),
            encoder_id >= 25 ==> (r matches Err(PoKeysError::Parameter(m)) && m@ == "Encoder ID "@ + dec(encoder_id as nat)
                + " exceeds maximum 25"@) && final(self).unchanged(old(self)),
            encoder_id < 25 && !old(self).connected() ==> r matches Err(PoKeysError::NotConnected),
            r matches Ok(e) ==> final(self).exchanged(old(self), 0x16, encoder_id, 0, 0, 0, Seq::empty()) && e == (
                EncoderData { channel_a_pin: plus_one_wrap(final(self).reply()[4]), channel_b_pin: plus_one_wrap(
                final(self).reply()[5]), encoder_options: final(self).reply()[3], ..blank_encoder() }),
            r is Err && encoder_id < 25 ==> final(self).log() == old(self).log(),
    {
        if encoder_id >= 25 {
            let mut m = string_of("Encoder ID ");
            push_dec(&mut m, encoder_id as u64);
            m.append(" exceeds maximum 25");
            return Err(PoKeysError::Parameter(m));
        }
        let response = self.send_request(0x16, encoder_id, 0, 0, 0)?;
        let mut settings = EncoderData::new();
        settings.channel_a_pin = response[4].wrapping_add(1);
        settings.channel_b_pin = response[5].wrapping_add(1);
        settings.encoder_options = response[3];
        Ok(settings)
    }

    /// Enable or disable encoder `encoder_id`: its cached options with the
    /// enable flag changed, configured with its cached pins (see
    /// [`Self::configure_encoder`]).
    pub fn enable_encoder(&mut self, encoder_id: u8, enable: bool) -> (r: Result<()>)
        ensures
            !(encoder_id >= old(self).encoders@.len()) ==> final(self).tried(old(self), r),
            !(encoder_id >= old(self).encoders@.len()) ==> link_error(r),
            final(self).same_link(old(self)),
            encoder_id >= old(self).encoders@.len() ==> invalid_encoder(encoder_id, r) && final(self).unchanged(old(self)),
            encoder_id < old(self).encoders@.len() ==> {
                let e0 = old(self).encoders@[encoder_id as int];
                let o = (EncoderOptions { enabled: enable, ..options_of_byte(e0.encoder_options) });
                let e = configured_encoder(e0, e0.channel_a_pin, e0.channel_b_pin, o);
                &&& final(self).encoders@ == old(self).encoders@.update(encoder_id as int, e)
                &&& final(self).same_data_except(old(self), set![DeviceField::Encoders])
                &&& r is Ok ==> final(self).exchanged(old(self), 0x11, encoder_id, options_byte(o), e.channel_a_pin,
                    e.channel_b_pin, Seq::empty()) && final(self).reply()[2] == 0
            },
    {
        if encoder_id as usize >= self.encoders.len() {
            return Err(encoder_id_error(encoder_id));
        }
        let e = self.encoders[encoder_id as usize];
        let mut options = e.get_options();
        options.enabled = enable;
        self.configure_encoder(encoder_id, e.channel_a_pin, e.channel_b_pin, options)
    }

    /// Set the sampling mode of encoder `encoder_id` (4x and 2x exclude each
    /// other) and configure it with its cached pins.
    pub fn set_encoder_sampling(&mut self, encoder_id: u8, sampling_4x: bool, sampling_2x: bool) -> (r: Result<()>)
        ensures
            !(encoder_id >= old(self).encoders@.len()) && !(encoder_id < old(self).encoders@.len() && sampling_4x && sampling_2x) ==> final(self).tried(old(self), r),
            !(encoder_id >= old(self).encoders@.len()) && !(encoder_id < old(self).encoders@.len() && sampling_4x && sampling_2x) ==> link_error(r),
            final(self).same_link(old(self)),
            encoder_id >= old(self).encoders@.len() ==> invalid_encoder(encoder_id, r) && final(self).unchanged(old(self)),
            encoder_id < old(self).encoders@.len() && sampling_4x && sampling_2x ==> (r matches Err(PoKeysError::Parameter(m))
                && m@ == "Cannot enable both 4x and 2x sampling simultaneously"@) && final(self).unchanged(old(self)),
            encoder_id < old(self).encoders@.len() && !(sampling_4x && sampling_2x) ==> {
                let e0 = old(self).encoders@[encoder_id as int];
                let o = (EncoderOptions { sampling_4x, sampling_2x, ..options_of_byte(e0.encoder_options) });
                let e = configured_encoder(e0, e0.channel_a_pin, e0.channel_b_pin, o);
                &&& final(self).encoders@ == old(self).encoders@.update(encoder_id as int, e)
                &&& final(self).same_data_except(old(self), set![DeviceField::Encoders])
                &&& r is Ok ==> final(self).exchanged(old(self), 0x11, encoder_id, options_byte(o), e.channel_a_pin,
                    e.channel_b_pin, Seq::empty()) && final(self).reply()[2] == 0
            },
    {
        if encoder_id as usize >= self.encoders.len() {
            return Err(encoder_id_error(encoder_id));
        }
        if sampling_4x && sampling_2x {
            return Err(PoKeysError::Parameter(string_of("Cannot enable both 4x and 2x sampling simultaneously")));
        }
        let e = self.encoders[encoder_id as usize];
        let mut options = e.get_options();
        options.sampling_4x = sampling_4x;
        options.sampling_2x = sampling_2x;
        self.configure_encoder(encoder_id, e.channel_a_pin, e.channel_b_pin, options)
    }

    fn key_mapping_write(&mut self, encoder_id: u8, key_code: u8, key_modifier: u8, b_side: bool) -> (r: Result<()>)
        ensures
            !(encoder_id >= old(self).encoders@.len()) ==> final(self).tried(old(self), r),
            !(encoder_id >= old(self).encoders@.len()) ==> link_error(r),
            final(self).same_link(old(self)),
            encoder_id >= old(self).encoders@.len() ==> invalid_encoder(encoder_id, r) && final(self).unchanged(old(self)),
            encoder_id < old(self).encoders@.len() ==> {
                let e0 = old(self).encoders@[encoder_id as int];
                let e = if b_side { EncoderData { dir_b_key_code: key_code, dir_b_key_modifier: key_modifier, ..e0 } }
                    else { EncoderData { dir_a_key_code: key_code, dir_a_key_modifier: key_modifier, ..e0 } };
                &&& final(self).encoders@ == old(self).encoders@.update(encoder_id as int, e)
                &&& final(self).same_data_except(old(self), set![DeviceField::Encoders])
                &&& (!old(self).connected() ==> (r matches Err(PoKeysError::NotConnected)))
                &&& r is Ok ==> final(self).exchanged(old(self), if b_side { 0x13 } else { 0x12 }, encoder_id, 0, key_code,
                    key_modifier, Seq::empty()) && final(self).reply()[3] == 0
                &&& r is Err && final(self).log() != old(self).log() ==> final(self).exchanged(old(self), if b_side { 0x13 }
                    else { 0x12 }, encoder_id, 0, key_code, key_modifier, Seq::empty()) && final(self).reply()[3] != 0
                    && (r matches Err(PoKeysError::Protocol(m)) && m@ == "Encoder key mapping "@ + (if b_side { "B"@ }
                    else { "A"@ }) + " failed for encoder "@ + dec(encoder_id as nat) + ": status "@ + dec(
                    final(self).reply()[3] as nat))
            },
    {
        if encoder_id as usize >= self.encoders.len() {
            return Err(encoder_id_error(encoder_id));
        }
        let idx = encoder_id as usize;
        let mut e = self.encoders[idx];
        if b_side {
            e.dir_b_key_code = key_code;
            e.dir_b_key_modifier = key_modifier;
        } else {
            e.dir_a_key_code = key_code;
            e.dir_a_key_modifier = key_modifier;
        }
        self.encoders.set(idx, e);
        let response = self.send_request(if b_side { 0x13 } else { 0x12 }, encoder_id, 0, key_code, key_modifier)?;
        if response[3] != 0 {
            let mut m = string_of(if b_side { "Encoder key mapping B failed for encoder " } else {
                "Encoder key mapping A failed for encoder " });
            proof {
                reveal_strlit("Encoder key mapping B failed for encoder ");
                reveal_strlit("Encoder key mapping A failed for encoder ");
                reveal_strlit("Encoder key mapping ");
                reveal_strlit("A");
                reveal_strlit("B");
                reveal_strlit(" failed for encoder ");
            }
            push_dec(&mut m, encoder_id as u64);
            m.append(": status ");
            push_dec(&mut m, response[3] as u64);
            return Err(PoKeysError::Protocol(m));
        }
        Ok(())
    }

    /// Map direction A of encoder `encoder_id` to a key (`0x12`); the cache is
    /// set before sending and status byte 3 must be 0.
    pub fn configure_encoder_key_mapping_a(&mut self, encoder_id: u8, key_code: u8, key_modifier: u8) -> (r: Result<()>)
        ensures
            !(encoder_id >= old(self).encoders@.len()) ==> final(self).tried(old(self), r),
            !(encoder_id >= old(self).encoders@.len()) ==> link_error(r),
            final(self).same_link(old(self)),
            encoder_id >= old(self).encoders@.len() ==> invalid_encoder(encoder_id, r) && final(self).unchanged(old(self)),
            encoder_id < old(self).encoders@.len() ==> {
                &&& final(self).encoders@ == old(self).encoders@.update(encoder_id as int, (EncoderData {
                    dir_a_key_code: key_code, dir_a_key_modifier: key_modifier, ..old(self).encoders@[encoder_id as int] }))
                &&& final(self).same_data_except(old(self), set![DeviceField::Encoders])
                &&& r is Ok ==> final(self).exchanged(old(self), 0x12, encoder_id, 0, key_code, key_modifier, Seq::empty())
                    && final(self).reply()[3] == 0
            },
    {
        self.key_mapping_write(encoder_id, key_code, key_modifier, false)
    }

    /// Map direction B of encoder `encoder_id` to a key (`0x13`); the cache is
    /// set before sending and status byte 3 must be 0.
    pub fn configure_encoder_key_mapping_b(&mut self, encoder_id: u8, key_code: u8, key_modifier: u8) -> (r: Result<()>)
        ensures
            !(encoder_id >= old(self).encoders@.len()) ==> final(self).tried(old(self), r),
            !(encoder_id >= old(self).encoders@.len()) ==> link_error(r),
            final(self).same_link(old(self)),
            encoder_id >= old(self).encoders@.len() ==> invalid_encoder(encoder_id, r) && final(self).unchanged(old(self)),
            encoder_id < old(self).encoders@.len() ==> {
                &&& final(self).encoders@ == old(self).encoders@.update(encoder_id as int, (EncoderData {
                    dir_b_key_code: key_code, dir_b_key_modifier: key_modifier, ..old(self).encoders@[encoder_id as int] }))
                &&& final(self).same_data_except(old(self), set![DeviceField::Encoders])
                &&& r is Ok ==> final(self).exchanged(old(self), 0x13, encoder_id, 0, key_code, key_modifier, Seq::empty())
                    && final(self).reply()[3] == 0
            },
    {
        self.key_mapping_write(encoder_id, key_code, key_modifier, true)
    }
}

/// The 13 values of a `0xCD` long-value read: little-endian at bytes
/// `8 + 4i`.
pub open spec fn long_values(r: Seq<u8>) -> Seq<i32> {
    Seq::new(13, |i: int| long_value(r, 8 + 4 * i))
}

/// The encoders after a long-value read of `group`: value `i` goes to
/// encoder `i` (group 0) or `13 + i` (group 1) where the list reaches; for
/// group 1, encoder 25 then takes the value at bytes 56 to 59.
pub open spec fn long_values_applied(encs: Seq<EncoderData>, group: u8, r: Seq<u8>) -> Seq<EncoderData> {
    Seq::new(encs.len(), |k: int| {
        let base: int = if group == 0 { 0 } else { 13 };
        if group == 1 && k == 25 {
            EncoderData { encoder_value: long_value(r, 56), ..encs[k] }
        } else if base <= k < base + 13 {
            EncoderData { encoder_value: long_value(r, 8 + 4 * (k - base)), ..encs[k] }
        } else {
            encs[k]
        }
    })
}

/// The encoders after a long-value write of `group`: value `i` goes to
/// encoder index `i` (group 0, encoders 1 to 13) or `13 + i` (group 1,
/// encoders 14 to 26) where the list reaches, as a read of the group places
/// them.
pub open spec fn long_values_stored(encs: Seq<EncoderData>, group: u8, values: Seq<i32>) -> Seq<EncoderData> {
    Seq::new(encs.len(), |k: int| {
        let start: int = if group == 0 { 0 } else { 13 };
        if start <= k < start + values.len() {
            EncoderData { encoder_value: values[k - start], ..encs[k] }
        } else {
            encs[k]
        }
    })
}

/// The first encoder of a long-value group: 0 for group 0, 13 for group 1.
pub open spec fn group_base(group: u8) -> int {
    if group == 0 { 0 } else { 13 }
}

/// Long values of encoders: value `i` of a group read is the little-endian
/// number of response bytes `8 + 4i` to `11 + 4i` (byte `8 + 4i` the
/// lowest), taken as signed; group 0 holds encoders 0 to 12 and group 1
/// encoders 13 to 25, and a write of a group stores value `i` at the same
/// encoder that a read of the group fills from value `i`; encoders outside
/// the group are kept.
pub proof fn lemma_long_value_layout(encs: Seq<EncoderData>, group: u8, r: Seq<u8>, values: Seq<i32>)
    requires
        group <= 1,
        r.len() >= 60,
    ensures
        forall|i: int| 0 <= i < 13 ==> #[trigger] long_values(r)[i] as u32 == r[8 + 4 * i] as int + 256 * (r[9 + 4
            * i] as int) + 65536 * (r[10 + 4 * i] as int) + 16777216 * (r[11 + 4 * i] as int),
        forall|i: int| 0 <= i < 13 && group_base(group) + i < encs.len() ==> #[trigger]
            long_values_applied(encs, group, r)[group_base(group) + i].encoder_value
            == long_values(r)[i],
        forall|i: int| 0 <= i < values.len() && group_base(group) + i < encs.len() ==> #[trigger]
            long_values_stored(encs, group, values)[group_base(group) + i].encoder_value
            == values[i],
        forall|k: int| 0 <= k < encs.len() && !(group_base(group) <= k < (if group == 0 { 0int }
            else { 13 }) + 13) ==> #[trigger] long_values_applied(encs, group, r)[k] == encs[k],
{
    assert forall|i: int| 0 <= i < 13 implies #[trigger] long_values(r)[i] as u32 == r[8 + 4 * i] as int + 256 * (r[9
        + 4 * i] as int) + 65536 * (r[10 + 4 * i] as int) + 16777216 * (r[11 + 4 * i] as int) by {
        let (b0, b1, b2, b3) = (r[8 + 4 * i], r[9 + 4 * i], r[10 + 4 * i], r[11 + 4 * i]);
        assert(le_u32(b0, b1, b2, b3) as i32 as u32 == le_u32(b0, b1, b2, b3)) by (bit_vector);
    }
}

/// The 25 options of a `0xC4` response: bytes 9 to 33.
pub open spec fn bulk_options(r: Seq<u8>) -> Seq<u8> {
    r.subrange(9, 34)
}

/// The encoders with the options of a `0xC4` response, where the list
/// reaches.
pub open spec fn bulk_options_applied(encs: Seq<EncoderData>, r: Seq<u8>) -> Seq<EncoderData> {
    Seq::new(encs.len(), |k: int| if k < 25 { EncoderData { encoder_options: r[9 + k], ..encs[k] } } else { encs[k] })
}

/// The ultra-fast encoder options byte: bit 1 for 4x sampling, bit 2 for the
/// direction-clock signal mode, bit 3 for an inverted direction.
pub open spec fn ultra_fast_options(sampling_4x: bool, direction_clock: bool, invert: bool) -> u8 {
    ((if sampling_4x { 2int } else { 0 }) + (if direction_clock { 4int } else { 0 }) + (if invert { 8int } else { 0 })) as u8
}

/// The ultra fast encoder options by bit: bit 1 for 4x sampling, bit 2 for
/// direction and clock mode, bit 3 for inversion; bits 0 and 4 to 7 clear.
pub proof fn lemma_ultra_fast_option_bits(sampling_4x: bool, direction_clock: bool, invert: bool)
    ensures
        ((ultra_fast_options(sampling_4x, direction_clock, invert) / 2) % 2 == 1) == sampling_4x,
        ((ultra_fast_options(sampling_4x, direction_clock, invert) / 4) % 2 == 1) == direction_clock,
        ((ultra_fast_options(sampling_4x, direction_clock, invert) / 8) % 2 == 1) == invert,
        ultra_fast_options(sampling_4x, direction_clock, invert) % 2 == 0,
        ultra_fast_options(sampling_4x, direction_clock, invert) < 16,
{
}

impl PoKeysDevice {
    /// Read the key mapping of one direction of encoder `encoder_id` (`0x17`
    /// for A, `0x18` for B): code and modifier from bytes 5 and 6, cached.
    fn key_mapping_read(&mut self, encoder_id: u8, b_side: bool) -> (r: Result<(u8, u8)>)
        ensures
            !(encoder_id >= old(self).encoders@.len()) ==> final(self).tried(old(self), r),
            !(encoder_id >= old(self).encoders@.len()) ==> link_error(r),
            final(self).same_link(old(self)),
            encoder_id >= old(self).encoders@.len() ==> invalid_encoder(encoder_id, r) && final(self).unchanged(old(self)),
            encoder_id < old(self).encoders@.len() && !old(self).connected() ==> r matches Err(PoKeysError::NotConnected),
            r is Err ==> final(self).same_data(old(self)),
            r matches Ok((code, modifier)) ==> {
                let e0 = old(self).encoders@[encoder_id as int];
                &&& encoder_id < old(self).encoders@.len()
                &&& final(self).exchanged(old(self), if b_side { 0x18 } else { 0x17 }, encoder_id, 0, 0, 0, Seq::empty())
                &&& code == final(self).reply()[5] && modifier == final(self).reply()[6]
                &&& final(self).encoders@ == old(self).encoders@.update(encoder_id as int, if b_side {
                    EncoderData { dir_b_key_code: code, dir_b_key_modifier: modifier, ..e0 } } else {
                    EncoderData { dir_a_key_code: code, dir_a_key_modifier: modifier, ..e0 } })
                &&& final(self).same_data_except(old(self), set![DeviceField::Encoders])
            },
    {
        if encoder_id as usize >= self.encoders.len() {
            return Err(encoder_id_error(encoder_id));
        }
        let response = self.send_request(if b_side { 0x18 } else { 0x17 }, encoder_id, 0, 0, 0)?;
        if response.len() < 8 {
            return Err(PoKeysError::Protocol(string_of("Invalid response length")));
        }
        let key_code = response[5];
        let key_modifier = response[6];
        let idx = encoder_id as usize;
        let mut e = self.encoders[idx];
        if b_side {
            e.dir_b_key_code = key_code;
            e.dir_b_key_modifier = key_modifier;
        } else {
            e.dir_a_key_code = key_code;
            e.dir_a_key_modifier = key_modifier;
        }
        self.encoders.set(idx, e);
        Ok((key_code, key_modifier))
    }

    /// Read the direction-A key mapping of encoder `encoder_id` (`0x17`).
    pub fn read_encoder_key_mapping_a(&mut self, encoder_id: u8) -> (r: Result<(u8, u8)>)
        ensures
            !(encoder_id >= old(self).encoders@.len()) ==> final(self).tried(old(self), r),
            !(encoder_id >= old(self).encoders@.len()) ==> link_error(r),
            final(self).same_link(old(self)),
            encoder_id >= old(self).encoders@.len() ==> invalid_encoder(encoder_id, r) && final(self).unchanged(old(self)),
            encoder_id < old(self).encoders@.len() && !old(self).connected() ==> r matches Err(PoKeysError::NotConnected),
            r is Err ==> final(self).same_data(old(self)),
            r matches Ok((code, modifier)) ==> {
                &&& final(self).exchanged(old(self), 0x17, encoder_id, 0, 0, 0, Seq::empty())
                &&& code == final(self).reply()[5] && modifier == final(self).reply()[6]
                &&& final(self).encoders@ == old(self).encoders@.update(encoder_id as int, (EncoderData {
                    dir_a_key_code: code, dir_a_key_modifier: modifier, ..old(self).encoders@[encoder_id as int] }))
                &&& final(self).same_data_except(old(self), set![DeviceField::Encoders])
            },
    {
        self.key_mapping_read(encoder_id, false)
    }

    /// Read the direction-B key mapping of encoder `encoder_id` (`0x18`).
    pub fn read_encoder_key_mapping_b(&mut self, encoder_id: u8) -> (r: Result<(u8, u8)>)
        ensures
            !(encoder_id >= old(self).encoders@.len()) ==> final(self).tried(old(self), r),
            !(encoder_id >= old(self).encoders@.len()) ==> link_error(r),
            final(self).same_link(old(self)),
            encoder_id >= old(self).encoders@.len() ==> invalid_encoder(encoder_id, r) && final(self).unchanged(old(self)),
            encoder_id < old(self).encoders@.len() && !old(self).connected() ==> r matches Err(PoKeysError::NotConnected),
            r is Err ==> final(self).same_data(old(self)),
            r matches Ok((code, modifier)) ==> {
                &&& final(self).exchanged(old(self), 0x18, encoder_id, 0, 0, 0, Seq::empty())
                &&& code == final(self).reply()[5] && modifier == final(self).reply()[6]
                &&& final(self).encoders@ == old(self).encoders@.update(encoder_id as int, (EncoderData {
                    dir_b_key_code: code, dir_b_key_modifier: modifier, ..old(self).encoders@[encoder_id as int] }))
                &&& final(self).same_data_except(old(self), set![DeviceField::Encoders])
            },
    {
        self.key_mapping_read(encoder_id, true)
    }

    /// Read the raw value of encoder `encoder_id` (`0x19`): the signed byte 4,
    /// cached.
    pub fn read_encoder_raw_value(&mut self, encoder_id: u8) -> (r: Result<i32>)
        ensures
            encoder_id < old(self).encoders@.len() ==> final(self).tried(old(self), r),
            final(self).same_link(old(self)),
            encoder_id >= old(self).encoders@.len() ==> invalid_encoder(encoder_id, r) && final(self).unchanged(old(self)),
            encoder_id < old(self).encoders@.len() && !old(self).connected() ==> r matches Err(PoKeysError::NotConnected),
            r is Err ==> final(self).same_data(old(self)),
            r matches Ok(v) ==> {
                &&& final(self).exchanged(old(self), 0x19, encoder_id, 0, 0, 0, Seq::empty())
                &&& v == signed_byte(final(self).reply()[4])
                &&& final(self).encoders@ == old(self).encoders@.update(encoder_id as int, (EncoderData {
                    encoder_value: v, ..old(self).encoders@[encoder_id as int] }))
                &&& final(self).same_data_except(old(self), set![DeviceField::Encoders])
            },
    {
        if encoder_id as usize >= self.encoders.len() {
            return Err(encoder_id_error(encoder_id));
        }
        let response = self.send_request(0x19, encoder_id, 0, 0, 0)?;
        if response.len() < 8 {
            return Err(PoKeysError::Protocol(string_of("Invalid response length")));
        }
        let b = response[4];
        let raw_value: i32 = b as i8 as i32;
        assert(raw_value == signed_byte(b)) by (bit_vector)
            requires raw_value == b as i8 as i32;
        let idx = encoder_id as usize;
        let mut e = self.encoders[idx];
        e.encoder_value = raw_value;
        self.encoders.set(idx, e);
        Ok(raw_value)
    }

    /// Reset the raw value of encoder `encoder_id` (`0x1A`) and cache 0.
    pub fn reset_encoder_raw_value(&mut self, encoder_id: u8) -> (r: Result<()>)
        ensures
            encoder_id < old(self).encoders@.len() ==> final(self).tried(old(self), r),
            final(self).same_link(old(self)),
            encoder_id >= old(self).encoders@.len() ==> invalid_encoder(encoder_id, r) && final(self).unchanged(old(self)),
            encoder_id < old(self).encoders@.len() && !old(self).connected() ==> r matches Err(PoKeysError::NotConnected),
            r is Err ==> final(self).same_data(old(self)),
            r is Ok ==> {
                &&& final(self).exchanged(old(self), 0x1A, encoder_id, 0, 0, 0, Seq::empty())
                &&& final(self).encoders@ == old(self).encoders@.update(encoder_id as int, (EncoderData {
                    encoder_value: 0, ..old(self).encoders@[encoder_id as int] }))
                &&& final(self).same_data_except(old(self), set![DeviceField::Encoders])
            },
    {
        if encoder_id as usize >= self.encoders.len() {
            return Err(encoder_id_error(encoder_id));
        }
        let response = self.send_request(0x1A, encoder_id, 0, 0, 0)?;
        if response.len() < 8 {
            return Err(PoKeysError::Protocol(string_of("Invalid response length")));
        }
        let idx = encoder_id as usize;
        let mut e = self.encoders[idx];
        e.encoder_value = 0;
        self.encoders.set(idx, e);
        Ok(())
    }

    /// The raw value of an encoder (see [`Self::read_encoder_raw_value`]).
    pub fn get_encoder_value(&mut self, encoder_id: u8) -> (r: Result<i32>)
        ensures
            !(encoder_id >= old(self).encoders@.len()) ==> final(self).tried(old(self), r),
            final(self).same_link(old(self)),
            encoder_id >= old(self).encoders@.len() ==> invalid_encoder(encoder_id, r) && final(self).unchanged(old(self)),
            r is Err ==> final(self).same_data(old(self)),
            r matches Ok(v) ==> {
                &&& final(self).exchanged(old(self), 0x19, encoder_id, 0, 0, 0, Seq::empty())
                &&& v == signed_byte(final(self).reply()[4])
                &&& final(self).encoders@ == old(self).encoders@.update(encoder_id as int, (EncoderData {
                    encoder_value: v, ..old(self).encoders@[encoder_id as int] }))
            },
    {
        self.read_encoder_raw_value(encoder_id)
    }

    /// Reset an encoder's raw value (see [`Self::reset_encoder_raw_value`]).
    pub fn reset_encoder(&mut self, encoder_id: u8) -> (r: Result<()>)
        ensures
            !(encoder_id >= old(self).encoders@.len()) ==> final(self).tried(old(self), r),
            final(self).same_link(old(self)),
            encoder_id >= old(self).encoders@.len() ==> invalid_encoder(encoder_id, r) && final(self).unchanged(old(self)),
            r is Err ==> final(self).same_data(old(self)),
            r is Ok ==> final(self).exchanged(old(self), 0x1A, encoder_id, 0, 0, 0, Seq::empty())
                && final(self).encoders@ == old(self).encoders@.update(encoder_id as int, (EncoderData {
                    encoder_value: 0, ..old(self).encoders@[encoder_id as int] })),
    {
        self.reset_encoder_raw_value(encoder_id)
    }

    /// Read the long values of an encoder group (`0xCD` option 0 for
    /// encoders 1 to 13, 1 for 14 to 26): the 13 values (see
    /// [`long_values`]), cached (see [`long_values_applied`]).
    pub fn read_encoder_long_values(&mut self, group: u8) -> (r: Result<Vec<i32>>)
        ensures
            group <= 1 ==> final(self).tried(old(self), r),
            final(self).same_link(old(self)),
            group > 1 ==> (r matches Err(PoKeysError::Parameter(m)) && m@
                == "Group must be 0 (encoders 1-13) or 1 (encoders 14-26)"@) && final(self).unchanged(old(self)),
            group <= 1 && !old(self).connected() ==> r matches Err(PoKeysError::NotConnected),
            r is Err ==> final(self).same_data(old(self)) && final(self).log() == old(self).log(),
            r matches Ok(v) ==> {
                &&& final(self).exchanged(old(self), 0xCD, group, 0, 0, 0, Seq::empty())
                &&& v@ == long_values(final(self).reply())
                &&& final(self).encoders@ == long_values_applied(old(self).encoders@, group, final(self).reply())
                &&& final(self).same_data_except(old(self), set![DeviceField::Encoders])
            },
    {
        if group > 1 {
            return Err(PoKeysError::Parameter(string_of("Group must be 0 (encoders 1-13) or 1 (encoders 14-26)")));
        }
        let response = self.send_request(0xCD, group, 0, 0, 0)?;
        if response.len() < 64 {
            return Err(PoKeysError::Protocol(string_of("Invalid response length for bulk encoder read")));
        }
        let ghost encs0 = self.encoders@;
        let ghost after_send = *self;
        let n = self.encoders.len();
        let base: usize = if group == 0 { 0 } else { 13 };
        let mut values: Vec<i32> = Vec::new();
        let mut i: usize = 0;
        while i < 13
            invariant
                i <= 13,
                group <= 1,
                base == (if group == 0 { 0usize } else { 13usize }),
                n == encs0.len(),
                after_send.encoders@ == encs0,
                self.local_update(&after_send, set![DeviceField::Encoders]),
                self.encoders@.len() == n,
                values@ == long_values(response@).take(i as int),
                forall|k: int| 0 <= k < n ==> #[trigger] self.encoders@[k] == (if base <= k < base + i {
                    EncoderData { encoder_value: long_value(response@, 8 + 4 * (k - base)), ..encs0[k] }
                } else {
                    encs0[k]
                }),
            decreases 13 - i,
        {
            let v = read_long(&response, 8 + i * 4);
            values.push(v);
            assert(values@ =~= long_values(response@).take(i + 1));
            let idx = base + i;
            if idx < n {
                let mut e = self.encoders[idx];
                e.encoder_value = v;
                self.encoders.set(idx, e);
            }
            i = i + 1;
        }
        if group == 1 {
            let ultra = read_long(&response, 56);
            if n > 25 {
                let mut e = self.encoders[25];
                e.encoder_value = ultra;
                self.encoders.set(25, e);
            }
        }
        assert(values@ =~= long_values(response@));
        assert(self.encoders@ =~= long_values_applied(encs0, group, response@));
        Ok(values)
    }

    /// Send a request given as a packet: its bytes 2 to 6 as type and
    /// parameters (the rest, payload included, is not sent), returning the
    /// response as a vector.
    fn send_raw_request(&mut self, request: &[u8]) -> (r: Result<Vec<u8>>)
        ensures
            request@.len() >= 8 ==> final(self).tried(old(self), r),
            final(self).same_link(old(self)),
            final(self).same_data(old(self)),
            request@.len() < 8 ==> (r matches Err(PoKeysError::Protocol(m)) && m@ == "Invalid request format"@)
                && final(self).unchanged(old(self)),
            request@.len() >= 8 && !old(self).connected() ==> r matches Err(PoKeysError::NotConnected),
            r matches Ok(v) ==> request@.len() >= 8 && final(self).exchanged(old(self), request@[2], request@[3],
                request@[4], request@[5], request@[6], Seq::empty()) && v@ == final(self).reply(),
            r is Err ==> final(self).log() == old(self).log(),
    {
        if request.len() >= 8 {
            let response = self.send_request(request[2], request[3], request[4], request[5], request[6])?;
            let mut v: Vec<u8> = Vec::new();
            let mut i: usize = 0;
            while i < response.len()
                invariant
                    i <= response@.len(),
                    v@ == response@.take(i as int),
                decreases response@.len() - i,
            {
                v.push(response[i]);
                assert(v@ =~= response@.take(i + 1));
                i = i + 1;
            }
            assert(v@ =~= response@);
            Ok(v)
        } else {
            Err(PoKeysError::Protocol(string_of("Invalid request format")))
        }
    }
}

fn apply_bulk_options(encs: &mut Vec<EncoderData>, response: &[u8; 68]) -> (r: Vec<u8>)
    ensures
        r@ == bulk_options(response@),
        final(encs)@ == bulk_options_applied(old(encs)@, response@),
{
    let ghost e0 = encs@;
    let n = encs.len();
    let mut out: Vec<u8> = Vec::new();
    let mut i: usize = 0;
    while i < 25
        invariant
            i <= 25,
            n == e0.len(),
            encs@.len() == n,
            out@ == bulk_options(response@).take(i as int),
            forall|k: int| 0 <= k < n ==> #[trigger] encs@[k] == (if k < i {
                EncoderData { encoder_options: response@[9 + k], ..e0[k] } } else { e0[k] }),
        decreases 25 - i,
    {
        out.push(response[9 + i]);
        assert(out@ =~= bulk_options(response@).take(i + 1));
        if i < n {
            let mut e = encs[i];
            e.encoder_options = response[9 + i];
            encs.set(i, e);
        }
        i = i + 1;
    }
    assert(out@ =~= bulk_options(response@));
    assert(encs@ =~= bulk_options_applied(e0, response@));
    out
}

impl PoKeysDevice {
    /// Write the long values of an encoder group: at least 13 values for
    /// group 0, 12 for group 1. The request goes out as `0xCD` option
    /// `10 + group` without the values; the values are then cached (see
    /// [`long_values_stored`]).
    pub fn set_encoder_long_values(&mut self, group: u8, values: &[i32]) -> (r: Result<()>)
        ensures
            !(group > 1) && !(group <= 1 && values@.len() < (if group == 0 { 13int } else { 12 })) ==> final(self).tried(old(self), r),
            !(group > 1) && !(group <= 1 && values@.len() < (if group == 0 { 13int } else { 12 })) ==> link_error(r),
            final(self).same_link(old(self)),
            group > 1 ==> (r matches Err(PoKeysError::Parameter(m)) && m@
                == "Group must be 0 (encoders 1-13) or 1 (encoders 14-26)"@) && final(self).unchanged(old(self)),
            group <= 1 && values@.len() < (if group == 0 { 13int } else { 12 }) ==> (r matches Err(PoKeysError::Parameter(m))
                && m@ == "Need "@ + dec(if group == 0 { 13nat } else { 12nat }) + " values for group "@ + dec(group as nat))
                && final(self).unchanged(old(self)),
            r is Err ==> final(self).same_data(old(self)),
            r is Ok ==> {
                &&& final(self).exchanged(old(self), 0xCD, (group + 10) as u8, 0, 0, 0, Seq::empty())
                &&& final(self).encoders@ == long_values_stored(old(self).encoders@, group, values@)
                &&& final(self).same_data_except(old(self), set![DeviceField::Encoders])
            },
    {
        if group > 1 {
            return Err(PoKeysError::Parameter(string_of("Group must be 0 (encoders 1-13) or 1 (encoders 14-26)")));
        }
        let expected_count: usize = if group == 0 { 13 } else { 12 };
        if values.len() < expected_count {
            let mut m = string_of("Need ");
            push_dec(&mut m, expected_count as u64);
            m.append(" values for group ");
            push_dec(&mut m, group as u64);
            return Err(PoKeysError::Parameter(m));
        }
        let mut request = [0u8; 64];
        request[2] = 0xCD;
        request[3] = group + 10;
        let mut i: usize = 0;
        while i < 13 && i < values.len()
            invariant
                i <= 13,
                request@.len() == 64,
                request@[2] == 0xCD,
                request@[3] == group + 10,
                request@[4] == 0 && request@[5] == 0 && request@[6] == 0,
            decreases 13 - i,
        {
            let v = values[i] as u32;
            let at = 9 + i * 4;
            request[at] = (v & 0xFF) as u8;
            request[at + 1] = ((v >> 8u32) & 0xFF) as u8;
            request[at + 2] = ((v >> 16u32) & 0xFF) as u8;
            request[at + 3] = ((v >> 24u32) & 0xFF) as u8;
            i = i + 1;
        }
        self.send_raw_request(&request)?;
        let ghost sent = *self;
        let ghost encs0 = self.encoders@;
        let n = self.encoders.len();
        let start: usize = if group == 0 { 0 } else { 13 };
        let mut k: usize = 0;
        while k < values.len()
            invariant
                k <= values@.len(),
                start == (if group == 0 { 0usize } else { 13usize }),
                n == encs0.len(),
                sent.encoders@ == encs0,
                self.local_update(&sent, set![DeviceField::Encoders]),
                self.encoders@.len() == n,
                forall|q: int| 0 <= q < n ==> #[trigger] self.encoders@[q] == (if start <= q < start + k {
                    EncoderData { encoder_value: values@[q - start], ..encs0[q] } } else { encs0[q] }),
            decreases values@.len() - k,
        {
            if n > start && k < n - start {
                let mut e = self.encoders[start + k];
                e.encoder_value = values[k];
                self.encoders.set(start + k, e);
            }
            k = k + 1;
        }
        assert(self.encoders@ =~= long_values_stored(encs0, group, values@));
        Ok(())
    }

    /// Read both long-value groups and return their values in order.
    pub fn read_all_encoder_values(&mut self) -> (r: Result<Vec<i32>>)
        ensures
            link_error(r),
            final(self).same_link(old(self)),
            final(self).same_data_except(old(self), set![DeviceField::Encoders]),
            !old(self).connected() ==> r matches Err(PoKeysError::NotConnected),
            r matches Ok(v) ==> v@ == long_values(final(self).response_no(old(self), 0)) + long_values(
                final(self).response_no(old(self), 1)) && final(self).exchanged_all(old(self), packets(seq![
                plain(0xCD, 0, 0, 0, 0), plain(0xCD, 1, 0, 0, 0)], old(self).request_id())),
    {
        let ghost start = *self;
        let ghost reqs: Seq<Req> = seq![plain(0xCD, 0, 0, 0, 0), plain(0xCD, 1, 0, 0, 0)];
        proof { lemma_exchange_none(&start, reqs); }
        let mut all_values = self.read_encoder_long_values(0)?;
        let ghost s1 = *self;
        proof { lemma_exchange_step(&s1, &start, &start, reqs, 0); }
        let group2 = self.read_encoder_long_values(1)?;
        proof {
            lemma_exchange_step(&*self, &s1, &start, reqs, 1);
            assert(reqs.take(2) =~= reqs);
            assert(self.response_no(&start, 0) == s1.reply()) by {
                assert(self.log().take(s1.log().len() as int) == s1.log());
                assert(self.log().take(s1.log().len() as int)[start.log().len() as int] == self.log()[start.log().len() as int]);
            }
            assert(self.response_no(&start, 1) == self.reply());
        }
        let mut j: usize = 0;
        let ghost first = all_values@;
        while j < group2.len()
            invariant
                j <= group2@.len(),
                all_values@ == first + group2@.take(j as int),
            decreases group2@.len() - j,
        {
            all_values.push(group2[j]);
            assert(all_values@ =~= first + group2@.take(j + 1));
            j = j + 1;
        }
        assert(group2@.take(group2@.len() as int) =~= group2@);
        Ok(all_values)
    }

    /// Write the 25 encoder options (`0xC4` option 1, without the options on
    /// the wire) and cache the options that the response reports (see
    /// [`bulk_options`]).
    pub fn configure_encoder_options_bulk(&mut self, options: &[u8]) -> (r: Result<Vec<u8>>)
        ensures
            !(options@.len() != 25) ==> final(self).tried(old(self), r),
            !(options@.len() != 25) ==> link_error(r),
            final(self).same_link(old(self)),
            options@.len() != 25 ==> (r matches Err(PoKeysError::Parameter(m)) && m@ == "Need exactly 25 encoder options"@)
                && final(self).unchanged(old(self)),
            r is Err ==> final(self).same_data(old(self)),
            r matches Ok(v) ==> {
                &&& final(self).exchanged(old(self), 0xC4, 1, 0, 0, 0, Seq::empty())
                &&& v@ == bulk_options(final(self).reply())
                &&& final(self).encoders@ == bulk_options_applied(old(self).encoders@, final(self).reply())
                &&& final(self).same_data_except(old(self), set![DeviceField::Encoders])
            },
    {
        if options.len() != 25 {
            return Err(PoKeysError::Parameter(string_of("Need exactly 25 encoder options")));
        }
        let mut request = [0u8; 64];
        request[2] = 0xC4;
        request[3] = 1;
        let mut i: usize = 0;
        while i < 25
            invariant
                i <= 25,
                options@.len() == 25,
                request@.len() == 64,
                request@[2] == 0xC4 && request@[3] == 1,
                request@[4] == 0 && request@[5] == 0 && request@[6] == 0,
            decreases 25 - i,
        {
            request[9 + i] = options[i];
            i = i + 1;
        }
        let response = self.send_raw_request(&request)?;
        let mut arr = [0u8; 68];
        let mut k: usize = 0;
        while k < 68
            invariant
                k <= 68,
                response@.len() == 68,
                forall|q: int| 0 <= q < k ==> arr@[q] == response@[q],
            decreases 68 - k,
        {
            arr[k] = response[k];
            k = k + 1;
        }
        assert(arr@ =~= response@);
        let out = apply_bulk_options(&mut self.encoders, &arr);
        Ok(out)
    }

    /// Read the 25 encoder options (`0xC4` option 0) and cache them.
    pub fn read_encoder_options_bulk(&mut self) -> (r: Result<Vec<u8>>)
        ensures
            final(self).tried(old(self), r),
            final(self).same_link(old(self)),
            !old(self).connected() ==> r matches Err(PoKeysError::NotConnected),
            r is Err ==> final(self).same_data(old(self)) && final(self).log() == old(self).log(),
            r matches Ok(v) ==> {
                &&& final(self).exchanged(old(self), 0xC4, 0, 0, 0, 0, Seq::empty())
                &&& v@ == bulk_options(final(self).reply())
                &&& final(self).encoders@ == bulk_options_applied(old(self).encoders@, final(self).reply())
                &&& final(self).same_data_except(old(self), set![DeviceField::Encoders])
            },
    {
        let response = self.send_request(0xC4, 0, 0, 0, 0)?;
        let out = apply_bulk_options(&mut self.encoders, &response);
        Ok(out)
    }

    /// Configure the fast encoders (`0xCE`): the options byte (cached before
    /// sending) and the index flag; status byte 3 must be 0.
    pub fn configure_fast_encoders(&mut self, options: u8, enable_index: bool) -> (r: Result<()>)
        ensures
            final(self).tried(old(self), r),
            final(self).same_link(old(self)),
            final(self).fast_encoders_options == options,
            final(self).same_data_except(old(self), set![DeviceField::FastEncodersOptions]),
            !old(self).connected() ==> r matches Err(PoKeysError::NotConnected),
            r is Ok ==> final(self).exchanged(old(self), 0xCE, options, if enable_index { 1 } else { 0 }, 0, 0,
                Seq::empty()) && final(self).reply()[3] == 0,
            r is Err && final(self).log() != old(self).log() ==> final(self).reply()[3] != 0 && (r matches Err(
                PoKeysError::Protocol(m)) && m@ == "Fast encoder configuration failed: status "@ + dec(
                final(self).reply()[3] as nat)),
    {
        self.fast_encoders_options = options;
        let response = self.send_request(0xCE, options, if enable_index { 1 } else { 0 }, 0, 0)?;
        if response[3] != 0 {
            let mut m = string_of("Fast encoder configuration failed: status ");
            push_dec(&mut m, response[3] as u64);
            return Err(PoKeysError::Protocol(m));
        }
        Ok(())
    }

    /// The values of the three fast encoders: the first three long values
    /// of group 0.
    pub fn read_fast_encoder_values(&mut self) -> (r: Result<[i32; 3]>)
        ensures
            final(self).tried(old(self), r),
            link_error(r),
            final(self).same_link(old(self)),
            final(self).same_data_except(old(self), set![DeviceField::Encoders]),
            !old(self).connected() ==> r matches Err(PoKeysError::NotConnected),
            r matches Ok(v) ==> final(self).exchanged(old(self), 0xCD, 0, 0, 0, 0, Seq::empty())
                && v@ == long_values(final(self).reply()).take(3),
    {
        let values = self.read_encoder_long_values(0)?;
        let out = [values[0], values[1], values[2]];
        assert(out@ =~= values@.take(3));
        Ok(out)
    }

    /// Configure the ultra-fast encoder (`0x1C`): enable flag, options (see
    /// [`ultra_fast_options`]) and reset-on-index flag on the wire; the
    /// filter delay is cached with the rest before sending but not sent.
    /// Status byte 3 must be 0.
    pub fn configure_ultra_fast_encoder(&mut self, enable: bool, enable_4x_sampling: bool,
        signal_mode_direction_clock: bool, invert_direction: bool, reset_on_index: bool, filter_delay: u32)
        -> (r: Result<()>)
        ensures
            final(self).tried(old(self), r),
            link_error(r),
            final(self).same_link(old(self)),
            final(self).ultra_fast_encoder_configuration == (if enable { 1u8 } else { 0u8 }),
            final(self).ultra_fast_encoder_options == ultra_fast_options(enable_4x_sampling,
                signal_mode_direction_clock, invert_direction),
            final(self).ultra_fast_encoder_filter == filter_delay,
            final(self).same_data_except(old(self), set![DeviceField::UltraFastEncoderConfiguration,
                DeviceField::UltraFastEncoderOptions, DeviceField::UltraFastEncoderFilter]),
            !old(self).connected() ==> r matches Err(PoKeysError::NotConnected),
            r is Ok ==> final(self).exchanged(old(self), 0x1C, if enable { 1 } else { 0 }, ultra_fast_options(
                enable_4x_sampling, signal_mode_direction_clock, invert_direction), if reset_on_index { 1 } else { 0 }, 0,
                Seq::empty()) && final(self).reply()[3] == 0,
            r is Err && final(self).log() != old(self).log() ==> final(self).reply()[3] != 0 && (r matches Err(
                PoKeysError::Protocol(m)) && m@ == "Ultra-fast encoder configuration failed: status "@ + dec(
                final(self).reply()[3] as nat)),
    {
        let mut options: u8 = 0;
        if enable_4x_sampling {
            options = options + 2;
        }
        if signal_mode_direction_clock {
            options = options + 4;
        }
        if invert_direction {
            options = options + 8;
        }
        self.ultra_fast_encoder_configuration = if enable { 1 } else { 0 };
        self.ultra_fast_encoder_options = options;
        self.ultra_fast_encoder_filter = filter_delay;
        let mut request = [0u8; 64];
        request[2] = 0x1C;
        request[3] = if enable { 1 } else { 0 };
        request[4] = options;
        request[5] = if reset_on_index { 1 } else { 0 };
        request[6] = 0;
        let f = filter_delay;
        request[9] = (f & 0xFF) as u8;
        request[10] = ((f >> 8u32) & 0xFF) as u8;
        request[11] = ((f >> 16u32) & 0xFF) as u8;
        request[12] = ((f >> 24u32) & 0xFF) as u8;
        let response = self.send_raw_request(&request)?;
        if response[3] != 0 {
            let mut m = string_of("Ultra-fast encoder configuration failed: status ");
            push_dec(&mut m, response[3] as u64);
            return Err(PoKeysError::Protocol(m));
        }
        Ok(())
    }

    /// Read the ultra-fast encoder configuration (`0x1C` with `0xFF`): the
    /// enable flag (byte 3), options (byte 4) and filter delay (bytes 9 to 12,
    /// little endian).
    pub fn read_ultra_fast_encoder_config(&mut self) -> (r: Result<(bool, u8, u32)>)
        ensures
            final(self).tried(old(self), r),
            link_error(r),
            final(self).same_link(old(self)),
            final(self).same_data(old(self)),
            !old(self).connected() ==> r matches Err(PoKeysError::NotConnected),
            r matches Ok((en, o, f)) ==> final(self).exchanged(old(self), 0x1C, 0xFF, 0, 0, 0, Seq::empty())
                && en == (final(self).reply()[3] != 0) && o == final(self).reply()[4] && f == le_u32(final(self).reply()[9],
                final(self).reply()[10], final(self).reply()[11], final(self).reply()[12]),
            r is Err ==> final(self).log() == old(self).log(),
    {
        let mut request = [0u8; 64];
        request[2] = 0x1C;
        request[3] = 0xFF;
        let response = self.send_raw_request(&request)?;
        if response.len() < 13 {
            return Err(PoKeysError::Protocol(string_of("Invalid response length")));
        }
        let b0 = response[9];
        let b1 = response[10];
        let b2 = response[11];
        let b3 = response[12];
        let f: u32 = (b0 as u32) | ((b1 as u32) << 8u32) | ((b2 as u32) << 16u32) | ((b3 as u32) << 24u32);
        proof { crate::bits::lemma_le_join(b0, b1, b2, b3); }
        Ok((response[3] != 0, response[4], f))
    }

    /// The ultra-fast encoder's value: the last long value of group 1.
    pub fn read_ultra_fast_encoder_value(&mut self) -> (r: Result<i32>)
        ensures
            final(self).tried(old(self), r),
            link_error(r),
            final(self).same_link(old(self)),
            final(self).same_data_except(old(self), set![DeviceField::Encoders]),
            !old(self).connected() ==> r matches Err(PoKeysError::NotConnected),
            r matches Ok(v) ==> final(self).exchanged(old(self), 0xCD, 1, 0, 0, 0, Seq::empty())
                && v == long_value(final(self).reply(), 56),
    {
        let values = self.read_encoder_long_values(1)?;
        if values.len() == 0 {
            return Err(PoKeysError::Protocol(string_of("No ultra-fast encoder value in response")));
        }
        Ok(values[values.len() - 1])
    }

    /// Set the ultra-fast encoder's value: read group 1, replace its last
    /// value and write the group back (see [`Self::set_encoder_long_values`]).
    pub fn set_ultra_fast_encoder_value(&mut self, value: i32) -> (r: Result<()>)
        ensures
            link_error(r),
            final(self).same_link(old(self)),
            final(self).same_data_except(old(self), set![DeviceField::Encoders]),
            !old(self).connected() ==> r matches Err(PoKeysError::NotConnected),
            r is Ok ==> final(self).exchanged_all(old(self), packets(seq![plain(0xCD, 1, 0, 0, 0), plain(0xCD, 11, 0, 0, 0)],
                old(self).request_id())),
    {
        let ghost start = *self;
        let ghost reqs: Seq<Req> = seq![plain(0xCD, 1, 0, 0, 0), plain(0xCD, 11, 0, 0, 0)];
        proof { lemma_exchange_none(&start, reqs); }
        let mut values = self.read_encoder_long_values(1)?;
        let ghost s1 = *self;
        proof { lemma_exchange_step(&s1, &start, &start, reqs, 0); }
        if values.len() == 0 {
            return Err(PoKeysError::Protocol(string_of("Cannot set ultra-fast encoder value")));
        }
        let last = values.len() - 1;
        values.set(last, value);
        self.set_encoder_long_values(1, &values)?;
        proof {
            lemma_exchange_step(&*self, &s1, &start, reqs, 1);
            assert(reqs.take(2) =~= reqs);
        }
        Ok(())
    }

    /// Configure an encoder with key mapping: enabled, the given sampling,
    /// direct key mapping in both directions, then both directions' keys.
    pub fn configure_encoder_with_keys(&mut self, encoder_id: u8, channel_a_pin: u8, channel_b_pin: u8, sampling_4x: bool,
        sampling_2x: bool, dir_a_key_code: u8, dir_a_key_modifier: u8, dir_b_key_code: u8, dir_b_key_modifier: u8)
        -> (r: Result<()>)
        ensures
            !(encoder_id >= old(self).encoders@.len()) ==> link_error(r),
            final(self).same_link(old(self)),
            encoder_id >= old(self).encoders@.len() ==> invalid_encoder(encoder_id, r) && final(self).unchanged(old(self)),
            final(self).same_data_except(old(self), set![DeviceField::Encoders]),
            r is Ok ==> {
                let o = (EncoderOptions { enabled: true, sampling_4x, sampling_2x, direct_key_mapping_a: true,
                    macro_mapping_a: false, direct_key_mapping_b: true, macro_mapping_b: false });
                let e = configured_encoder(old(self).encoders@[encoder_id as int], channel_a_pin, channel_b_pin, o);
                &&& final(self).exchanged_all(old(self), packets(seq![plain(0x11, encoder_id, options_byte(o),
                    e.channel_a_pin, e.channel_b_pin), plain(0x12, encoder_id, 0, dir_a_key_code, dir_a_key_modifier),
                    plain(0x13, encoder_id, 0, dir_b_key_code, dir_b_key_modifier)], old(self).request_id()))
                &&& final(self).encoders@ == old(self).encoders@.update(encoder_id as int, (EncoderData {
                    dir_a_key_code, dir_a_key_modifier, dir_b_key_code, dir_b_key_modifier, ..e }))
            },
    {
        let mut options = EncoderOptions::new();
        options.enabled = true;
        options.sampling_4x = sampling_4x;
        options.sampling_2x = sampling_2x;
        options.direct_key_mapping_a = true;
        options.direct_key_mapping_b = true;
        let ghost start = *self;
        let ghost e = configured_encoder(start.encoders@[encoder_id as int], channel_a_pin, channel_b_pin, options);
        let ghost reqs: Seq<Req> = seq![plain(0x11, encoder_id, options_byte(options), e.channel_a_pin, e.channel_b_pin),
            plain(0x12, encoder_id, 0, dir_a_key_code, dir_a_key_modifier), plain(0x13, encoder_id, 0, dir_b_key_code,
            dir_b_key_modifier)];
        proof { lemma_exchange_none(&start, reqs); }
        self.configure_encoder(encoder_id, channel_a_pin, channel_b_pin, options)?;
        let ghost s1 = *self;
        proof { lemma_exchange_step(&s1, &start, &start, reqs, 0); }
        self.configure_encoder_key_mapping_a(encoder_id, dir_a_key_code, dir_a_key_modifier)?;
        let ghost s2 = *self;
        proof { lemma_exchange_step(&s2, &s1, &start, reqs, 1); }
        self.configure_encoder_key_mapping_b(encoder_id, dir_b_key_code, dir_b_key_modifier)?;
        proof {
            lemma_exchange_step(&*self, &s2, &start, reqs, 2);
            assert(reqs.take(3) =~= reqs);
        }
        Ok(())
    }

    /// The text of an encoder's cached sampling mode.
    pub fn get_encoder_sampling_mode(&self, encoder_id: u8) -> (r: Result<String>)
        ensures
            encoder_id >= self.encoders@.len() ==> invalid_encoder(encoder_id, r),
            encoder_id < self.encoders@.len() ==> (r matches Ok(s) && s@ == sampling_mode_text(
                self.encoders@[encoder_id as int].encoder_options)),
    {
        if encoder_id as usize >= self.encoders.len() {
            return Err(encoder_id_error(encoder_id));
        }
        Ok(string_of(self.encoders[encoder_id as usize].sampling_mode_str()))
    }

    /// Whether an encoder's cached options select 4x sampling.
    pub fn is_encoder_4x_sampling(&self, encoder_id: u8) -> (r: Result<bool>)
        ensures
            encoder_id >= self.encoders@.len() ==> invalid_encoder(encoder_id, r),
            encoder_id < self.encoders@.len() ==> r == Ok::<bool, PoKeysError>(has_bit(
                self.encoders@[encoder_id as int].encoder_options, 2)),
    {
        if encoder_id as usize >= self.encoders.len() {
            return Err(encoder_id_error(encoder_id));
        }
        Ok(self.encoders[encoder_id as usize].is_4x_sampling())
    }

    /// Whether an encoder's cached options select 2x sampling.
    pub fn is_encoder_2x_sampling(&self, encoder_id: u8) -> (r: Result<bool>)
        ensures
            encoder_id >= self.encoders@.len() ==> invalid_encoder(encoder_id, r),
            encoder_id < self.encoders@.len() ==> r == Ok::<bool, PoKeysError>(has_bit(
                self.encoders@[encoder_id as int].encoder_options, 4)),
    {
        if encoder_id as usize >= self.encoders.len() {
            return Err(encoder_id_error(encoder_id));
        }
        Ok(self.encoders[encoder_id as usize].is_2x_sampling())
    }

    /// The indices of the encoders whose cached options are enabled, in
    /// order (as bytes).
    pub fn get_enabled_encoders(&self) -> (r: Vec<u8>)
        ensures
            r@ == enabled_indices(self.encoders@),
    {
        let mut out: Vec<u8> = Vec::new();
        let n = self.encoders.len();
        let mut i: usize = 0;
        while i < n
            invariant
                i <= n,
                n == self.encoders@.len(),
                out@ == enabled_indices(self.encoders@.take(i as int)),
            decreases n - i,
        {
            proof { assert(self.encoders@.take(i + 1).drop_last() =~= self.encoders@.take(i as int)); }
            if self.encoders[i].is_enabled() {
                out.push(i as u8);
            }
            i = i + 1;
        }
        assert(self.encoders@.take(n as int) =~= self.encoders@);
        out
    }
}

/// The indices (as bytes) of the enabled encoders of a list, in order.
pub open spec fn enabled_indices(encs: Seq<EncoderData>) -> Seq<u8>
    decreases encs.len(),
{
    if encs.len() == 0 {
        Seq::empty()
    } else {
        let prev = enabled_indices(encs.drop_last());
        if has_bit(encs.last().encoder_options, 1) { prev.push((encs.len() - 1) as u8) } else { prev }
    }
}

} // verus!
