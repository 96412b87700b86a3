//! Pin functions, pin state and the parsing of bulk I/O responses.
//!
//! The pin-settings byte carries the base function in its low 7 bits and
//! the firmware invert flag in bit 7.

use vstd::prelude::*;
use vstd::string::*;
use crate::encoders::EncoderData;
use crate::error::{PoKeysError, Result};
use crate::text::string_of;

mod private;
mod pins;

pub use private::{function_capability, capability_refused, model_pin_inactive};
pub use pins::{inputs_applied, settings_applied, min_nat};

verus! {

/// Bit 7 of the pin-settings byte: the firmware invert flag.
pub const INVERT_PIN_BIT: u8 = 0x80;

/// Command: set pin function.
pub const CMD_SET_INPUT_OUTPUT: u8 = 0x10;
/// Command: read one digital input.
pub const CMD_READ_DIGITAL_INPUT: u8 = 0x30;
/// Command: set one digital output.
pub const CMD_SET_PIN_OUTPUT: u8 = 0x40;
/// Command: bulk pin operations.
pub const CMD_INPUT_OUTPUT_EXTENDED: u8 = 0xC0;

/// PoKeys pin function.
#[derive(Debug, Clone, Copy, PartialEq, Eq, Structural)]
pub enum PinFunction {
    PinRestricted,
    Reserved,
    DigitalInput,
    DigitalOutput,
    AnalogInput,
    AnalogOutput,
    TriggeredInput,
    DigitalCounter,
    /// The invert flag as a function value; apply it with
    /// `set_pin_function_with_invert` instead.
    InvertPin,
}

/// The wire value of a pin function.
pub open spec fn pin_function_value(f: PinFunction) -> u8 {
    match f {
        PinFunction::PinRestricted => 0,
        PinFunction::Reserved => 1,
        PinFunction::DigitalInput => 2,
        PinFunction::DigitalOutput => 4,
        PinFunction::AnalogInput => 8,
        PinFunction::AnalogOutput => 16,
        PinFunction::TriggeredInput => 32,
        PinFunction::DigitalCounter => 64,
        PinFunction::InvertPin => 128,
    }
}

/// The protocol value of each pin function: restricted 0, reserved 1, then
/// one bit each, digital input 2, digital output 4, analog input 8, analog
/// output 16, triggered input 32, digital counter 64 and the invert flag
/// 128; no two functions share a value.
pub proof fn lemma_pin_function_values(f: PinFunction, g: PinFunction)
    ensures
        f is PinRestricted ==> pin_function_value(f) == 0,
        f is Reserved ==> pin_function_value(f) == 1,
        f is DigitalInput ==> pin_function_value(f) == 2,
        f is DigitalOutput ==> pin_function_value(f) == 4,
        f is AnalogInput ==> pin_function_value(f) == 8,
        f is AnalogOutput ==> pin_function_value(f) == 16,
        f is TriggeredInput ==> pin_function_value(f) == 32,
        f is DigitalCounter ==> pin_function_value(f) == 64,
        f is InvertPin ==> pin_function_value(f) == 128,
        f != g ==> pin_function_value(f) != pin_function_value(g),
{
}

/// The function with a given exact wire value, if any.
pub open spec fn pin_function_exact(v: u8) -> Option<PinFunction> {
    if v == 0 { Some(PinFunction::PinRestricted) }
    else if v == 1 { Some(PinFunction::Reserved) }
    else if v == 2 { Some(PinFunction::DigitalInput) }
    else if v == 4 { Some(PinFunction::DigitalOutput) }
    else if v == 8 { Some(PinFunction::AnalogInput) }
    else if v == 16 { Some(PinFunction::AnalogOutput) }
    else if v == 32 { Some(PinFunction::TriggeredInput) }
    else if v == 64 { Some(PinFunction::DigitalCounter) }
    else if v == 128 { Some(PinFunction::InvertPin) }
    else { None }
}

/// Whether the bit of weight `w` is set in `v`.
pub open spec fn flag_set(v: u8, w: u8) -> bool {
    (v / w) % 2 == 1
}

/// The function of a wire byte: an exact value, or else the first of digital
/// output, digital input, analog input, analog output, counter and triggered
/// input whose bit is set, or else restricted.
pub open spec fn pin_function_of_byte(v: u8) -> PinFunction {
    match pin_function_exact(v) {
        Some(f) => f,
        None => if flag_set(v, 4) { PinFunction::DigitalOutput }
            else if flag_set(v, 2) { PinFunction::DigitalInput }
            else if flag_set(v, 8) { PinFunction::AnalogInput }
            else if flag_set(v, 16) { PinFunction::AnalogOutput }
            else if flag_set(v, 64) { PinFunction::DigitalCounter }
            else if flag_set(v, 32) { PinFunction::TriggeredInput }
            else { PinFunction::PinRestricted },
    }
}

/// The base function of a cached pin byte: its low 7 bits when they are a
/// function's exact value, otherwise restricted.
pub open spec fn cached_pin_function(v: u8) -> PinFunction {
    let b = v % 128;
    match pin_function_exact(b) {
        Some(f) => f,
        None => PinFunction::PinRestricted,
    }
}

impl PinFunction {
    /// The wire value of this function.
    pub fn value(&self) -> (r: u8)
        ensures
            r == pin_function_value(*self),
    {
        match self {
            PinFunction::PinRestricted => 0,
            PinFunction::Reserved => 1,
            PinFunction::DigitalInput => 2,
            PinFunction::DigitalOutput => 4,
            PinFunction::AnalogInput => 8,
            PinFunction::AnalogOutput => 16,
            PinFunction::TriggeredInput => 32,
            PinFunction::DigitalCounter => 64,
            PinFunction::InvertPin => 128,
        }
    }

    /// The function of a wire byte; combined flags yield their primary
    /// function and unknown values yield `PinRestricted`. Never fails.
    pub fn from_u8(value: u8) -> (r: Result<Self>)
        ensures
            r == Ok::<PinFunction, PoKeysError>(pin_function_of_byte(value)),
    {
        proof { crate::bits::lemma_flag_bits(value); }
        if value == 0 { Ok(PinFunction::PinRestricted) }
        else if value == 1 { Ok(PinFunction::Reserved) }
        else if value == 2 { Ok(PinFunction::DigitalInput) }
        else if value == 4 { Ok(PinFunction::DigitalOutput) }
        else if value == 8 { Ok(PinFunction::AnalogInput) }
        else if value == 16 { Ok(PinFunction::AnalogOutput) }
        else if value == 32 { Ok(PinFunction::TriggeredInput) }
        else if value == 64 { Ok(PinFunction::DigitalCounter) }
        else if value == 128 { Ok(PinFunction::InvertPin) }
        else if value & 4 != 0 { Ok(PinFunction::DigitalOutput) }
        else if value & 2 != 0 { Ok(PinFunction::DigitalInput) }
        else if value & 8 != 0 { Ok(PinFunction::AnalogInput) }
        else if value & 16 != 0 { Ok(PinFunction::AnalogOutput) }
        else if value & 64 != 0 { Ok(PinFunction::DigitalCounter) }
        else if value & 32 != 0 { Ok(PinFunction::TriggeredInput) }
        else { Ok(PinFunction::PinRestricted) }
    }
}

/// The base function of a cached pin byte, ignoring the invert bit; unknown
/// patterns give `PinRestricted`.
pub fn decode_pin_function_from_cache(byte: u8) -> (r: PinFunction)
    ensures
        r == cached_pin_function(byte),
{
    let b = byte & 0x7F;
    proof { crate::bits::lemma_nibbles(byte); }
    if b == 0 { PinFunction::PinRestricted }
    else if b == 1 { PinFunction::Reserved }
    else if b == 2 { PinFunction::DigitalInput }
    else if b == 4 { PinFunction::DigitalOutput }
    else if b == 8 { PinFunction::AnalogInput }
    else if b == 16 { PinFunction::AnalogOutput }
    else if b == 32 { PinFunction::TriggeredInput }
    else if b == 64 { PinFunction::DigitalCounter }
    else { PinFunction::PinRestricted }
}

/// The pin-settings byte of a function, with bit 7 set when inverted.
pub open spec fn pin_settings_byte(f: PinFunction, inverted: bool) -> u8 {
    pin_function_value(f) | (if inverted { 0x80u8 } else { 0u8 })
}

/// The pin-settings wire byte: the function's value, or'ed with the invert
/// flag when requested.
pub fn compose_pin_function_byte(f: PinFunction, inverted: bool) -> (r: u8)
    ensures
        r == pin_settings_byte(f, inverted),
{
    f.value() | if inverted { INVERT_PIN_BIT } else { 0 }
}

/// The base function of a composed byte is the function itself, for every
/// function but the invert flag, and the invert bit reads back as given.
pub proof fn lemma_pin_settings_round_trip(f: PinFunction, inverted: bool)
    requires
        f != PinFunction::InvertPin,
    ensures
        cached_pin_function(pin_settings_byte(f, inverted)) == f,
        flag_set(pin_settings_byte(f, inverted), 128) == inverted,
{
    let v = pin_function_value(f);
    let b = pin_settings_byte(f, inverted);
    assert(v < 128);
    assert(v < 128 ==> (v | (if inverted { 0x80u8 } else { 0u8 })) % 128 == v) by (bit_vector);
    assert(v < 128 ==> ((((v | (if inverted { 0x80u8 } else { 0u8 })) / 128) % 2 == 1) == inverted)) by (bit_vector);
}

/// Pin capabilities for checking device support.
#[derive(Debug, Clone, Copy, PartialEq, Eq, Structural)]
pub enum PinCapability {
    DigitalInput,
    DigitalOutput,
    AnalogInput,
    MfAnalogInput,
    AnalogOutput,
    KeyboardMapping,
    TriggeredInput,
    DigitalCounter,
    PwmOutput,
    FastEncoder1A,
    FastEncoder1B,
    FastEncoder1I,
    FastEncoder2A,
    FastEncoder2B,
    FastEncoder2I,
    FastEncoder3A,
    FastEncoder3B,
    FastEncoder3I,
    UltraFastEncoderA,
    UltraFastEncoderB,
    UltraFastEncoderI,
    LcdE,
    LcdRw,
    LcdRs,
    LcdD4,
    LcdD5,
    LcdD6,
    LcdD7,
}

/// Pin state and configuration.
#[derive(Debug, Clone, Copy, PartialEq, Eq, Structural)]
pub struct PinData {
    pub digital_counter_value: u32,
    pub analog_value: u32,
    pub pin_function: u8,
    pub counter_options: u8,
    pub digital_value_get: u8,
    pub digital_value_set: u8,
    pub digital_counter_available: u8,
    pub mapping_type: u8,
    pub key_code_macro_id: u8,
    pub key_modifier: u8,
    pub down_key_code_macro_id: u8,
    pub down_key_modifier: u8,
    pub up_key_code_macro_id: u8,
    pub up_key_modifier: u8,
    pub prevent_update: u8,
}

/// A pin with every field zero (function restricted).
pub open spec fn blank_pin() -> PinData {
    PinData {
        digital_counter_value: 0,
        analog_value: 0,
        pin_function: 0,
        counter_options: 0,
        digital_value_get: 0,
        digital_value_set: 0,
        digital_counter_available: 0,
        mapping_type: 0,
        key_code_macro_id: 0,
        key_modifier: 0,
        down_key_code_macro_id: 0,
        down_key_modifier: 0,
        up_key_code_macro_id: 0,
        up_key_modifier: 0,
        prevent_update: 0,
    }
}

/// Whether a pin is configured as an analog input.
pub open spec fn is_analog_input_pin(p: PinData) -> bool {
    flag_set(p.pin_function, 8)
}

impl PinData {
    /// A pin with every field zero (function restricted).
    pub fn new() -> (r: Self)
        ensures
            r == blank_pin(),
    {
        PinData {
            digital_counter_value: 0,
            analog_value: 0,
            pin_function: 0,
            counter_options: 0,
            digital_value_get: 0,
            digital_value_set: 0,
            digital_counter_available: 0,
            mapping_type: 0,
            key_code_macro_id: 0,
            key_modifier: 0,
            down_key_code_macro_id: 0,
            down_key_modifier: 0,
            up_key_code_macro_id: 0,
            up_key_modifier: 0,
            prevent_update: 0,
        }
    }

    /// Whether the digital input bit (2) is set.
    pub fn is_digital_input(&self) -> (r: bool)
        ensures
            r == flag_set(self.pin_function, 2),
    {
        let v = self.pin_function;
        proof { crate::bits::lemma_flag_bits(v); }
        (v & 2) != 0
    }

    /// Whether the digital output bit (4) is set.
    pub fn is_digital_output(&self) -> (r: bool)
        ensures
            r == flag_set(self.pin_function, 4),
    {
        let v = self.pin_function;
        proof { crate::bits::lemma_flag_bits(v); }
        (v & 4) != 0
    }

    /// Whether the analog input bit (8) is set.
    pub fn is_analog_input(&self) -> (r: bool)
        ensures
            r == flag_set(self.pin_function, 8),
    {
        let v = self.pin_function;
        proof { crate::bits::lemma_flag_bits(v); }
        (v & 8) != 0
    }

    /// Whether the analog output bit (16) is set.
    pub fn is_analog_output(&self) -> (r: bool)
        ensures
            r == flag_set(self.pin_function, 16),
    {
        let v = self.pin_function;
        proof { crate::bits::lemma_flag_bits(v); }
        (v & 16) != 0
    }

    /// Whether the digital counter bit (64) is set.
    pub fn is_digital_counter(&self) -> (r: bool)
        ensures
            r == flag_set(self.pin_function, 64),
    {
        let v = self.pin_function;
        proof { crate::bits::lemma_flag_bits(v); }
        (v & 64) != 0
    }

    /// Whether the invert bit (7) is set.
    pub fn is_inverted(&self) -> (r: bool)
        ensures
            r == flag_set(self.pin_function, 128),
    {
        let v = self.pin_function;
        proof { crate::bits::lemma_flag_bits(v); }
        (v & INVERT_PIN_BIT) != 0
    }

    /// The base function of the cached byte, ignoring the invert bit.
    pub fn base_function(&self) -> (r: PinFunction)
        ensures
            r == cached_pin_function(self.pin_function),
    {
        decode_pin_function_from_cache(self.pin_function)
    }
}

impl Default for PinData {
    fn default() -> (r: Self)
        ensures
            r == blank_pin(),
    {
        PinData::new()
    }
}

/// The `(MSB, LSB)` pair of a 10-bit analog output value: the top 8 of the
/// 10 bits, then the low 2 bits in the two high bits of the second byte.
/// Bits past the tenth are dropped.
pub open spec fn analog_output_bytes(value: u32) -> (u8, u8) {
    let v = value % 1024;
    ((v / 4) as u8, ((v % 4) * 64) as u8)
}

/// Pack a 10-bit analog output value for command `0x41`.
pub fn encode_analog_output_10bit(value: u32) -> (r: (u8, u8))
    ensures
        r == analog_output_bytes(value),
{
    let v = value & 0x3FF;
    assert(value & 0x3FF == value % 1024) by (bit_vector);
    assert(((v >> 2) & 0xFF) == v / 4) by (bit_vector)
        requires
            v < 1024,
    ;
    assert(((v & 0x03) << 6) == (v % 4) * 64) by (bit_vector)
        requires
            v < 1024,
    ;
    let msb = ((v >> 2) & 0xFF) as u8;
    let lsb = ((v & 0x03) << 6) as u8;
    (msb, lsb)
}

/// What a bulk pin-settings response yields: the 55 bytes from offset 8 of
/// a response of at least 64 bytes that echoes command `0xC0`.
pub open spec fn bulk_pin_settings_outcome(response: Seq<u8>, r: Result<[u8; 55]>) -> bool {
    if response.len() < 64 {
        r matches Err(PoKeysError::Protocol(m)) && m@ == "Response too short for bulk pin read"@
    } else if response[1] != 0xC0u8 {
        r matches Err(PoKeysError::Protocol(m)) && m@ == "Invalid response command"@
    } else {
        r matches Ok(raw) && raw@ == response.subrange(8, 63)
    }
}

/// Check a bulk `0xC0` pin-settings response and take its 55 setting bytes.
pub fn parse_bulk_pin_settings_response(response: &[u8]) -> (r: Result<[u8; 55]>)
    ensures
        bulk_pin_settings_outcome(response@, r),
{
    proof {
        reveal_strlit("Response too short for bulk pin read");
        reveal_strlit("Invalid response command");
    }
    if response.len() < 64 {
        return Err(PoKeysError::Protocol(string_of("Response too short for bulk pin read")));
    }
    if response[1] != CMD_INPUT_OUTPUT_EXTENDED {
        return Err(PoKeysError::Protocol(string_of("Invalid response command")));
    }
    let mut raw = [0u8; 55];
    let mut i: usize = 0;
    while i < 55
        invariant
            response@.len() >= 64,
            i <= 55,
            forall|k: int| 0 <= k < i ==> raw@[k] == response@[8 + k],
        decreases 55 - i,
    {
        raw[i] = response[8 + i];
        i = i + 1;
    }
    assert(raw@ =~= response@.subrange(8, 63));
    Ok(raw)
}

/// The number of analog-input pins among `pins`.
pub open spec fn count_analog(pins: Seq<PinData>) -> nat
    decreases pins.len(),
{
    if pins.len() == 0 {
        0
    } else {
        count_analog(pins.drop_last()) + (if is_analog_input_pin(pins.last()) { 1nat } else { 0nat })
    }
}

/// The signed value of a byte.
pub open spec fn signed_byte(b: u8) -> i32 {
    if b < 128 { b as i32 } else { (b - 256) as i32 }
}

/// Pin `i` after a device status response: its digital input from bit
/// `i % 8` of byte `8 + i / 8` (pins below 55, when the byte is there), and
/// the next of five analog channels (bytes `15 + 2k`, MSB first) when it is
/// the `k`-th analog input.
pub open spec fn status_pin(response: Seq<u8>, pins: Seq<PinData>, i: int) -> PinData {
    let p = pins[i];
    let byte_index = 8 + i / 8;
    let p1 = if i < 55 && byte_index < response.len() {
        PinData { digital_value_get: if (response[byte_index] >> ((i % 8) as u8)) & 1 == 1 { 1u8 } else { 0u8 }, ..p }
    } else {
        p
    };
    let k: int = count_analog(pins.take(i)) as int;
    if is_analog_input_pin(p) && k < 5 && 15 + 2 * k + 1 < response.len() {
        PinData { analog_value: (response[15 + 2 * k] as int * 256 + response[16 + 2 * k] as int) as u32, ..p1 }
    } else {
        p1
    }
}

/// Encoder `i` after a device status response: its value is the signed byte
/// `25 + i` (encoders below 25, when the byte is there).
pub open spec fn status_encoder(response: Seq<u8>, encoders: Seq<EncoderData>, i: int) -> EncoderData {
    if i < 25 && 25 + i < response.len() {
        EncoderData { encoder_value: signed_byte(response[25 + i]), ..encoders[i] }
    } else {
        encoders[i]
    }
}

/// Apply a `0xCC` device status response to the pins and encoders.
pub fn apply_device_status_response(response: &[u8], pins: &mut Vec<PinData>, encoders: &mut Vec<EncoderData>)
    ensures
        final(pins)@.len() == old(pins)@.len(),
        final(encoders)@.len() == old(encoders)@.len(),
        forall|i: int| 0 <= i < old(pins)@.len() ==> final(pins)@[i] == status_pin(response@, old(pins)@, i),
        forall|i: int| 0 <= i < old(encoders)@.len() ==> final(encoders)@[i] == status_encoder(response@, old(encoders)@, i),
{
    let ghost orig = pins@;
    let n = pins.len();
    let mut data_index: usize = 15;
    let mut consumed: usize = 0;
    let mut i: usize = 0;
    while i < n
        invariant
            n == orig.len(),
            pins@.len() == n,
            i <= n,
            consumed <= 5,
            consumed <= count_analog(orig.take(i as int)),
            data_index == 15 + 2 * consumed,
            consumed < count_analog(orig.take(i as int)) ==> data_index + 1 >= response@.len() || consumed == 5,
            forall|k: int| 0 <= k < i ==> pins@[k] == status_pin(response@, orig, k),
            forall|k: int| i <= k < n ==> pins@[k] == orig[k],
        decreases n - i,
    {
        let mut p = pins[i];
        proof {
            assert(orig.take(i + 1).drop_last() =~= orig.take(i as int));
        }
        if i < 55 {
            let byte_index = 8 + i / 8;
            if byte_index < response.len() {
                let bit: u8 = (i % 8) as u8;
                let b = response[byte_index];
                proof { crate::bits::lemma_mask_bit(b, bit); }
                p.digital_value_get = if (b & (1u8 << bit)) != 0 { 1 } else { 0 };
            }
        }
        if consumed < 5 {
            if p.is_analog_input() && data_index + 1 < response.len() {
                let msb = response[data_index] as u32;
                let lsb = response[data_index + 1] as u32;
                assert((msb << 8u32) | lsb == msb * 256 + lsb) by (bit_vector)
                    requires
                        msb < 256,
                        lsb < 256,
                ;
                p.analog_value = (msb << 8u32) | lsb;
                data_index = data_index + 2;
                consumed = consumed + 1;
            }
        }
        pins.set(i, p);
        i = i + 1;
    }
    let m = encoders.len();
    let mut j: usize = 0;
    let ghost orig_enc = encoders@;
    while j < m
        invariant
            m == orig_enc.len(),
            encoders@.len() == m,
            j <= m,
            forall|k: int| 0 <= k < j ==> encoders@[k] == status_encoder(response@, orig_enc, k),
            forall|k: int| j <= k < m ==> encoders@[k] == orig_enc[k],
        decreases m - j,
    {
        if j < 25 && 25 + j < response.len() {
            let mut e = encoders[j];
            let b = response[25 + j];
            let v: i32 = b as i8 as i32;
            assert(v == signed_byte(b)) by (bit_vector)
                requires
                    v == b as i8 as i32,
            ;
            e.encoder_value = v;
            encoders.set(j, e);
        }
        j = j + 1;
    }
}

} // verus!
