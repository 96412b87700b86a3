//! Encoder options and state: 25 normal encoders, 3 fast encoders and one
//! ultra-fast encoder.
//!
//! The options of an encoder travel as one byte whose bits are, from bit 0:
//! enable, 4x sampling, 2x sampling, reserved, direct key mapping A, macro
//! mapping A, direct key mapping B, macro mapping B.

use vstd::prelude::*;

verus! {

/// Maximum number of normal encoders.
pub const MAX_ENCODERS: usize = 25;

/// Maximum number of fast encoders.
pub const MAX_FAST_ENCODERS: usize = 3;

/// Index of the ultra-fast encoder.
pub const ULTRA_FAST_ENCODER_INDEX: u8 = 25;

/// Whether the bit of weight `weight` (a power of two) is set in `b`.
pub open spec fn has_bit(b: u8, weight: u8) -> bool {
    (b / weight) % 2 == 1
}

/// `weight` when `flag` holds, else 0.
pub open spec fn bit_if(flag: bool, weight: u8) -> u8 {
    if flag { weight } else { 0 }
}

/// Encoder configuration options.
#[derive(Debug, Clone, Copy, PartialEq, Eq, Structural)]
pub struct EncoderOptions {
    /// Enable encoder.
    pub enabled: bool,
    /// 4x sampling mode (both A and B edges counted).
    pub sampling_4x: bool,
    /// 2x sampling mode (only A edges counted).
    pub sampling_2x: bool,
    /// Direct key mapping for direction A.
    pub direct_key_mapping_a: bool,
    /// Macro mapping for direction A.
    pub macro_mapping_a: bool,
    /// Direct key mapping for direction B.
    pub direct_key_mapping_b: bool,
    /// Macro mapping for direction B.
    pub macro_mapping_b: bool,
}

/// The options byte of a set of options.
pub open spec fn options_byte(o: EncoderOptions) -> u8 {
    (bit_if(o.enabled, 1) + bit_if(o.sampling_4x, 2) + bit_if(o.sampling_2x, 4)
        + bit_if(o.direct_key_mapping_a, 16) + bit_if(o.macro_mapping_a, 32)
        + bit_if(o.direct_key_mapping_b, 64) + bit_if(o.macro_mapping_b, 128)) as u8
}

/// The options that an options byte encodes; bit 3 is ignored.
pub open spec fn options_of_byte(b: u8) -> EncoderOptions {
    EncoderOptions {
        enabled: has_bit(b, 1),
        sampling_4x: has_bit(b, 2),
        sampling_2x: has_bit(b, 4),
        direct_key_mapping_a: has_bit(b, 16),
        macro_mapping_a: has_bit(b, 32),
        direct_key_mapping_b: has_bit(b, 64),
        macro_mapping_b: has_bit(b, 128),
    }
}

/// All options off.
pub open spec fn no_options() -> EncoderOptions {
    EncoderOptions {
        enabled: false,
        sampling_4x: false,
        sampling_2x: false,
        direct_key_mapping_a: false,
        macro_mapping_a: false,
        direct_key_mapping_b: false,
        macro_mapping_b: false,
    }
}

impl Default for EncoderOptions {
    fn default() -> (r: Self)
        ensures
            r == no_options(),
    {
        EncoderOptions::new()
    }
}

impl EncoderOptions {
    /// Options with every feature disabled.
    pub fn new() -> (r: Self)
        ensures
            r == no_options(),
    {
        EncoderOptions {
            enabled: false,
            sampling_4x: false,
            sampling_2x: false,
            direct_key_mapping_a: false,
            macro_mapping_a: false,
            direct_key_mapping_b: false,
            macro_mapping_b: false,
        }
    }

    /// Options with the encoder enabled in 4x sampling.
    pub fn with_4x_sampling() -> (r: Self)
        ensures
            r == (EncoderOptions { enabled: true, sampling_4x: true, ..no_options() }),
    {
        EncoderOptions {
            enabled: true,
            sampling_4x: true,
            sampling_2x: false,
            direct_key_mapping_a: false,
            macro_mapping_a: false,
            direct_key_mapping_b: false,
            macro_mapping_b: false,
        }
    }

    /// Options with the encoder enabled in 2x sampling.
    pub fn with_2x_sampling() -> (r: Self)
        ensures
            r == (EncoderOptions { enabled: true, sampling_2x: true, ..no_options() }),
    {
        EncoderOptions {
            enabled: true,
            sampling_4x: false,
            sampling_2x: true,
            direct_key_mapping_a: false,
            macro_mapping_a: false,
            direct_key_mapping_b: false,
            macro_mapping_b: false,
        }
    }

    /// The protocol byte of these options.
    pub fn to_byte(&self) -> (r: u8)
        ensures
            r == options_byte(*self),
    {
        let b0: u8 = if self.enabled { 1 } else { 0 };
        let b1: u8 = if self.sampling_4x { 2 } else { 0 };
        let b2: u8 = if self.sampling_2x { 4 } else { 0 };
        let b4: u8 = if self.direct_key_mapping_a { 16 } else { 0 };
        let b5: u8 = if self.macro_mapping_a { 32 } else { 0 };
        let b6: u8 = if self.direct_key_mapping_b { 64 } else { 0 };
        let b7: u8 = if self.macro_mapping_b { 128 } else { 0 };
        b0 + b1 + b2 + b4 + b5 + b6 + b7
    }

    /// The options of a protocol byte.
    pub fn from_byte(byte: u8) -> (r: Self)
        ensures
            r == options_of_byte(byte),
    {
        proof { crate::bits::lemma_flag_bits(byte); }
        EncoderOptions {
            enabled: (byte & 1) != 0,
            sampling_4x: (byte & 2) != 0,
            sampling_2x: (byte & 4) != 0,
            direct_key_mapping_a: (byte & 16) != 0,
            macro_mapping_a: (byte & 32) != 0,
            direct_key_mapping_b: (byte & 64) != 0,
            macro_mapping_b: (byte & 128) != 0,
        }
    }
}

/// Decoding the byte of a set of options gives the same options back.
pub proof fn lemma_options_round_trip(o: EncoderOptions)
    ensures
        options_of_byte(options_byte(o)) == o,
{
    let (a, b, c, d, e, f, g) = (o.enabled, o.sampling_4x, o.sampling_2x, o.direct_key_mapping_a,
        o.macro_mapping_a, o.direct_key_mapping_b, o.macro_mapping_b);
    let x: u8 = options_byte(o);
    assert(x == ((if a { 1u8 } else { 0u8 }) + (if b { 2u8 } else { 0u8 }) + (if c { 4u8 } else { 0u8 })
        + (if d { 16u8 } else { 0u8 }) + (if e { 32u8 } else { 0u8 }) + (if f { 64u8 } else { 0u8 })
        + (if g { 128u8 } else { 0u8 })) as u8);
    assert(x == ((if a { 1u8 } else { 0u8 }) + (if b { 2u8 } else { 0u8 }) + (if c { 4u8 } else { 0u8 })
        + (if d { 16u8 } else { 0u8 }) + (if e { 32u8 } else { 0u8 }) + (if f { 64u8 } else { 0u8 })
        + (if g { 128u8 } else { 0u8 })) as u8 ==> {
        &&& ((x / 1) % 2 == 1) == a
        &&& ((x / 2) % 2 == 1) == b
        &&& ((x / 4) % 2 == 1) == c
        &&& ((x / 16) % 2 == 1) == d
        &&& ((x / 32) % 2 == 1) == e
        &&& ((x / 64) % 2 == 1) == f
        &&& ((x / 128) % 2 == 1) == g
    }) by (bit_vector);
}

/// Encoding the options of a byte gives the byte back with bit 3 cleared.
pub proof fn lemma_byte_round_trip(b: u8)
    ensures
        options_byte(options_of_byte(b)) == b & 0xF7,
{
    let x = options_byte(options_of_byte(b));
    assert(x == ((if (b / 1) % 2 == 1 { 1u8 } else { 0u8 }) + (if (b / 2) % 2 == 1 { 2u8 } else { 0u8 })
        + (if (b / 4) % 2 == 1 { 4u8 } else { 0u8 }) + (if (b / 16) % 2 == 1 { 16u8 } else { 0u8 })
        + (if (b / 32) % 2 == 1 { 32u8 } else { 0u8 }) + (if (b / 64) % 2 == 1 { 64u8 } else { 0u8 })
        + (if (b / 128) % 2 == 1 { 128u8 } else { 0u8 })) as u8);
    assert(((if (b / 1) % 2 == 1 { 1u8 } else { 0u8 }) + (if (b / 2) % 2 == 1 { 2u8 } else { 0u8 })
        + (if (b / 4) % 2 == 1 { 4u8 } else { 0u8 }) + (if (b / 16) % 2 == 1 { 16u8 } else { 0u8 })
        + (if (b / 32) % 2 == 1 { 32u8 } else { 0u8 }) + (if (b / 64) % 2 == 1 { 64u8 } else { 0u8 })
        + (if (b / 128) % 2 == 1 { 128u8 } else { 0u8 })) as u8 == b & 0xF7) by (bit_vector);
}

/// Encoder state and configuration.
#[derive(Debug, Clone, Copy, PartialEq, Eq, Structural)]
pub struct EncoderData {
    /// Current encoder value.
    pub encoder_value: i32,
    /// Options byte.
    pub encoder_options: u8,
    /// Channel A input pin.
    pub channel_a_pin: u8,
    /// Channel B input pin.
    pub channel_b_pin: u8,
    /// Direction A key code.
    pub dir_a_key_code: u8,
    /// Direction A key modifier.
    pub dir_a_key_modifier: u8,
    /// Direction B key code.
    pub dir_b_key_code: u8,
    /// Direction B key modifier.
    pub dir_b_key_modifier: u8,
}

/// An encoder with every field zero.
pub open spec fn blank_encoder() -> EncoderData {
    EncoderData {
        encoder_value: 0,
        encoder_options: 0,
        channel_a_pin: 0,
        channel_b_pin: 0,
        dir_a_key_code: 0,
        dir_a_key_modifier: 0,
        dir_b_key_code: 0,
        dir_b_key_modifier: 0,
    }
}

/// The text of an encoder's sampling mode.
pub open spec fn sampling_mode_text(options: u8) -> Seq<char> {
    if has_bit(options, 2) {
        "4x (both edges)"@
    } else if has_bit(options, 4) {
        "2x (A edges only)"@
    } else {
        "1x (disabled)"@
    }
}

impl EncoderData {
    /// An encoder with every field zero.
    pub fn new() -> (r: Self)
        ensures
            r == blank_encoder(),
    {
        EncoderData {
            encoder_value: 0,
            encoder_options: 0,
            channel_a_pin: 0,
            channel_b_pin: 0,
            dir_a_key_code: 0,
            dir_a_key_modifier: 0,
            dir_b_key_code: 0,
            dir_b_key_modifier: 0,
        }
    }

    /// The options of this encoder.
    pub fn get_options(&self) -> (r: EncoderOptions)
        ensures
            r == options_of_byte(self.encoder_options),
    {
        EncoderOptions::from_byte(self.encoder_options)
    }

    /// Store a set of options.
    pub fn set_options(&mut self, options: EncoderOptions)
        ensures
            *final(self) == (EncoderData { encoder_options: options_byte(options), ..*old(self) }),
    {
        self.encoder_options = options.to_byte();
    }

    /// Whether the encoder is enabled (bit 0).
    pub fn is_enabled(&self) -> (r: bool)
        ensures
            r == has_bit(self.encoder_options, 1),
    {
        let b = self.encoder_options;
        proof { crate::bits::lemma_flag_bits(b); }
        (b & 1) != 0
    }

    /// Whether 4x sampling is on (bit 1).
    pub fn is_4x_sampling(&self) -> (r: bool)
        ensures
            r == has_bit(self.encoder_options, 2),
    {
        let b = self.encoder_options;
        proof { crate::bits::lemma_flag_bits(b); }
        (b & 2) != 0
    }

    /// Whether 2x sampling is on (bit 2).
    pub fn is_2x_sampling(&self) -> (r: bool)
        ensures
            r == has_bit(self.encoder_options, 4),
    {
        let b = self.encoder_options;
        proof { crate::bits::lemma_flag_bits(b); }
        (b & 4) != 0
    }

    /// The sampling mode as text: 4x takes precedence over 2x.
    pub fn sampling_mode_str(&self) -> (r: &'static str)
        ensures
            r@ == sampling_mode_text(self.encoder_options),
    {
        if self.is_4x_sampling() {
            "4x (both edges)"
        } else if self.is_2x_sampling() {
            "2x (A edges only)"
        } else {
            "1x (disabled)"
        }
    }
}

impl Default for EncoderData {
    fn default() -> (r: Self)
        ensures
            r == blank_encoder(),
    {
        EncoderData::new()
    }
}

} // verus!
