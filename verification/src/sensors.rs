//! EasySensor state and custom sensor units.
//!
//! The failsafe byte of a sensor holds the timeout in seconds in bits 0 to 5,
//! "invalid reads zero" in bit 6 and "invalid reads maximum" in bit 7.

use vstd::prelude::*;
use vstd::string::*;
use crate::error::{PoKeysError, Result};
use crate::text::{bytes_until_zero, from_utf8_lossy, pad_zeros, padded_array, string_of, until_zero, utf8_lossy};

verus! {

/// EasySensor data.
#[derive(Debug, Clone, Copy)]
pub struct EasySensor {
    pub sensor_value: i32,
    pub sensor_type: u8,
    pub sensor_refresh_period: u8,
    pub sensor_failsafe_config: u8,
    pub sensor_reading_id: u8,
    pub sensor_id: [u8; 8],
    pub sensor_ok_status: u8,
}

/// The failsafe timeout of a failsafe byte: its low six bits.
pub open spec fn failsafe_timeout_of(config: u8) -> u8 {
    config % 64
}

/// Whether bit 6 (invalid reads zero) is set.
pub open spec fn failsafe_zero_of(config: u8) -> bool {
    (config / 64) % 2 == 1
}

/// Whether bit 7 (invalid reads maximum) is set.
pub open spec fn failsafe_max_of(config: u8) -> bool {
    config / 128 == 1
}

/// Two sensors agree on everything but the failsafe byte.
pub open spec fn same_but_failsafe(a: EasySensor, b: EasySensor) -> bool {
    (EasySensor { sensor_failsafe_config: 0, ..a }) == (EasySensor { sensor_failsafe_config: 0, ..b })
}

impl EasySensor {
    /// A sensor with every field zero.
    pub fn new() -> (r: Self)
        ensures
            r.sensor_value == 0,
            r.sensor_type == 0,
            r.sensor_refresh_period == 0,
            r.sensor_failsafe_config == 0,
            r.sensor_reading_id == 0,
            r.sensor_id@ == Seq::new(8, |i: int| 0u8),
            r.sensor_ok_status == 0,
    {
        let r = EasySensor {
            sensor_value: 0,
            sensor_type: 0,
            sensor_refresh_period: 0,
            sensor_failsafe_config: 0,
            sensor_reading_id: 0,
            sensor_id: [0u8; 8],
            sensor_ok_status: 0,
        };
        assert(r.sensor_id@ =~= Seq::new(8, |i: int| 0u8));
        r
    }

    /// Whether the sensor reports a good reading.
    pub fn is_ok(&self) -> (r: bool)
        ensures
            r == (self.sensor_ok_status != 0),
    {
        self.sensor_ok_status != 0
    }

    /// The failsafe timeout in seconds (bits 0 to 5).
    pub fn get_failsafe_timeout(&self) -> (r: u8)
        ensures
            r == failsafe_timeout_of(self.sensor_failsafe_config),
    {
        let c = self.sensor_failsafe_config;
        proof { crate::bits::lemma_nibbles(c); }
        c & 0x3F
    }

    /// Set the failsafe timeout (its low six bits), keeping bits 6 and 7.
    pub fn set_failsafe_timeout(&mut self, timeout_seconds: u8)
        ensures
            failsafe_timeout_of(final(self).sensor_failsafe_config) == timeout_seconds % 64,
            failsafe_zero_of(final(self).sensor_failsafe_config) == failsafe_zero_of(old(self).sensor_failsafe_config),
            failsafe_max_of(final(self).sensor_failsafe_config) == failsafe_max_of(old(self).sensor_failsafe_config),
            same_but_failsafe(*final(self), *old(self)),
    {
        let c = self.sensor_failsafe_config;
        let n: u8 = (c & 0xC0) | (timeout_seconds & 0x3F);
        assert(n % 64 == timeout_seconds % 64 && (n / 64) % 2 == (c / 64) % 2 && n / 128 == c / 128) by (bit_vector)
            requires
                n == (c & 0xC0) | (timeout_seconds & 0x3F),
        ;
        self.sensor_failsafe_config = n;
    }

    /// Whether invalid readings report zero (bit 6).
    pub fn is_failsafe_invalid_zero(&self) -> (r: bool)
        ensures
            r == failsafe_zero_of(self.sensor_failsafe_config),
    {
        let c = self.sensor_failsafe_config;
        proof { crate::bits::lemma_flag_bits(c); }
        (c & 0x40) != 0
    }

    /// Set or clear bit 6, keeping the other bits.
    pub fn set_failsafe_invalid_zero(&mut self, enable: bool)
        ensures
            failsafe_zero_of(final(self).sensor_failsafe_config) == enable,
            failsafe_timeout_of(final(self).sensor_failsafe_config) == failsafe_timeout_of(old(self).sensor_failsafe_config),
            failsafe_max_of(final(self).sensor_failsafe_config) == failsafe_max_of(old(self).sensor_failsafe_config),
            same_but_failsafe(*final(self), *old(self)),
    {
        let c = self.sensor_failsafe_config;
        let n: u8 = if enable { c | 0x40 } else { c & !0x40u8 };
        assert(((n / 64) % 2 == 1) == enable && n % 64 == c % 64 && n / 128 == c / 128) by (bit_vector)
            requires
                n == (if enable { c | 0x40 } else { c & !0x40u8 }),
        ;
        self.sensor_failsafe_config = n;
    }

    /// Whether invalid readings report the maximum (bit 7).
    pub fn is_failsafe_invalid_max(&self) -> (r: bool)
        ensures
            r == failsafe_max_of(self.sensor_failsafe_config),
    {
        let c = self.sensor_failsafe_config;
        proof { crate::bits::lemma_flag_bits(c); }
        (c & 0x80) != 0
    }

    /// Set or clear bit 7, keeping the other bits.
    pub fn set_failsafe_invalid_max(&mut self, enable: bool)
        ensures
            failsafe_max_of(final(self).sensor_failsafe_config) == enable,
            failsafe_timeout_of(final(self).sensor_failsafe_config) == failsafe_timeout_of(old(self).sensor_failsafe_config),
            failsafe_zero_of(final(self).sensor_failsafe_config) == failsafe_zero_of(old(self).sensor_failsafe_config),
            same_but_failsafe(*final(self), *old(self)),
    {
        let c = self.sensor_failsafe_config;
        let n: u8 = if enable { c | 0x80 } else { c & !0x80u8 };
        assert((n / 128 == 1) == enable && n % 64 == c % 64 && (n / 64) % 2 == (c / 64) % 2) by (bit_vector)
            requires
                n == (if enable { c | 0x80 } else { c & !0x80u8 }),
        ;
        self.sensor_failsafe_config = n;
    }
}

impl Default for EasySensor {
    fn default() -> (r: Self)
        ensures
            r.sensor_value == 0,
            r.sensor_failsafe_config == 0,
            r.sensor_ok_status == 0,
    {
        EasySensor::new()
    }
}

/// Custom sensor unit descriptor: an HTML code of up to 32 bytes and a plain
/// text of up to 8 bytes, both zero-padded.
#[derive(Debug, Clone, Copy)]
pub struct CustomSensorUnit {
    pub html_code: [u8; 32],
    pub simple_text: [u8; 8],
}

impl CustomSensorUnit {
    /// A unit with empty texts.
    pub fn new() -> (r: Self)
        ensures
            r.html_code@ == Seq::new(32, |i: int| 0u8),
            r.simple_text@ == Seq::new(8, |i: int| 0u8),
    {
        let r = CustomSensorUnit { html_code: [0u8; 32], simple_text: [0u8; 8] };
        assert(r.html_code@ =~= Seq::new(32, |i: int| 0u8));
        assert(r.simple_text@ =~= Seq::new(8, |i: int| 0u8));
        r
    }

    /// Store the HTML code: its UTF-8 bytes followed by zeros.
    pub fn set_html_code(&mut self, code: &str) -> (r: Result<()>)
        ensures
            r is Ok <==> code.spec_bytes().len() <= 32,
            r is Err ==> (r matches Err(PoKeysError::Parameter(m)) && m@ == "HTML code too long"@),
            r is Ok ==> final(self).html_code@ == pad_zeros(code.spec_bytes(), 32),
            r is Err ==> final(self).html_code == old(self).html_code,
            final(self).simple_text == old(self).simple_text,
    {
        proof {
            reveal_strlit("HTML code too long");
        }
        let bytes = code.as_bytes();
        if bytes.len() > 32 {
            return Err(PoKeysError::Parameter(string_of("HTML code too long")));
        }
        self.html_code = padded_array(bytes);
        Ok(())
    }

    /// The HTML code: the lossy UTF-8 text of its bytes before the first zero.
    pub fn get_html_code(&self) -> (r: String)
        ensures
            r@ == utf8_lossy(until_zero(self.html_code@)),
    {
        let b = bytes_until_zero(&self.html_code);
        from_utf8_lossy(b.as_slice())
    }

    /// Store the plain text: its UTF-8 bytes followed by zeros.
    pub fn set_simple_text(&mut self, text: &str) -> (r: Result<()>)
        ensures
            r is Ok <==> text.spec_bytes().len() <= 8,
            r is Err ==> (r matches Err(PoKeysError::Parameter(m)) && m@ == "Simple text too long"@),
            r is Ok ==> final(self).simple_text@ == pad_zeros(text.spec_bytes(), 8),
            r is Err ==> final(self).simple_text == old(self).simple_text,
            final(self).html_code == old(self).html_code,
    {
        proof {
            reveal_strlit("Simple text too long");
        }
        let bytes = text.as_bytes();
        if bytes.len() > 8 {
            return Err(PoKeysError::Parameter(string_of("Simple text too long")));
        }
        self.simple_text = padded_array(bytes);
        Ok(())
    }

    /// The plain text: the lossy UTF-8 text of its bytes before the first zero.
    pub fn get_simple_text(&self) -> (r: String)
        ensures
            r@ == utf8_lossy(until_zero(self.simple_text@)),
    {
        let b = bytes_until_zero(&self.simple_text);
        from_utf8_lossy(b.as_slice())
    }
}

impl Default for CustomSensorUnit {
    fn default() -> (r: Self)
        ensures
            r.html_code@ == Seq::new(32, |i: int| 0u8),
            r.simple_text@ == Seq::new(8, |i: int| 0u8),
    {
        CustomSensorUnit::new()
    }
}

} // verus!
