//! PWM channels and servo settings.
//!
//! PWM channel 1 to 6 (index 0 to 5) drive pins 22, 21, 20, 19, 18 and 17.

use vstd::prelude::*;
use vstd::string::*;
use crate::error::{PoKeysError, Result};
use crate::text::{dec, push_dec, string_of};

verus! {

/// Pins of PWM channels 0 to 5.
pub const PWM_PIN_MAP: [u8; 6] = [22, 21, 20, 19, 18, 17];

/// Servo types.
#[derive(Debug, Clone, Copy, PartialEq, Eq, Structural)]
pub enum ServoType {
    /// 180-degree servo with calibrated 0 and 180 degree positions.
    OneEighty { pos_0: u32, pos_180: u32 },
    /// 360-degree position servo.
    ThreeSixtyPosition { pos_0: u32, pos_360: u32 },
    /// 360-degree speed servo (continuous rotation).
    ThreeSixtySpeed { stop: u32, clockwise: u32, anti_clockwise: u32 },
}

/// Servo configuration for a pin.
#[derive(Debug, Clone, Copy, PartialEq, Eq, Structural)]
pub struct ServoConfig {
    pub pin: u8,
    pub servo_type: ServoType,
}

impl ServoConfig {
    /// A 180-degree servo.
    pub fn one_eighty(pin: u8, pos_0: u32, pos_180: u32) -> (r: Self)
        ensures
            r == (ServoConfig { pin, servo_type: ServoType::OneEighty { pos_0, pos_180 } }),
    {
        ServoConfig { pin, servo_type: ServoType::OneEighty { pos_0, pos_180 } }
    }

    /// A 360-degree position servo.
    pub fn three_sixty_position(pin: u8, pos_0: u32, pos_360: u32) -> (r: Self)
        ensures
            r == (ServoConfig { pin, servo_type: ServoType::ThreeSixtyPosition { pos_0, pos_360 } }),
    {
        ServoConfig { pin, servo_type: ServoType::ThreeSixtyPosition { pos_0, pos_360 } }
    }

    /// A 360-degree speed servo.
    pub fn three_sixty_speed(pin: u8, stop: u32, clockwise: u32, anti_clockwise: u32) -> (r: Self)
        ensures
            r == (ServoConfig { pin, servo_type: ServoType::ThreeSixtySpeed { stop, clockwise, anti_clockwise } }),
    {
        ServoConfig { pin, servo_type: ServoType::ThreeSixtySpeed { stop, clockwise, anti_clockwise } }
    }
}

/// PWM settings: a shared period, six duty values and the enabled channels.
#[derive(Debug, Clone, Copy)]
pub struct PwmData {
    /// PWM period, shared among all channels.
    pub pwm_period: u32,
    /// Duty values of channels 0 to 5.
    pub pwm_values: [u32; 6],
    /// Enabled channels, bit `i` for channel `i`.
    pub enabled_channels: u8,
}

/// The PWM channel of a pin, where the pin has one.
pub open spec fn channel_of_pin(pin: u8) -> Option<int> {
    if pin == 22 { Some(0) }
    else if pin == 21 { Some(1) }
    else if pin == 20 { Some(2) }
    else if pin == 19 { Some(3) }
    else if pin == 18 { Some(4) }
    else if pin == 17 { Some(5) }
    else { None }
}

/// The pin of PWM channel 0 to 5.
pub open spec fn pin_of_channel(channel: int) -> u8 {
    (22 - channel) as u8
}

/// `Pin <pin> does not support PWM. PWM is only supported on pins 17-22`.
pub open spec fn not_pwm_pin_text(pin: u8) -> Seq<char> {
    "Pin "@ + dec(pin as nat) + " does not support PWM. PWM is only supported on pins 17-22"@
}

/// `Invalid PWM channel <channel>. Valid channels are 0-5`.
pub open spec fn bad_channel_text(channel: usize) -> Seq<char> {
    "Invalid PWM channel "@ + dec(channel as nat) + ". Valid channels are 0-5"@
}

/// The error for a channel number past 5.
pub open spec fn is_bad_channel_error<T>(r: Result<T>, channel: usize) -> bool {
    r matches Err(PoKeysError::Parameter(m)) && m@ == bad_channel_text(channel)
}

/// Whether channel `channel` is enabled in an enabled-channels byte.
pub open spec fn channel_bit(enabled: u8, channel: int) -> bool {
    (enabled >> (channel as u8)) & 1 == 1
}

fn bad_channel(channel: usize) -> (r: PoKeysError)
    ensures
        r matches PoKeysError::Parameter(m) && m@ == bad_channel_text(channel),
{
    let mut s = string_of("Invalid PWM channel ");
    push_dec(&mut s, channel as u64);
    s.append(". Valid channels are 0-5");
    PoKeysError::Parameter(s)
}

impl Default for PwmData {
    fn default() -> (r: Self)
        ensures
            r.pwm_period == 0,
            r.pwm_values@ == Seq::new(6, |i: int| 0u32),
            r.enabled_channels == 0,
    {
        PwmData::new()
    }
}

impl PwmData {
    /// PWM settings with everything zero.
    pub fn new() -> (r: Self)
        ensures
            r.pwm_period == 0,
            r.pwm_values@ == Seq::new(6, |i: int| 0u32),
            r.enabled_channels == 0,
    {
        let r = PwmData { pwm_period: 0, pwm_values: [0u32; 6], enabled_channels: 0 };
        assert(r.pwm_values@ =~= Seq::new(6, |i: int| 0u32));
        r
    }

    /// The PWM channel of pin 17 to 22.
    pub fn pin_to_channel(pin: u8) -> (r: Result<usize>)
        ensures
            match channel_of_pin(pin) {
                Some(c) => r == Ok::<usize, PoKeysError>(c as usize),
                None => r matches Err(PoKeysError::Parameter(m)) && m@ == not_pwm_pin_text(pin),
            },
    {
        if pin == 22 { Ok(0) }
        else if pin == 21 { Ok(1) }
        else if pin == 20 { Ok(2) }
        else if pin == 19 { Ok(3) }
        else if pin == 18 { Ok(4) }
        else if pin == 17 { Ok(5) }
        else {
            let mut s = string_of("Pin ");
            push_dec(&mut s, pin as u64);
            s.append(" does not support PWM. PWM is only supported on pins 17-22");
            Err(PoKeysError::Parameter(s))
        }
    }

    /// The pin of PWM channel 0 to 5.
    pub fn channel_to_pin(channel: usize) -> (r: Result<u8>)
        ensures
            channel < 6 ==> r == Ok::<u8, PoKeysError>(pin_of_channel(channel as int)),
            channel >= 6 ==> is_bad_channel_error(r, channel),
    {
        if channel >= 6 {
            return Err(bad_channel(channel));
        }
        Ok(22 - channel as u8)
    }

    /// Enable or disable channel 0 to 5.
    pub fn set_channel_enabled(&mut self, channel: usize, enabled: bool) -> (r: Result<()>)
        ensures
            r is Ok <==> channel < 6,
            channel >= 6 ==> is_bad_channel_error(r, channel),
            channel >= 6 ==> *final(self) == *old(self),
            channel < 6 ==> {
                &&& channel_bit(final(self).enabled_channels, channel as int) == enabled
                &&& forall|c: int| 0 <= c < 8 && c != channel ==> #[trigger] channel_bit(final(self).enabled_channels, c)
                    == channel_bit(old(self).enabled_channels, c)
                &&& final(self).pwm_period == old(self).pwm_period
                &&& final(self).pwm_values == old(self).pwm_values
            },
    {
        if channel >= 6 {
            return Err(bad_channel(channel));
        }
        let c: u8 = channel as u8;
        let old_bits = self.enabled_channels;
        let new_bits: u8 = if enabled { old_bits | (1u8 << c) } else { old_bits & !(1u8 << c) };
        assert(((new_bits >> c) & 1 == 1) == enabled) by (bit_vector)
            requires
                c < 8,
                new_bits == (if enabled { old_bits | (1u8 << c) } else { old_bits & !(1u8 << c) }),
        ;
        self.enabled_channels = new_bits;
        proof {
            assert forall|k: int| 0 <= k < 8 && k != channel implies #[trigger] channel_bit(new_bits, k)
                == channel_bit(old_bits, k) by {
                let kk = k as u8;
                assert(((new_bits >> kk) & 1) == ((old_bits >> kk) & 1)) by (bit_vector)
                    requires
                        c < 8,
                        kk < 8,
                        kk != c,
                        new_bits == (if enabled { old_bits | (1u8 << c) } else { old_bits & !(1u8 << c) }),
                ;
            }
        }
        Ok(())
    }

    /// Whether channel 0 to 5 is enabled; false for other numbers.
    pub fn is_channel_enabled(&self, channel: usize) -> (r: bool)
        ensures
            r == (channel < 6 && channel_bit(self.enabled_channels, channel as int)),
    {
        if channel >= 6 {
            return false;
        }
        let c: u8 = channel as u8;
        let b = self.enabled_channels;
        proof { crate::bits::lemma_mask_bit(b, c); }
        (b & (1u8 << c)) != 0
    }

    /// Set the duty value of channel 0 to 5.
    pub fn set_duty_cycle(&mut self, channel: usize, duty: u32) -> (r: Result<()>)
        ensures
            r is Ok <==> channel < 6,
            channel >= 6 ==> is_bad_channel_error(r, channel),
            channel >= 6 ==> *final(self) == *old(self),
            channel < 6 ==> final(self).pwm_values@ == old(self).pwm_values@.update(channel as int, duty),
            final(self).pwm_period == old(self).pwm_period,
            final(self).enabled_channels == old(self).enabled_channels,
    {
        if channel >= 6 {
            return Err(bad_channel(channel));
        }
        self.pwm_values[channel] = duty;
        Ok(())
    }

    /// The duty value of channel 0 to 5.
    pub fn get_duty_cycle(&self, channel: usize) -> (r: Result<u32>)
        ensures
            channel < 6 ==> r == Ok::<u32, PoKeysError>(self.pwm_values@[channel as int]),
            channel >= 6 ==> is_bad_channel_error(r, channel),
    {
        if channel >= 6 {
            return Err(bad_channel(channel));
        }
        Ok(self.pwm_values[channel])
    }
}

/// Only pins 17 to 22 carry PWM, in reverse order: pin 22 is channel 0 and
/// pin 17 channel 5.
pub proof fn lemma_pwm_pins(pin: u8)
    ensures
        channel_of_pin(pin) is Some <==> 17 <= pin <= 22,
        channel_of_pin(pin) matches Some(c) ==> c == 22 - pin,
{
}

/// The channel of a PWM pin leads back to the pin, and the pin of a channel
/// leads back to the channel.
pub proof fn lemma_pin_channel_inverse(pin: u8, channel: int)
    ensures
        channel_of_pin(pin) matches Some(c) ==> pin_of_channel(c) == pin,
        0 <= channel < 6 ==> channel_of_pin(pin_of_channel(channel)) == Some(channel),
{
}

/// Reading a duty value back gives the value that was set.
pub proof fn lemma_duty_round_trip(before: PwmData, after: PwmData, channel: int, duty: u32)
    requires
        0 <= channel < 6,
        after.pwm_values@ == before.pwm_values@.update(channel, duty),
    ensures
        after.pwm_values@[channel] == duty,
        forall|c: int| 0 <= c < 6 && c != channel ==> after.pwm_values@[c] == before.pwm_values@[c],
{
}

} // verus!
