//! PWM and servo requests of a device (command `0xCB`).

use vstd::prelude::*;
use vstd::string::*;
use crate::device::{DeviceField, PoKeysDevice, Req, le_u32, packets, plain, lemma_exchange_none, lemma_exchange_step,
    lemma_same_base};
use crate::device::link_error;
use crate::error::{PoKeysError, Result};
use crate::pwm::{PwmData, ServoConfig, ServoType, channel_bit, channel_of_pin, not_pwm_pin_text};
use crate::text::string_of;

verus! {

/// The four little-endian bytes of a number.
pub open spec fn le_bytes(v: u32) -> Seq<u8> {
    seq![(v % 256) as u8, ((v / 256) % 256) as u8, ((v / 65536) % 256) as u8, (v / 16777216) as u8]
}

/// The 32-byte `0xCB` payload: enabled channels, the six duty values and,
/// when `with_period`, the period; little endian, zero padded.
pub open spec fn pwm_payload(p: PwmData, with_period: bool) -> Seq<u8> {
    let v = p.pwm_values@;
    seq![p.enabled_channels] + le_bytes(v[0]) + le_bytes(v[1]) + le_bytes(v[2]) + le_bytes(v[3]) + le_bytes(v[4])
        + le_bytes(v[5]) + (if with_period { le_bytes(p.pwm_period) } else { seq![0u8, 0, 0, 0] }) + seq![0u8, 0, 0]
}

/// Reading the four bytes of a number back, lowest first, gives the number.
pub proof fn lemma_le_bytes_round_trip(v: u32)
    ensures
        le_bytes(v).len() == 4,
        le_u32(le_bytes(v)[0], le_bytes(v)[1], le_bytes(v)[2], le_bytes(v)[3]) == v,
{
    assert(((v % 256) as u8 as int + 256 * (((v / 256) % 256) as u8 as int) + 65536 * (((v / 65536) % 256) as u8 as int)
        + 16777216 * ((v / 16777216) as u8 as int)) as u32 == v) by (bit_vector);
}

/// The layout of the `0xCB` payload: byte 0 holds the enabled channels; the
/// duty value of channel `i` is read back, lowest byte first, from bytes
/// `1 + 4i` to `4 + 4i`; the period likewise from bytes 25 to 28 when it is
/// sent, else those bytes are zero; bytes 29 to 31 are zero.
pub proof fn lemma_pwm_payload_layout(p: PwmData, with_period: bool)
    ensures
        pwm_payload(p, with_period).len() == 32,
        pwm_payload(p, with_period)[0] == p.enabled_channels,
        forall|i: int| 0 <= i < 6 ==> le_u32(#[trigger] pwm_payload(p, with_period)[1 + 4 * i], pwm_payload(p,
            with_period)[2 + 4 * i], pwm_payload(p, with_period)[3 + 4 * i], pwm_payload(p, with_period)[4 + 4 * i])
            == p.pwm_values@[i],
        with_period ==> le_u32(pwm_payload(p, with_period)[25], pwm_payload(p, with_period)[26], pwm_payload(p,
            with_period)[27], pwm_payload(p, with_period)[28]) == p.pwm_period,
        !with_period ==> pwm_payload(p, with_period)[25] == 0 && pwm_payload(p, with_period)[26] == 0 && pwm_payload(p,
            with_period)[27] == 0 && pwm_payload(p, with_period)[28] == 0,
        pwm_payload(p, with_period)[29] == 0 && pwm_payload(p, with_period)[30] == 0 && pwm_payload(p, with_period)[31]
            == 0,
{
    let s = pwm_payload(p, with_period);
    let v = p.pwm_values@;
    assert(s.subrange(1, 5) =~= le_bytes(v[0]));
    lemma_le_bytes_round_trip(v[0]);
    assert(s[1] == s.subrange(1, 5)[0] && s[2] == s.subrange(1, 5)[1] && s[3] == s.subrange(1, 5)[2]
        && s[4] == s.subrange(1, 5)[3]);
    assert(s.subrange(5, 9) =~= le_bytes(v[1]));
    lemma_le_bytes_round_trip(v[1]);
    assert(s[5] == s.subrange(5, 9)[0] && s[6] == s.subrange(5, 9)[1] && s[7] == s.subrange(5, 9)[2]
        && s[8] == s.subrange(5, 9)[3]);
    assert(s.subrange(9, 13) =~= le_bytes(v[2]));
    lemma_le_bytes_round_trip(v[2]);
    assert(s[9] == s.subrange(9, 13)[0] && s[10] == s.subrange(9, 13)[1] && s[11] == s.subrange(9, 13)[2]
        && s[12] == s.subrange(9, 13)[3]);
    assert(s.subrange(13, 17) =~= le_bytes(v[3]));
    lemma_le_bytes_round_trip(v[3]);
    assert(s[13] == s.subrange(13, 17)[0] && s[14] == s.subrange(13, 17)[1] && s[15] == s.subrange(13, 17)[2]
        && s[16] == s.subrange(13, 17)[3]);
    assert(s.subrange(17, 21) =~= le_bytes(v[4]));
    lemma_le_bytes_round_trip(v[4]);
    assert(s[17] == s.subrange(17, 21)[0] && s[18] == s.subrange(17, 21)[1] && s[19] == s.subrange(17, 21)[2]
        && s[20] == s.subrange(17, 21)[3]);
    assert(s.subrange(21, 25) =~= le_bytes(v[5]));
    lemma_le_bytes_round_trip(v[5]);
    assert(s[21] == s.subrange(21, 25)[0] && s[22] == s.subrange(21, 25)[1] && s[23] == s.subrange(21, 25)[2]
        && s[24] == s.subrange(21, 25)[3]);
    if with_period {
        assert(s.subrange(25, 29) =~= le_bytes(p.pwm_period));
        lemma_le_bytes_round_trip(p.pwm_period);
        assert(s[25] == s.subrange(25, 29)[0] && s[26] == s.subrange(25, 29)[1] && s[27] == s.subrange(25, 29)[2]
            && s[28] == s.subrange(25, 29)[3]);
    }
    assert forall|i: int| 0 <= i < 6 implies le_u32(#[trigger] s[1 + 4 * i], s[2 + 4 * i], s[3 + 4 * i], s[4 + 4 * i])
        == v[i] by {
        if i == 0 {} else if i == 1 {} else if i == 2 {} else if i == 3 {} else if i == 4 {} else {}
    }
}

/// `p` is the PWM data that a `0xCB` read reports: enabled channels at
/// byte 9, the duty values at bytes `10 + 4i`, the period at bytes 34 to 37.
pub open spec fn is_pwm_read(p: PwmData, r: Seq<u8>) -> bool {
    &&& p.enabled_channels == r[9]
    &&& forall|i: int| 0 <= i < 6 ==> #[trigger] p.pwm_values@[i] == le_u32(r[10 + 4 * i], r[11 + 4 * i], r[12 + 4 * i],
        r[13 + 4 * i])
    &&& p.pwm_period == le_u32(r[34], r[35], r[36], r[37])
}

fn put_le(data: &mut [u8; 32], at: usize, v: u32)
    requires
        at + 4 <= 32,
    ensures
        final(data)@ == old(data)@.take(at as int) + le_bytes(v) + old(data)@.skip(at + 4),
{
    data[at] = (v & 0xFF) as u8;
    data[at + 1] = ((v >> 8u32) & 0xFF) as u8;
    data[at + 2] = ((v >> 16u32) & 0xFF) as u8;
    data[at + 3] = ((v >> 24u32) & 0xFF) as u8;
    proof { crate::bits::lemma_le_split(v); }
    assert(data@ =~= old(data)@.take(at as int) + le_bytes(v) + old(data)@.skip(at + 4));
}

fn pwm_bytes(p: &PwmData, with_period: bool) -> (d: [u8; 32])
    ensures
        d@ == pwm_payload(*p, with_period),
{
    let mut data = [0u8; 32];
    data[0] = p.enabled_channels;
    put_le(&mut data, 1, p.pwm_values[0]);
    put_le(&mut data, 5, p.pwm_values[1]);
    put_le(&mut data, 9, p.pwm_values[2]);
    put_le(&mut data, 13, p.pwm_values[3]);
    put_le(&mut data, 17, p.pwm_values[4]);
    put_le(&mut data, 21, p.pwm_values[5]);
    if with_period {
        put_le(&mut data, 25, p.pwm_period);
    }
    assert(data@ =~= pwm_payload(*p, with_period));
    data
}

fn get_le(r: &[u8; 68], at: usize) -> (v: u32)
    requires
        at + 4 <= 68,
    ensures
        v == le_u32(r@[at as int], r@[at + 1], r@[at + 2], r@[at + 3]),
{
    let b0 = r[at];
    let b1 = r[at + 1];
    let b2 = r[at + 2];
    let b3 = r[at + 3];
    proof { crate::bits::lemma_le_join(b0, b1, b2, b3); }
    (b0 as u32) | ((b1 as u32) << 8u32) | ((b2 as u32) << 16u32) | ((b3 as u32) << 24u32)
}

impl PoKeysDevice {
    /// Send the whole PWM configuration (`0xCB` option 1): channels, duty
    /// values and period.
    pub fn set_pwm_configuration(&mut self) -> (r: Result<()>)
        ensures
            final(self).tried_with_data(old(self), r),
            final(self).same_link(old(self)),
            final(self).same_data(old(self)),
            !old(self).connected() ==> r matches Err(PoKeysError::NotConnected),
            r is Ok ==> final(self).exchanged(old(self), 0xCB, 1, 0, 0, 0, pwm_payload(old(self).pwm, true)),
            r is Err ==> final(self).log() == old(self).log(),
    {
        let data = pwm_bytes(&self.pwm, true);
        self.send_request_with_data(0xCB, 1, 0, 0, 0, &data)?;
        Ok(())
    }

    /// Send the PWM channels and duty values only (`0xCB` option 1, 1).
    pub fn update_pwm_duty_values(&mut self) -> (r: Result<()>)
        ensures
            final(self).tried_with_data(old(self), r),
            final(self).same_link(old(self)),
            final(self).same_data(old(self)),
            !old(self).connected() ==> r matches Err(PoKeysError::NotConnected),
            r is Ok ==> final(self).exchanged(old(self), 0xCB, 1, 1, 0, 0, pwm_payload(old(self).pwm, false)),
            r is Err ==> final(self).log() == old(self).log(),
    {
        let data = pwm_bytes(&self.pwm, false);
        self.send_request_with_data(0xCB, 1, 1, 0, 0, &data)?;
        Ok(())
    }

    /// Read the PWM configuration (`0xCB` option 0) into the PWM data (see
    /// [`is_pwm_read`]).
    pub fn get_pwm_configuration(&mut self) -> (r: Result<()>)
        ensures
            final(self).tried(old(self), r),
            final(self).same_link(old(self)),
            !old(self).connected() ==> r matches Err(PoKeysError::NotConnected),
            r is Ok ==> final(self).exchanged(old(self), 0xCB, 0, 0, 0, 0, Seq::empty()) && is_pwm_read(final(self).pwm,
                final(self).reply()) && final(self).same_data_except(old(self), set![DeviceField::Pwm]),
            r is Err ==> final(self).log() == old(self).log() && final(self).same_data(old(self)),
    {
        let response = self.send_request(0xCB, 0, 0, 0, 0)?;
        self.pwm.enabled_channels = response[9];
        let mut values = [0u32; 6];
        let mut i: usize = 0;
        while i < 6
            invariant
                i <= 6,
                forall|k: int| 0 <= k < i ==> #[trigger] values@[k] == le_u32(response@[10 + 4 * k], response@[11 + 4 * k],
                    response@[12 + 4 * k], response@[13 + 4 * k]),
            decreases 6 - i,
        {
            values[i] = get_le(&response, 10 + i * 4);
            i = i + 1;
        }
        self.pwm.pwm_values = values;
        self.pwm.pwm_period = get_le(&response, 34);
        Ok(())
    }

    /// Set the shared PWM period (not zero) and send the configuration; the
    /// period stays set even when sending fails.
    pub fn set_pwm_period(&mut self, period: u32) -> (r: Result<()>)
        ensures
            !(period == 0) ==> final(self).tried_with_data(old(self), r),
            !(period == 0) ==> link_error(r),
            final(self).same_link(old(self)),
            period == 0 ==> (r matches Err(PoKeysError::Parameter(m)) && m@ == "PWM period cannot be zero"@)
                && final(self).unchanged(old(self)),
            period != 0 ==> {
                &&& final(self).pwm == (PwmData { pwm_period: period, ..old(self).pwm })
                &&& final(self).same_data_except(old(self), set![DeviceField::Pwm])
                &&& r is Ok ==> final(self).exchanged(old(self), 0xCB, 1, 0, 0, 0, pwm_payload(final(self).pwm, true))
            },
    {
        if period == 0 {
            return Err(PoKeysError::Parameter(string_of("PWM period cannot be zero")));
        }
        self.pwm.pwm_period = period;
        self.set_pwm_configuration()
    }

    /// The shared PWM period.
    pub fn get_pwm_period(&self) -> (r: u32)
        ensures
            r == self.pwm.pwm_period,
    {
        self.pwm.pwm_period
    }

    /// Set the duty value of a PWM pin (17 to 22) and send the duty values.
    pub fn set_pwm_duty_cycle_for_pin(&mut self, pin: u8, duty: u32) -> (r: Result<()>)
        ensures
            !(channel_of_pin(pin) is None) ==> final(self).tried_with_data(old(self), r),
            !(channel_of_pin(pin) is None) ==> link_error(r),
            final(self).same_link(old(self)),
            channel_of_pin(pin) is None ==> (r matches Err(PoKeysError::Parameter(m)) && m@ == not_pwm_pin_text(pin))
                && final(self).unchanged(old(self)),
            channel_of_pin(pin) matches Some(c) ==> {
                &&& final(self).pwm.pwm_values@ == old(self).pwm.pwm_values@.update(c, duty)
                &&& final(self).pwm.pwm_period == old(self).pwm.pwm_period
                &&& final(self).pwm.enabled_channels == old(self).pwm.enabled_channels
                &&& final(self).same_data_except(old(self), set![DeviceField::Pwm])
                &&& r is Ok ==> final(self).exchanged(old(self), 0xCB, 1, 1, 0, 0, pwm_payload(final(self).pwm, false))
            },
    {
        let channel = PwmData::pin_to_channel(pin)?;
        self.pwm.set_duty_cycle(channel, duty)?;
        self.update_pwm_duty_values()
    }

    /// The duty value of a PWM pin (17 to 22).
    pub fn get_pwm_duty_cycle_for_pin(&self, pin: u8) -> (r: Result<u32>)
        ensures
            channel_of_pin(pin) is None ==> (r matches Err(PoKeysError::Parameter(m)) && m@ == not_pwm_pin_text(pin)),
            channel_of_pin(pin) matches Some(c) ==> r == Ok::<u32, PoKeysError>(self.pwm.pwm_values@[c]),
    {
        let channel = PwmData::pin_to_channel(pin)?;
        self.pwm.get_duty_cycle(channel)
    }

    /// Enable or disable the PWM channel of a pin (17 to 22) and send the
    /// configuration.
    pub fn enable_pwm_for_pin(&mut self, pin: u8, enabled: bool) -> (r: Result<()>)
        ensures
            !(channel_of_pin(pin) is None) ==> final(self).tried_with_data(old(self), r),
            !(channel_of_pin(pin) is None) ==> link_error(r),
            final(self).same_link(old(self)),
            channel_of_pin(pin) is None ==> (r matches Err(PoKeysError::Parameter(m)) && m@ == not_pwm_pin_text(pin))
                && final(self).unchanged(old(self)),
            channel_of_pin(pin) matches Some(c) ==> {
                &&& channel_bit(final(self).pwm.enabled_channels, c) == enabled
                &&& forall|k: int| 0 <= k < 8 && k != c ==> #[trigger] channel_bit(final(self).pwm.enabled_channels, k)
                    == channel_bit(old(self).pwm.enabled_channels, k)
                &&& final(self).pwm.pwm_values == old(self).pwm.pwm_values
                &&& final(self).pwm.pwm_period == old(self).pwm.pwm_period
                &&& final(self).same_data_except(old(self), set![DeviceField::Pwm])
                &&& r is Ok ==> final(self).exchanged(old(self), 0xCB, 1, 0, 0, 0, pwm_payload(final(self).pwm, true))
            },
    {
        let channel = PwmData::pin_to_channel(pin)?;
        self.pwm.set_channel_enabled(channel, enabled)?;
        self.set_pwm_configuration()
    }

    /// Whether the PWM channel of a pin (17 to 22) is enabled.
    pub fn is_pwm_enabled_for_pin(&self, pin: u8) -> (r: Result<bool>)
        ensures
            channel_of_pin(pin) is None ==> (r matches Err(PoKeysError::Parameter(m)) && m@ == not_pwm_pin_text(pin)),
            channel_of_pin(pin) matches Some(c) ==> r == Ok::<bool, PoKeysError>(channel_bit(self.pwm.enabled_channels, c)),
    {
        let channel = PwmData::pin_to_channel(pin)?;
        Ok(self.pwm.is_channel_enabled(channel))
    }

    /// Prepare a servo: give the PWM a 20 ms period (500000 cycles) when it
    /// has none, then enable the servo pin's channel.
    pub fn configure_servo(&mut self, config: ServoConfig) -> (r: Result<()>)
        ensures
            final(self).same_link(old(self)),
            final(self).same_data_except(old(self), set![DeviceField::Pwm]),
            r is Ok ==> channel_of_pin(config.pin) is Some
                && final(self).pwm.pwm_period == (if old(self).pwm.pwm_period == 0 { 500000 } else { old(self).pwm.pwm_period })
                && channel_bit(final(self).pwm.enabled_channels, channel_of_pin(config.pin)->0),
    {
        if self.pwm.pwm_period == 0 {
            self.set_pwm_period(500000)?;
        }
        self.enable_pwm_for_pin(config.pin, true)
    }

    /// Stop a speed servo: set its pin to the stop duty value; other servos
    /// are refused.
    pub fn stop_servo(&mut self, config: &ServoConfig) -> (r: Result<()>)
        ensures
            final(self).same_link(old(self)),
            final(self).same_data_except(old(self), set![DeviceField::Pwm]),
            !(config.servo_type is ThreeSixtySpeed) ==> (r matches Err(PoKeysError::Parameter(m))
                && m@ == "Stop command only applies to speed servos"@) && final(self).unchanged(old(self)),
            config.servo_type is ThreeSixtySpeed && channel_of_pin(config.pin) is Some ==> final(self).pwm.pwm_values@
                == old(self).pwm.pwm_values@.update(channel_of_pin(config.pin)->0, config.servo_type->stop),
    {
        config.stop(self)
    }
}

impl ServoConfig {
    /// Stop a speed servo: set its pin to the stop duty value (see
    /// [`PoKeysDevice::set_pwm_duty_cycle_for_pin`]); other servos are
    /// refused.
    pub fn stop(&self, device: &mut PoKeysDevice) -> (r: Result<()>)
        ensures
            final(device).same_link(old(device)),
            final(device).same_data_except(old(device), set![DeviceField::Pwm]),
            !(self.servo_type is ThreeSixtySpeed) ==> (r matches Err(PoKeysError::Parameter(m))
                && m@ == "Stop command only applies to speed servos"@) && final(device).unchanged(old(device)),
            self.servo_type is ThreeSixtySpeed && channel_of_pin(self.pin) is Some ==> final(device).pwm.pwm_values@
                == old(device).pwm.pwm_values@.update(channel_of_pin(self.pin)->0, self.servo_type->stop),
    {
        match self.servo_type {
            ServoType::ThreeSixtySpeed { stop, .. } => device.set_pwm_duty_cycle_for_pin(self.pin, stop),
            _ => Err(PoKeysError::Parameter(string_of("Stop command only applies to speed servos"))),
        }
    }
}

} // verus!
