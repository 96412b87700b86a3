//! Pulse engine requests of a device (commands `0x80` to `0x89`).

use vstd::prelude::*;
use vstd::string::*;
use crate::device::{DeviceField, PoKeysDevice, le_bytes, le_u32};
use crate::device::encoder_ops::{long_value, read_long};
use crate::device::link_error;
use crate::error::{PoKeysError, Result};
use crate::pulse_engine::{AxisConfigBuilder, MotorDriverConfigBuilder, PulseEngineConfig, PulseEngineV2, PulseEngineV2Info,
    axis_bit, axis_state_of, pulse_engine_state_of};
use crate::text::string_of;
use crate::types::{PulseEngineAxisState, PulseEngineState};

verus! {

/// `n` zero bytes.
pub open spec fn zero_bytes(n: nat) -> Seq<u8> {
    Seq::new(n, |i: int| 0u8)
}

/// 1 for `true`, 0 for `false`.
pub open spec fn flag_byte(b: bool) -> u8 {
    if b { 1 } else { 0 }
}

/// The 56-byte payload of a pulse engine setup (`0x85`/`0x01`): axes,
/// charge pump, generator type with bit 7 clear, buffer size, emergency
/// polarity, and the power states (bits 0 to 2) with the three charge pump
/// states (bits 4 to 6) when the charge pump is on.
pub open spec fn setup_payload(c: PulseEngineConfig) -> Seq<u8> {
    seq![c.enabled_axes, c.charge_pump_enabled, c.generator_type % 128, c.buffer_size, c.emergency_switch_polarity,
        ((c.power_states % 8) as int + (if c.charge_pump_enabled != 0 { 112int } else { 0 })) as u8] + zero_bytes(50)
}

/// The little-endian bytes of the first `n` positions.
pub open spec fn positions_bytes(p: Seq<i32>, n: nat) -> Seq<u8>
    decreases n,
{
    if n == 0 { Seq::empty() } else { positions_bytes(p, (n - 1) as nat) + le_bytes(p[n - 1] as u32) }
}

/// The 56-byte payload of one axis position: its bytes at `4 * axis`.
pub open spec fn axis_position_payload(axis: int, position: i32) -> Seq<u8> {
    zero_bytes((4 * axis) as nat) + le_bytes(position as u32) + zero_bytes((52 - 4 * axis) as nat)
}

/// The axis options byte of an axis configuration: enabled, internal
/// planner and masked enable, plus soft limits when either limit is set.
pub open spec fn axis_options_byte(p: PulseEngineV2, axis: int) -> u8 {
    if p.soft_limit_minimum@[axis] != 0 || p.soft_limit_maximum@[axis] != 0 { 0x65 } else { 0x45 }
}

/// The 56-byte payload of an axis configuration (`0x85`/`0x11`).
pub open spec fn axis_config_payload(p: PulseEngineV2, axis: int) -> Seq<u8> {
    seq![axis_options_byte(p, axis), 0u8, 0, 0, 0, 50, 10, 0] + le_bytes(p.max_speed@[axis]) + le_bytes(
        p.max_acceleration@[axis]) + le_bytes(p.max_deceleration@[axis]) + le_bytes(p.soft_limit_minimum@[axis] as u32)
        + le_bytes(p.soft_limit_maximum@[axis] as u32) + seq![1u8, 0, 0, 0, 0, 0, 0, 0x83, 0] + le_bytes(0) + seq![1u8,
        0, 0, 0] + zero_bytes(11)
}

/// The 56-byte payload of the motor driver settings (`0x85`/`0x19`): step
/// and current setting of axis `a` at bytes `2a` and `2a + 1`.
pub open spec fn motor_drivers_payload(p: PulseEngineV2) -> Seq<u8> {
    let s = p.motor_step_setting@;
    let c = p.motor_current_setting@;
    seq![s[0], c[0], s[1], c[1], s[2], c[2], s[3], c[3]] + zero_bytes(48)
}

/// The payload of one axis position: bytes `4 * axis` to `4 * axis + 3`
/// read back, lowest first, give the position; every other of the 56
/// bytes is zero.
pub proof fn lemma_axis_position_layout(axis: int, position: i32)
    requires
        0 <= axis < 8,
    ensures
        axis_position_payload(axis, position).len() == 56,
        le_u32(axis_position_payload(axis, position)[4 * axis], axis_position_payload(axis, position)[4 * axis + 1],
            axis_position_payload(axis, position)[4 * axis + 2], axis_position_payload(axis, position)[4 * axis + 3])
            == position as u32,
        forall|k: int| 0 <= k < 56 && !(4 * axis <= k < 4 * axis + 4) ==> #[trigger] axis_position_payload(axis,
            position)[k] == 0,
{
    let s = axis_position_payload(axis, position);
    assert(s.subrange(4 * axis, 4 * axis + 4) =~= le_bytes(position as u32));
    crate::device::pwm_ops::lemma_le_bytes_round_trip(position as u32);
    assert(s[4 * axis] == s.subrange(4 * axis, 4 * axis + 4)[0] && s[4 * axis + 1] == s.subrange(4 * axis, 4 * axis
        + 4)[1] && s[4 * axis + 2] == s.subrange(4 * axis, 4 * axis + 4)[2] && s[4 * axis + 3] == s.subrange(4 * axis,
        4 * axis + 4)[3]);
}

/// The motor driver payload: the step setting of axis `a` at byte `2a`, its
/// current setting at byte `2a + 1`, for axes 0 to 3; zeros up to 56 bytes.
pub proof fn lemma_motor_drivers_layout(p: PulseEngineV2)
    ensures
        motor_drivers_payload(p).len() == 56,
        forall|a: int| 0 <= a < 4 ==> #[trigger] motor_drivers_payload(p)[2 * a] == p.motor_step_setting@[a]
            && motor_drivers_payload(p)[2 * a + 1] == p.motor_current_setting@[a],
        forall|k: int| 8 <= k < 56 ==> #[trigger] motor_drivers_payload(p)[k] == 0,
{
    assert forall|a: int| 0 <= a < 4 implies #[trigger] motor_drivers_payload(p)[2 * a] == p.motor_step_setting@[a]
        && motor_drivers_payload(p)[2 * a + 1] == p.motor_current_setting@[a] by {
        if a == 0 {} else if a == 1 {} else if a == 2 {} else {}
    }
}

/// The pulse engine after a `0x85`/`0x00` status read `r`.
pub open spec fn pe_status_read(p: PulseEngineV2, r: Seq<u8>, q: PulseEngineV2) -> bool {
    &&& q == (PulseEngineV2 {
        soft_limit_status: r[3],
        axis_enabled_states_mask: r[4],
        limit_override: r[5],
        info: PulseEngineV2Info {
            nr_of_axes: r[8],
            max_pulse_frequency: r[57],
            buffer_depth: r[58],
            slot_timing: r[59],
            ..p.info
        },
        pulse_engine_activated: r[9],
        pulse_engine_state: r[10],
        charge_pump_enabled: r[11],
        limit_status_p: r[12],
        limit_status_n: r[13],
        home_status: r[14],
        pulse_generator_type: r[15],
        emergency_switch_polarity: r[60],
        error_input_status: r[61],
        misc_input_status: r[62],
        axes_state: q.axes_state,
        current_position: q.current_position,
        ..p
    })
    &&& q.axes_state@ == Seq::new(8, |i: int| r[16 + i])
    &&& q.current_position@ == Seq::new(8, |i: int| long_value(r, 24 + 4 * i))
}

/// The pulse engine after a `0x89` status read `r`.
pub open spec fn pe_short_status_read(p: PulseEngineV2, r: Seq<u8>, q: PulseEngineV2) -> bool {
    &&& q == (PulseEngineV2 {
        pulse_engine_state: r[8],
        axis_enabled_mask: r[9],
        limit_status_p: r[10],
        limit_status_n: r[11],
        home_status: r[12],
        current_position: q.current_position,
        ..p
    })
    &&& q.current_position@ == Seq::new(8, |i: int| long_value(r, 16 + 4 * i))
}

/// The pulse engine after an axis configuration read `r` (`0x85`/`0x10`)
/// of axis `a`.
pub open spec fn axis_config_read(p: PulseEngineV2, a: int, r: Seq<u8>, q: PulseEngineV2) -> bool {
    &&& q == (PulseEngineV2 {
        axes_config: q.axes_config,
        axes_switch_config: q.axes_switch_config,
        homing_speed: q.homing_speed,
        homing_return_speed: q.homing_return_speed,
        mpg_jog_encoder: q.mpg_jog_encoder,
        max_speed: q.max_speed,
        max_acceleration: q.max_acceleration,
        max_deceleration: q.max_deceleration,
        soft_limit_minimum: q.soft_limit_minimum,
        soft_limit_maximum: q.soft_limit_maximum,
        ..p
    })
    &&& q.axes_config@ == p.axes_config@.update(a, r[8])
    &&& q.axes_switch_config@ == p.axes_switch_config@.update(a, r[9])
    &&& q.homing_speed@ == p.homing_speed@.update(a, r[13])
    &&& q.homing_return_speed@ == p.homing_return_speed@.update(a, r[14])
    &&& q.mpg_jog_encoder@ == p.mpg_jog_encoder@.update(a, r[15])
    &&& q.max_speed@ == p.max_speed@.update(a, long_value(r, 16) as u32)
    &&& q.max_acceleration@ == p.max_acceleration@.update(a, long_value(r, 20) as u32)
    &&& q.max_deceleration@ == p.max_deceleration@.update(a, long_value(r, 24) as u32)
    &&& q.soft_limit_minimum@ == p.soft_limit_minimum@.update(a, long_value(r, 28))
    &&& q.soft_limit_maximum@ == p.soft_limit_maximum@.update(a, long_value(r, 32))
}

/// The error of an axis past 7, in the words of the position and
/// configuration requests.
pub open spec fn axis_index_error(r: Result<()>) -> bool {
    r matches Err(PoKeysError::Parameter(m)) && m@ == "Axis index must be 0-7"@
}

/// The error of an axis past 7, in the words of the other axis requests.
pub open spec fn invalid_axis<T>(r: Result<T>) -> bool {
    r matches Err(PoKeysError::Parameter(m)) && m@ == "Invalid axis number"@
}

fn put_le56(data: &mut [u8; 56], at: usize, v: u32)
    requires
        at + 4 <= 56,
    ensures
        final(data)@ == old(data)@.take(at as int) + le_bytes(v) + old(data)@.skip(at + 4),
{
    data[at] = (v & 0xFF) as u8;
    data[at + 1] = ((v >> 8u32) & 0xFF) as u8;
    data[at + 2] = ((v >> 16u32) & 0xFF) as u8;
    data[at + 3] = ((v >> 24u32) & 0xFF) as u8;
    proof { crate::bits::lemma_le_split(v); }
    assert(data@ =~= old(data)@.take(at as int) + le_bytes(v) + old(data)@.skip(at + 4));
}

fn push_le(v: &mut Vec<u8>, x: u32)
    ensures
        final(v)@ == old(v)@ + le_bytes(x),
{
    v.push((x & 0xFF) as u8);
    v.push(((x >> 8u32) & 0xFF) as u8);
    v.push(((x >> 16u32) & 0xFF) as u8);
    v.push(((x >> 24u32) & 0xFF) as u8);
    proof { crate::bits::lemma_le_split(x); }
    assert(v@ =~= old(v)@ + le_bytes(x));
}

fn push_zeros(v: &mut Vec<u8>, n: usize)
    ensures
        final(v)@ == old(v)@ + zero_bytes(n as nat),
{
    let mut i: usize = 0;
    while i < n
        invariant
            i <= n,
            v@ == old(v)@ + zero_bytes(i as nat),
        decreases n - i,
    {
        v.push(0);
        assert(v@ =~= old(v)@ + zero_bytes((i + 1) as nat));
        i = i + 1;
    }
}

fn positions_payload(positions: &[i32; 8]) -> (d: [u8; 56])
    ensures
        d@ == positions_bytes(positions@, 8) + zero_bytes(24),
{
    let mut data = [0u8; 56];
    let mut i: usize = 0;
    assert(data@ =~= positions_bytes(positions@, 0) + zero_bytes(56));
    while i < 8
        invariant
            i <= 8,
            positions_bytes(positions@, i as nat).len() == 4 * i,
            data@ == positions_bytes(positions@, i as nat) + zero_bytes((56 - 4 * i) as nat),
        decreases 8 - i,
    {
        let ghost before = data@;
        put_le56(&mut data, 4 * i, positions[i] as u32);
        assert(data@ =~= positions_bytes(positions@, (i + 1) as nat) + zero_bytes((56 - 4 * (i + 1)) as nat));
        i = i + 1;
    }
    assert(zero_bytes((56 - 4 * 8) as nat) =~= zero_bytes(24));
    data
}

impl PoKeysDevice {
    /// Enable or disable the pulse engine (`0x80`), caching the flag.
    pub fn enable_pulse_engine(&mut self, enable: bool) -> (r: Result<()>)
        ensures
            final(self).tried(old(self), r),
            final(self).same_link(old(self)),
            final(self).pulse_engine_v2 == (PulseEngineV2 { pulse_engine_enabled: flag_byte(enable),
                ..old(self).pulse_engine_v2 }),
            final(self).same_data_except(old(self), set![DeviceField::PulseEngineV2]),
            r is Ok ==> final(self).exchanged(old(self), 0x80, flag_byte(enable), 0, 0, 0, Seq::empty()),
    {
        let b: u8 = if enable { 1 } else { 0 };
        self.pulse_engine_v2.pulse_engine_enabled = b;
        self.send_request(0x80, b, 0, 0, 0)?;
        Ok(())
    }

    /// Activate or deactivate the pulse engine (`0x81`), caching the flag.
    pub fn activate_pulse_engine(&mut self, activate: bool) -> (r: Result<()>)
        ensures
            final(self).tried(old(self), r),
            final(self).same_link(old(self)),
            final(self).pulse_engine_v2 == (PulseEngineV2 { pulse_engine_activated: flag_byte(activate),
                ..old(self).pulse_engine_v2 }),
            final(self).same_data_except(old(self), set![DeviceField::PulseEngineV2]),
            r is Ok ==> final(self).exchanged(old(self), 0x81, flag_byte(activate), 0, 0, 0, Seq::empty()),
    {
        let b: u8 = if activate { 1 } else { 0 };
        self.pulse_engine_v2.pulse_engine_activated = b;
        self.send_request(0x81, b, 0, 0, 0)?;
        Ok(())
    }

    /// Set up the pulse engine (`0x85`/`0x01`, see [`setup_payload`]).
    pub fn setup_pulse_engine(&mut self, config: &PulseEngineConfig) -> (r: Result<()>)
        ensures
            final(self).tried_with_data(old(self), r),
            r is Err ==> final(self).log() == old(self).log(),
            final(self).same_link(old(self)),
            final(self).same_data(old(self)),
            r is Ok ==> final(self).exchanged(old(self), 0x85, 0x01, 0, 0, 0, setup_payload(*config)),
    {
        let mut request = [0u8; 56];
        request[0] = config.enabled_axes;
        request[1] = config.charge_pump_enabled;
        request[2] = config.generator_type & 0x7F;
        request[3] = config.buffer_size;
        request[4] = config.emergency_switch_polarity;
        let mut power_states: u8 = config.power_states & 0x07;
        if config.charge_pump_enabled != 0 {
            power_states = power_states | 0x10;
            power_states = power_states | 0x20;
            power_states = power_states | 0x40;
        }
        request[5] = power_states;
        let g = config.generator_type;
        let ps = config.power_states;
        let cp = config.charge_pump_enabled != 0;
        proof { crate::bits::lemma_nibbles(g); }
        assert(power_states == ((ps % 8) as int + (if cp { 112int } else { 0 })) as u8) by (bit_vector)
            requires
                power_states == (if cp { (((ps & 7) | 0x10) | 0x20) | 0x40 } else { ps & 7 }),
        ;
        assert(request@ =~= setup_payload(*config));
        self.send_request_with_data(0x85, 0x01, 0, 0, 0, &request)?;
        Ok(())
    }

    /// Set the position of one axis (`0x85`/`0x03`, axis bit in parameter 2).
    pub fn set_axis_position(&mut self, axis: usize, position: i32) -> (r: Result<()>)
        ensures
            axis < 8 ==> final(self).tried_with_data(old(self), r),
            final(self).same_link(old(self)),
            axis >= 8 ==> axis_index_error(r) && final(self).unchanged(old(self)),
            axis < 8 ==> final(self).same_data(old(self)) && (r is Ok ==> final(self).exchanged(old(self), 0x85, 0x03,
                1u8 << (axis as u8), 0, 0, axis_position_payload(axis as int, position))),
    {
        if axis >= 8 {
            return Err(PoKeysError::Parameter(string_of("Axis index must be 0-7")));
        }
        let mut request = [0u8; 56];
        put_le56(&mut request, axis * 4, position as u32);
        assert(request@ =~= axis_position_payload(axis as int, position));
        let mask: u8 = 1u8 << (axis as u8);
        self.send_request_with_data(0x85, 0x03, mask, 0, 0, &request)?;
        Ok(())
    }

    /// Set the pulse engine state (`0x85`/`0x02`, 55 zero bytes).
    pub fn set_pulse_engine_state(&mut self, state: u8, limit_override: u8, output_enable_mask: u8) -> (r: Result<()>)
        ensures
            final(self).tried_with_data(old(self), r),
            r is Err ==> final(self).log() == old(self).log(),
            final(self).same_link(old(self)),
            final(self).same_data(old(self)),
            r is Ok ==> final(self).exchanged(old(self), 0x85, 0x02, state, limit_override, output_enable_mask,
                zero_bytes(55)),
    {
        let request = [0u8; 55];
        assert(request@ =~= zero_bytes(55));
        self.send_request_with_data(0x85, 0x02, state, limit_override, output_enable_mask, &request)?;
        Ok(())
    }

    /// Reboot the pulse engine (`0x85`/`0x05`, 55 zero bytes).
    pub fn reboot_pulse_engine(&mut self) -> (r: Result<()>)
        ensures
            final(self).tried_with_data(old(self), r),
            r is Err ==> final(self).log() == old(self).log(),
            final(self).same_link(old(self)),
            final(self).same_data(old(self)),
            r is Ok ==> final(self).exchanged(old(self), 0x85, 0x05, 0, 0, 0, zero_bytes(55)),
    {
        let request = [0u8; 55];
        assert(request@ =~= zero_bytes(55));
        self.send_request_with_data(0x85, 0x05, 0, 0, 0, &request)?;
        Ok(())
    }

    /// Set the positions of the axes in `axis_mask` (`0x85`/`0x03`).
    pub fn set_axis_positions(&mut self, axis_mask: u8, positions: &[i32; 8]) -> (r: Result<()>)
        ensures
            final(self).tried_with_data(old(self), r),
            r is Err ==> final(self).log() == old(self).log(),
            final(self).same_link(old(self)),
            final(self).same_data(old(self)),
            r is Ok ==> final(self).exchanged(old(self), 0x85, 0x03, axis_mask, 0, 0, positions_bytes(positions@, 8)
                + zero_bytes(24)),
    {
        let request = positions_payload(positions);
        self.send_request_with_data(0x85, 0x03, axis_mask, 0, 0, &request)?;
        Ok(())
    }

    /// Move the axes in `axis_mask` to reference positions at a velocity
    /// (`0x85`/`0x25`): positions at bytes 0 to 31, the velocity at 32 and 33.
    pub fn move_pv(&mut self, axis_mask: u8, positions: &[i32; 8], velocity: u16) -> (r: Result<()>)
        ensures
            final(self).tried_with_data(old(self), r),
            r is Err ==> final(self).log() == old(self).log(),
            final(self).same_link(old(self)),
            final(self).same_data(old(self)),
            r is Ok ==> final(self).exchanged(old(self), 0x85, 0x25, axis_mask, 0, 0, positions_bytes(positions@, 8)
                + seq![(velocity % 256) as u8, (velocity / 256) as u8] + zero_bytes(22)),
    {
        let mut request = positions_payload(positions);
        let ghost p = request@;
        request[32] = (velocity & 0xFF) as u8;
        request[33] = (velocity >> 8u16) as u8;
        assert((velocity & 0xFF) as u8 == (velocity % 256) as u8 && (velocity >> 8u16) as u8 == (velocity / 256) as u8)
            by (bit_vector);
        assert(request@ =~= positions_bytes(positions@, 8) + seq![(velocity % 256) as u8, (velocity / 256) as u8]
            + zero_bytes(22));
        self.send_request_with_data(0x85, 0x25, axis_mask, 0, 0, &request)?;
        Ok(())
    }

    /// Send the cached motor driver settings (`0x85`/`0x19`, see
    /// [`motor_drivers_payload`]).
    pub fn set_motor_drivers_configuration(&mut self) -> (r: Result<()>)
        ensures
            final(self).tried_with_data(old(self), r),
            r is Err ==> final(self).log() == old(self).log(),
            final(self).same_link(old(self)),
            final(self).same_data(old(self)),
            r is Ok ==> final(self).exchanged(old(self), 0x85, 0x19, 0, 0, 0, motor_drivers_payload(
                old(self).pulse_engine_v2)),
    {
        let mut request = [0u8; 56];
        let mut axis: usize = 0;
        while axis < 4
            invariant
                axis <= 4,
                forall|a: int| 0 <= a < axis ==> request@[2 * a] == self.pulse_engine_v2.motor_step_setting@[a]
                    && request@[2 * a + 1] == self.pulse_engine_v2.motor_current_setting@[a],
                forall|k: int| 2 * axis <= k < 56 ==> request@[k] == 0,
            decreases 4 - axis,
        {
            request[axis * 2] = self.pulse_engine_v2.motor_step_setting[axis];
            request[axis * 2 + 1] = self.pulse_engine_v2.motor_current_setting[axis];
            axis = axis + 1;
        }
        assert(request@ =~= motor_drivers_payload(self.pulse_engine_v2));
        self.send_request_with_data(0x85, 0x19, 0, 0, 0, &request)?;
        Ok(())
    }

    /// Read the pulse engine status (`0x85`/`0x00`, see [`pe_status_read`]).
    pub fn get_pulse_engine_status(&mut self) -> (r: Result<()>)
        ensures
            final(self).tried(old(self), r),
            r is Err ==> final(self).log() == old(self).log(),
            final(self).same_link(old(self)),
            final(self).same_data_except(old(self), set![DeviceField::PulseEngineV2]),
            r is Ok ==> final(self).exchanged(old(self), 0x85, 0x00, 0, 0, 0, Seq::empty()) && pe_status_read(
                old(self).pulse_engine_v2, final(self).reply(), final(self).pulse_engine_v2),
            r is Err ==> final(self).pulse_engine_v2 == old(self).pulse_engine_v2,
    {
        let response = self.send_request(0x85, 0x00, 0, 0, 0)?;
        let mut states = [0u8; 8];
        let mut positions = [0i32; 8];
        let mut i: usize = 0;
        while i < 8
            invariant
                i <= 8,
                response@.len() == 68,
                forall|k: int| 0 <= k < i ==> states@[k] == response@[16 + k] && positions@[k] == long_value(response@,
                    24 + 4 * k),
            decreases 8 - i,
        {
            states[i] = response[16 + i];
            positions[i] = read_long(&response, 24 + i * 4);
            i = i + 1;
        }
        let pe = &mut self.pulse_engine_v2;
        pe.soft_limit_status = response[3];
        pe.axis_enabled_states_mask = response[4];
        pe.limit_override = response[5];
        pe.info.nr_of_axes = response[8];
        pe.pulse_engine_activated = response[9];
        pe.pulse_engine_state = response[10];
        pe.charge_pump_enabled = response[11];
        pe.limit_status_p = response[12];
        pe.limit_status_n = response[13];
        pe.home_status = response[14];
        pe.pulse_generator_type = response[15];
        pe.axes_state = states;
        pe.current_position = positions;
        pe.info.max_pulse_frequency = response[57];
        pe.info.buffer_depth = response[58];
        pe.info.slot_timing = response[59];
        pe.emergency_switch_polarity = response[60];
        pe.error_input_status = response[61];
        pe.misc_input_status = response[62];
        assert(states@ =~= Seq::new(8, |k: int| response@[16 + k]));
        assert(positions@ =~= Seq::new(8, |k: int| long_value(response@, 24 + 4 * k)));
        Ok(())
    }

    /// Read the pulse engine state, axis mask, limit and home status and the
    /// axis positions (`0x89`, see [`pe_short_status_read`]).
    pub fn read_pulse_engine_status(&mut self) -> (r: Result<()>)
        ensures
            final(self).tried(old(self), r),
            final(self).same_link(old(self)),
            final(self).same_data_except(old(self), set![DeviceField::PulseEngineV2]),
            r is Ok ==> final(self).exchanged(old(self), 0x89, 0, 0, 0, 0, Seq::empty()) && pe_short_status_read(
                old(self).pulse_engine_v2, final(self).reply(), final(self).pulse_engine_v2),
            r is Err ==> final(self).pulse_engine_v2 == old(self).pulse_engine_v2 && final(self).log() == old(self).log(),
    {
        let response = self.send_request(0x89, 0, 0, 0, 0)?;
        let mut positions = [0i32; 8];
        let mut i: usize = 0;
        while i < 8
            invariant
                i <= 8,
                response@.len() == 68,
                forall|k: int| 0 <= k < i ==> positions@[k] == long_value(response@, 16 + 4 * k),
            decreases 8 - i,
        {
            positions[i] = read_long(&response, 16 + i * 4);
            i = i + 1;
        }
        self.pulse_engine_v2.pulse_engine_state = response[8];
        self.pulse_engine_v2.axis_enabled_mask = response[9];
        self.pulse_engine_v2.limit_status_p = response[10];
        self.pulse_engine_v2.limit_status_n = response[11];
        self.pulse_engine_v2.home_status = response[12];
        self.pulse_engine_v2.current_position = positions;
        assert(positions@ =~= Seq::new(8, |k: int| long_value(response@, 16 + 4 * k)));
        Ok(())
    }

    /// Send the configuration of an axis (`0x85`/`0x11`, see
    /// [`axis_config_payload`]).
    pub fn set_axis_configuration(&mut self, axis: usize) -> (r: Result<()>)
        ensures
            axis < 8 ==> final(self).tried_with_data(old(self), r),
            final(self).same_link(old(self)),
            axis >= 8 ==> axis_index_error(r) && final(self).unchanged(old(self)),
            axis < 8 ==> final(self).same_data(old(self)) && (r is Ok ==> final(self).exchanged(old(self), 0x85, 0x11,
                axis as u8, 0, 0, axis_config_payload(old(self).pulse_engine_v2, axis as int))),
    {
        if axis >= 8 {
            return Err(PoKeysError::Parameter(string_of("Axis index must be 0-7")));
        }
        let p = &self.pulse_engine_v2;
        let mut axis_options: u8 = 0x05;
        axis_options = axis_options | 0x40;
        if p.soft_limit_minimum[axis] != 0 || p.soft_limit_maximum[axis] != 0 {
            axis_options = axis_options | 0x20;
        }
        assert(0x05u8 | 0x40u8 == 0x45u8 && 0x45u8 | 0x20u8 == 0x65u8) by (bit_vector);
        let mut request: Vec<u8> = Vec::new();
        request.push(axis_options);
        push_zeros(&mut request, 4);
        request.push(50);
        request.push(10);
        request.push(0);
        let ghost head = request@;
        push_le(&mut request, p.max_speed[axis]);
        push_le(&mut request, p.max_acceleration[axis]);
        push_le(&mut request, p.max_deceleration[axis]);
        push_le(&mut request, p.soft_limit_minimum[axis] as u32);
        push_le(&mut request, p.soft_limit_maximum[axis] as u32);
        let ghost mid = request@;
        request.push(1);
        push_zeros(&mut request, 6);
        request.push(0x83);
        request.push(0);
        push_le(&mut request, 0);
        request.push(1);
        push_zeros(&mut request, 3);
        push_zeros(&mut request, 11);
        proof {
            let a = axis as int;
            assert(head =~= seq![axis_options_byte(*p, a), 0u8, 0, 0, 0, 50, 10, 0]);
            assert(mid =~= head + le_bytes(p.max_speed@[a]) + le_bytes(p.max_acceleration@[a]) + le_bytes(
                p.max_deceleration@[a]) + le_bytes(p.soft_limit_minimum@[a] as u32) + le_bytes(
                p.soft_limit_maximum@[a] as u32));
            assert(request@ =~= axis_config_payload(*p, a));
        }
        self.send_request_with_data(0x85, 0x11, axis as u8, 0, 0, request.as_slice())?;
        Ok(())
    }

    /// Read the configuration of an axis (`0x85`/`0x10`, see
    /// [`axis_config_read`]).
    pub fn get_axis_configuration(&mut self, axis: usize) -> (r: Result<()>)
        ensures
            final(self).same_link(old(self)),
            axis >= 8 ==> axis_index_error(r) && final(self).unchanged(old(self)),
            axis < 8 ==> {
                &&& final(self).tried(old(self), r)
                &&& final(self).same_data_except(old(self), set![DeviceField::PulseEngineV2])
                &&& r is Ok ==> final(self).exchanged(old(self), 0x85, 0x10, axis as u8, 0, 0, Seq::empty())
                    && axis_config_read(old(self).pulse_engine_v2, axis as int, final(self).reply(),
                    final(self).pulse_engine_v2)
                &&& r is Err ==> final(self).pulse_engine_v2 == old(self).pulse_engine_v2
            },
    {
        if axis >= 8 {
            return Err(PoKeysError::Parameter(string_of("Axis index must be 0-7")));
        }
        let response = self.send_request(0x85, 0x10, axis as u8, 0, 0)?;
        let pe = &mut self.pulse_engine_v2;
        pe.axes_config[axis] = response[8];
        pe.axes_switch_config[axis] = response[9];
        pe.homing_speed[axis] = response[13];
        pe.homing_return_speed[axis] = response[14];
        pe.mpg_jog_encoder[axis] = response[15];
        pe.max_speed[axis] = read_long(&response, 16) as u32;
        pe.max_acceleration[axis] = read_long(&response, 20) as u32;
        pe.max_deceleration[axis] = read_long(&response, 24) as u32;
        pe.soft_limit_minimum[axis] = read_long(&response, 28);
        pe.soft_limit_maximum[axis] = read_long(&response, 32);
        Ok(())
    }

    /// Read the status (`0x89`) and return the position of an axis.
    pub fn get_axis_position(&mut self, axis: usize) -> (r: Result<i32>)
        ensures
            !(axis >= 8) ==> final(self).tried(old(self), r),
            !(axis >= 8) ==> link_error(r),
            final(self).same_link(old(self)),
            axis >= 8 ==> invalid_axis(r) && final(self).unchanged(old(self)),
            axis < 8 ==> {
                &&& final(self).same_data_except(old(self), set![DeviceField::PulseEngineV2])
                &&& r matches Ok(v) ==> final(self).exchanged(old(self), 0x89, 0, 0, 0, 0, Seq::empty())
                    && pe_short_status_read(old(self).pulse_engine_v2, final(self).reply(), final(self).pulse_engine_v2)
                    && v == long_value(final(self).reply(), 16 + 4 * axis)
            },
    {
        if axis >= 8 {
            return Err(PoKeysError::Parameter(string_of("Invalid axis number")));
        }
        self.read_pulse_engine_status()?;
        Ok(self.pulse_engine_v2.current_position[axis])
    }

    /// Cache the reference position and speed (the bits of an `f32`) of an
    /// axis and set its position (see [`Self::set_axis_position`]).
    pub fn move_axis_to_position(&mut self, axis: usize, position: i32, speed: u32) -> (r: Result<()>)
        ensures
            !(axis >= 8) ==> final(self).tried_with_data(old(self), r),
            final(self).same_link(old(self)),
            axis >= 8 ==> invalid_axis(r) && final(self).unchanged(old(self)),
            axis < 8 ==> {
                let p = old(self).pulse_engine_v2;
                &&& final(self).pulse_engine_v2.reference_position_speed@ == p.reference_position_speed@.update(axis as int,
                    position)
                &&& final(self).pulse_engine_v2.reference_velocity_pv@ == p.reference_velocity_pv@.update(axis as int, speed)
                &&& final(self).pulse_engine_v2 == (PulseEngineV2 { reference_position_speed:
                    final(self).pulse_engine_v2.reference_position_speed, reference_velocity_pv:
                    final(self).pulse_engine_v2.reference_velocity_pv, ..p })
                &&& final(self).same_data_except(old(self), set![DeviceField::PulseEngineV2])
                &&& r is Ok ==> final(self).exchanged(old(self), 0x85, 0x03, 1u8 << (axis as u8), 0, 0,
                    axis_position_payload(axis as int, position))
            },
    {
        if axis >= 8 {
            return Err(PoKeysError::Parameter(string_of("Invalid axis number")));
        }
        self.pulse_engine_v2.reference_position_speed[axis] = position;
        self.pulse_engine_v2.reference_velocity_pv[axis] = speed;
        self.set_axis_position(axis, position)
    }

    /// Start homing the axes in `axis_mask` (`0x85` with the mask as first
    /// parameter), caching the mask.
    pub fn start_axis_homing(&mut self, axis_mask: u8) -> (r: Result<()>)
        ensures
            final(self).tried(old(self), r),
            final(self).same_link(old(self)),
            final(self).pulse_engine_v2 == (PulseEngineV2 { homing_start_mask_setup: axis_mask,
                ..old(self).pulse_engine_v2 }),
            final(self).same_data_except(old(self), set![DeviceField::PulseEngineV2]),
            r is Ok ==> final(self).exchanged(old(self), 0x85, axis_mask, 0, 0, 0, Seq::empty()),
    {
        self.pulse_engine_v2.homing_start_mask_setup = axis_mask;
        self.send_request(0x85, axis_mask, 0, 0, 0)?;
        Ok(())
    }

    /// Cache the home pin, homing speed and home offset of an axis and send
    /// them (`0x86`).
    pub fn configure_axis_homing(&mut self, axis: usize, home_pin: u8, homing_speed: u8, home_offset: i32)
        -> (r: Result<()>)
        ensures
            axis < 8 ==> final(self).tried(old(self), r),
            final(self).same_link(old(self)),
            axis >= 8 ==> invalid_axis(r) && final(self).unchanged(old(self)),
            axis < 8 ==> {
                let p = old(self).pulse_engine_v2;
                let q = final(self).pulse_engine_v2;
                &&& q.pin_home_switch@ == p.pin_home_switch@.update(axis as int, home_pin)
                &&& q.homing_speed@ == p.homing_speed@.update(axis as int, homing_speed)
                &&& q.home_offsets@ == p.home_offsets@.update(axis as int, home_offset)
                &&& q == (PulseEngineV2 { pin_home_switch: q.pin_home_switch, homing_speed: q.homing_speed, home_offsets:
                    q.home_offsets, ..p })
                &&& final(self).same_data_except(old(self), set![DeviceField::PulseEngineV2])
                &&& r is Ok ==> final(self).exchanged(old(self), 0x86, axis as u8, home_pin, homing_speed, 0,
                    Seq::empty())
            },
    {
        if axis >= 8 {
            return Err(PoKeysError::Parameter(string_of("Invalid axis number")));
        }
        self.pulse_engine_v2.pin_home_switch[axis] = home_pin;
        self.pulse_engine_v2.homing_speed[axis] = homing_speed;
        self.pulse_engine_v2.home_offsets[axis] = home_offset;
        self.send_request(0x86, axis as u8, home_pin, homing_speed, 0)?;
        Ok(())
    }

    /// Cache the limit pins and soft limits of an axis and send the pins
    /// (`0x87`).
    pub fn configure_axis_limits(&mut self, axis: usize, limit_n_pin: u8, limit_p_pin: u8, soft_limit_min: i32,
        soft_limit_max: i32) -> (r: Result<()>)
        ensures
            axis < 8 ==> final(self).tried(old(self), r),
            final(self).same_link(old(self)),
            axis >= 8 ==> invalid_axis(r) && final(self).unchanged(old(self)),
            axis < 8 ==> {
                let p = old(self).pulse_engine_v2;
                let q = final(self).pulse_engine_v2;
                &&& q.pin_limit_m_switch@ == p.pin_limit_m_switch@.update(axis as int, limit_n_pin)
                &&& q.pin_limit_p_switch@ == p.pin_limit_p_switch@.update(axis as int, limit_p_pin)
                &&& q.soft_limit_minimum@ == p.soft_limit_minimum@.update(axis as int, soft_limit_min)
                &&& q.soft_limit_maximum@ == p.soft_limit_maximum@.update(axis as int, soft_limit_max)
                &&& q == (PulseEngineV2 { pin_limit_m_switch: q.pin_limit_m_switch, pin_limit_p_switch:
                    q.pin_limit_p_switch, soft_limit_minimum: q.soft_limit_minimum, soft_limit_maximum:
                    q.soft_limit_maximum, ..p })
                &&& final(self).same_data_except(old(self), set![DeviceField::PulseEngineV2])
                &&& r is Ok ==> final(self).exchanged(old(self), 0x87, axis as u8, limit_n_pin, limit_p_pin, 0,
                    Seq::empty())
            },
    {
        if axis >= 8 {
            return Err(PoKeysError::Parameter(string_of("Invalid axis number")));
        }
        self.pulse_engine_v2.pin_limit_m_switch[axis] = limit_n_pin;
        self.pulse_engine_v2.pin_limit_p_switch[axis] = limit_p_pin;
        self.pulse_engine_v2.soft_limit_minimum[axis] = soft_limit_min;
        self.pulse_engine_v2.soft_limit_maximum[axis] = soft_limit_max;
        self.send_request(0x87, axis as u8, limit_n_pin, limit_p_pin, 0)?;
        Ok(())
    }

    /// Emergency stop (`0x88`).
    pub fn emergency_stop(&mut self) -> (r: Result<()>)
        ensures
            final(self).tried(old(self), r),
            final(self).same_link(old(self)),
            final(self).same_data(old(self)),
            r is Ok ==> final(self).exchanged(old(self), 0x88, 0, 0, 0, 0, Seq::empty()),
    {
        self.send_request(0x88, 0, 0, 0, 0)?;
        Ok(())
    }

    /// Read the status (`0x89`) and return the pulse engine state.
    pub fn get_pulse_engine_state(&mut self) -> (r: Result<PulseEngineState>)
        ensures
            final(self).tried(old(self), r),
            link_error(r),
            final(self).same_link(old(self)),
            final(self).same_data_except(old(self), set![DeviceField::PulseEngineV2]),
            r matches Ok(s) ==> final(self).exchanged(old(self), 0x89, 0, 0, 0, 0, Seq::empty()) && pe_short_status_read(
                old(self).pulse_engine_v2, final(self).reply(), final(self).pulse_engine_v2) && s == pulse_engine_state_of(
                final(self).reply()[8]),
    {
        self.read_pulse_engine_status()?;
        Ok(self.pulse_engine_v2.get_state())
    }

    /// Read the status (`0x89`) and return the cached state of an axis (the
    /// status read does not carry axis states).
    pub fn get_axis_state(&mut self, axis: usize) -> (r: Result<PulseEngineAxisState>)
        ensures
            !(axis >= 8) ==> final(self).tried(old(self), r),
            !(axis >= 8) ==> link_error(r),
            final(self).same_link(old(self)),
            axis >= 8 ==> invalid_axis(r) && final(self).unchanged(old(self)),
            axis < 8 ==> {
                &&& final(self).same_data_except(old(self), set![DeviceField::PulseEngineV2])
                &&& r matches Ok(s) ==> final(self).exchanged(old(self), 0x89, 0, 0, 0, 0, Seq::empty())
                    && pe_short_status_read(old(self).pulse_engine_v2, final(self).reply(), final(self).pulse_engine_v2)
                    && s == axis_state_of(old(self).pulse_engine_v2.axes_state@[axis as int])
                &&& r is Err ==> final(self).log() == old(self).log()
            },
    {
        if axis >= 8 {
            return Err(PoKeysError::Parameter(string_of("Invalid axis number")));
        }
        self.read_pulse_engine_status()?;
        Ok(self.pulse_engine_v2.get_axis_state(axis))
    }

    /// Read the status (`0x89`) and return whether an axis is homed.
    pub fn is_axis_homed(&mut self, axis: usize) -> (r: Result<bool>)
        ensures
            !(axis >= 8) ==> final(self).tried(old(self), r),
            !(axis >= 8) ==> link_error(r),
            final(self).same_link(old(self)),
            axis >= 8 ==> invalid_axis(r) && final(self).unchanged(old(self)),
            axis < 8 ==> {
                &&& final(self).same_data_except(old(self), set![DeviceField::PulseEngineV2])
                &&& r matches Ok(h) ==> final(self).exchanged(old(self), 0x89, 0, 0, 0, 0, Seq::empty())
                    && pe_short_status_read(old(self).pulse_engine_v2, final(self).reply(), final(self).pulse_engine_v2)
                    && h == axis_bit(final(self).reply()[12], axis as int)
            },
    {
        if axis >= 8 {
            return Err(PoKeysError::Parameter(string_of("Invalid axis number")));
        }
        self.read_pulse_engine_status()?;
        Ok(self.pulse_engine_v2.is_axis_homed(axis))
    }

    /// One step of waiting for an axis: read its state and return `true`
    /// when it is ready or stopped, an error when it is in error or at a
    /// limit, `false` otherwise.
    pub fn poll_axis_done(&mut self, axis: usize) -> (r: Result<bool>)
        ensures
            !(axis >= 8) ==> final(self).tried(old(self), r),
            !(axis >= 8) ==> link_error(r),
            final(self).same_link(old(self)),
            axis >= 8 ==> invalid_axis(r) && final(self).unchanged(old(self)),
            axis < 8 ==> {
                let s = axis_state_of(old(self).pulse_engine_v2.axes_state@[axis as int]);
                &&& final(self).same_data_except(old(self), set![DeviceField::PulseEngineV2])
                &&& final(self).log().len() > old(self).log().len() ==> {
                    &&& final(self).exchanged(old(self), 0x89, 0, 0, 0, 0, Seq::empty())
                    &&& (s == PulseEngineAxisState::Ready || s == PulseEngineAxisState::Stopped) ==> r == Ok::<bool,
                        PoKeysError>(true)
                    &&& (s == PulseEngineAxisState::Error || s == PulseEngineAxisState::Limit) ==> (r matches Err(
                        PoKeysError::Protocol(m)) && m@ == "Axis error or limit reached"@)
                    &&& !(s == PulseEngineAxisState::Ready || s == PulseEngineAxisState::Stopped
                        || s == PulseEngineAxisState::Error || s == PulseEngineAxisState::Limit) ==> r == Ok::<bool,
                        PoKeysError>(false)
                }
            },
    {
        let state = self.get_axis_state(axis)?;
        match state {
            PulseEngineAxisState::Ready | PulseEngineAxisState::Stopped => Ok(true),
            PulseEngineAxisState::Error | PulseEngineAxisState::Limit => Err(PoKeysError::Protocol(string_of(
                "Axis error or limit reached"))),
            _ => Ok(false),
        }
    }

    /// A builder of the configuration of `axis`.
    pub fn configure_axis(&mut self, axis: usize) -> (r: AxisConfigBuilder)
        ensures
            r.axis == axis && r.max_speed == 1000 && r.max_acceleration == 100 && r.max_deceleration == 100
                && r.soft_limit_min == 0 && r.soft_limit_max == 0,
            *final(self) == *old(self),
    {
        AxisConfigBuilder::new(axis)
    }

    /// A builder of motor driver settings with nothing set.
    pub fn configure_motor_drivers(&mut self) -> (r: MotorDriverConfigBuilder)
        ensures
            forall|i: int| 0 <= i < 4 ==> r.step_settings@[i] is None && r.current_settings@[i] is None,
            *final(self) == *old(self),
    {
        MotorDriverConfigBuilder::new()
    }

    /// Read the motor driver settings (`0x85`/`0x18`): step and current
    /// setting of axis `a` at bytes `8 + 2a` and `9 + 2a`.
    pub fn get_motor_drivers_configuration(&mut self) -> (r: Result<()>)
        ensures
            final(self).tried(old(self), r),
            r is Err ==> final(self).log() == old(self).log(),
            final(self).same_link(old(self)),
            final(self).same_data_except(old(self), set![DeviceField::PulseEngineV2]),
            r is Ok ==> {
                let q = final(self).pulse_engine_v2;
                let b = final(self).reply();
                &&& final(self).exchanged(old(self), 0x85, 0x18, 0, 0, 0, Seq::empty())
                &&& q.motor_step_setting@ == seq![b[8], b[10], b[12], b[14]]
                &&& q.motor_current_setting@ == seq![b[9], b[11], b[13], b[15]]
                &&& q == (PulseEngineV2 { motor_step_setting: q.motor_step_setting, motor_current_setting:
                    q.motor_current_setting, ..old(self).pulse_engine_v2 })
            },
            r is Err ==> final(self).pulse_engine_v2 == old(self).pulse_engine_v2,
    {
        let response = self.send_request(0x85, 0x18, 0, 0, 0)?;
        let mut steps = self.pulse_engine_v2.motor_step_setting;
        let mut currents = self.pulse_engine_v2.motor_current_setting;
        let mut axis: usize = 0;
        while axis < 4
            invariant
                axis <= 4,
                response@.len() == 68,
                forall|a: int| 0 <= a < axis ==> steps@[a] == response@[8 + 2 * a] && currents@[a] == response@[9 + 2 * a],
            decreases 4 - axis,
        {
            let off = 8 + axis * 2;
            steps[axis] = response[off];
            currents[axis] = response[off + 1];
            axis = axis + 1;
        }
        self.pulse_engine_v2.motor_step_setting = steps;
        self.pulse_engine_v2.motor_current_setting = currents;
        assert(steps@ =~= seq![response@[8], response@[10], response@[12], response@[14]]);
        assert(currents@ =~= seq![response@[9], response@[11], response@[13], response@[15]]);
        Ok(())
    }
}

impl AxisConfigBuilder {
    /// Store the axis's maximum speed, acceleration and deceleration (the
    /// bits of the `f32` values in timeslot units, which the caller derives
    /// from the builder's rates) and its soft limits, then send the axis
    /// configuration (see [`PoKeysDevice::set_axis_configuration`]).
    pub fn build_with_rates(self, device: &mut PoKeysDevice, speed: u32, acceleration: u32, deceleration: u32)
        -> (r: Result<()>)
        ensures
            final(device).same_link(old(device)),
            self.axis >= 8 ==> axis_index_error(r) && final(device).unchanged(old(device)),
            self.axis < 8 ==> {
                let a = self.axis as int;
                let p = old(device).pulse_engine_v2;
                let q = final(device).pulse_engine_v2;
                &&& q.max_speed@ == p.max_speed@.update(a, speed)
                &&& q.max_acceleration@ == p.max_acceleration@.update(a, acceleration)
                &&& q.max_deceleration@ == p.max_deceleration@.update(a, deceleration)
                &&& q.soft_limit_minimum@ == p.soft_limit_minimum@.update(a, self.soft_limit_min)
                &&& q.soft_limit_maximum@ == p.soft_limit_maximum@.update(a, self.soft_limit_max)
                &&& q == (PulseEngineV2 { max_speed: q.max_speed, max_acceleration: q.max_acceleration, max_deceleration:
                    q.max_deceleration, soft_limit_minimum: q.soft_limit_minimum, soft_limit_maximum: q.soft_limit_maximum,
                    ..p })
                &&& final(device).same_data_except(old(device), set![DeviceField::PulseEngineV2])
                &&& r is Ok ==> final(device).exchanged(old(device), 0x85, 0x11, self.axis as u8, 0, 0,
                    axis_config_payload(q, a))
            },
    {
        if self.axis >= 8 {
            return Err(PoKeysError::Parameter(string_of("Axis index must be 0-7")));
        }
        let a = self.axis;
        device.pulse_engine_v2.max_speed[a] = speed;
        device.pulse_engine_v2.max_acceleration[a] = acceleration;
        device.pulse_engine_v2.max_deceleration[a] = deceleration;
        device.pulse_engine_v2.soft_limit_minimum[a] = self.soft_limit_min;
        device.pulse_engine_v2.soft_limit_maximum[a] = self.soft_limit_max;
        device.set_axis_configuration(a)
    }
}

/// A setting after a builder's choice: the chosen value, or the old one.
pub open spec fn chosen(choice: Option<u8>, old: u8) -> u8 {
    match choice { Some(v) => v, None => old }
}

impl MotorDriverConfigBuilder {
    /// Store the settings that were set (the others keep their values) and
    /// send the motor driver settings (see
    /// [`PoKeysDevice::set_motor_drivers_configuration`]).
    pub fn build(self, device: &mut PoKeysDevice) -> (r: Result<()>)
        ensures
            final(device).same_link(old(device)),
            final(device).same_data_except(old(device), set![DeviceField::PulseEngineV2]),
            ({
                let p = old(device).pulse_engine_v2;
                let q = final(device).pulse_engine_v2;
                &&& forall|a: int| 0 <= a < 4 ==> #[trigger] q.motor_step_setting@[a] == chosen(self.step_settings@[a],
                    p.motor_step_setting@[a])
                &&& forall|a: int| 0 <= a < 4 ==> #[trigger] q.motor_current_setting@[a] == chosen(
                    self.current_settings@[a], p.motor_current_setting@[a])
                &&& q == (PulseEngineV2 { motor_step_setting: q.motor_step_setting, motor_current_setting:
                    q.motor_current_setting, ..p })
                &&& r is Ok ==> final(device).exchanged(old(device), 0x85, 0x19, 0, 0, 0, motor_drivers_payload(q))
            }),
    {
        let mut steps = device.pulse_engine_v2.motor_step_setting;
        let mut currents = device.pulse_engine_v2.motor_current_setting;
        let ghost p = device.pulse_engine_v2;
        let mut axis: usize = 0;
        while axis < 4
            invariant
                axis <= 4,
                forall|a: int| 0 <= a < axis ==> #[trigger] steps@[a] == chosen(self.step_settings@[a],
                    p.motor_step_setting@[a]),
                forall|a: int| 0 <= a < axis ==> #[trigger] currents@[a] == chosen(self.current_settings@[a],
                    p.motor_current_setting@[a]),
                forall|a: int| axis <= a < 4 ==> #[trigger] steps@[a] == p.motor_step_setting@[a],
                forall|a: int| axis <= a < 4 ==> #[trigger] currents@[a] == p.motor_current_setting@[a],
            decreases 4 - axis,
        {
            if let Some(v) = self.step_settings[axis] {
                steps[axis] = v;
            }
            if let Some(v) = self.current_settings[axis] {
                currents[axis] = v;
            }
            axis = axis + 1;
        }
        device.pulse_engine_v2.motor_step_setting = steps;
        device.pulse_engine_v2.motor_current_setting = currents;
        let ghost mid = *device;
        let r = device.set_motor_drivers_configuration();
        assert(device.pulse_engine_v2 == mid.pulse_engine_v2);
        r
    }
}

} // verus!
