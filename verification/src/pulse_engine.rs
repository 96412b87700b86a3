//! Pulse engine v2: setup, state and motion-control configuration.
//!
//! Speeds and accelerations that the device takes as `f32` are held here as
//! the IEEE-754 bits of those values, exactly as they travel on the wire.

use vstd::prelude::*;
use crate::types::{PulseEngineAxisState, PulseEngineState};

pub mod step_setting;

verus! {

/// Pulse engine power states (bit-mapped).
pub struct PulseEnginePowerState;

impl PulseEnginePowerState {
    /// Power enabled while stopped.
    pub const PE_STOPPED: u8 = 0x01;
    /// Power enabled while stopped by a limit.
    pub const PE_STOP_LIMIT: u8 = 0x02;
    /// Power enabled while stopped by emergency.
    pub const PE_STOP_EMERGENCY: u8 = 0x04;
    /// Charge pump enabled while stopped.
    pub const PE_STOPPED_CHARGE_PUMP: u8 = 0x10;
    /// Charge pump enabled while stopped by a limit.
    pub const PE_STOP_LIMIT_CHARGE_PUMP: u8 = 0x20;
    /// Charge pump enabled while stopped by emergency.
    pub const PE_STOP_EMERGENCY_CHARGE_PUMP: u8 = 0x40;
    /// Power enabled in every stopped state.
    pub const ALL_POWER_ENABLED: u8 = 0x07;
    /// Charge pump enabled in every stopped state.
    pub const ALL_CHARGE_PUMP_ENABLED: u8 = 0x70;
}

/// Pulse engine setup configuration.
#[derive(Debug, Clone, Copy, PartialEq, Eq, Structural)]
pub struct PulseEngineConfig {
    pub enabled_axes: u8,
    pub charge_pump_enabled: u8,
    pub generator_type: u8,
    pub buffer_size: u8,
    pub emergency_switch_polarity: u8,
    pub power_states: u8,
}

impl PulseEngineConfig {
    /// A builder for the 3-channel internal generator (type 0x01, or 0x41
    /// with step and direction swapped).
    pub fn three_channel_internal(axes: u8, swap_step_dir: bool) -> (r: PulseEngineConfigBuilder)
        ensures
            r.config() == (PulseEngineConfig {
                enabled_axes: axes,
                charge_pump_enabled: 0,
                generator_type: if swap_step_dir { 0x41u8 } else { 0x01u8 },
                buffer_size: 0,
                emergency_switch_polarity: 1,
                power_states: 0x07,
            }),
    {
        PulseEngineConfigBuilder {
            enabled_axes: axes,
            charge_pump_enabled: 0,
            generator_type: if swap_step_dir { 0x41 } else { 0x01 },
            buffer_size: 0,
            emergency_switch_polarity: 1,
            power_states: PulseEnginePowerState::ALL_POWER_ENABLED,
        }
    }

    /// A configuration for the 8-channel external generator (type 0).
    pub fn eight_channel_external(axes: u8) -> (r: Self)
        ensures
            r == (PulseEngineConfig {
                enabled_axes: axes,
                charge_pump_enabled: 0,
                generator_type: 0,
                buffer_size: 0,
                emergency_switch_polarity: 1,
                power_states: 0x07,
            }),
    {
        PulseEngineConfig {
            enabled_axes: axes,
            charge_pump_enabled: 0,
            generator_type: 0,
            buffer_size: 0,
            emergency_switch_polarity: 1,
            power_states: PulseEnginePowerState::ALL_POWER_ENABLED,
        }
    }
}

/// Builder of a pulse engine configuration.
pub struct PulseEngineConfigBuilder {
    enabled_axes: u8,
    charge_pump_enabled: u8,
    generator_type: u8,
    buffer_size: u8,
    emergency_switch_polarity: u8,
    power_states: u8,
}

impl PulseEngineConfigBuilder {
    /// The configuration the builder holds.
    pub closed spec fn config(&self) -> PulseEngineConfig {
        PulseEngineConfig {
            enabled_axes: self.enabled_axes,
            charge_pump_enabled: self.charge_pump_enabled,
            generator_type: self.generator_type,
            buffer_size: self.buffer_size,
            emergency_switch_polarity: self.emergency_switch_polarity,
            power_states: self.power_states,
        }
    }

    /// Set the charge pump flag.
    pub fn charge_pump_enabled(self, enabled: u8) -> (r: Self)
        ensures
            r.config() == (PulseEngineConfig { charge_pump_enabled: enabled, ..self.config() }),
    {
        PulseEngineConfigBuilder { charge_pump_enabled: enabled, ..self }
    }

    /// Set the buffer size.
    pub fn buffer_size(self, size: u8) -> (r: Self)
        ensures
            r.config() == (PulseEngineConfig { buffer_size: size, ..self.config() }),
    {
        PulseEngineConfigBuilder { buffer_size: size, ..self }
    }

    /// Set the emergency switch polarity.
    pub fn emergency_switch_polarity(self, polarity: u8) -> (r: Self)
        ensures
            r.config() == (PulseEngineConfig { emergency_switch_polarity: polarity, ..self.config() }),
    {
        PulseEngineConfigBuilder { emergency_switch_polarity: polarity, ..self }
    }

    /// Set the power states.
    pub fn power_states(self, states: u8) -> (r: Self)
        ensures
            r.config() == (PulseEngineConfig { power_states: states, ..self.config() }),
    {
        PulseEngineConfigBuilder { power_states: states, ..self }
    }

    /// The configuration.
    pub fn build(self) -> (r: PulseEngineConfig)
        ensures
            r == self.config(),
    {
        PulseEngineConfig {
            enabled_axes: self.enabled_axes,
            charge_pump_enabled: self.charge_pump_enabled,
            generator_type: self.generator_type,
            buffer_size: self.buffer_size,
            emergency_switch_polarity: self.emergency_switch_polarity,
            power_states: self.power_states,
        }
    }
}

/// Pulse engine v2 information.
#[derive(Debug, Clone, Copy, PartialEq, Eq, Structural)]
pub struct PulseEngineV2Info {
    pub nr_of_axes: u8,
    pub max_pulse_frequency: u8,
    pub buffer_depth: u8,
    pub slot_timing: u8,
}

/// Pulse engine v2 state and configuration.
#[derive(Debug, Clone)]
pub struct PulseEngineV2 {
    pub info: PulseEngineV2Info,
    pub axes_state: [u8; 8],
    pub axes_config: [u8; 8],
    pub axes_switch_config: [u8; 8],
    pub current_position: [i32; 8],
    pub position_setup: [i32; 8],
    pub reference_position_speed: [i32; 8],
    pub invert_axis_enable: [i8; 8],
    pub soft_limit_maximum: [i32; 8],
    pub soft_limit_minimum: [i32; 8],
    pub homing_speed: [u8; 8],
    pub homing_return_speed: [u8; 8],
    pub home_offsets: [i32; 8],
    pub homing_algorithm: [u8; 8],
    pub filter_limit_m_switch: [u8; 8],
    pub filter_limit_p_switch: [u8; 8],
    pub filter_home_switch: [u8; 8],
    pub probe_position: [i32; 8],
    pub probe_max_position: [i32; 8],
    /// IEEE-754 bits of the `f32` value.
    pub max_speed: [u32; 8],
    /// IEEE-754 bits of the `f32` value.
    pub max_acceleration: [u32; 8],
    /// IEEE-754 bits of the `f32` value.
    pub max_deceleration: [u32; 8],
    pub mpg_jog_multiplier: [i32; 8],
    pub mpg_jog_encoder: [u8; 8],
    pub pin_home_switch: [u8; 8],
    pub pin_limit_m_switch: [u8; 8],
    pub pin_limit_p_switch: [u8; 8],
    pub axis_enable_output_pins: [u8; 8],
    pub home_back_off_distance: [u32; 8],
    pub mpg_jog_divider: [u16; 8],
    pub filter_probe_input: u8,
    pub axis_signal_options: [u8; 8],
    /// IEEE-754 bits of the `f32` value.
    pub reference_velocity_pv: [u32; 8],
    pub pulse_engine_enabled: u8,
    pub pulse_generator_type: u8,
    pub charge_pump_enabled: u8,
    pub emergency_switch_polarity: u8,
    pub pulse_engine_activated: u8,
    pub limit_status_p: u8,
    pub limit_status_n: u8,
    pub home_status: u8,
    pub error_input_status: u8,
    pub misc_input_status: u8,
    pub limit_override: u8,
    pub limit_override_setup: u8,
    pub pulse_engine_state: u8,
    pub axis_enabled_mask: u8,
    pub emergency_input_pin: u8,
    pub sync_fast_outputs_axis_id: u8,
    pub sync_fast_outputs_mapping: [u8; 8],
    pub param1: u8,
    pub param2: u8,
    pub param3: u8,
    pub axis_enabled_states_mask: u8,
    pub pulse_engine_state_setup: u8,
    pub soft_limit_status: u8,
    pub external_relay_outputs: u8,
    pub external_oc_outputs: u8,
    pub pulse_engine_buffer_size: u8,
    pub motion_buffer_entries_accepted: u8,
    pub new_motion_buffer_entries: u8,
    pub homing_start_mask_setup: u8,
    pub probe_start_mask_setup: u8,
    pub probe_input: u8,
    pub probe_input_polarity: u8,
    pub probe_status: u8,
    pub motion_buffer: Vec<u8>,
    /// IEEE-754 bits of the `f32` value.
    pub probe_speed: u32,
    pub debug_values: [u32; 16],
    pub backlash_width: [u16; 8],
    pub backlash_register: [i16; 8],
    pub backlash_acceleration: [u8; 8],
    pub backlash_compensation_enabled: u8,
    pub backlash_compensation_max_speed: u8,
    pub trigger_preparing: u8,
    pub trigger_prepared: u8,
    pub trigger_pending: u8,
    pub trigger_active: u8,
    pub spindle_speed_estimate: i32,
    pub spindle_position_error: i32,
    pub motor_step_setting: [u8; 4],
    pub motor_current_setting: [u8; 4],
    pub spindle_rpm: u32,
    pub spindle_index_counter: u32,
    pub dedicated_limit_n_inputs: u8,
    pub dedicated_limit_p_inputs: u8,
    pub dedicated_home_inputs: u8,
    pub trigger_ignored_axis_mask: u8,
    pub encoder_index_count: u32,
    pub encoder_ticks_per_rotation: u32,
    pub encoder_velocity: u32,
    pub internal_driver_step_config: [u8; 4],
    pub internal_driver_current_config: [u8; 4],
}

/// A pulse engine state with every field zero and a 448-byte motion buffer.
pub open spec fn is_blank_pulse_engine(p: &PulseEngineV2) -> bool {
    &&& p.info == (PulseEngineV2Info { nr_of_axes: 0, max_pulse_frequency: 0, buffer_depth: 0, slot_timing: 0 })
    &&& p.axes_state@ == Seq::new(8, |i: int| 0u8)
    &&& p.axes_config@ == Seq::new(8, |i: int| 0u8)
    &&& p.axes_switch_config@ == Seq::new(8, |i: int| 0u8)
    &&& p.current_position@ == Seq::new(8, |i: int| 0i32)
    &&& p.position_setup@ == Seq::new(8, |i: int| 0i32)
    &&& p.reference_position_speed@ == Seq::new(8, |i: int| 0i32)
    &&& p.invert_axis_enable@ == Seq::new(8, |i: int| 0i8)
    &&& p.soft_limit_maximum@ == Seq::new(8, |i: int| 0i32)
    &&& p.soft_limit_minimum@ == Seq::new(8, |i: int| 0i32)
    &&& p.homing_speed@ == Seq::new(8, |i: int| 0u8)
    &&& p.homing_return_speed@ == Seq::new(8, |i: int| 0u8)
    &&& p.home_offsets@ == Seq::new(8, |i: int| 0i32)
    &&& p.homing_algorithm@ == Seq::new(8, |i: int| 0u8)
    &&& p.filter_limit_m_switch@ == Seq::new(8, |i: int| 0u8)
    &&& p.filter_limit_p_switch@ == Seq::new(8, |i: int| 0u8)
    &&& p.filter_home_switch@ == Seq::new(8, |i: int| 0u8)
    &&& p.probe_position@ == Seq::new(8, |i: int| 0i32)
    &&& p.probe_max_position@ == Seq::new(8, |i: int| 0i32)
    &&& p.max_speed@ == Seq::new(8, |i: int| 0u32)
    &&& p.max_acceleration@ == Seq::new(8, |i: int| 0u32)
    &&& p.max_deceleration@ == Seq::new(8, |i: int| 0u32)
    &&& p.mpg_jog_multiplier@ == Seq::new(8, |i: int| 0i32)
    &&& p.mpg_jog_encoder@ == Seq::new(8, |i: int| 0u8)
    &&& p.pin_home_switch@ == Seq::new(8, |i: int| 0u8)
    &&& p.pin_limit_m_switch@ == Seq::new(8, |i: int| 0u8)
    &&& p.pin_limit_p_switch@ == Seq::new(8, |i: int| 0u8)
    &&& p.axis_enable_output_pins@ == Seq::new(8, |i: int| 0u8)
    &&& p.home_back_off_distance@ == Seq::new(8, |i: int| 0u32)
    &&& p.mpg_jog_divider@ == Seq::new(8, |i: int| 0u16)
    &&& p.filter_probe_input == 0
    &&& p.axis_signal_options@ == Seq::new(8, |i: int| 0u8)
    &&& p.reference_velocity_pv@ == Seq::new(8, |i: int| 0u32)
    &&& p.pulse_engine_enabled == 0
    &&& p.pulse_generator_type == 0
    &&& p.charge_pump_enabled == 0
    &&& p.emergency_switch_polarity == 0
    &&& p.pulse_engine_activated == 0
    &&& p.limit_status_p == 0
    &&& p.limit_status_n == 0
    &&& p.home_status == 0
    &&& p.error_input_status == 0
    &&& p.misc_input_status == 0
    &&& p.limit_override == 0
    &&& p.limit_override_setup == 0
    &&& p.pulse_engine_state == 0
    &&& p.axis_enabled_mask == 0
    &&& p.emergency_input_pin == 0
    &&& p.sync_fast_outputs_axis_id == 0
    &&& p.sync_fast_outputs_mapping@ == Seq::new(8, |i: int| 0u8)
    &&& p.param1 == 0
    &&& p.param2 == 0
    &&& p.param3 == 0
    &&& p.axis_enabled_states_mask == 0
    &&& p.pulse_engine_state_setup == 0
    &&& p.soft_limit_status == 0
    &&& p.external_relay_outputs == 0
    &&& p.external_oc_outputs == 0
    &&& p.pulse_engine_buffer_size == 0
    &&& p.motion_buffer_entries_accepted == 0
    &&& p.new_motion_buffer_entries == 0
    &&& p.homing_start_mask_setup == 0
    &&& p.probe_start_mask_setup == 0
    &&& p.probe_input == 0
    &&& p.probe_input_polarity == 0
    &&& p.probe_status == 0
    &&& p.motion_buffer@ == Seq::new(448, |i: int| 0u8)
    &&& p.probe_speed == 0
    &&& p.debug_values@ == Seq::new(16, |i: int| 0u32)
    &&& p.backlash_width@ == Seq::new(8, |i: int| 0u16)
    &&& p.backlash_register@ == Seq::new(8, |i: int| 0i16)
    &&& p.backlash_acceleration@ == Seq::new(8, |i: int| 0u8)
    &&& p.backlash_compensation_enabled == 0
    &&& p.backlash_compensation_max_speed == 0
    &&& p.trigger_preparing == 0
    &&& p.trigger_prepared == 0
    &&& p.trigger_pending == 0
    &&& p.trigger_active == 0
    &&& p.spindle_speed_estimate == 0
    &&& p.spindle_position_error == 0
    &&& p.motor_step_setting@ == Seq::new(4, |i: int| 0u8)
    &&& p.motor_current_setting@ == Seq::new(4, |i: int| 0u8)
    &&& p.spindle_rpm == 0
    &&& p.spindle_index_counter == 0
    &&& p.dedicated_limit_n_inputs == 0
    &&& p.dedicated_limit_p_inputs == 0
    &&& p.dedicated_home_inputs == 0
    &&& p.trigger_ignored_axis_mask == 0
    &&& p.encoder_index_count == 0
    &&& p.encoder_ticks_per_rotation == 0
    &&& p.encoder_velocity == 0
    &&& p.internal_driver_step_config@ == Seq::new(4, |i: int| 0u8)
    &&& p.internal_driver_current_config@ == Seq::new(4, |i: int| 0u8)
}

/// The pulse engine state of a state byte; unknown values read as stopped.
pub open spec fn pulse_engine_state_of(b: u8) -> PulseEngineState {
    if b == 1 { PulseEngineState::Internal }
    else if b == 2 { PulseEngineState::Buffer }
    else if b == 3 { PulseEngineState::Running }
    else if b == 10 { PulseEngineState::Jogging }
    else if b == 11 { PulseEngineState::Stopping }
    else if b == 20 { PulseEngineState::Home }
    else if b == 21 { PulseEngineState::Homing }
    else if b == 30 { PulseEngineState::ProbeComplete }
    else if b == 31 { PulseEngineState::Probe }
    else if b == 32 { PulseEngineState::ProbeError }
    else if b == 40 { PulseEngineState::HybridProbeStopping }
    else if b == 41 { PulseEngineState::HybridProbeComplete }
    else if b == 100 { PulseEngineState::StopLimit }
    else if b == 101 { PulseEngineState::StopEmergency }
    else { PulseEngineState::Stopped }
}

/// The axis state of a state byte; unknown values read as stopped.
pub open spec fn axis_state_of(b: u8) -> PulseEngineAxisState {
    if b == 1 { PulseEngineAxisState::Ready }
    else if b == 2 { PulseEngineAxisState::Running }
    else if b == 8 { PulseEngineAxisState::HomingResetting }
    else if b == 9 { PulseEngineAxisState::HomingBackingOff }
    else if b == 10 { PulseEngineAxisState::Home }
    else if b == 11 { PulseEngineAxisState::HomingStart }
    else if b == 12 { PulseEngineAxisState::HomingSearch }
    else if b == 13 { PulseEngineAxisState::HomingBack }
    else if b == 14 { PulseEngineAxisState::Probed }
    else if b == 15 { PulseEngineAxisState::ProbeStart }
    else if b == 16 { PulseEngineAxisState::ProbeSearch }
    else if b == 20 { PulseEngineAxisState::Error }
    else if b == 30 { PulseEngineAxisState::Limit }
    else { PulseEngineAxisState::Stopped }
}

/// Whether bit `axis` of a mask is set (axes 0 to 7).
pub open spec fn axis_bit(mask: u8, axis: int) -> bool {
    0 <= axis < 8 && (mask >> (axis as u8)) & 1 == 1
}

pub(crate) fn mask_bit(mask: u8, axis: usize) -> (r: bool)
    requires
        axis < 8,
    ensures
        r == axis_bit(mask, axis as int),
{
    let a: u8 = axis as u8;
    proof { crate::bits::lemma_mask_bit(mask, a); }
    (mask & (1u8 << a)) != 0
}

/// The text of a generator type.
pub open spec fn generator_type_text(t: u8) -> Seq<char> {
    if t == 0 { "8ch external"@ }
    else if t == 1 { "3ch internal"@ }
    else if t == 2 { "8ch smart external"@ }
    else { "unknown"@ }
}

impl PulseEngineV2 {
    /// A pulse engine state with every field zero and a 448-byte motion buffer.
    pub fn new() -> (r: Self)
        ensures
            is_blank_pulse_engine(&r),
    {
        let r = PulseEngineV2 {
            info: PulseEngineV2Info { nr_of_axes: 0, max_pulse_frequency: 0, buffer_depth: 0, slot_timing: 0 },
            axes_state: [0u8; 8],
            axes_config: [0u8; 8],
            axes_switch_config: [0u8; 8],
            current_position: [0i32; 8],
            position_setup: [0i32; 8],
            reference_position_speed: [0i32; 8],
            invert_axis_enable: [0i8; 8],
            soft_limit_maximum: [0i32; 8],
            soft_limit_minimum: [0i32; 8],
            homing_speed: [0u8; 8],
            homing_return_speed: [0u8; 8],
            home_offsets: [0i32; 8],
            homing_algorithm: [0u8; 8],
            filter_limit_m_switch: [0u8; 8],
            filter_limit_p_switch: [0u8; 8],
            filter_home_switch: [0u8; 8],
            probe_position: [0i32; 8],
            probe_max_position: [0i32; 8],
            max_speed: [0u32; 8],
            max_acceleration: [0u32; 8],
            max_deceleration: [0u32; 8],
            mpg_jog_multiplier: [0i32; 8],
            mpg_jog_encoder: [0u8; 8],
            pin_home_switch: [0u8; 8],
            pin_limit_m_switch: [0u8; 8],
            pin_limit_p_switch: [0u8; 8],
            axis_enable_output_pins: [0u8; 8],
            home_back_off_distance: [0u32; 8],
            mpg_jog_divider: [0u16; 8],
            filter_probe_input: 0,
            axis_signal_options: [0u8; 8],
            reference_velocity_pv: [0u32; 8],
            pulse_engine_enabled: 0,
            pulse_generator_type: 0,
            charge_pump_enabled: 0,
            emergency_switch_polarity: 0,
            pulse_engine_activated: 0,
            limit_status_p: 0,
            limit_status_n: 0,
            home_status: 0,
            error_input_status: 0,
            misc_input_status: 0,
            limit_override: 0,
            limit_override_setup: 0,
            pulse_engine_state: 0,
            axis_enabled_mask: 0,
            emergency_input_pin: 0,
            sync_fast_outputs_axis_id: 0,
            sync_fast_outputs_mapping: [0u8; 8],
            param1: 0,
            param2: 0,
            param3: 0,
            axis_enabled_states_mask: 0,
            pulse_engine_state_setup: 0,
            soft_limit_status: 0,
            external_relay_outputs: 0,
            external_oc_outputs: 0,
            pulse_engine_buffer_size: 0,
            motion_buffer_entries_accepted: 0,
            new_motion_buffer_entries: 0,
            homing_start_mask_setup: 0,
            probe_start_mask_setup: 0,
            probe_input: 0,
            probe_input_polarity: 0,
            probe_status: 0,
            motion_buffer: crate::keyboard_matrix::zeros(448),
            probe_speed: 0,
            debug_values: [0u32; 16],
            backlash_width: [0u16; 8],
            backlash_register: [0i16; 8],
            backlash_acceleration: [0u8; 8],
            backlash_compensation_enabled: 0,
            backlash_compensation_max_speed: 0,
            trigger_preparing: 0,
            trigger_prepared: 0,
            trigger_pending: 0,
            trigger_active: 0,
            spindle_speed_estimate: 0,
            spindle_position_error: 0,
            motor_step_setting: [0u8; 4],
            motor_current_setting: [0u8; 4],
            spindle_rpm: 0,
            spindle_index_counter: 0,
            dedicated_limit_n_inputs: 0,
            dedicated_limit_p_inputs: 0,
            dedicated_home_inputs: 0,
            trigger_ignored_axis_mask: 0,
            encoder_index_count: 0,
            encoder_ticks_per_rotation: 0,
            encoder_velocity: 0,
            internal_driver_step_config: [0u8; 4],
            internal_driver_current_config: [0u8; 4],
        };
        assert(r.axes_state@ =~= Seq::new(8, |i: int| 0u8));
        assert(r.axes_config@ =~= Seq::new(8, |i: int| 0u8));
        assert(r.axes_switch_config@ =~= Seq::new(8, |i: int| 0u8));
        assert(r.current_position@ =~= Seq::new(8, |i: int| 0i32));
        assert(r.position_setup@ =~= Seq::new(8, |i: int| 0i32));
        assert(r.reference_position_speed@ =~= Seq::new(8, |i: int| 0i32));
        assert(r.invert_axis_enable@ =~= Seq::new(8, |i: int| 0i8));
        assert(r.soft_limit_maximum@ =~= Seq::new(8, |i: int| 0i32));
        assert(r.soft_limit_minimum@ =~= Seq::new(8, |i: int| 0i32));
        assert(r.homing_speed@ =~= Seq::new(8, |i: int| 0u8));
        assert(r.homing_return_speed@ =~= Seq::new(8, |i: int| 0u8));
        assert(r.home_offsets@ =~= Seq::new(8, |i: int| 0i32));
        assert(r.homing_algorithm@ =~= Seq::new(8, |i: int| 0u8));
        assert(r.filter_limit_m_switch@ =~= Seq::new(8, |i: int| 0u8));
        assert(r.filter_limit_p_switch@ =~= Seq::new(8, |i: int| 0u8));
        assert(r.filter_home_switch@ =~= Seq::new(8, |i: int| 0u8));
        assert(r.probe_position@ =~= Seq::new(8, |i: int| 0i32));
        assert(r.probe_max_position@ =~= Seq::new(8, |i: int| 0i32));
        assert(r.max_speed@ =~= Seq::new(8, |i: int| 0u32));
        assert(r.max_acceleration@ =~= Seq::new(8, |i: int| 0u32));
        assert(r.max_deceleration@ =~= Seq::new(8, |i: int| 0u32));
        assert(r.mpg_jog_multiplier@ =~= Seq::new(8, |i: int| 0i32));
        assert(r.mpg_jog_encoder@ =~= Seq::new(8, |i: int| 0u8));
        assert(r.pin_home_switch@ =~= Seq::new(8, |i: int| 0u8));
        assert(r.pin_limit_m_switch@ =~= Seq::new(8, |i: int| 0u8));
        assert(r.pin_limit_p_switch@ =~= Seq::new(8, |i: int| 0u8));
        assert(r.axis_enable_output_pins@ =~= Seq::new(8, |i: int| 0u8));
        assert(r.home_back_off_distance@ =~= Seq::new(8, |i: int| 0u32));
        assert(r.mpg_jog_divider@ =~= Seq::new(8, |i: int| 0u16));
        assert(r.axis_signal_options@ =~= Seq::new(8, |i: int| 0u8));
        assert(r.reference_velocity_pv@ =~= Seq::new(8, |i: int| 0u32));
        assert(r.sync_fast_outputs_mapping@ =~= Seq::new(8, |i: int| 0u8));
        assert(r.debug_values@ =~= Seq::new(16, |i: int| 0u32));
        assert(r.backlash_width@ =~= Seq::new(8, |i: int| 0u16));
        assert(r.backlash_register@ =~= Seq::new(8, |i: int| 0i16));
        assert(r.backlash_acceleration@ =~= Seq::new(8, |i: int| 0u8));
        assert(r.motor_step_setting@ =~= Seq::new(4, |i: int| 0u8));
        assert(r.motor_current_setting@ =~= Seq::new(4, |i: int| 0u8));
        assert(r.internal_driver_step_config@ =~= Seq::new(4, |i: int| 0u8));
        assert(r.internal_driver_current_config@ =~= Seq::new(4, |i: int| 0u8));
        r
    }

    /// Whether the pulse engine is enabled.
    pub fn is_enabled(&self) -> (r: bool)
        ensures
            r == (self.pulse_engine_enabled != 0),
    {
        self.pulse_engine_enabled != 0
    }

    /// Whether the pulse engine is activated.
    pub fn is_activated(&self) -> (r: bool)
        ensures
            r == (self.pulse_engine_activated != 0),
    {
        self.pulse_engine_activated != 0
    }

    /// The pulse engine state; unknown values read as stopped.
    pub fn get_state(&self) -> (r: PulseEngineState)
        ensures
            r == pulse_engine_state_of(self.pulse_engine_state),
    {
        let b = self.pulse_engine_state;
        if b == 1 { PulseEngineState::Internal }
        else if b == 2 { PulseEngineState::Buffer }
        else if b == 3 { PulseEngineState::Running }
        else if b == 10 { PulseEngineState::Jogging }
        else if b == 11 { PulseEngineState::Stopping }
        else if b == 20 { PulseEngineState::Home }
        else if b == 21 { PulseEngineState::Homing }
        else if b == 30 { PulseEngineState::ProbeComplete }
        else if b == 31 { PulseEngineState::Probe }
        else if b == 32 { PulseEngineState::ProbeError }
        else if b == 40 { PulseEngineState::HybridProbeStopping }
        else if b == 41 { PulseEngineState::HybridProbeComplete }
        else if b == 100 { PulseEngineState::StopLimit }
        else if b == 101 { PulseEngineState::StopEmergency }
        else { PulseEngineState::Stopped }
    }

    /// The pulse generator type: bits 0 to 3.
    pub fn get_generator_type(&self) -> (r: u8)
        ensures
            r == self.pulse_generator_type % 16,
    {
        let t = self.pulse_generator_type;
        proof { crate::bits::lemma_nibbles(t); }
        t & 0x0F
    }

    /// The text of the pulse generator type.
    pub fn get_generator_type_description(&self) -> (r: &'static str)
        ensures
            r@ == generator_type_text(self.pulse_generator_type % 16),
    {
        let t = self.get_generator_type();
        if t == 0 {
            "8ch external"
        } else if t == 1 {
            "3ch internal"
        } else if t == 2 {
            "8ch smart external"
        } else {
            "unknown"
        }
    }

    /// Whether step and direction are swapped (bit 6).
    pub fn is_step_dir_swapped(&self) -> (r: bool)
        ensures
            r == axis_bit(self.pulse_generator_type, 6),
    {
        mask_bit(self.pulse_generator_type, 6)
    }

    /// Whether extended IO is enabled (bit 7).
    pub fn is_extended_io_enabled(&self) -> (r: bool)
        ensures
            r == axis_bit(self.pulse_generator_type, 7),
    {
        mask_bit(self.pulse_generator_type, 7)
    }

    /// The state of axis 0 to 7; other axes read as stopped.
    pub fn get_axis_state(&self, axis: usize) -> (r: PulseEngineAxisState)
        ensures
            axis >= 8 ==> r == PulseEngineAxisState::Stopped,
            axis < 8 ==> r == axis_state_of(self.axes_state@[axis as int]),
    {
        if axis >= 8 {
            return PulseEngineAxisState::Stopped;
        }
        let b = self.axes_state[axis];
        if b == 1 { PulseEngineAxisState::Ready }
        else if b == 2 { PulseEngineAxisState::Running }
        else if b == 8 { PulseEngineAxisState::HomingResetting }
        else if b == 9 { PulseEngineAxisState::HomingBackingOff }
        else if b == 10 { PulseEngineAxisState::Home }
        else if b == 11 { PulseEngineAxisState::HomingStart }
        else if b == 12 { PulseEngineAxisState::HomingSearch }
        else if b == 13 { PulseEngineAxisState::HomingBack }
        else if b == 14 { PulseEngineAxisState::Probed }
        else if b == 15 { PulseEngineAxisState::ProbeStart }
        else if b == 16 { PulseEngineAxisState::ProbeSearch }
        else if b == 20 { PulseEngineAxisState::Error }
        else if b == 30 { PulseEngineAxisState::Limit }
        else { PulseEngineAxisState::Stopped }
    }

    /// Whether the positive limit of an axis is triggered.
    pub fn is_axis_limit_positive(&self, axis: usize) -> (r: bool)
        ensures
            r == axis_bit(self.limit_status_p, axis as int),
    {
        if axis >= 8 {
            return false;
        }
        mask_bit(self.limit_status_p, axis)
    }

    /// Whether the negative limit of an axis is triggered.
    pub fn is_axis_limit_negative(&self, axis: usize) -> (r: bool)
        ensures
            r == axis_bit(self.limit_status_n, axis as int),
    {
        if axis >= 8 {
            return false;
        }
        mask_bit(self.limit_status_n, axis)
    }

    /// Whether an axis is at home.
    pub fn is_axis_home(&self, axis: usize) -> (r: bool)
        ensures
            r == axis_bit(self.home_status, axis as int),
    {
        if axis >= 8 {
            return false;
        }
        mask_bit(self.home_status, axis)
    }

    /// Whether the soft limit of an axis is triggered.
    pub fn is_axis_soft_limit(&self, axis: usize) -> (r: bool)
        ensures
            r == axis_bit(self.soft_limit_status, axis as int),
    {
        if axis >= 8 {
            return false;
        }
        mask_bit(self.soft_limit_status, axis)
    }

    /// Whether an axis is enabled.
    pub fn is_axis_enabled(&self, axis: usize) -> (r: bool)
        ensures
            r == axis_bit(self.axis_enabled_mask, axis as int),
    {
        if axis >= 8 {
            return false;
        }
        mask_bit(self.axis_enabled_mask, axis)
    }

    /// Whether an axis is homed.
    pub fn is_axis_homed(&self, axis: usize) -> (r: bool)
        ensures
            r == axis_bit(self.home_status, axis as int),
    {
        if axis >= 8 {
            return false;
        }
        mask_bit(self.home_status, axis)
    }

    /// Whether the positive or negative limit of an axis is triggered.
    pub fn is_limit_triggered(&self, axis: usize, positive: bool) -> (r: bool)
        ensures
            r == (if positive { axis_bit(self.limit_status_p, axis as int) } else { axis_bit(self.limit_status_n, axis as int) }),
    {
        if axis >= 8 {
            return false;
        }
        if positive {
            mask_bit(self.limit_status_p, axis)
        } else {
            mask_bit(self.limit_status_n, axis)
        }
    }
}

impl Default for PulseEngineV2 {
    fn default() -> (r: Self)
        ensures
            is_blank_pulse_engine(&r),
    {
        PulseEngineV2::new()
    }
}

/// Builder of an axis configuration: maximum speed (pulses per second),
/// acceleration and deceleration (pulses per second squared) and soft limits.
pub struct AxisConfigBuilder {
    pub axis: usize,
    pub max_speed: u32,
    pub max_acceleration: u32,
    pub max_deceleration: u32,
    pub soft_limit_min: i32,
    pub soft_limit_max: i32,
}

impl AxisConfigBuilder {
    /// A builder for `axis` with speed 1000, acceleration and deceleration
    /// 100 and no soft limits.
    pub fn new(axis: usize) -> (r: Self)
        ensures
            r.axis == axis,
            r.max_speed == 1000,
            r.max_acceleration == 100,
            r.max_deceleration == 100,
            r.soft_limit_min == 0,
            r.soft_limit_max == 0,
    {
        AxisConfigBuilder {
            axis,
            max_speed: 1000,
            max_acceleration: 100,
            max_deceleration: 100,
            soft_limit_min: 0,
            soft_limit_max: 0,
        }
    }

    /// Set the maximum speed.
    pub fn max_speed(self, speed: u32) -> (r: Self)
        ensures
            r == (AxisConfigBuilder { max_speed: speed, ..self }),
    {
        AxisConfigBuilder { max_speed: speed, ..self }
    }

    /// Set the maximum acceleration.
    pub fn max_acceleration(self, acceleration: u32) -> (r: Self)
        ensures
            r == (AxisConfigBuilder { max_acceleration: acceleration, ..self }),
    {
        AxisConfigBuilder { max_acceleration: acceleration, ..self }
    }

    /// Set the maximum deceleration.
    pub fn max_deceleration(self, deceleration: u32) -> (r: Self)
        ensures
            r == (AxisConfigBuilder { max_deceleration: deceleration, ..self }),
    {
        AxisConfigBuilder { max_deceleration: deceleration, ..self }
    }

    /// Set the lower soft limit.
    pub fn soft_limit_min(self, min: i32) -> (r: Self)
        ensures
            r == (AxisConfigBuilder { soft_limit_min: min, ..self }),
    {
        AxisConfigBuilder { soft_limit_min: min, ..self }
    }

    /// Set the upper soft limit.
    pub fn soft_limit_max(self, max: i32) -> (r: Self)
        ensures
            r == (AxisConfigBuilder { soft_limit_max: max, ..self }),
    {
        AxisConfigBuilder { soft_limit_max: max, ..self }
    }
}

/// Builder of motor driver settings for axes 0 to 3: settings left unset are
/// not changed.
pub struct MotorDriverConfigBuilder {
    pub step_settings: [Option<u8>; 4],
    pub current_settings: [Option<u8>; 4],
}

impl MotorDriverConfigBuilder {
    /// A builder with nothing set.
    pub fn new() -> (r: Self)
        ensures
            forall|i: int| 0 <= i < 4 ==> r.step_settings@[i] is None && r.current_settings@[i] is None,
    {
        MotorDriverConfigBuilder { step_settings: [None, None, None, None], current_settings: [None, None, None, None] }
    }

    /// Set the step setting of axis 0 to 3; other axes are ignored.
    pub fn axis_step_setting(self, axis: usize, step_setting: u8) -> (r: Self)
        ensures
            r.step_settings@ == (if axis < 4 { self.step_settings@.update(axis as int, Some(step_setting)) } else { self.step_settings@ }),
            r.current_settings == self.current_settings,
    {
        let mut s = self;
        if axis < 4 {
            s.step_settings[axis] = Some(step_setting);
        }
        s
    }

    /// Set the current setting of axis 0 to 3; other axes are ignored.
    pub fn axis_current_setting(self, axis: usize, current_setting: u8) -> (r: Self)
        ensures
            r.current_settings@ == (if axis < 4 { self.current_settings@.update(axis as int, Some(current_setting)) } else { self.current_settings@ }),
            r.step_settings == self.step_settings,
    {
        let mut s = self;
        if axis < 4 {
            s.current_settings[axis] = Some(current_setting);
        }
        s
    }
}

} // verus!
