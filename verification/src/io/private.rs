//! Pin operations of a device: pin functions, single-pin reads and writes.

use vstd::prelude::*;
use vstd::string::*;
use crate::device::{DeviceField, PoKeysDevice, invalid_pin, pin_refused};
use crate::error::{PoKeysError, Result};
use crate::io::{
    CMD_READ_DIGITAL_INPUT, CMD_SET_INPUT_OUTPUT, CMD_SET_PIN_OUTPUT, PinData, PinFunction, compose_pin_function_byte,
    pin_settings_byte,
};
use crate::models::{DeviceModel, PinModel, pin_has};
use crate::text::string_of;

verus! {

broadcast use vstd::std_specs::hash::group_hash_axioms;

/// The model capability that a pin function needs, for the four functions
/// that have one.
pub open spec fn function_capability(f: PinFunction) -> Option<Seq<char>> {
    match f {
        PinFunction::DigitalInput => Some("DigitalInput"@),
        PinFunction::DigitalOutput => Some("DigitalOutput"@),
        PinFunction::AnalogInput => Some("AnalogInput"@),
        PinFunction::AnalogOutput => Some("AnalogOutput"@),
        _ => None,
    }
}

/// Whether a loaded model refuses pin function `f` on pin `pin` (as a byte).
pub open spec fn capability_refused(model: Option<DeviceModel>, pin: u32, f: PinFunction) -> bool {
    &&& function_capability(f) is Some
    &&& model matches Some(m) && !pin_has(m, pin as u8, function_capability(f)->0)
}

/// `after` is `before` with pin `k` of the model, if listed, made inactive.
pub open spec fn model_pin_inactive(after: Option<DeviceModel>, before: Option<DeviceModel>, k: u8) -> bool {
    match before {
        None => after is None,
        Some(m) => after matches Some(m2) && m2.name == m.name && m2.pins@ == (if m.pins@.contains_key(k) {
            m.pins@.insert(k, PinModel { active: false, ..m.pins@[k] })
        } else {
            m.pins@
        }),
    }
}

fn capability_name(f: PinFunction) -> (r: Option<&'static str>)
    ensures
        match function_capability(f) {
            Some(c) => r is Some && r->0@ == c,
            None => r is None,
        },
{
    match f {
        PinFunction::DigitalInput => Some("DigitalInput"),
        PinFunction::DigitalOutput => Some("DigitalOutput"),
        PinFunction::AnalogInput => Some("AnalogInput"),
        PinFunction::AnalogOutput => Some("AnalogOutput"),
        _ => None,
    }
}

fn refused() -> (e: PoKeysError)
    ensures
        pin_refused::<()>(Err(e)),
{
    PoKeysError::InternalError(string_of("Invalid pin or configuration locked"))
}

impl PoKeysDevice {
    /// The index of a pin number in the pin list, or the invalid-pin error.
    pub fn check_pin_range(&self, pin: u32) -> (r: Result<usize>)
        ensures
            self.valid_pin(pin) ==> r == Ok::<usize, PoKeysError>((pin - 1) as usize),
            !self.valid_pin(pin) ==> invalid_pin(r),
    {
        if pin == 0 || pin as usize > self.pins.len() {
            Err(PoKeysError::Parameter(string_of("Invalid pin number")))
        } else {
            Ok((pin - 1) as usize)
        }
    }

    fn mark_model_pin_inactive(&mut self, k: u8)
        ensures
            model_pin_inactive(final(self).model, old(self).model, k),
            final(self).local_update(old(self), set![DeviceField::Model]),
    {
        let mut m = self.model.take();
        match &mut m {
            Some(model) => {
                match model.pins.remove(&k) {
                    Some(pm) => {
                        let mut pm = pm;
                        pm.active = false;
                        model.pins.insert(k, pm);
                    },
                    None => {},
                }
            },
            None => {},
        }
        self.model = m;
        proof {
            match old(self).model {
                Some(mo) => {
                    if mo.pins@.contains_key(k) {
                        assert(self.model->0.pins@ =~= mo.pins@.insert(k, PinModel { active: false, ..mo.pins@[k] }));
                    } else {
                        assert(self.model->0.pins@ =~= mo.pins@);
                    }
                },
                None => {},
            }
        }
    }

    /// Set the function of pin `pin`, with the firmware invert flag when
    /// `inverted` (`0x10`). Nothing is sent when the cached settings byte is
    /// already the one asked for. A loaded model that does not list the
    /// capability the function needs refuses it, and its pin is marked
    /// inactive. The device refuses with a non-zero status byte 2.
    pub fn write_pin_function(&mut self, pin: u32, pin_function: PinFunction, inverted: bool)
        -> (r: Result<(u32, PinFunction)>)
        ensures
            final(self).same_link(old(self)),
            !old(self).valid_pin(pin) ==> invalid_pin(r) && final(self).unchanged(old(self)),
            old(self).valid_pin(pin) ==> {
                let idx = pin - 1;
                let byte = pin_settings_byte(pin_function, inverted);
                if old(self).pins@[idx].pin_function == byte {
                    r == Ok::<(u32, PinFunction), PoKeysError>((pin, pin_function)) && final(self).unchanged(old(self))
                } else if capability_refused(old(self).model, pin, pin_function) {
                    &&& r is Err && r->Err_0 is UnsupportedPinCapability
                    &&& r->Err_0->UnsupportedPinCapability_0 == pin as u8
                    &&& r->Err_0->UnsupportedPinCapability_1@ == function_capability(pin_function)->0
                    &&& final(self).local_update(old(self), set![DeviceField::Model])
                    &&& model_pin_inactive(final(self).model, old(self).model, pin as u8)
                } else {
                    &&& (!old(self).connected() ==> (r matches Err(PoKeysError::NotConnected)))
                    &&& r is Ok ==> {
                        &&& r == Ok::<(u32, PinFunction), PoKeysError>((pin, pin_function))
                        &&& final(self).exchanged(old(self), 0x10, idx as u8, byte,
                            old(self).pins@[idx].counter_options, 0, Seq::empty())
                        &&& final(self).reply()[2] == 0
                        &&& final(self).pins@ == old(self).pins@.update(idx, PinData { pin_function: byte, ..old(self).pins@[idx] })
                        &&& final(self).same_data_except(old(self), set![DeviceField::Pins])
                    }
                    &&& r is Err ==> final(self).same_data(old(self)) && (final(self).log() == old(self).log()
                        || final(self).exchanged(old(self), 0x10, idx as u8, byte,
                            old(self).pins@[idx].counter_options, 0, Seq::empty()) && final(self).reply()[2] != 0
                            && pin_refused(r))
                }
            },
    {
        let pin_index = match self.check_pin_range(pin) {
            Ok(i) => i,
            Err(e) => { return Err(e); },
        };
        let wire_byte = compose_pin_function_byte(pin_function, inverted);
        if self.pins[pin_index].pin_function == wire_byte {
            return Ok((pin, pin_function));
        }
        match capability_name(pin_function) {
            Some(capability) => {
                if !self.is_pin_capability_supported(pin, capability) {
                    self.mark_model_pin_inactive(pin as u8);
                    return Err(PoKeysError::UnsupportedPinCapability(pin as u8, string_of(capability)));
                }
            },
            None => {},
        }
        let counter_options = self.pins[pin_index].counter_options;
        let res = self.send_request(CMD_SET_INPUT_OUTPUT, pin_index as u8, wire_byte, counter_options, 0)?;
        if res[2] != 0 {
            Err(refused())
        } else {
            let mut p = self.pins[pin_index];
            p.pin_function = wire_byte;
            self.pins.set(pin_index, p);
            Ok((pin, pin_function))
        }
    }

    /// Read one digital input (`0x30`): byte 3 of the response, unless the
    /// status byte 2 refuses.
    pub fn read_digital_input(&mut self, pin: u32) -> (r: Result<u8>)
        ensures
            old(self).valid_pin(pin) ==> final(self).tried(old(self), r),
            final(self).same_link(old(self)),
            final(self).same_data(old(self)),
            !old(self).valid_pin(pin) ==> invalid_pin(r) && final(self).log() == old(self).log(),
            old(self).valid_pin(pin) && !old(self).connected() ==> r matches Err(PoKeysError::NotConnected),
            old(self).valid_pin(pin) ==> (final(self).log() == old(self).log() && r is Err
                || final(self).exchanged(old(self), 0x30, (pin - 1) as u8, 0, 0, 0, Seq::empty()) && (if final(
                self).reply()[2] != 0 { pin_refused(r) } else { r == Ok::<u8, PoKeysError>(final(self).reply()[3]) })),
    {
        let pin_index = self.check_pin_range(pin)?;
        let res = self.send_request(CMD_READ_DIGITAL_INPUT, pin_index as u8, 0, 0, 0)?;
        if res[2] != 0 {
            Err(refused())
        } else {
            Ok(res[3])
        }
    }

    /// Drive one digital output (`0x40`): level 1 for `value`. The device
    /// accepts with status byte 2 zero and an echo of `0x40` in byte 1.
    pub fn write_digital_output(&mut self, pin: u32, value: bool) -> (r: Result<bool>)
        ensures
            old(self).valid_pin(pin) ==> final(self).tried(old(self), r),
            final(self).same_link(old(self)),
            final(self).same_data(old(self)),
            !old(self).valid_pin(pin) ==> invalid_pin(r) && final(self).log() == old(self).log(),
            old(self).valid_pin(pin) && !old(self).connected() ==> r matches Err(PoKeysError::NotConnected),
            old(self).valid_pin(pin) ==> (final(self).log() == old(self).log() && r is Err
                || final(self).exchanged(old(self), 0x40, (pin - 1) as u8, if value { 1 } else { 0 }, 0, 0,
                Seq::empty()) && (if final(self).reply()[2] != 0 || final(self).reply()[1] != 0x40 {
                pin_refused(r) } else { r == Ok::<bool, PoKeysError>(true) })),
    {
        let pin_index = self.check_pin_range(pin)?;
        let res = self.send_request(CMD_SET_PIN_OUTPUT, pin_index as u8, if value { 1 } else { 0 }, 0, 0)?;
        if res[2] != 0 || res[1] != CMD_SET_PIN_OUTPUT {
            Err(refused())
        } else {
            Ok(true)
        }
    }
}

} // verus!
