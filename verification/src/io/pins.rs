//! Pin-level requests of a device: functions, digital and analog values,
//! counters and bulk pin settings.

use vstd::prelude::*;
use vstd::string::*;
use crate::device::{
    DeviceField, PoKeysDevice, Req, bit_of, invalid_pin, packets, pin_refused, plain, lemma_exchange_step,
    lemma_exchange_none,
};
use crate::error::{PoKeysError, Result};
use crate::io::{
    CMD_INPUT_OUTPUT_EXTENDED, INVERT_PIN_BIT, PinData, PinFunction, bulk_pin_settings_outcome, cached_pin_function,
    decode_pin_function_from_cache, flag_set, pin_function_of_byte, parse_bulk_pin_settings_response, pin_function_exact, pin_settings_byte,
    status_encoder, status_pin, apply_device_status_response, analog_output_bytes, count_analog, encode_analog_output_10bit,
    is_analog_input_pin,
};
use crate::device::{le_u32, lemma_exchanged_one, lemma_same_base, link_error, lemma_sent_all, lemma_sent_fail};
use crate::communication::payload_part;
use crate::text::string_of;

verus! {

/// The pins after a block input read from `from` to `to`: pin `i` takes bit
/// `(i - from) % 8` of response byte `2 + (i - from) / 8`.
pub open spec fn inputs_applied(pins: Seq<PinData>, r: Seq<u8>, from: int, to: int) -> Seq<PinData> {
    Seq::new(pins.len(), |i: int| if from <= i < to {
        PinData { digital_value_get: if bit_of(r[2 + (i - from) / 8], (i - from) % 8) { 1u8 } else { 0u8 }, ..pins[i] }
    } else {
        pins[i]
    })
}

/// The smaller of two numbers.
pub open spec fn min_nat(a: int, b: int) -> int {
    if a <= b { a } else { b }
}

/// The pins with their cached settings bytes replaced by `raw`, as far as
/// both reach.
pub open spec fn settings_applied(pins: Seq<PinData>, raw: Seq<u8>) -> Seq<PinData> {
    Seq::new(pins.len(), |i: int| if i < raw.len() { PinData { pin_function: raw[i], ..pins[i] } } else { pins[i] })
}

fn apply_block(pins: &mut Vec<PinData>, r: &[u8; 68], from: usize, to: usize)
    requires
        from <= to <= old(pins)@.len(),
        to - from <= 32,
    ensures
        final(pins)@ == inputs_applied(old(pins)@, r@, from as int, to as int),
{
    let ghost orig = pins@;
    let mut i = from;
    while i < to
        invariant
            from <= i <= to,
            to <= orig.len(),
            to - from <= 32,
            pins@.len() == orig.len(),
            forall|k: int| 0 <= k < orig.len() && !(from <= k < i) ==> pins@[k] == orig[k],
            forall|k: int| from <= k < i ==> pins@[k] == inputs_applied(orig, r@, from as int, to as int)[k],
        decreases to - i,
    {
        let rel = i - from;
        let b = r[2 + rel / 8];
        let q: u8 = (rel % 8) as u8;
        proof { crate::bits::lemma_mask_bit(b, q); }
        let mut p = pins[i];
        p.digital_value_get = if (b & (1u8 << q)) != 0 { 1 } else { 0 };
        pins.set(i, p);
        i = i + 1;
    }
    assert(pins@ =~= inputs_applied(orig, r@, from as int, to as int));
}

fn apply_settings(pins: &mut Vec<PinData>, raw: &[u8; 55])
    ensures
        final(pins)@ == settings_applied(old(pins)@, raw@),
{
    let ghost orig = pins@;
    let n = pins.len();
    let mut i: usize = 0;
    while i < 55 && i < n
        invariant
            i <= 55,
            n == orig.len(),
            pins@.len() == n,
            i <= n,
            forall|k: int| 0 <= k < n && k >= i ==> pins@[k] == orig[k],
            forall|k: int| 0 <= k < i ==> pins@[k] == settings_applied(orig, raw@)[k],
        decreases 55 - i,
    {
        let mut p = pins[i];
        p.pin_function = raw[i];
        pins.set(i, p);
        i = i + 1;
    }
    assert(pins@ =~= settings_applied(orig, raw@));
}

impl PoKeysDevice {
    /// Set a pin's function without the invert flag (see
    /// [`Self::write_pin_function`]).
    pub fn set_pin_function(&mut self, pin: u32, pin_function: PinFunction) -> (r: Result<(u32, PinFunction)>)
        ensures
            final(self).same_link(old(self)),
            !old(self).valid_pin(pin) ==> invalid_pin(r) && final(self).unchanged(old(self)),
            old(self).valid_pin(pin) && old(self).pins@[pin - 1].pin_function == pin_settings_byte(pin_function, false)
                ==> r == Ok::<(u32, PinFunction), PoKeysError>((pin, pin_function)) && final(self).unchanged(old(self)),
            r is Ok && old(self).pins@[pin - 1].pin_function != pin_settings_byte(pin_function, false) ==>
                final(self).exchanged(old(self), 0x10, (pin - 1) as u8, pin_settings_byte(pin_function, false),
                    old(self).pins@[pin - 1].counter_options, 0, Seq::empty())
                && final(self).pins@ == old(self).pins@.update(pin - 1, PinData {
                    pin_function: pin_settings_byte(pin_function, false), ..old(self).pins@[pin - 1] }),
    {
        self.write_pin_function(pin, pin_function, false)
    }

    /// Set a pin's function with an optional invert flag (see
    /// [`Self::write_pin_function`]).
    pub fn set_pin_function_with_invert(&mut self, pin: u32, pin_function: PinFunction, inverted: bool)
        -> (r: Result<(u32, PinFunction)>)
        ensures
            final(self).same_link(old(self)),
            !old(self).valid_pin(pin) ==> invalid_pin(r) && final(self).unchanged(old(self)),
            old(self).valid_pin(pin) && old(self).pins@[pin - 1].pin_function == pin_settings_byte(pin_function, inverted)
                ==> r == Ok::<(u32, PinFunction), PoKeysError>((pin, pin_function)) && final(self).unchanged(old(self)),
            r is Ok && old(self).pins@[pin - 1].pin_function != pin_settings_byte(pin_function, inverted) ==>
                final(self).exchanged(old(self), 0x10, (pin - 1) as u8, pin_settings_byte(pin_function, inverted),
                    old(self).pins@[pin - 1].counter_options, 0, Seq::empty())
                && final(self).pins@ == old(self).pins@.update(pin - 1, PinData {
                    pin_function: pin_settings_byte(pin_function, inverted), ..old(self).pins@[pin - 1] }),
    {
        self.write_pin_function(pin, pin_function, inverted)
    }

    /// The cached base function of a pin (invert flag ignored).
    pub fn get_pin_function(&self, pin: u32) -> (r: Result<PinFunction>)
        ensures
            self.valid_pin(pin) ==> r == Ok::<PinFunction, PoKeysError>(cached_pin_function(self.pins@[pin - 1].pin_function)),
            !self.valid_pin(pin) ==> invalid_pin(r),
    {
        let pin_index = self.check_pin_range(pin)?;
        Ok(decode_pin_function_from_cache(self.pins[pin_index].pin_function))
    }

    /// Whether the cached settings byte of a pin has the invert flag.
    pub fn get_pin_invert(&self, pin: u32) -> (r: Result<bool>)
        ensures
            self.valid_pin(pin) ==> r == Ok::<bool, PoKeysError>(flag_set(self.pins@[pin - 1].pin_function, 128)),
            !self.valid_pin(pin) ==> invalid_pin(r),
    {
        let pin_index = self.check_pin_range(pin)?;
        let v = self.pins[pin_index].pin_function;
        proof { crate::bits::lemma_flag_bits(v); }
        Ok((v & INVERT_PIN_BIT) != 0)
    }

    /// Read one digital input and cache it: true for a non-zero level.
    pub fn get_digital_input(&mut self, pin: u32) -> (r: Result<bool>)
        ensures
            !(!old(self).valid_pin(pin)) ==> final(self).tried(old(self), r),
            final(self).same_link(old(self)),
            !old(self).valid_pin(pin) ==> invalid_pin(r) && final(self).unchanged(old(self)),
            old(self).valid_pin(pin) && !old(self).connected() ==> r matches Err(PoKeysError::NotConnected),
            r matches Ok(b) ==> {
                &&& final(self).exchanged(old(self), 0x30, (pin - 1) as u8, 0, 0, 0, Seq::empty())
                &&& final(self).reply()[2] == 0
                &&& b == (final(self).reply()[3] != 0)
                &&& final(self).pins@ == old(self).pins@.update(pin - 1, PinData {
                    digital_value_get: final(self).reply()[3], ..old(self).pins@[pin - 1] })
                &&& final(self).same_data_except(old(self), set![DeviceField::Pins])
            },
            r is Err ==> final(self).same_data(old(self)),
    {
        if pin == 0 || pin as usize > self.pins.len() {
            return Err(PoKeysError::Parameter(string_of("Invalid pin number")));
        }
        let res = self.read_digital_input(pin)?;
        let pin_index = (pin - 1) as usize;
        let mut p = self.pins[pin_index];
        p.digital_value_get = res;
        self.pins.set(pin_index, p);
        Ok(res != 0)
    }

    /// Drive a digital output and cache the level. The level goes on the wire
    /// inverted: `0x40` carries 0 for `true` and 1 for `false`.
    pub fn set_digital_output(&mut self, pin: u32, value: bool) -> (r: Result<bool>)
        ensures
            !(!old(self).valid_pin(pin)) ==> final(self).tried(old(self), r),
            final(self).same_link(old(self)),
            !old(self).valid_pin(pin) ==> invalid_pin(r) && final(self).unchanged(old(self)),
            old(self).valid_pin(pin) && !old(self).connected() ==> r matches Err(PoKeysError::NotConnected),
            r is Ok ==> {
                &&& r == Ok::<bool, PoKeysError>(true)
                &&& final(self).exchanged(old(self), 0x40, (pin - 1) as u8, if value { 0 } else { 1 }, 0, 0, Seq::empty())
                &&& final(self).reply()[2] == 0 && final(self).reply()[1] == 0x40
                &&& final(self).pins@ == old(self).pins@.update(pin - 1, PinData {
                    digital_value_set: if value { 1 } else { 0 }, ..old(self).pins@[pin - 1] })
                &&& final(self).same_data_except(old(self), set![DeviceField::Pins])
            },
            r is Err ==> final(self).same_data(old(self)),
    {
        if pin == 0 || pin as usize > self.pins.len() {
            return Err(PoKeysError::Parameter(string_of("Invalid pin number")));
        }
        self.write_digital_output(pin, !value)?;
        let pin_index = (pin - 1) as usize;
        let mut p = self.pins[pin_index];
        p.digital_value_set = if value { 1 } else { 0 };
        self.pins.set(pin_index, p);
        Ok(true)
    }

    /// Clear all digital counters (`0x1D`).
    pub fn reset_all_digital_counters(&mut self) -> (r: Result<()>)
        ensures
            final(self).tried(old(self), r),
            final(self).same_link(old(self)),
            final(self).same_data(old(self)),
            r is Ok ==> final(self).exchanged(old(self), 0x1D, 0, 0, 0, 0, Seq::empty()),
            r is Err ==> final(self).log() == old(self).log(),
            !old(self).connected() ==> r matches Err(PoKeysError::NotConnected),
    {
        self.send_request(0x1D, 0, 0, 0, 0)?;
        Ok(())
    }

    /// Read all digital inputs: pins 1 to 32 from a `0x31` response, and,
    /// when there are more pins, pins 33 to 55 from a `0x32` response (see
    /// [`inputs_applied`]).
    pub fn get_digital_inputs(&mut self) -> (r: Result<()>)
        ensures
            final(self).same_link(old(self)),
            final(self).same_data_except(old(self), set![DeviceField::Pins]),
            final(self).pins@.len() == old(self).pins@.len(),
            !old(self).connected() ==> r matches Err(PoKeysError::NotConnected),
            r is Ok && old(self).pins@.len() <= 32 ==> {
                &&& final(self).exchanged_all(old(self), packets(seq![plain(0x31, 0, 0, 0, 0)], old(self).request_id()))
                &&& final(self).pins@ == inputs_applied(old(self).pins@, final(self).response_no(old(self), 0), 0,
                    old(self).pins@.len() as int)
            },
            r is Ok && old(self).pins@.len() > 32 ==> {
                &&& final(self).exchanged_all(old(self), packets(seq![plain(0x31, 0, 0, 0, 0), plain(0x32, 0, 0, 0, 0)],
                    old(self).request_id()))
                &&& final(self).pins@ == inputs_applied(inputs_applied(old(self).pins@, final(self).response_no(old(self),
                    0), 0, 32), final(self).response_no(old(self), 1), 32, min_nat(old(self).pins@.len() as int, 55))
            },
            final(self).sent_in_turn(old(self), digital_input_reqs(old(self).pins@), r),
    {
        let ghost start = *self;
        let ghost reqs: Seq<Req> = seq![plain(0x31, 0, 0, 0, 0), plain(0x32, 0, 0, 0, 0)];
        let ghost sent = digital_input_reqs(start.pins@);
        proof {
            lemma_exchange_none(&start, reqs);
            lemma_exchange_none(&start, sent);
        }
        let resp1 = match self.send_request(0x31, 0, 0, 0, 0) {
            Err(e) => {
                proof { lemma_sent_fail(&*self, &start, &start, sent, 0, Err::<(), PoKeysError>(e)); }
                return Err(e);
            },
            Ok(resp) => resp,
        };
        proof {
            lemma_exchange_step(&*self, &start, &start, reqs, 0);
            lemma_exchange_step(&*self, &start, &start, sent, 0);
        }
        let ghost mid = *self;
        let n = self.pins.len();
        let first_end = if n < 32 { n } else { 32 };
        apply_block(&mut self.pins, &resp1, 0, first_end);
        proof {
            assert(self.log() == mid.log());
            assert(self.response_no(&start, 0) == resp1@);
            if n <= 32 {
                assert(reqs.take(1) =~= seq![plain(0x31, 0, 0, 0, 0)]);
            }
        }
        if n > 32 {
            let ghost before2 = *self;
            let resp2 = match self.send_request(0x32, 0, 0, 0, 0) {
                Err(e) => {
                    proof { lemma_sent_fail(&*self, &before2, &start, sent, 1, Err::<(), PoKeysError>(e)); }
                    return Err(e);
                },
                Ok(resp) => resp,
            };
            proof {
                lemma_exchange_step(&*self, &before2, &start, reqs, 1);
                assert(reqs.take(2) =~= reqs);
                assert(self.response_no(&start, 1) == resp2@);
                assert(self.response_no(&start, 0) == resp1@);
                assert(sent =~= reqs);
                lemma_sent_all(&*self, &start, sent, Ok::<(), PoKeysError>(()));
            }
            let second_end = if n < 55 { n } else { 55 };
            apply_block(&mut self.pins, &resp2, 32, second_end);
        } else {
            proof {
                assert(sent =~= reqs.take(1));
                lemma_sent_all(&*self, &start, sent, Ok::<(), PoKeysError>(()));
            }
        }
        Ok(())
    }

    /// Read every pin's settings byte (`0xC0` option 0), check the response
    /// (see [`bulk_pin_settings_outcome`]), cache the bytes and return them.
    pub fn read_all_pin_settings_raw(&mut self) -> (r: Result<[u8; 55]>)
        ensures
            link_error(r),
            final(self).tried(old(self), r),
            final(self).same_link(old(self)),
            !old(self).connected() ==> r matches Err(PoKeysError::NotConnected),
            final(self).log() == old(self).log() ==> r is Err && final(self).same_data(old(self)),
            final(self).log() != old(self).log() ==> {
                &&& final(self).exchanged(old(self), 0xC0, 0, 0, 0, 0, Seq::empty())
                &&& bulk_pin_settings_outcome(final(self).reply(), r)
                &&& r matches Ok(raw) ==> final(self).pins@ == settings_applied(old(self).pins@, raw@)
                    && final(self).same_data_except(old(self), set![DeviceField::Pins])
                &&& r is Err ==> final(self).same_data(old(self))
            },
    {
        let response = self.send_request(CMD_INPUT_OUTPUT_EXTENDED, 0, 0, 0, 0)?;
        let raw = parse_bulk_pin_settings_response(&response)?;
        apply_settings(&mut self.pins, &raw);
        Ok(raw)
    }

    /// Read every pin's function (`0xC0` option 0): as
    /// [`Self::read_all_pin_settings_raw`], returning the function of each
    /// byte (see [`pin_function_of_byte`]).
    pub fn read_all_pin_functions(&mut self) -> (r: Result<[PinFunction; 55]>)
        ensures
            final(self).tried(old(self), r),
            final(self).same_link(old(self)),
            !old(self).connected() ==> r matches Err(PoKeysError::NotConnected),
            r matches Ok(fs) ==> {
                &&& final(self).exchanged(old(self), 0xC0, 0, 0, 0, 0, Seq::empty())
                &&& final(self).reply().len() >= 64 && final(self).reply()[1] == 0xC0
                &&& forall|i: int| 0 <= i < 55 ==> #[trigger] fs@[i] == pin_function_of_byte(final(self).reply()[8 + i])
                &&& final(self).pins@ == settings_applied(old(self).pins@, final(self).reply().subrange(8, 63))
                &&& final(self).same_data_except(old(self), set![DeviceField::Pins])
            },
            r is Err ==> final(self).same_data(old(self)),
    {
        let response = self.send_request(CMD_INPUT_OUTPUT_EXTENDED, 0, 0, 0, 0)?;
        let raw = parse_bulk_pin_settings_response(&response)?;
        let mut functions = [PinFunction::PinRestricted; 55];
        let mut i: usize = 0;
        while i < 55
            invariant
                i <= 55,
                raw@ == response@.subrange(8, 63),
                forall|k: int| 0 <= k < i ==> #[trigger] functions@[k] == pin_function_of_byte(raw@[k]),
            decreases 55 - i,
        {
            let f = PinFunction::from_u8(raw[i])?;
            functions[i] = f;
            i = i + 1;
        }
        apply_settings(&mut self.pins, &raw);
        Ok(functions)
    }

    /// Write every pin's settings byte verbatim (`0xC0` option 1) and cache
    /// them once the device echoes `0xC0`.
    pub fn set_all_pin_settings_raw(&mut self, raw: &[u8; 55]) -> (r: Result<()>)
        ensures
            link_error(r),
            final(self).tried_with_data(old(self), r),
            final(self).same_link(old(self)),
            !old(self).connected() ==> r matches Err(PoKeysError::NotConnected),
            r is Ok ==> {
                &&& final(self).exchanged(old(self), 0xC0, 1, 0, 0, 0, raw@)
                &&& final(self).reply()[1] == 0xC0
                &&& final(self).pins@ == settings_applied(old(self).pins@, raw@)
                &&& final(self).same_data_except(old(self), set![DeviceField::Pins])
            },
            r is Err ==> final(self).same_data(old(self)),
            r is Err && final(self).log() != old(self).log() ==> final(self).reply()[1] != 0xC0
                && (r matches Err(PoKeysError::Protocol(m)) && m@ == "Invalid response command"@),
    {
        let response = self.send_request_with_data(CMD_INPUT_OUTPUT_EXTENDED, 1, 0, 0, 0, raw)?;
        if response.len() < 64 {
            return Err(PoKeysError::Protocol(string_of("Response too short for bulk pin write")));
        }
        if response[1] != CMD_INPUT_OUTPUT_EXTENDED {
            return Err(PoKeysError::Protocol(string_of("Invalid response command")));
        }
        apply_settings(&mut self.pins, raw);
        Ok(())
    }

    /// Write every pin's function (`0xC0` option 1, no invert flags) and cache
    /// them once the device echoes `0xC0`.
    pub fn set_all_pin_functions(&mut self, functions: &[PinFunction; 55]) -> (r: Result<()>)
        ensures
            final(self).tried_with_data(old(self), r),
            link_error(r),
            final(self).same_link(old(self)),
            !old(self).connected() ==> r matches Err(PoKeysError::NotConnected),
            r is Ok ==> {
                &&& final(self).exchanged(old(self), 0xC0, 1, 0, 0, 0,
                    functions@.map_values(|f: PinFunction| crate::io::pin_function_value(f)))
                &&& final(self).reply()[1] == 0xC0
                &&& final(self).pins@ == settings_applied(old(self).pins@,
                    functions@.map_values(|f: PinFunction| crate::io::pin_function_value(f)))
                &&& final(self).same_data_except(old(self), set![DeviceField::Pins])
            },
            r is Err ==> final(self).same_data(old(self)),
    {
        let mut payload = [0u8; 55];
        let mut i: usize = 0;
        while i < 55
            invariant
                i <= 55,
                forall|k: int| 0 <= k < i ==> payload@[k] == crate::io::pin_function_value(functions@[k]),
            decreases 55 - i,
        {
            payload[i] = functions[i].value();
            i = i + 1;
        }
        assert(payload@ =~= functions@.map_values(|f: PinFunction| crate::io::pin_function_value(f)));
        self.set_all_pin_settings_raw(&payload)
    }

    /// Read the combined device status (`0xCC`) and apply it to the pins and
    /// encoders (see [`status_pin`] and [`status_encoder`]).
    pub fn get_device_status(&mut self) -> (r: Result<()>)
        ensures
            final(self).tried(old(self), r),
            final(self).same_link(old(self)),
            !old(self).connected() ==> r matches Err(PoKeysError::NotConnected),
            r is Ok ==> {
                &&& final(self).exchanged(old(self), 0xCC, 0, 0, 0, 0, Seq::empty())
                &&& final(self).pins@.len() == old(self).pins@.len()
                &&& final(self).encoders@.len() == old(self).encoders@.len()
                &&& forall|i: int| 0 <= i < old(self).pins@.len() ==> final(self).pins@[i] == status_pin(final(self).reply(),
                    old(self).pins@, i)
                &&& forall|i: int| 0 <= i < old(self).encoders@.len() ==> final(self).encoders@[i] == status_encoder(
                    final(self).reply(), old(self).encoders@, i)
                &&& final(self).same_data_except(old(self), set![DeviceField::Pins, DeviceField::Encoders])
            },
            r is Err ==> final(self).same_data(old(self)) && final(self).log() == old(self).log(),
    {
        let response = self.send_request(0xCC, 0, 0, 0, 0)?;
        apply_device_status_response(&response, &mut self.pins, &mut self.encoders);
        Ok(())
    }
}

/// The pins after a `0x20` analog read: the `k`-th analog input takes the
/// little-endian value at bytes `8 + 4k` to `11 + 4k`, while those bytes are
/// in the response.
pub open spec fn analog_read(pins: Seq<PinData>, r: Seq<u8>) -> Seq<PinData> {
    Seq::new(pins.len(), |i: int| {
        let off: int = 8 + 4 * (count_analog(pins.take(i)) as int);
        if is_analog_input_pin(pins[i]) && off + 3 < r.len() {
            PinData { analog_value: le_u32(r[off], r[off + 1], r[off + 2], r[off + 3]), ..pins[i] }
        } else {
            pins[i]
        }
    })
}

/// Whether a pin is configured as an analog output.
pub open spec fn is_analog_output_pin(p: PinData) -> bool {
    flag_set(p.pin_function, 16)
}

/// The `0x41` requests that write the analog outputs: one per analog output
/// pin, in pin order, carrying its 0-based code and its 10-bit value.
pub open spec fn analog_output_reqs(pins: Seq<PinData>) -> Seq<Req>
    decreases pins.len(),
{
    if pins.len() == 0 {
        Seq::empty()
    } else {
        let prev = analog_output_reqs(pins.drop_last());
        let i = pins.len() - 1;
        if is_analog_output_pin(pins.last()) {
            let (msb, lsb) = analog_output_bytes(pins.last().analog_value);
            prev.push(plain(0x41, i as u8, msb, lsb, 0))
        } else {
            prev
        }
    }
}

/// The first 13 pins with a digital counter, in pin order.
pub open spec fn counter_slots(pins: Seq<PinData>) -> Seq<int>
    decreases pins.len(),
{
    if pins.len() == 0 {
        Seq::empty()
    } else {
        let prev = counter_slots(pins.drop_last());
        if prev.len() < 13 && pins.last().digital_counter_available != 0 {
            prev.push(pins.len() - 1)
        } else {
            prev
        }
    }
}

/// The 13-byte `0xD8` payload: the 0-based codes of the counter pins, zero
/// padded.
pub open spec fn counter_payload(slots: Seq<int>) -> Seq<u8> {
    Seq::new(13, |k: int| if k < slots.len() { slots[k] as u8 } else { 0u8 })
}

/// The pins after a `0xD8` counter read: counter pin `k` takes the
/// little-endian value at bytes `8 + 4k` to `11 + 4k`.
pub open spec fn counters_applied(pins: Seq<PinData>, slots: Seq<int>, r: Seq<u8>) -> Seq<PinData>
    decreases slots.len(),
{
    if slots.len() == 0 {
        pins
    } else {
        let prev = counters_applied(pins, slots.drop_last(), r);
        let k = slots.len() - 1;
        let at = 8 + 4 * k;
        prev.update(slots[k], PinData { digital_counter_value: le_u32(r[at], r[at + 1], r[at + 2], r[at + 3]), ..prev[slots[k]] })
    }
}

/// Whether output bit `i` is set: pin `i` (below 55) is a digital output
/// with a non-zero level to set.
pub open spec fn output_bit(pins: Seq<PinData>, i: int) -> bool {
    i < pins.len() && i < 55 && flag_set(pins[i].pin_function, 4) && pins[i].digital_value_set != 0
}

/// The value of bits `8j` to `8j + q - 1` of the output bitmap.
pub open spec fn output_bits(pins: Seq<PinData>, j: int, q: nat) -> nat
    decreases q,
{
    if q == 0 {
        0
    } else {
        output_bits(pins, j, (q - 1) as nat) + (if output_bit(pins, 8 * j + q - 1) { vstd::arithmetic::power2::pow2((q - 1) as nat) } else { 0 })
    }
}

/// The requests that read the input bitmap: `0x31`, then, for more than 32
/// pins, `0x32`.
pub open spec fn digital_input_reqs(pins: Seq<PinData>) -> Seq<Req> {
    if pins.len() <= 32 {
        seq![plain(0x31, 0, 0, 0, 0)]
    } else {
        seq![plain(0x31, 0, 0, 0, 0), plain(0x32, 0, 0, 0, 0)]
    }
}

/// The requests that write the output bitmap: `0x11` with bytes 0 to 3,
/// then, for more than 32 pins, `0x12` with bytes 4 to 7.
pub open spec fn digital_output_reqs(pins: Seq<PinData>) -> Seq<Req> {
    let first = plain(0x11, output_byte(pins, 0), output_byte(pins, 1), output_byte(pins, 2), output_byte(pins, 3));
    if pins.len() <= 32 {
        seq![first]
    } else {
        seq![first, plain(0x12, output_byte(pins, 4), output_byte(pins, 5), output_byte(pins, 6), output_byte(pins, 7))]
    }
}

/// Byte `j` of the output bitmap: bit `q` for pin `8j + q`.
pub open spec fn output_byte(pins: Seq<PinData>, j: int) -> u8 {
    output_bits(pins, j, 8) as u8
}

fn apply_analog(pins: &mut Vec<PinData>, response: &[u8; 68])
    ensures
        final(pins)@ == analog_read(old(pins)@, response@),
{
    let ghost orig = pins@;
    let n = pins.len();
    let mut data_index: usize = 8;
    let mut assigned: usize = 0;
    let mut i: usize = 0;
    while i < n
        invariant
            n == orig.len(),
            pins@.len() == n,
            i <= n,
            assigned <= count_analog(orig.take(i as int)),
            assigned <= i,
            data_index == 8 + 4 * assigned,
            assigned < count_analog(orig.take(i as int)) ==> data_index + 3 >= 68,
            forall|k: int| 0 <= k < i ==> pins@[k] == analog_read(orig, response@)[k],
            forall|k: int| i <= k < n ==> pins@[k] == orig[k],
        decreases n - i,
    {
        proof {
            assert(orig.take(i + 1).drop_last() =~= orig.take(i as int));
        }
        let p = pins[i];
        if p.is_analog_input() && data_index + 3 < response.len() {
            let b0 = response[data_index];
            let b1 = response[data_index + 1];
            let b2 = response[data_index + 2];
            let b3 = response[data_index + 3];
            let v: u32 = (b0 as u32) | ((b1 as u32) << 8u32) | ((b2 as u32) << 16u32) | ((b3 as u32) << 24u32);
            proof { crate::bits::lemma_le_join(b0, b1, b2, b3); }
            let mut q = p;
            q.analog_value = v;
            pins.set(i, q);
            data_index = data_index + 4;
            assigned = assigned + 1;
        }
        i = i + 1;
    }
    assert(pins@ =~= analog_read(orig, response@));
}

proof fn lemma_counter_slots_bound(pins: Seq<PinData>)
    ensures
        counter_slots(pins).len() <= 13,
        forall|k: int| 0 <= k < counter_slots(pins).len() ==> 0 <= #[trigger] counter_slots(pins)[k] < pins.len(),
        forall|a: int, b: int| 0 <= a < b < counter_slots(pins).len() ==> counter_slots(pins)[a] < counter_slots(pins)[b],
    decreases pins.len(),
{
    if pins.len() > 0 {
        lemma_counter_slots_bound(pins.drop_last());
    }
}

impl PoKeysDevice {
    /// Read all analog inputs (`0x20`, see [`analog_read`]).
    pub fn read_analog_inputs(&mut self) -> (r: Result<()>)
        ensures
            final(self).tried(old(self), r),
            final(self).same_link(old(self)),
            !old(self).connected() ==> r matches Err(PoKeysError::NotConnected),
            r is Ok ==> final(self).exchanged(old(self), 0x20, 0, 0, 0, 0, Seq::empty())
                && final(self).pins@ == analog_read(old(self).pins@, final(self).reply())
                && final(self).same_data_except(old(self), set![DeviceField::Pins]),
            r is Err ==> final(self).same_data(old(self)) && final(self).log() == old(self).log(),
    {
        let response = self.send_request(0x20, 0, 0, 0, 0)?;
        apply_analog(&mut self.pins, &response);
        Ok(())
    }

    /// Read the analog inputs and return pin `pin`'s value.
    pub fn get_analog_input(&mut self, pin: u32) -> (r: Result<u32>)
        ensures
            !(!old(self).valid_pin(pin)) ==> final(self).tried(old(self), r),
            !(!old(self).valid_pin(pin)) ==> link_error(r),
            final(self).same_link(old(self)),
            !old(self).valid_pin(pin) ==> invalid_pin(r) && final(self).unchanged(old(self)),
            old(self).valid_pin(pin) && !old(self).connected() ==> r matches Err(PoKeysError::NotConnected),
            r matches Ok(v) ==> final(self).exchanged(old(self), 0x20, 0, 0, 0, 0, Seq::empty())
                && final(self).pins@ == analog_read(old(self).pins@, final(self).reply())
                && final(self).same_data_except(old(self), set![DeviceField::Pins])
                && v == final(self).pins@[pin - 1].analog_value,
            r is Err ==> final(self).same_data(old(self)),
    {
        if pin == 0 || pin as usize > self.pins.len() {
            return Err(PoKeysError::Parameter(string_of("Invalid pin number")));
        }
        self.read_analog_inputs()?;
        Ok(self.pins[(pin - 1) as usize].analog_value)
    }

    /// Write the analog outputs: one `0x41` request per analog output pin
    /// (see [`analog_output_reqs`]); a non-zero status byte 2 stops with an
    /// error naming the pin code and status.
    pub fn write_analog_outputs(&mut self) -> (r: Result<()>)
        ensures
            link_error(r),
            final(self).same_link(old(self)),
            final(self).same_data(old(self)),
            r is Ok ==> final(self).exchanged_all(old(self), packets(analog_output_reqs(old(self).pins@),
                old(self).request_id()))
                && forall|k: int| 0 <= k < analog_output_reqs(old(self).pins@).len() ==> #[trigger] final(self).response_no(
                    old(self), k)[2] == 0,
            r is Err ==> exists|j: int| 0 <= j <= old(self).pins@.len() && #[trigger] final(self).logged_all(old(self),
                packets(analog_output_reqs(old(self).pins@.take(j)), old(self).request_id())),
    {
        let ghost start = *self;
        let ghost pins0 = self.pins@;
        let n = self.pins.len();
        let mut i: usize = 0;
        proof {
            assert(pins0.take(0) =~= Seq::<PinData>::empty());
            lemma_exchange_none(&start, analog_output_reqs(pins0.take(0)));
            assert(analog_output_reqs(pins0.take(0)).take(0) =~= analog_output_reqs(pins0.take(0)));
        }
        while i < n
            invariant
                i <= n,
                n == pins0.len(),
                start == *old(self),
                self.pins@ == pins0,
                self.same_link(&start),
                self.same_data(&start),
                self.exchanged_all(&start, packets(analog_output_reqs(pins0.take(i as int)), start.request_id())),
                forall|k: int| 0 <= k < analog_output_reqs(pins0.take(i as int)).len() ==> #[trigger] self.response_no(
                    &start, k)[2] == 0,
            decreases n - i,
        {
            let ghost before = *self;
            let ghost prev_reqs = analog_output_reqs(pins0.take(i as int));
            proof {
                assert(pins0.take(i + 1).drop_last() =~= pins0.take(i as int));
                assert(pins0.take(i + 1).last() == pins0[i as int]);
            }
            let p = self.pins[i];
            if p.is_analog_output() {
                let (msb, lsb) = encode_analog_output_10bit(p.analog_value);
                let ghost reqs = analog_output_reqs(pins0.take(i + 1));
                let response = match self.send_request(0x41, i as u8, msb, lsb, 0) {
                    Ok(resp) => resp,
                    Err(e) => {
                        proof {
                            assert(self.log() == before.log());
                            assert(before.logged_all(&start, packets(analog_output_reqs(pins0.take(i as int)),
                                start.request_id())));
                            assert forall|k: int| #![trigger self.response_no(&start, k)] true implies self.response_no(&start, k) == before.response_no(&start, k) by {}
                            assert(self.logged_all(&start, packets(analog_output_reqs(pins0.take(i as int)),
                                start.request_id())));
                        }
                        return Err(e);
                    },
                };
                proof {
                    assert(reqs.take(prev_reqs.len() as int) =~= prev_reqs);
                    lemma_exchange_step(&*self, &before, &start, reqs, prev_reqs.len() as int);
                    assert(reqs.take(prev_reqs.len() as int + 1) =~= reqs);
                    assert(self.response_no(&start, prev_reqs.len() as int) == response@);
                    assert forall|k: int| 0 <= k < prev_reqs.len() implies #[trigger] self.response_no(&start, k)[2] == 0 by {
                        assert(self.log()[start.log().len() + k] == before.log()[start.log().len() + k]) by {
                            assert(self.log().take(before.log().len() as int) == before.log());
                        }
                        assert(before.response_no(&start, k)[2] == 0);
                    }
                }
                if response[2] != 0 {
                    proof {
                        assert(self.logged_all(&start, packets(analog_output_reqs(pins0.take(i + 1)),
                            start.request_id())));
                    }
                    let mut m = string_of("Analog output write failed for pin code ");
                    crate::text::push_dec(&mut m, i as u64);
                    m.append(": error code ");
                    crate::text::push_dec(&mut m, response[2] as u64);
                    return Err(PoKeysError::Protocol(m));
                }
            }
            i = i + 1;
        }
        proof {
            assert(pins0.take(n as int) =~= pins0);
        }
        Ok(())
    }
}

fn counter_selection(pins: &Vec<PinData>) -> (r: (Vec<usize>, [u8; 13]))
    ensures
        r.0@.len() == counter_slots(pins@).len(),
        forall|k: int| 0 <= k < r.0@.len() ==> #[trigger] r.0@[k] as int == counter_slots(pins@)[k],
        r.1@ == counter_payload(counter_slots(pins@)),
{
    let mut selected: Vec<usize> = Vec::new();
    let mut ids = [0u8; 13];
    let n = pins.len();
    let mut i: usize = 0;
    while i < n
        invariant
            i <= n,
            n == pins@.len(),
            selected@.len() == counter_slots(pins@.take(i as int)).len(),
            selected@.len() <= 13,
            forall|k: int| 0 <= k < selected@.len() ==> #[trigger] selected@[k] as int == counter_slots(pins@.take(i as int))[k],
            forall|k: int| 0 <= k < 13 ==> ids@[k] == counter_payload(counter_slots(pins@.take(i as int)))[k],
        decreases n - i,
    {
        proof {
            assert(pins@.take(i + 1).drop_last() =~= pins@.take(i as int));
            lemma_counter_slots_bound(pins@.take(i as int));
        }
        if selected.len() < 13 && pins[i].digital_counter_available != 0 {
            ids[selected.len()] = i as u8;
            selected.push(i);
        }
        i = i + 1;
    }
    proof {
        assert(pins@.take(n as int) =~= pins@);
    }
    assert(ids@ =~= counter_payload(counter_slots(pins@)));
    (selected, ids)
}

impl PoKeysDevice {
    /// Read the digital counters (`0xD8`): the request names the first 13
    /// counter pins (see [`counter_slots`], [`counter_payload`]) and each gets
    /// its value from the response (see [`counters_applied`]).
    pub fn read_digital_counters(&mut self) -> (r: Result<()>)
        ensures
            final(self).tried_with_data(old(self), r),
            final(self).same_link(old(self)),
            !old(self).connected() ==> r matches Err(PoKeysError::NotConnected),
            r is Ok ==> final(self).exchanged(old(self), 0xD8, 0, 0, 0, 0, counter_payload(counter_slots(old(self).pins@)))
                && final(self).pins@ == counters_applied(old(self).pins@, counter_slots(old(self).pins@), final(self).reply())
                && final(self).same_data_except(old(self), set![DeviceField::Pins]),
            r is Err ==> final(self).same_data(old(self)) && final(self).log() == old(self).log(),
    {
        let (selected, pin_ids) = counter_selection(&self.pins);
        let response = self.send_request_with_data(0xD8, 0, 0, 0, 0, &pin_ids)?;
        proof {
            lemma_counter_slots_bound(old(self).pins@);
            assert(payload_part(pin_ids@) == pin_ids@);
        }
        let ghost slots = counter_slots(old(self).pins@);
        let ghost pins0 = self.pins@;
        let ghost after_send = *self;
        let mut k: usize = 0;
        while k < selected.len()
            invariant
                k <= selected@.len(),
                selected@.len() == slots.len(),
                slots.len() <= 13,
                forall|j: int| 0 <= j < selected@.len() ==> #[trigger] selected@[j] as int == slots[j],
                forall|j: int| 0 <= j < slots.len() ==> 0 <= #[trigger] slots[j] < pins0.len(),
                self.pins@ == counters_applied(pins0, slots.take(k as int), response@),
                after_send.pins@ == pins0,
                self.local_update(&after_send, set![DeviceField::Pins]),
            decreases selected@.len() - k,
        {
            proof {
                assert(slots.take(k + 1).drop_last() =~= slots.take(k as int));
                lemma_counters_len(pins0, slots.take(k as int), response@);
            }
            let start = 8 + k * 4;
            let idx = selected[k];
            let b0 = response[start];
            let b1 = response[start + 1];
            let b2 = response[start + 2];
            let b3 = response[start + 3];
            let v: u32 = (b0 as u32) | ((b1 as u32) << 8u32) | ((b2 as u32) << 16u32) | ((b3 as u32) << 24u32);
            proof { crate::bits::lemma_le_join(b0, b1, b2, b3); }
            let mut p = self.pins[idx];
            p.digital_counter_value = v;
            self.pins.set(idx, p);
            k = k + 1;
        }
        proof {
            assert(slots.take(slots.len() as int) =~= slots);
        }
        Ok(())
    }

    /// Read the counters and return pin `pin`'s; a pin without a counter is
    /// refused as not supported before anything is sent.
    pub fn get_digital_counter(&mut self, pin: u32) -> (r: Result<u32>)
        ensures
            !(!old(self).valid_pin(pin)) && !(old(self).valid_pin(pin) && old(self).pins@[pin - 1].digital_counter_available == 0) ==> final(self).tried_with_data(old(self), r),
            !(!old(self).valid_pin(pin)) && !(old(self).valid_pin(pin) && old(self).pins@[pin - 1].digital_counter_available == 0) ==> link_error(r),
            final(self).same_link(old(self)),
            !old(self).valid_pin(pin) ==> invalid_pin(r) && final(self).unchanged(old(self)),
            old(self).valid_pin(pin) && old(self).pins@[pin - 1].digital_counter_available == 0 ==> (r matches Err(
                PoKeysError::NotSupported)) && final(self).unchanged(old(self)),
            r matches Ok(v) ==> final(self).exchanged(old(self), 0xD8, 0, 0, 0, 0, counter_payload(counter_slots(
                old(self).pins@))) && final(self).pins@ == counters_applied(old(self).pins@, counter_slots(old(self).pins@),
                final(self).reply()) && final(self).same_data_except(old(self), set![DeviceField::Pins])
                && v == final(self).pins@[pin - 1].digital_counter_value,
            r is Err ==> final(self).same_data(old(self)),
    {
        if pin == 0 || pin as usize > self.pins.len() {
            return Err(PoKeysError::Parameter(string_of("Invalid pin number")));
        }
        let pin_index = (pin - 1) as usize;
        if self.pins[pin_index].digital_counter_available == 0 {
            return Err(PoKeysError::NotSupported);
        }
        self.read_digital_counters()?;
        proof {
            lemma_counter_slots_bound(old(self).pins@);
            lemma_counters_len(old(self).pins@, counter_slots(old(self).pins@), self.reply());
        }
        Ok(self.pins[pin_index].digital_counter_value)
    }

    /// Set pin `pin`'s analog value and write all analog outputs (see
    /// [`Self::write_analog_outputs`]); the cached value stays set even when
    /// the write fails.
    pub fn set_analog_output(&mut self, pin: u32, value: u32) -> (r: Result<()>)
        ensures
            !(!old(self).valid_pin(pin)) ==> link_error(r),
            final(self).same_link(old(self)),
            !old(self).valid_pin(pin) ==> invalid_pin(r) && final(self).unchanged(old(self)),
            old(self).valid_pin(pin) ==> {
                let pins = old(self).pins@.update(pin - 1, PinData { analog_value: value, ..old(self).pins@[pin - 1] });
                &&& final(self).pins@ == pins
                &&& final(self).same_data_except(old(self), set![DeviceField::Pins])
                &&& r is Ok ==> final(self).exchanged_all(old(self), packets(analog_output_reqs(pins), old(self).request_id()))
                &&& r is Err ==> exists|j: int| 0 <= j <= pins.len() && #[trigger] final(self).logged_all(old(self),
                    packets(analog_output_reqs(pins.take(j)), old(self).request_id()))
            },
    {
        if pin == 0 || pin as usize > self.pins.len() {
            return Err(PoKeysError::Parameter(string_of("Invalid pin number")));
        }
        let pin_index = (pin - 1) as usize;
        let mut p = self.pins[pin_index];
        p.analog_value = value;
        self.pins.set(pin_index, p);
        let ghost mid = *self;
        let r = self.write_analog_outputs();
        proof {
            if r is Err {
                let j = choose|j: int| 0 <= j <= mid.pins@.len() && #[trigger] self.logged_all(&mid,
                    packets(analog_output_reqs(mid.pins@.take(j)), mid.request_id()));
                lemma_same_base(&*self, &mid, old(self), packets(analog_output_reqs(mid.pins@.take(j)), mid.request_id()));
                assert(mid.request_id() == old(self).request_id());
                let pins = old(self).pins@.update(pin - 1, PinData { analog_value: value, ..old(self).pins@[pin - 1] });
                assert(mid.pins@ == pins);
                assert(self.logged_all(old(self), packets(analog_output_reqs(pins.take(j)), old(self).request_id())));
            } else {
                lemma_same_base(&*self, &mid, old(self), packets(analog_output_reqs(mid.pins@), mid.request_id()));
            }
        }
        r
    }
}

proof fn lemma_counters_len(pins: Seq<PinData>, slots: Seq<int>, r: Seq<u8>)
    requires
        forall|j: int| 0 <= j < slots.len() ==> 0 <= #[trigger] slots[j] < pins.len(),
    ensures
        counters_applied(pins, slots, r).len() == pins.len(),
    decreases slots.len(),
{
    if slots.len() > 0 {
        lemma_counters_len(pins, slots.drop_last(), r);
    }
}

fn output_bitmap(pins: &Vec<PinData>) -> (r: [u8; 8])
    ensures
        forall|j: int| 0 <= j < 8 ==> #[trigger] r@[j] == output_byte(pins@, j),
{
    proof { vstd::arithmetic::power2::lemma2_to64(); }
    let weights: [u8; 8] = [1, 2, 4, 8, 16, 32, 64, 128];
    let n = pins.len();
    let mut out = [0u8; 8];
    let mut j: usize = 0;
    while j < 8
        invariant
            j <= 8,
            n == pins@.len(),
            weights@ == seq![1u8, 2, 4, 8, 16, 32, 64, 128],
            forall|k: int| 0 <= k < j ==> #[trigger] out@[k] == output_byte(pins@, k),
        decreases 8 - j,
    {
        let mut acc: u8 = 0;
        let mut q: usize = 0;
        proof { vstd::arithmetic::power2::lemma2_to64(); }
        while q < 8
            invariant
                q <= 8,
                j < 8,
                n == pins@.len(),
                weights@ == seq![1u8, 2, 4, 8, 16, 32, 64, 128],
                acc as nat == output_bits(pins@, j as int, q as nat),
                output_bits(pins@, j as int, q as nat) < vstd::arithmetic::power2::pow2(q as nat),
            decreases 8 - q,
        {
            proof { vstd::arithmetic::power2::lemma2_to64(); }
            let i = 8 * j + q;
            let set = i < n && i < 55 && pins[i].is_digital_output() && pins[i].digital_value_set != 0;
            assert(set == output_bit(pins@, 8 * j + q));
            if set {
                acc = acc + weights[q];
            }
            q = q + 1;
        }
        out[j] = acc;
        j = j + 1;
    }
    out
}

impl PoKeysDevice {
    /// Write all digital outputs: bits for pins 1 to 32 with `0x11`, and, when
    /// there are more pins, bits for pins 33 to 55 with `0x12` (see
    /// [`output_byte`]).
    pub fn write_digital_outputs(&mut self) -> (r: Result<()>)
        ensures
            final(self).same_link(old(self)),
            final(self).same_data(old(self)),
            !old(self).connected() ==> r matches Err(PoKeysError::NotConnected),
            r is Ok && old(self).pins@.len() <= 32 ==> final(self).exchanged_all(old(self), packets(seq![plain(0x11,
                output_byte(old(self).pins@, 0), output_byte(old(self).pins@, 1), output_byte(old(self).pins@, 2),
                output_byte(old(self).pins@, 3))], old(self).request_id())),
            r is Ok && old(self).pins@.len() > 32 ==> final(self).exchanged_all(old(self), packets(seq![plain(0x11,
                output_byte(old(self).pins@, 0), output_byte(old(self).pins@, 1), output_byte(old(self).pins@, 2),
                output_byte(old(self).pins@, 3)), plain(0x12, output_byte(old(self).pins@, 4), output_byte(
                old(self).pins@, 5), output_byte(old(self).pins@, 6), output_byte(old(self).pins@, 7))],
                old(self).request_id())),
            final(self).sent_in_turn(old(self), digital_output_reqs(old(self).pins@), r),
    {
        let out = output_bitmap(&self.pins);
        let ghost start = *self;
        let ghost pins0 = self.pins@;
        let ghost reqs: Seq<Req> = seq![plain(0x11, out@[0], out@[1], out@[2], out@[3]), plain(0x12, out@[4], out@[5],
            out@[6], out@[7])];
        let ghost sent = digital_output_reqs(pins0);
        proof {
            lemma_exchange_none(&start, reqs);
            lemma_exchange_none(&start, sent);
        }
        match self.send_request(0x11, out[0], out[1], out[2], out[3]) {
            Err(e) => {
                proof { lemma_sent_fail(&*self, &start, &start, sent, 0, Err::<(), PoKeysError>(e)); }
                return Err(e);
            },
            Ok(_) => {},
        }
        proof {
            lemma_exchange_step(&*self, &start, &start, reqs, 0);
            lemma_exchange_step(&*self, &start, &start, sent, 0);
            assert(reqs.take(1) =~= seq![plain(0x11, out@[0], out@[1], out@[2], out@[3])]);
        }
        if self.pins.len() > 32 {
            let ghost mid = *self;
            match self.send_request(0x12, out[4], out[5], out[6], out[7]) {
                Err(e) => {
                    proof { lemma_sent_fail(&*self, &mid, &start, sent, 1, Err::<(), PoKeysError>(e)); }
                    return Err(e);
                },
                Ok(_) => {},
            }
            proof {
                lemma_exchange_step(&*self, &mid, &start, reqs, 1);
                lemma_exchange_step(&*self, &mid, &start, sent, 1);
                assert(reqs.take(2) =~= reqs);
                assert(sent.take(2) =~= sent);
                lemma_sent_all(&*self, &start, sent, Ok::<(), PoKeysError>(()));
            }
        } else {
            proof {
                assert(sent.take(1) =~= sent);
                lemma_sent_all(&*self, &start, sent, Ok::<(), PoKeysError>(()));
            }
        }
        Ok(())
    }
}

} // verus!
