//! EasySensor requests of a device (commands `0xF0` to `0xF8`).

use vstd::prelude::*;
use vstd::string::*;
use crate::device::{DeviceField, PoKeysDevice, Req, packets, plain, lemma_exchange_none, lemma_exchange_step,
    lemma_same_base, lemma_sent_all, lemma_sent_fail};
use crate::device::encoder_ops::{long_value, read_long};
use crate::device::link_error;
use crate::error::{PoKeysError, Result};
use crate::sensors::{CustomSensorUnit, EasySensor};
use crate::text::string_of;

verus! {

/// Sensor type: DS18B20 temperature.
pub const TEMPERATURE_DS18B20: u8 = 1;
/// Sensor type: DHT22 humidity.
pub const HUMIDITY_DHT22: u8 = 2;
/// Sensor type: BMP180 pressure.
pub const PRESSURE_BMP180: u8 = 3;
/// Sensor type: BH1750 light.
pub const LIGHT_BH1750: u8 = 4;
/// Sensor type: HC-SR04 distance.
pub const DISTANCE_HC_SR04: u8 = 5;
/// Sensor type: analog voltage.
pub const ANALOG_VOLTAGE: u8 = 10;
/// Sensor type: analog current.
pub const ANALOG_CURRENT: u8 = 11;
/// Sensor type: digital counter.
pub const DIGITAL_COUNTER: u8 = 20;
/// Sensor type: encoder position.
pub const ENCODER_POSITION: u8 = 21;

/// The error of a sensor index past the sensors.
pub open spec fn invalid_sensor(r: Result<()>) -> bool {
    r matches Err(PoKeysError::Parameter(m)) && m@ == "Invalid sensor index"@
}

/// Sensor `k` after a `0xF1` reading `r`: the first twelve sensors take a
/// signed little-endian value from bytes `8 + 5k` to `11 + 5k` and their
/// status from byte `12 + 5k`; the others keep theirs.
pub open spec fn sensor_reading(s: EasySensor, r: Seq<u8>, k: int) -> EasySensor {
    if k < 12 {
        EasySensor { sensor_value: long_value(r, 8 + 5 * k), sensor_ok_status: r[12 + 5 * k], ..s }
    } else {
        s
    }
}

/// All sensors after a `0xF1` reading `r`.
pub open spec fn sensors_read(sensors: Seq<EasySensor>, r: Seq<u8>) -> Seq<EasySensor> {
    Seq::new(sensors.len(), |k: int| sensor_reading(sensors[k], r, k))
}

/// The failsafe byte of a timeout and the two invalid-value flags.
pub open spec fn failsafe_byte(timeout: u8, zero: bool, max: bool) -> u8 {
    ((timeout % 64) as int + (if zero { 64int } else { 0 }) + (if max { 128int } else { 0 })) as u8
}

/// The four requests that send the configuration of sensor `index`.
pub open spec fn sensor_config_reqs(index: u8, s: EasySensor) -> Seq<Req> {
    let id = s.sensor_id@;
    seq![plain(0xF5, index, s.sensor_type, s.sensor_refresh_period, s.sensor_reading_id), plain(0xF6, index, id[0], id[1],
        id[2]), plain(0xF7, index, id[3], id[4], id[5]), plain(0xF8, index, id[6], id[7], 0)]
}

/// Apply a `0xF1` reading to the sensors.
fn apply_sensor_readings(sensors: &mut Vec<EasySensor>, response: &[u8])
    requires
        response@.len() >= 68,
    ensures
        final(sensors)@ == sensors_read(old(sensors)@, response@),
{
    let n = sensors.len();
    let mut k: usize = 0;
    while k < n
        invariant
            k <= n,
            n == old(sensors)@.len(),
            sensors@.len() == n,
            response@.len() >= 68,
            forall|j: int| 0 <= j < k ==> #[trigger] sensors@[j] == sensor_reading(old(sensors)@[j], response@, j),
            forall|j: int| k <= j < n ==> #[trigger] sensors@[j] == old(sensors)@[j],
        decreases n - k,
    {
        if k < 12 {
            let at = 8 + 5 * k;
            let mut s = sensors[k];
            s.sensor_value = read_long(response, at);
            s.sensor_ok_status = response[at + 4];
            sensors.set(k, s);
        }
        k = k + 1;
    }
    assert(sensors@ =~= sensors_read(old(sensors)@, response@));
}

impl PoKeysDevice {
    /// Send the configuration of sensor `sensor_index` (see
    /// [`sensor_config_reqs`]).
    fn send_easy_sensor_configuration(&mut self, sensor_index: usize) -> (r: Result<()>)
        requires
            sensor_index < old(self).easy_sensors@.len(),
        ensures
            final(self).same_link(old(self)),
            final(self).same_data(old(self)),
            final(self).sent_in_turn(old(self), sensor_config_reqs(sensor_index as u8, old(self).easy_sensors@[
                sensor_index as int]), r),
    {
        let s = self.easy_sensors[sensor_index];
        let i = sensor_index as u8;
        let ghost start = *self;
        let ghost reqs = sensor_config_reqs(i, s);
        proof { lemma_exchange_none(&start, reqs); }
        match self.send_request(0xF5, i, s.sensor_type, s.sensor_refresh_period, s.sensor_reading_id) {
            Err(e) => {
                proof { lemma_sent_fail(&*self, &start, &start, reqs, 0, Err::<(), PoKeysError>(e)); }
                return Err(e);
            },
            Ok(_) => {},
        }
        let ghost s1 = *self;
        proof { lemma_exchange_step(&s1, &start, &start, reqs, 0); }
        match self.send_request(0xF6, i, s.sensor_id[0], s.sensor_id[1], s.sensor_id[2]) {
            Err(e) => {
                proof { lemma_sent_fail(&*self, &s1, &start, reqs, 1, Err::<(), PoKeysError>(e)); }
                return Err(e);
            },
            Ok(_) => {},
        }
        let ghost s2 = *self;
        proof { lemma_exchange_step(&s2, &s1, &start, reqs, 1); }
        match self.send_request(0xF7, i, s.sensor_id[3], s.sensor_id[4], s.sensor_id[5]) {
            Err(e) => {
                proof { lemma_sent_fail(&*self, &s2, &start, reqs, 2, Err::<(), PoKeysError>(e)); }
                return Err(e);
            },
            Ok(_) => {},
        }
        let ghost s3 = *self;
        proof { lemma_exchange_step(&s3, &s2, &start, reqs, 2); }
        match self.send_request(0xF8, i, s.sensor_id[6], s.sensor_id[7], 0) {
            Err(e) => {
                proof { lemma_sent_fail(&*self, &s3, &start, reqs, 3, Err::<(), PoKeysError>(e)); }
                return Err(e);
            },
            Ok(_) => {},
        }
        proof {
            lemma_exchange_step(&*self, &s3, &start, reqs, 3);
            assert(reqs.take(4) =~= reqs);
            lemma_sent_all(&*self, &start, reqs, Ok::<(), PoKeysError>(()));
        }
        Ok(())
    }

    /// Set type, ID, refresh period (in tenths of a second) and reading ID of
    /// sensor `sensor_index`, then send its configuration.
    pub fn configure_easy_sensor(&mut self, sensor_index: usize, sensor_type: u8, sensor_id: &[u8; 8],
        refresh_period: u8, reading_id: u8) -> (r: Result<()>)
        ensures
            !(sensor_index >= old(self).easy_sensors@.len()) ==> link_error(r),
            final(self).same_link(old(self)),
            sensor_index >= old(self).easy_sensors@.len() ==> invalid_sensor(r) && final(self).unchanged(old(self)),
            sensor_index < old(self).easy_sensors@.len() ==> {
                let s = (EasySensor { sensor_type, sensor_id: *sensor_id, sensor_refresh_period: refresh_period,
                    sensor_reading_id: reading_id, ..old(self).easy_sensors@[sensor_index as int] });
                &&& final(self).easy_sensors@ == old(self).easy_sensors@.update(sensor_index as int, s)
                &&& final(self).same_data_except(old(self), set![DeviceField::EasySensors])
                &&& r is Ok ==> final(self).exchanged_all(old(self), packets(sensor_config_reqs(sensor_index as u8, s),
                    old(self).request_id()))
            },
    {
        if sensor_index >= self.easy_sensors.len() {
            return Err(PoKeysError::Parameter(string_of("Invalid sensor index")));
        }
        let mut s = self.easy_sensors[sensor_index];
        s.sensor_type = sensor_type;
        s.sensor_id = *sensor_id;
        s.sensor_refresh_period = refresh_period;
        s.sensor_reading_id = reading_id;
        self.easy_sensors.set(sensor_index, s);
        let ghost mid = *self;
        let r = self.send_easy_sensor_configuration(sensor_index);
        proof {
            if r is Ok {
                lemma_same_base(&*self, &mid, old(self), packets(sensor_config_reqs(sensor_index as u8, s),
                    mid.request_id()));
            }
        }
        r
    }

    /// Enable or disable sensor `sensor_index` (`0xF0`).
    pub fn enable_easy_sensor(&mut self, sensor_index: usize, enable: bool) -> (r: Result<()>)
        ensures
            sensor_index < old(self).easy_sensors@.len() ==> final(self).tried(old(self), r),
            final(self).same_link(old(self)),
            sensor_index >= old(self).easy_sensors@.len() ==> invalid_sensor(r) && final(self).unchanged(old(self)),
            sensor_index < old(self).easy_sensors@.len() ==> final(self).same_data(old(self)) && (r is Ok
                ==> final(self).exchanged(old(self), 0xF0, sensor_index as u8, if enable { 1 } else { 0 }, 0, 0,
                Seq::empty())),
    {
        if sensor_index >= self.easy_sensors.len() {
            return Err(PoKeysError::Parameter(string_of("Invalid sensor index")));
        }
        self.send_request(0xF0, sensor_index as u8, if enable { 1 } else { 0 }, 0, 0)?;
        Ok(())
    }

    /// Read all sensors (`0xF1`, see [`sensors_read`]).
    pub fn read_all_easy_sensors(&mut self) -> (r: Result<()>)
        ensures
            final(self).tried(old(self), r),
            r is Err ==> final(self).log() == old(self).log(),
            final(self).same_link(old(self)),
            final(self).same_data_except(old(self), set![DeviceField::EasySensors]),
            r is Ok ==> final(self).exchanged(old(self), 0xF1, 0, 0, 0, 0, Seq::empty())
                && final(self).easy_sensors@ == sensors_read(old(self).easy_sensors@, final(self).reply()),
            r is Err ==> final(self).easy_sensors == old(self).easy_sensors,
    {
        let response = self.send_request(0xF1, 0, 0, 0, 0)?;
        apply_sensor_readings(&mut self.easy_sensors, &response);
        Ok(())
    }

    /// Read all sensors and return the value of sensor `sensor_index`.
    pub fn read_easy_sensor(&mut self, sensor_index: usize) -> (r: Result<i32>)
        ensures
            !(sensor_index >= old(self).easy_sensors@.len()) ==> final(self).tried(old(self), r),
            !(sensor_index >= old(self).easy_sensors@.len()) ==> link_error(r),
            final(self).same_link(old(self)),
            sensor_index >= old(self).easy_sensors@.len() ==> (r matches Err(PoKeysError::Parameter(m)) && m@
                == "Invalid sensor index"@) && final(self).unchanged(old(self)),
            sensor_index < old(self).easy_sensors@.len() ==> {
                &&& final(self).same_data_except(old(self), set![DeviceField::EasySensors])
                &&& r matches Ok(v) ==> final(self).exchanged(old(self), 0xF1, 0, 0, 0, 0, Seq::empty())
                    && final(self).easy_sensors@ == sensors_read(old(self).easy_sensors@, final(self).reply())
                    && v == final(self).easy_sensors@[sensor_index as int].sensor_value
            },
    {
        if sensor_index >= self.easy_sensors.len() {
            return Err(PoKeysError::Parameter(string_of("Invalid sensor index")));
        }
        self.read_all_easy_sensors()?;
        Ok(self.easy_sensors[sensor_index].sensor_value)
    }

    /// Set the failsafe byte of sensor `sensor_index` (see
    /// [`failsafe_byte`]) and send it (`0xF2`).
    pub fn configure_sensor_failsafe(&mut self, sensor_index: usize, timeout_seconds: u8, invalid_value_zero: bool,
        invalid_value_max: bool) -> (r: Result<()>)
        ensures
            sensor_index < old(self).easy_sensors@.len() ==> final(self).tried(old(self), r),
            final(self).same_link(old(self)),
            sensor_index >= old(self).easy_sensors@.len() ==> invalid_sensor(r) && final(self).unchanged(old(self)),
            sensor_index < old(self).easy_sensors@.len() ==> {
                let c = failsafe_byte(timeout_seconds, invalid_value_zero, invalid_value_max);
                &&& final(self).easy_sensors@ == old(self).easy_sensors@.update(sensor_index as int, (EasySensor {
                    sensor_failsafe_config: c, ..old(self).easy_sensors@[sensor_index as int] }))
                &&& final(self).same_data_except(old(self), set![DeviceField::EasySensors])
                &&& r is Ok ==> final(self).exchanged(old(self), 0xF2, sensor_index as u8, c, 0, 0, Seq::empty())
            },
    {
        if sensor_index >= self.easy_sensors.len() {
            return Err(PoKeysError::Parameter(string_of("Invalid sensor index")));
        }
        let ghost s0 = self.easy_sensors@[sensor_index as int];
        let mut s = self.easy_sensors[sensor_index];
        s.set_failsafe_timeout(timeout_seconds);
        s.set_failsafe_invalid_zero(invalid_value_zero);
        s.set_failsafe_invalid_max(invalid_value_max);
        let c = s.sensor_failsafe_config;
        assert(c == failsafe_byte(timeout_seconds, invalid_value_zero, invalid_value_max)) by (nonlinear_arith)
            requires
                c % 64 == timeout_seconds % 64,
                ((c / 64) % 2 == 1) == invalid_value_zero,
                (c / 128 == 1) == invalid_value_max,
                c < 256,
        ;
        assert(s == (EasySensor { sensor_failsafe_config: c, ..s0 }));
        self.easy_sensors.set(sensor_index, s);
        self.send_request(0xF2, sensor_index as u8, c, 0, 0)?;
        Ok(())
    }

    /// Whether sensor `sensor_index` reports a good reading.
    pub fn get_sensor_status(&self, sensor_index: usize) -> (r: Result<bool>)
        ensures
            sensor_index >= self.easy_sensors@.len() ==> (r matches Err(PoKeysError::Parameter(m)) && m@
                == "Invalid sensor index"@),
            sensor_index < self.easy_sensors@.len() ==> r == Ok::<bool, PoKeysError>(
                self.easy_sensors@[sensor_index as int].sensor_ok_status != 0),
    {
        if sensor_index >= self.easy_sensors.len() {
            return Err(PoKeysError::Parameter(string_of("Invalid sensor index")));
        }
        Ok(self.easy_sensors[sensor_index].is_ok())
    }

    /// Send the first three bytes of a custom unit's HTML code (`0xF3`) and
    /// of its simple text (`0xF4`); `unit_index` must be below 16.
    pub fn set_custom_sensor_unit(&mut self, unit_index: usize, unit: &CustomSensorUnit) -> (r: Result<()>)
        ensures
            final(self).same_link(old(self)),
            unit_index >= 16 ==> (r matches Err(PoKeysError::Parameter(m)) && m@ == "Invalid unit index"@)
                && final(self).unchanged(old(self)),
            unit_index < 16 ==> final(self).same_data(old(self)) && (r is Ok ==> {
                let h = unit.html_code@;
                let t = unit.simple_text@;
                final(self).exchanged_all(old(self), packets(seq![plain(0xF3, unit_index as u8, h[0], h[1], h[2]),
                    plain(0xF4, unit_index as u8, t[0], t[1], t[2])], old(self).request_id()))
            }),
            unit_index < 16 ==> final(self).sent_in_turn(old(self), seq![plain(0xF3, unit_index as u8, unit.html_code@[0],
                unit.html_code@[1], unit.html_code@[2]), plain(0xF4, unit_index as u8, unit.simple_text@[0],
                unit.simple_text@[1], unit.simple_text@[2])], r),
    {
        if unit_index >= 16 {
            return Err(PoKeysError::Parameter(string_of("Invalid unit index")));
        }
        let i = unit_index as u8;
        let ghost start = *self;
        let ghost reqs: Seq<Req> = seq![plain(0xF3, i, unit.html_code@[0], unit.html_code@[1], unit.html_code@[2]),
            plain(0xF4, i, unit.simple_text@[0], unit.simple_text@[1], unit.simple_text@[2])];
        proof { lemma_exchange_none(&start, reqs); }
        match self.send_request(0xF3, i, unit.html_code[0], unit.html_code[1], unit.html_code[2]) {
            Err(e) => {
                proof { lemma_sent_fail(&*self, &start, &start, reqs, 0, Err::<(), PoKeysError>(e)); }
                return Err(e);
            },
            Ok(_) => {},
        }
        let ghost s1 = *self;
        proof { lemma_exchange_step(&s1, &start, &start, reqs, 0); }
        match self.send_request(0xF4, i, unit.simple_text[0], unit.simple_text[1], unit.simple_text[2]) {
            Err(e) => {
                proof { lemma_sent_fail(&*self, &s1, &start, reqs, 1, Err::<(), PoKeysError>(e)); }
                return Err(e);
            },
            Ok(_) => {},
        }
        proof {
            lemma_exchange_step(&*self, &s1, &start, reqs, 1);
            assert(reqs.take(2) =~= reqs);
            lemma_sent_all(&*self, &start, reqs, Ok::<(), PoKeysError>(()));
        }
        Ok(())
    }
}

/// Configure a DS18B20 temperature sensor (reading ID 0); the refresh
/// period is in tenths of a second.
pub fn configure_ds18b20_sensor(device: &mut PoKeysDevice, sensor_index: usize, sensor_id: &[u8; 8],
    refresh_period: u8) -> (r: Result<()>)
    ensures
        !(sensor_index >= old(device).easy_sensors@.len()) ==> link_error(r),
        final(device).same_link(old(device)),
        sensor_index >= old(device).easy_sensors@.len() ==> invalid_sensor(r) && final(device).unchanged(old(device)),
        sensor_index < old(device).easy_sensors@.len() ==> {
            let s = (EasySensor { sensor_type: TEMPERATURE_DS18B20, sensor_id: *sensor_id, sensor_refresh_period:
                refresh_period, sensor_reading_id: 0, ..old(device).easy_sensors@[sensor_index as int] });
            &&& final(device).easy_sensors@ == old(device).easy_sensors@.update(sensor_index as int, s)
            &&& final(device).same_data_except(old(device), set![DeviceField::EasySensors])
            &&& r is Ok ==> final(device).exchanged_all(old(device), packets(sensor_config_reqs(sensor_index as u8, s),
                old(device).request_id()))
        },
{
    device.configure_easy_sensor(sensor_index, TEMPERATURE_DS18B20, sensor_id, refresh_period, 0)
}

/// Configure an analog voltage sensor on pin `pin_id` (the first ID byte,
/// the others zero; reading ID 0); the refresh period is in tenths of a
/// second.
pub fn configure_analog_voltage_sensor(device: &mut PoKeysDevice, sensor_index: usize, pin_id: u8, refresh_period: u8)
    -> (r: Result<()>)
    ensures
        !(sensor_index >= old(device).easy_sensors@.len()) ==> link_error(r),
        final(device).same_link(old(device)),
        sensor_index >= old(device).easy_sensors@.len() ==> invalid_sensor(r) && final(device).unchanged(old(device)),
        sensor_index < old(device).easy_sensors@.len() ==> {
            let s = final(device).easy_sensors@[sensor_index as int];
            &&& s.sensor_id@ == seq![pin_id, 0u8, 0, 0, 0, 0, 0, 0]
            &&& final(device).easy_sensors@ == old(device).easy_sensors@.update(sensor_index as int, (EasySensor {
                sensor_type: ANALOG_VOLTAGE, sensor_id: s.sensor_id, sensor_refresh_period: refresh_period,
                sensor_reading_id: 0, ..old(device).easy_sensors@[sensor_index as int] }))
            &&& final(device).same_data_except(old(device), set![DeviceField::EasySensors])
            &&& r is Ok ==> final(device).exchanged_all(old(device), packets(sensor_config_reqs(sensor_index as u8, s),
                old(device).request_id()))
        },
{
    let mut sensor_id = [0u8; 8];
    sensor_id[0] = pin_id;
    assert(sensor_id@ =~= seq![pin_id, 0u8, 0, 0, 0, 0, 0, 0]);
    device.configure_easy_sensor(sensor_index, ANALOG_VOLTAGE, &sensor_id, refresh_period, 0)
}

} // verus!
