//! The PoKeys device: its state, the request primitives, and the matrix
//! keyboard, device data and LED matrix commands.

use vstd::prelude::*;
use vstd::string::*;
use std::time::Duration;
use crate::error::{PoKeysError, Result};
use crate::io::PinCapability;
use crate::keyboard_matrix::{MatrixKeyboardConfig, size_byte_of};
use crate::text::{dec, hex2, push_dec, push_hex2, string_of};
use crate::types::{
    NetworkDeviceSummary, millis, ValidationConfig, ConnectionParam, DeviceConnectionType, DeviceData, DeviceInfo, I2cConfig, I2cMetrics, NetworkDeviceInfo,
    RealTimeClock, ValidationLevel, RESPONSE_BUFFER_SIZE, REQUEST_BUFFER_SIZE, device_data_is_blank,
};
use crate::communication::{
    CommunicationManager, NetworkInterface, UsbHidInterface, next_id, request_packet, response_valid, payload_part,
    LinkOp, attempts, hid_packet, ops_extend, ops_since, usb_poll, reply_of,
};
use crate::encoders::EncoderData;
use crate::io::PinData;
use crate::keyboard_matrix::MatrixKeyboard;
use crate::lcd::LcdData;
use crate::matrix::MatrixLed;
use crate::models::{DeviceModel, pin_has, cap_seq, encoder_cap_well_formed, pin_capability_outcome, related_capabilities};
use crate::pulse_engine::PulseEngineV2;
use crate::pwm::PwmData;
use crate::sensors::EasySensor;

mod keyboard;
mod leds;
mod setup;
mod encoder_ops;
mod pwm_ops;
mod lcd_ops;
mod sensor_ops;
mod pe_ops;
mod bus_ops;
mod uspi_ops;
mod usb_list;

pub use lcd_ops::{lemma_lcd_mode_bytes, lemma_lcd_line_layout, lcd_display_message, lcd_display_two_lines, lcd_update_reqs, lcd_line_reqs, lcd_lines_reqs, lcd_mode_byte, overwrite, line_text_or_empty, write_at_text,
    lemma_packets_concat};
pub use sensor_ops::{configure_ds18b20_sensor, configure_analog_voltage_sensor, invalid_sensor, sensor_reading,
    sensors_read, failsafe_byte, sensor_config_reqs, TEMPERATURE_DS18B20, HUMIDITY_DHT22, PRESSURE_BMP180, LIGHT_BH1750,
    DISTANCE_HC_SR04, ANALOG_VOLTAGE, ANALOG_CURRENT, DIGITAL_COUNTER, ENCODER_POSITION};
pub use pe_ops::{lemma_axis_position_layout, lemma_motor_drivers_layout, zero_bytes, flag_byte, setup_payload, positions_bytes, axis_position_payload, axis_options_byte,
    axis_config_payload, motor_drivers_payload, pe_status_read, pe_short_status_read, axis_config_read, axis_index_error,
    invalid_axis, chosen};
pub use bus_ops::{lemma_i2c_status_bytes, i2c_status_of, i2c_read_data, scan_found, scan_list, i2c_scan_addresses, i2c_fragment,
    i2c_fragment_count, i2c_too_large, can_send_reqs, can_message_of, onewire_ids, uart_data, parse_i2c_status, i2c_fragments,
    i2c_register_packet, spi_write_simple, spi_read_simple, spi_configure_simple, can_send_standard};
pub use usb_list::{UsbDeviceInfo, opt_text, usb_view, usb_views, is_white_space, strip_leading, strip_trailing, trimmed,
    trim_all, find_from, between, cut_ok, keyed, pid_step, string_after, fields_step, step_ok, ends_block, block, block_ok,
    opens_device, block_end, no_fields, device_at, pokeys_devices, listing_ok, is_space, trim, find_str, pokeys_usb_devices,
    pokeys_usb_devices_in_profiler_output};
pub use uspi_ops::{uspi_packet, i2c_write_started, le16, brightness_byte, uspibridge_packet};
pub use pwm_ops::{le_bytes, pwm_payload, is_pwm_read, lemma_le_bytes_round_trip, lemma_pwm_payload_layout};
pub(crate) use encoder_ops::read_long;
pub use encoder_ops::{invalid_encoder, encoder_status_message, configured_encoder, long_value, long_values,
    long_values_applied, long_values_stored, group_base, lemma_long_value_layout, lemma_ultra_fast_option_bits};
pub use setup::{lemma_model_names, blank_pins, blank_encoders, model_name_of, model_name_for_device_type, device_name_request};
pub use leds::{lemma_led_action_codes, lemma_led_config_bytes, display_size_byte, matrix_enabled_byte, led_config_read, led_action_code, first_bad_led_config,
    led_config_message, first_model_led_error, led_protocol, invalid_led_index};
pub use keyboard::{first_bad_pin, first_shared_pin, kb_param_error, with_function, kb_pin_settings, kb_config_payload, padded, kb_echo_message, kb_param_check};

verus! {

/// Matrix keyboard ID byte: every current firmware has one keyboard, 0.
pub const MATRIX_KEYBOARD_ID: u8 = 0;

/// `x - 1`, or 0 for 0.
pub open spec fn pin_code(x: u8) -> u8 {
    if x == 0 { 0 } else { (x - 1) as u8 }
}

/// Byte `j` of the option-16 configuration payload: enable bit, size byte,
/// row pins 0 to 7, column pins 0 to 7, the zero direct/macro bitmap, row
/// pins 8 to 15 (only when `height > 8`), and a zero alternate-function pin.
/// Pins go on the wire as 0-based codes.
pub open spec fn kb_config_payload_byte(width: u8, height: u8, cols: Seq<u8>, rows: Seq<u8>, j: int) -> u8 {
    if j == 0 {
        1
    } else if j == 1 {
        (((width - 1) as u8) << 4u8) | ((height - 1) as u8)
    } else if 2 <= j < 10 {
        if j - 2 < rows.len() { pin_code(rows[j - 2]) } else { 0 }
    } else if 10 <= j < 18 {
        if j - 10 < cols.len() { pin_code(cols[j - 10]) } else { 0 }
    } else if 34 <= j < 42 {
        if height > 8 && j - 26 < rows.len() { pin_code(rows[j - 26]) } else { 0 }
    } else {
        0
    }
}

/// Build the option-16 configuration payload of command `0xCA`.
pub fn encode_matrix_kb_config_payload(width: u8, height: u8, column_pins: &[u8], row_pins: &[u8]) -> (r: [u8; 55])
    requires
        width >= 1,
        height >= 1,
    ensures
        forall|j: int| 0 <= j < 55 ==> r@[j] == kb_config_payload_byte(width, height, column_pins@, row_pins@, j),
{
    let mut data = [0u8; 55];
    data[0] = 1;
    let w: u8 = width - 1;
    let h: u8 = height - 1;
    let size: u8 = (w << 4u8) | h;
    data[1] = size;
    let mut i: usize = 0;
    while i < 8 && i < row_pins.len()
        invariant
            i <= 8,
            i <= row_pins@.len(),
            data@.len() == 55,
            data@[0] == 1,
            data@[1] == size,
            forall|k: int| 0 <= k < i ==> data@[2 + k] == pin_code(row_pins@[k]),
            forall|k: int| 2 + i <= k < 55 ==> data@[k] == 0,
        decreases 8 - i,
    {
        data[2 + i] = row_pins[i].saturating_sub(1);
        i = i + 1;
    }
    let mut c: usize = 0;
    while c < 8 && c < column_pins.len()
        invariant
            c <= 8,
            c <= column_pins@.len(),
            i <= 8,
            i == 8 || i == row_pins@.len(),
            data@.len() == 55,
            data@[0] == 1,
            data@[1] == size,
            forall|k: int| 0 <= k < i ==> data@[2 + k] == pin_code(row_pins@[k]),
            forall|k: int| 2 + i <= k < 10 ==> data@[k] == 0,
            forall|k: int| 0 <= k < c ==> data@[10 + k] == pin_code(column_pins@[k]),
            forall|k: int| 10 + c <= k < 55 ==> data@[k] == 0,
        decreases 8 - c,
    {
        data[10 + c] = column_pins[c].saturating_sub(1);
        c = c + 1;
    }
    let mut e: usize = 8;
    if height > 8 {
        while e < 16 && e < row_pins.len()
            invariant
                8 <= e <= 16,
                e <= row_pins@.len() || e == 8,
                c <= 8,
                i <= 8,
                i == 8 || i == row_pins@.len(),
                c == 8 || c == column_pins@.len(),
                data@.len() == 55,
                data@[0] == 1,
                data@[1] == size,
                forall|k: int| 0 <= k < i ==> data@[2 + k] == pin_code(row_pins@[k]),
                forall|k: int| 2 + i <= k < 10 ==> data@[k] == 0,
                forall|k: int| 0 <= k < c ==> data@[10 + k] == pin_code(column_pins@[k]),
                forall|k: int| 10 + c <= k < 18 ==> data@[k] == 0,
                forall|k: int| 18 <= k < 34 ==> data@[k] == 0,
                forall|k: int| 8 <= k < e ==> data@[26 + k] == pin_code(row_pins@[k]),
                forall|k: int| 26 + e <= k < 55 ==> data@[k] == 0,
            decreases 16 - e,
        {
            data[34 + (e - 8)] = row_pins[e].saturating_sub(1);
            e = e + 1;
        }
    }
    assert forall|j: int| 0 <= j < 55 implies data@[j] == kb_config_payload_byte(width, height, column_pins@,
        row_pins@, j) by {
        if 2 <= j < 10 {
            if j - 2 < i {
                assert(data@[2 + (j - 2)] == pin_code(row_pins@[j - 2]));
            }
        } else if 10 <= j < 18 {
            if j - 10 < c {
                assert(data@[10 + (j - 10)] == pin_code(column_pins@[j - 10]));
            }
        } else if 34 <= j < 42 && height > 8 {
            if j - 26 < e {
                assert(data@[26 + (j - 26)] == pin_code(row_pins@[j - 26]));
            }
        }
    }
    data
}


/// Byte `j` (below 32) of a 16-key mapping chunk from `base`: the codes,
/// then the modifiers; keys past a list's end give 0.
pub open spec fn mapping_chunk_byte(codes: Seq<u8>, modifiers: Seq<u8>, base: int, j: int) -> u8 {
    if j < 16 {
        if base + j < codes.len() { codes[base + j] } else { 0 }
    } else {
        if base + j - 16 < modifiers.len() { modifiers[base + j - 16] } else { 0 }
    }
}

/// Bit `q` of a byte.
pub open spec fn bit_of(x: u8, q: int) -> bool {
    (x >> (q as u8)) & 1 == 1
}

/// Whether key `base + i` is flagged in a triggered list.
pub open spec fn key_triggered(triggered: Seq<u8>, base: int, i: int) -> bool {
    base + i < triggered.len() && triggered[base + i] != 0
}

proof fn lemma_set_bit(x: u8, k: u8, set: bool, q: int)
    requires
        k < 8,
        0 <= q < 8,
    ensures
        bit_of(if set { x | (1u8 << k) } else { x }, q) == (if q == k { set || bit_of(x, q) } else { bit_of(x, q) }),
{
    let qq = q as u8;
    let y: u8 = if set { x | (1u8 << k) } else { x };
    assert(((y >> qq) & 1 == 1) == (if qq == k { set || (x >> qq) & 1 == 1 } else { (x >> qq) & 1 == 1 })) by (bit_vector)
        requires
            qq < 8,
            k < 8,
            y == (if set { x | (1u8 << k) } else { x }),
    ;
}

/// `d` is the 34-byte mapping chunk of 16 keys from `base`: codes,
/// modifiers and the triggered bitmap (all zero without a triggered list).
pub open spec fn is_mapping_chunk(d: Seq<u8>, codes: Seq<u8>, modifiers: Seq<u8>, triggered: Option<Seq<u8>>, base: int) -> bool {
    &&& d.len() == 34
    &&& forall|j: int| 0 <= j < 32 ==> d[j] == mapping_chunk_byte(codes, modifiers, base, j)
    &&& triggered is None ==> d[32] == 0 && d[33] == 0
    &&& triggered matches Some(t) ==> forall|i: int| 0 <= i < 8 ==> (#[trigger] bit_of(d[32], i)) == key_triggered(t, base, i)
        && bit_of(d[33], i) == key_triggered(t, base, i + 8)
}

/// Encode 16 keys of a key mapping for a `0xCA` write: codes, modifiers and,
/// when given, the triggered bitmap (bit `i` for key `chunk_base + i`, least
/// significant byte first).
pub fn encode_matrix_kb_mapping_chunk(codes: &[u8], modifiers: &[u8], triggered: Option<&[u8]>, chunk_base: usize) -> (r: [u8; 34])
    requires
        chunk_base + 16 <= usize::MAX,
    ensures
        forall|j: int| 0 <= j < 32 ==> r@[j] == mapping_chunk_byte(codes@, modifiers@, chunk_base as int, j),
        triggered is None ==> r@[32] == 0 && r@[33] == 0,
        triggered matches Some(t) ==> forall|i: int| 0 <= i < 8 ==>
            (#[trigger] bit_of(r@[32], i)) == key_triggered(t@, chunk_base as int, i)
            && bit_of(r@[33], i) == key_triggered(t@, chunk_base as int, i + 8),
        is_mapping_chunk(r@, codes@, modifiers@, match triggered { Some(t) => Some(t@), None => None }, chunk_base as int),
{
    let mut data = [0u8; 34];
    let mut i: usize = 0;
    while i < 16
        invariant
            i <= 16,
            chunk_base + 16 <= usize::MAX,
            forall|j: int| 0 <= j < i ==> data@[j] == mapping_chunk_byte(codes@, modifiers@, chunk_base as int, j),
            forall|j: int| 16 <= j < 16 + i ==> data@[j] == mapping_chunk_byte(codes@, modifiers@, chunk_base as int, j),
            forall|j: int| 16 + i <= j < 34 ==> data@[j] == 0,
            forall|j: int| i <= j < 16 ==> data@[j] == 0,
        decreases 16 - i,
    {
        let idx = chunk_base + i;
        if idx < codes.len() {
            data[i] = codes[idx];
        }
        if idx < modifiers.len() {
            data[16 + i] = modifiers[idx];
        }
        i = i + 1;
    }
    match triggered {
        None => {},
        Some(t) => {
            let mut lo: u8 = 0;
            let mut hi: u8 = 0;
            let mut k: usize = 0;
            assert forall|q: int| 0 <= q < 8 implies !bit_of(0u8, q) by {
                let qq = q as u8;
                assert((0u8 >> qq) & 1 == 0) by (bit_vector);
            }
            while k < 8
                invariant
                    k <= 8,
                    chunk_base + 16 <= usize::MAX,
                    forall|q: int| 0 <= q < k ==> bit_of(lo, q) == key_triggered(t@, chunk_base as int, q),
                    forall|q: int| k <= q < 8 ==> !bit_of(lo, q),
                    forall|q: int| 0 <= q < k ==> bit_of(hi, q) == key_triggered(t@, chunk_base as int, q + 8),
                    forall|q: int| k <= q < 8 ==> !bit_of(hi, q),
                decreases 8 - k,
            {
                let kk: u8 = k as u8;
                let lo_idx = chunk_base + k;
                let hi_idx = chunk_base + k + 8;
                let set_lo = lo_idx < t.len() && t[lo_idx] != 0;
                let set_hi = hi_idx < t.len() && t[hi_idx] != 0;
                let new_lo: u8 = if set_lo { lo | (1u8 << kk) } else { lo };
                let new_hi: u8 = if set_hi { hi | (1u8 << kk) } else { hi };
                proof {
                    assert forall|q: int| 0 <= q < 8 implies #[trigger] bit_of(new_lo, q) == (if q == k { set_lo } else { bit_of(lo, q) }) by {
                        lemma_set_bit(lo, kk, set_lo, q);
                    }
                    assert forall|q: int| 0 <= q < 8 implies #[trigger] bit_of(new_hi, q) == (if q == k { set_hi } else { bit_of(hi, q) }) by {
                        lemma_set_bit(hi, kk, set_hi, q);
                    }
                }
                lo = new_lo;
                hi = new_hi;
                k = k + 1;
            }
            data[32] = lo;
            data[33] = hi;
        },
    }
    data
}

/// The keys that a mapping chunk read fills: key `base + i` of a list gets
/// byte `off + i` of the response.
pub open spec fn decoded_list(before: Seq<u8>, response: Seq<u8>, base: int, off: int) -> Seq<u8> {
    Seq::new(before.len(), |k: int| if base <= k < base + 16 { response[off + k - base] } else { before[k] })
}

/// The triggered flags that a mapping chunk read fills: flag `base + i` is 1
/// when bit `i` of the little-endian bitmap at bytes 40 and 41 is set.
pub open spec fn decoded_triggered(before: Seq<u8>, response: Seq<u8>, base: int) -> Seq<u8> {
    Seq::new(before.len(), |k: int| if base <= k < base + 8 {
        if bit_of(response[40], k - base) { 1u8 } else { 0u8 }
    } else if base + 8 <= k < base + 16 {
        if bit_of(response[41], k - base - 8) { 1u8 } else { 0u8 }
    } else {
        before[k]
    })
}

/// Reading back a written mapping chunk gives the keys that were written:
/// when bytes 8 to 41 of a response are the chunk of 16 keys from `base`
/// (see [`is_mapping_chunk`]), decoding it into lists gives each key's code
/// and modifier, and flags exactly the keys that were triggered.
pub proof fn lemma_mapping_chunk_round_trip(d: Seq<u8>, response: Seq<u8>, codes: Seq<u8>, modifiers: Seq<u8>,
    triggered: Seq<u8>, base: int, c0: Seq<u8>, m0: Seq<u8>, t0: Seq<u8>)
    requires
        is_mapping_chunk(d, codes, modifiers, Some(triggered), base),
        response.len() >= 42,
        response.subrange(8, 42) == d,
        0 <= base,
    ensures
        forall|k: int| base <= k < base + 16 && k < c0.len() && k < codes.len() ==> #[trigger] decoded_list(c0, response,
            base, 8)[k] == codes[k],
        forall|k: int| base <= k < base + 16 && k < m0.len() && k < modifiers.len() ==> #[trigger] decoded_list(m0,
            response, base, 24)[k] == modifiers[k],
        forall|k: int| base <= k < base + 16 && k < t0.len() ==> (#[trigger] decoded_triggered(t0, response, base)[k]
            == 1) == (k < triggered.len() && triggered[k] != 0),
{
    assert forall|k: int| base <= k < base + 16 && k < c0.len() && k < codes.len() implies #[trigger] decoded_list(c0,
        response, base, 8)[k] == codes[k] by {
        assert(response[8 + k - base] == d[k - base]);
    }
    assert forall|k: int| base <= k < base + 16 && k < m0.len() && k < modifiers.len() implies #[trigger] decoded_list(
        m0, response, base, 24)[k] == modifiers[k] by {
        assert(response[24 + k - base] == d[16 + k - base]);
    }
    assert forall|k: int| base <= k < base + 16 && k < t0.len() implies (#[trigger] decoded_triggered(t0, response,
        base)[k] == 1) == (k < triggered.len() && triggered[k] != 0) by {
        assert(response[40] == d[32]);
        assert(response[41] == d[33]);
        if k < base + 8 {
            assert(bit_of(d[32], k - base) == key_triggered(triggered, base, k - base));
        } else {
            let i = k - base - 8;
            assert(bit_of(d[32], i) == key_triggered(triggered, base, i));
            assert(bit_of(d[33], i) == key_triggered(triggered, base, i + 8));
        }
    }
}

/// How many of the 16 keys from `base` a list of length `len` holds.
pub open spec fn keys_in_chunk(len: int, base: int) -> int {
    if base >= len { 0 } else if len - base >= 16 { 16 } else { len - base }
}

fn decode_into(response: &[u8], list: &mut Vec<u8>, base: usize, off: usize)
    requires
        base + 16 <= usize::MAX,
        off <= 24,
        off + keys_in_chunk(old(list)@.len() as int, base as int) <= response@.len(),
    ensures
        final(list)@ == decoded_list(old(list)@, response@, base as int, off as int),
{
    let n = list.len();
    let mut i: usize = 0;
    while i < 16
        invariant
            i <= 16,
            n == list@.len(),
            base + 16 <= usize::MAX,
            off <= 24,
            off + keys_in_chunk(old(list)@.len() as int, base as int) <= response@.len(),
            list@.len() == old(list)@.len(),
            forall|k: int| 0 <= k < n && !(base <= k < base + i) ==> list@[k] == old(list)@[k],
            forall|k: int| 0 <= k < n && base <= k < base + i ==> list@[k] == response@[off + k - base],
        decreases 16 - i,
    {
        let idx = base + i;
        if idx < n {
            assert(i < keys_in_chunk(n as int, base as int));
            list.set(idx, response[off + i]);
        }
        i = i + 1;
    }
    assert(list@ =~= decoded_list(old(list)@, response@, base as int, off as int));
}

/// Decode a 16-key mapping read response into the lists: codes from byte 8,
/// modifiers from byte 24 and, when given, triggered flags from the bitmap
/// at bytes 40 and 41. Keys past a list's end are skipped.
pub fn decode_matrix_kb_mapping_chunk(
    response: &[u8],
    codes: &mut Vec<u8>,
    modifiers: &mut Vec<u8>,
    triggered: Option<&mut Vec<u8>>,
    chunk_base: usize,
)
    requires
        chunk_base + 16 <= usize::MAX,
        8 + keys_in_chunk(old(codes)@.len() as int, chunk_base as int) <= response@.len(),
        24 + keys_in_chunk(old(modifiers)@.len() as int, chunk_base as int) <= response@.len(),
        triggered is Some ==> response@.len() >= 42,
    ensures
        final(codes)@ == decoded_list(old(codes)@, response@, chunk_base as int, 8),
        final(modifiers)@ == decoded_list(old(modifiers)@, response@, chunk_base as int, 24),
        triggered matches Some(t) ==> final(t)@ == decoded_triggered((*t)@, response@, chunk_base as int),
{
    decode_into(response, codes, chunk_base, 8);
    decode_into(response, modifiers, chunk_base, 24);
    match triggered {
        None => {},
        Some(t) => {
            let lo = response[40];
            let hi = response[41];
            let n = t.len();
            let ghost t0 = t@;
            let mut i: usize = 0;
            while i < 16
                invariant
                    i <= 16,
                    n == t@.len(),
                    chunk_base + 16 <= usize::MAX,
                    lo == response@[40],
                    hi == response@[41],
                    t@.len() == t0.len(),
                    forall|k: int| 0 <= k < n && !(chunk_base <= k < chunk_base + i) ==> t@[k] == t0[k],
                    forall|k: int| 0 <= k < n && chunk_base <= k < chunk_base + i ==>
                        t@[k] == decoded_triggered(t0, response@, chunk_base as int)[k],
                decreases 16 - i,
            {
                let idx = chunk_base + i;
                if idx < n {
                    let bit: bool = if i < 8 {
                        let s: u8 = i as u8;
                        proof {
                            crate::bits::lemma_mask_bit(lo, s);
                        }
                        (lo & (1u8 << s)) != 0
                    } else {
                        let s: u8 = (i - 8) as u8;
                        proof {
                            crate::bits::lemma_mask_bit(hi, s);
                        }
                        (hi & (1u8 << s)) != 0
                    };
                    t.set(idx, if bit { 1 } else { 0 });
                }
                i = i + 1;
            }
            assert(t@ =~= decoded_triggered(t0, response@, chunk_base as int));
        },
    }
}

/// `x + 1`, wrapping to 0.
pub open spec fn plus_one_wrap(x: u8) -> u8 {
    if x == 255 { 0 } else { (x + 1) as u8 }
}

/// `c` is the configuration that a `0xCA` readback of at least 52 bytes
/// reports: wire pin codes are 0-based and become 1-based here (so code 255,
/// "no pin", becomes 0).
pub open spec fn is_kb_readback(c: MatrixKeyboardConfig, response: Seq<u8>) -> bool {
    &&& c.enabled == (response[8] & 1 != 0)
    &&& c.width == (response[9] >> 4u8) + 1
    &&& c.height == (response[9] & 0x0F) + 1
    &&& forall|i: int| 0 <= i < 8 ==> #[trigger] c.row_pins@[i] == plus_one_wrap(response[10 + i])
    &&& forall|i: int| 8 <= i < 16 ==> #[trigger] c.row_pins@[i] == plus_one_wrap(response[34 + i])
    &&& forall|i: int| 0 <= i < 8 ==> #[trigger] c.column_pins@[i] == plus_one_wrap(response[18 + i])
    &&& forall|i: int| 0 <= i < 16 ==> #[trigger] c.direct_macro_bitmap@[i] == response[26 + i]
    &&& c.alternate_function_pin == response[50]
    &&& c.scanning_decimation == response[51]
}

/// Message of a readback whose echo byte is not `0xCA`.
pub open spec fn readback_echo_message(response: Seq<u8>) -> Seq<char> {
    "matrix keyboard config readback: echo mismatch: 0x"@ + hex2(if response.len() >= 2 { response[1] } else { 0 })
}

/// Message of a readback shorter than 52 bytes.
pub open spec fn readback_short_message(len: nat) -> Seq<char> {
    "matrix keyboard config readback too short: "@ + dec(len) + " bytes (need 52)"@
}

/// Parse a `0xCA` option-1 readback into a configuration.
pub fn parse_matrix_kb_config_readback(response: &[u8]) -> (r: Result<MatrixKeyboardConfig>)
    ensures
        (response@.len() < 2 || response@[1] != 0xCA) ==>
            (r matches Err(PoKeysError::Protocol(m)) && m@ == readback_echo_message(response@)),
        (response@.len() >= 2 && response@[1] == 0xCA && response@.len() < 52) ==>
            (r matches Err(PoKeysError::Protocol(m)) && m@ == readback_short_message(response@.len())),
        (response@.len() >= 52 && response@[1] == 0xCA) ==> (r matches Ok(c) && is_kb_readback(c, response@)),
{
    if response.len() < 2 || response[1] != 0xCA {
        let echo: u8 = if response.len() >= 2 { response[1] } else { 0 };
        let mut m = string_of("matrix keyboard config readback: echo mismatch: 0x");
        push_hex2(&mut m, echo);
        return Err(PoKeysError::Protocol(m));
    }
    if response.len() < 52 {
        let mut m = string_of("matrix keyboard config readback too short: ");
        push_dec(&mut m, response.len() as u64);
        m.append(" bytes (need 52)");
        return Err(PoKeysError::Protocol(m));
    }
    let enabled = (response[8] & 0x01) != 0;
    let size_byte = response[9];
    let hi: u8 = size_byte >> 4u8;
    let lo: u8 = size_byte & 0x0F;
    assert(hi < 16 && lo < 16) by (bit_vector)
        requires hi == size_byte >> 4u8, lo == size_byte & 0x0F;
    let width: u8 = hi + 1;
    let height: u8 = lo + 1;
    let mut row_pins = [0u8; 16];
    let mut column_pins = [0u8; 8];
    let mut bitmap = [0u8; 16];
    let mut i: usize = 0;
    while i < 16
        invariant
            i <= 16,
            response@.len() >= 52,
            forall|k: int| 0 <= k < i && k < 8 ==> #[trigger] row_pins@[k] == plus_one_wrap(response@[10 + k]),
            forall|k: int| 8 <= k < i ==> #[trigger] row_pins@[k] == plus_one_wrap(response@[34 + k]),
            forall|k: int| 0 <= k < i && k < 8 ==> #[trigger] column_pins@[k] == plus_one_wrap(response@[18 + k]),
            forall|k: int| 0 <= k < i ==> #[trigger] bitmap@[k] == response@[26 + k],
        decreases 16 - i,
    {
        if i < 8 {
            row_pins[i] = response[10 + i].wrapping_add(1);
            column_pins[i] = response[18 + i].wrapping_add(1);
        } else {
            row_pins[i] = response[34 + i].wrapping_add(1);
        }
        bitmap[i] = response[26 + i];
        i = i + 1;
    }
    Ok(MatrixKeyboardConfig {
        enabled,
        width,
        height,
        row_pins,
        column_pins,
        direct_macro_bitmap: bitmap,
        alternate_function_pin: response[50],
        scanning_decimation: response[51],
    })
}

/// `"true"` or `"false"`.
pub open spec fn bool_text(b: bool) -> Seq<char> {
    if b { "true"@ } else { "false"@ }
}

fn push_bool(s: &mut String, b: bool)
    ensures
        final(s)@ == old(s)@ + bool_text(b),
{
    if b {
        s.append("true");
    } else {
        s.append("false");
    }
}

/// The first index in `[from, to)` where the two sequences differ.
pub open spec fn first_mismatch(actual: Seq<u8>, expected: Seq<u8>, from: int, to: int) -> Option<int>
    decreases to - from,
{
    if from >= to {
        None
    } else if actual[from] != expected[from] {
        Some(from)
    } else {
        first_mismatch(actual, expected, from + 1, to)
    }
}

proof fn lemma_first_mismatch_skip(actual: Seq<u8>, expected: Seq<u8>, from: int, mid: int, to: int)
    requires
        from <= mid <= to,
        forall|k: int| from <= k < mid ==> actual[k] == expected[k],
    ensures
        first_mismatch(actual, expected, from, to) == first_mismatch(actual, expected, mid, to),
    decreases mid - from,
{
    if from < mid {
        lemma_first_mismatch_skip(actual, expected, from + 1, mid, to);
    }
}

/// The smaller of two integers.
pub open spec fn min_int(a: int, b: int) -> int {
    if a <= b { a } else { b }
}

/// A pin mismatch message: `kind` is "row", "column" or "extended row".
pub open spec fn pin_mismatch_message(kind: Seq<char>, i: int, has: u8, want: u8) -> Seq<char> {
    "configure_matrix_keyboard: "@ + kind + " pin "@ + dec(i as nat) + " mismatch: device has pin "@
        + dec(has as nat) + ", expected pin "@ + dec(want as nat)
}

/// What checking a readback against the expected configuration reports:
/// `None` when it matches, else the message of the first mismatch, in the
/// order enable flag, size, row pins, column pins, extended row pins. A
/// disabled expectation checks the enable flag alone; pins are compared as
/// far as the expected lists, the size and 8 (16 for extended rows) reach.
pub open spec fn kb_verify_outcome(actual: MatrixKeyboardConfig, width: u8, height: u8, cols: Seq<u8>, rows: Seq<u8>, enabled: bool) -> Option<Seq<char>> {
    let row_end = min_int(min_int(rows.len() as int, height as int), 8);
    let col_end = min_int(min_int(cols.len() as int, width as int), 8);
    let ext_end = min_int(min_int(rows.len() as int, height as int), 16);
    if actual.enabled != enabled {
        Some("configure_matrix_keyboard: device reports enabled="@ + bool_text(actual.enabled) + ", expected "@
            + bool_text(enabled) + " (configuration may be locked; raw config byte=0x"@
            + (if actual.enabled { "01"@ } else { "00"@ }) + ")"@)
    } else if !enabled {
        None
    } else if actual.width != width || actual.height != height {
        Some("configure_matrix_keyboard: device reports width="@ + dec(actual.width as nat) + " height="@
            + dec(actual.height as nat) + ", expected width="@ + dec(width as nat) + " height="@
            + dec(height as nat) + " (raw size byte=0x"@ + hex2(size_byte_of(actual.width, actual.height)) + ")"@)
    } else if let Some(i) = first_mismatch(actual.row_pins@, rows, 0, row_end) {
        Some(pin_mismatch_message("row"@, i, actual.row_pins@[i], rows[i]))
    } else if let Some(i) = first_mismatch(actual.column_pins@, cols, 0, col_end) {
        Some(pin_mismatch_message("column"@, i, actual.column_pins@[i], cols[i]))
    } else if height > 8 && first_mismatch(actual.row_pins@, rows, 8, ext_end) is Some {
        let i = first_mismatch(actual.row_pins@, rows, 8, ext_end)->0;
        Some(pin_mismatch_message("extended row"@, i, actual.row_pins@[i], rows[i]))
    } else {
        None
    }
}

fn pin_mismatch(kind: &str, i: usize, has: u8, want: u8) -> (r: PoKeysError)
    ensures
        r matches PoKeysError::Protocol(m) && m@ == pin_mismatch_message(kind@, i as int, has, want),
{
    let mut m = string_of("configure_matrix_keyboard: ");
    m.append(kind);
    m.append(" pin ");
    push_dec(&mut m, i as u64);
    m.append(" mismatch: device has pin ");
    push_dec(&mut m, has as u64);
    m.append(", expected pin ");
    push_dec(&mut m, want as u64);
    PoKeysError::Protocol(m)
}

/// Scan `[from, to)` for the first index where `actual` and `expected` differ.
fn find_mismatch(actual: &[u8], expected: &[u8], from: usize, to: usize) -> (r: Option<usize>)
    requires
        to <= actual@.len(),
        to <= expected@.len(),
    ensures
        match r {
            Some(i) => from <= i < to && first_mismatch(actual@, expected@, from as int, to as int) == Some(i as int),
            None => first_mismatch(actual@, expected@, from as int, to as int) is None,
        },
{
    let mut i = from;
    while i < to
        invariant
            from <= i,
            i <= to || i == from,
            to <= actual@.len(),
            to <= expected@.len(),
            forall|k: int| from <= k < i ==> actual@[k] == expected@[k],
        decreases to - i,
    {
        if actual[i] != expected[i] {
            proof { lemma_first_mismatch_skip(actual@, expected@, from as int, i as int, to as int); }
            return Some(i);
        }
        i = i + 1;
    }
    proof {
        if from < to {
            lemma_first_mismatch_skip(actual@, expected@, from as int, i as int, to as int);
        }
    }
    None
}

fn min3(a: usize, b: usize, c: usize) -> (r: usize)
    ensures
        r == min_int(min_int(a as int, b as int), c as int),
{
    let ab = if a <= b { a } else { b };
    if ab <= c { ab } else { c }
}

/// `r` is `Ok`, or an error of reaching the device: no transport of the
/// connection type, no valid response, or a response that is not the one
/// asked for.
pub open spec fn link_error<T>(r: Result<T>) -> bool {
    r matches Err(e) ==> (e is NotConnected || e is Transfer || e is Protocol)
}

/// Compare a readback with the expected configuration; the error names the
/// first mismatch (see [`kb_verify_outcome`]).
pub fn verify_matrix_kb_config_matches(
    actual: &MatrixKeyboardConfig,
    expected_width: u8,
    expected_height: u8,
    expected_column_pins: &[u8],
    expected_row_pins: &[u8],
    expected_enabled: bool,
) -> (r: Result<()>)
    ensures
        match kb_verify_outcome(*actual, expected_width, expected_height, expected_column_pins@,
            expected_row_pins@, expected_enabled) {
            None => r is Ok,
            Some(msg) => r matches Err(PoKeysError::Protocol(m)) && m@ == msg,
        },
{
    let ghost rows = expected_row_pins@;
    let ghost cols = expected_column_pins@;
    if actual.enabled != expected_enabled {
        let mut m = string_of("configure_matrix_keyboard: device reports enabled=");
        push_bool(&mut m, actual.enabled);
        m.append(", expected ");
        push_bool(&mut m, expected_enabled);
        m.append(" (configuration may be locked; raw config byte=0x");
        if actual.enabled {
            m.append("01");
        } else {
            m.append("00");
        }
        m.append(")");
        return Err(PoKeysError::Protocol(m));
    }
    if !expected_enabled {
        return Ok(());
    }
    if actual.width != expected_width || actual.height != expected_height {
        let mut m = string_of("configure_matrix_keyboard: device reports width=");
        push_dec(&mut m, actual.width as u64);
        m.append(" height=");
        push_dec(&mut m, actual.height as u64);
        m.append(", expected width=");
        push_dec(&mut m, expected_width as u64);
        m.append(" height=");
        push_dec(&mut m, expected_height as u64);
        m.append(" (raw size byte=0x");
        push_hex2(&mut m, actual.size_byte());
        m.append(")");
        return Err(PoKeysError::Protocol(m));
    }
    let row_end = min3(expected_row_pins.len(), expected_height as usize, 8);
    let row_arr: &[u8] = actual.row_pins.as_slice();
    match find_mismatch(row_arr, expected_row_pins, 0, row_end) {
        Some(i) => {
            return Err(pin_mismatch("row", i, actual.row_pins[i], expected_row_pins[i]));
        },
        None => {},
    }
    let col_end = min3(expected_column_pins.len(), expected_width as usize, 8);
    let col_arr: &[u8] = actual.column_pins.as_slice();
    match find_mismatch(col_arr, expected_column_pins, 0, col_end) {
        Some(i) => {
            return Err(pin_mismatch("column", i, actual.column_pins[i], expected_column_pins[i]));
        },
        None => {},
    }
    if expected_height > 8 {
        let ext_end = min3(expected_row_pins.len(), expected_height as usize, 16);
        match find_mismatch(row_arr, expected_row_pins, 8, ext_end) {
            Some(i) => {
                return Err(pin_mismatch("extended row", i, actual.row_pins[i], expected_row_pins[i]));
            },
            None => {},
        }
    }
    Ok(())
}

/// The data fields of a device, as named in frame conditions.
pub enum DeviceField {
    Info,
    DeviceData,
    NetworkDeviceData,
    Model,
    Pins,
    Encoders,
    Pwm,
    MatrixKeyboard,
    MatrixLed,
    Lcd,
    PulseEngineV2,
    EasySensors,
    Rtc,
    FastEncodersConfiguration,
    FastEncodersOptions,
    UltraFastEncoderConfiguration,
    UltraFastEncoderOptions,
    UltraFastEncoderFilter,
    PoExtBusData,
    I2cConfig,
    I2cMetrics,
    ValidationLevel,
}

/// One completed exchange with the device: the request packet handed to the
/// transport and the response packet that came back and validated.
pub type Exchange = (Seq<u8>, Seq<u8>);

/// A PoKeys device: its connection, the data read from it, and the local
/// state of its peripherals.
pub struct PoKeysDevice {
    pub connection_type: DeviceConnectionType,
    pub connection_param: ConnectionParam,
    pub info: DeviceInfo,
    pub device_data: DeviceData,
    pub network_device_data: Option<NetworkDeviceInfo>,
    pub model: Option<DeviceModel>,
    pub pins: Vec<PinData>,
    pub encoders: Vec<EncoderData>,
    pub pwm: PwmData,
    pub matrix_keyboard: MatrixKeyboard,
    pub matrix_led: Vec<MatrixLed>,
    pub lcd: LcdData,
    pub pulse_engine_v2: PulseEngineV2,
    pub easy_sensors: Vec<EasySensor>,
    pub rtc: RealTimeClock,
    pub communication: CommunicationManager,
    pub usb_interface: Option<Box<dyn UsbHidInterface>>,
    pub network_interface: Option<Box<dyn NetworkInterface>>,
    pub fast_encoders_configuration: u8,
    pub fast_encoders_options: u8,
    pub ultra_fast_encoder_configuration: u8,
    pub ultra_fast_encoder_options: u8,
    pub ultra_fast_encoder_filter: u32,
    pub po_ext_bus_data: Vec<u8>,
    pub i2c_config: I2cConfig,
    pub i2c_metrics: I2cMetrics,
    pub validation_level: ValidationLevel,
    pub exchanges: Ghost<Seq<Exchange>>,
}

impl PoKeysDevice {
    /// The exchanges completed with the device so far, oldest first.
    pub open spec fn log(&self) -> Seq<Exchange> {
        self.exchanges@
    }

    /// The ID of the last request prepared.
    pub open spec fn request_id(&self) -> u8 {
        self.communication.last_request_id()
    }

    /// The connection type.
    pub open spec fn connection(&self) -> DeviceConnectionType {
        self.connection_type
    }

    /// Whether a transport of the device's connection type is attached.
    pub open spec fn connected(&self) -> bool {
        match self.connection_type {
            DeviceConnectionType::NetworkDevice => self.network_interface is Some,
            _ => self.usb_interface is Some,
        }
    }

    /// The calls made so far on the transport of the connection type.
    pub open spec fn link_ops(&self) -> Seq<LinkOp> {
        match self.connection_type {
            DeviceConnectionType::NetworkDevice => match self.network_interface {
                Some(iface) => iface.ops(),
                None => Seq::empty(),
            },
            _ => match self.usb_interface {
                Some(iface) => iface.ops(),
                None => Seq::empty(),
            },
        }
    }

    /// What a request puts on the wire: its USB HID packet, or its first 64
    /// bytes over the network.
    pub open spec fn wire_packet(&self, request: Seq<u8>) -> Seq<u8> {
        match self.connection_type {
            DeviceConnectionType::NetworkDevice => request.take(64),
            _ => hid_packet(request),
        }
    }

    /// The read of the request loop: USB polls of 20 ms; over the network a
    /// request without payload waits at most the socket timeout, one with
    /// payload as long as the transport does (`None`).
    pub open spec fn wire_timeout(&self, with_data: bool) -> Option<Duration> {
        match self.connection_type {
            DeviceConnectionType::NetworkDevice => if with_data {
                None
            } else {
                Some(self.timeout())
            },
            _ => usb_poll(),
        }
    }

    /// The count a read of the request loop must return to be taken: at
    /// least one byte over USB, eight over the network without payload, any
    /// with payload.
    pub open spec fn wire_min(&self, with_data: bool) -> nat {
        match self.connection_type {
            DeviceConnectionType::NetworkDevice => if with_data {
                0
            } else {
                8
            },
            _ => 1,
        }
    }

    /// The calls made on the transport since `before` are the retry loop of
    /// `request` (see [`attempts`]): its wire packet written at most the
    /// retry count of times; with a response `res`, the last call is the
    /// first read taken and `res` the bytes it left; without, exactly the
    /// retry count of writes and no read taken. With no transport attached,
    /// no call.
    pub open spec fn sent_on_link(&self, before: &PoKeysDevice, request: Seq<u8>, with_data: bool,
        res: Option<Seq<u8>>) -> bool {
        &&& ops_extend(self.link_ops(), before.link_ops())
        &&& !before.connected() ==> self.link_ops() == before.link_ops()
        &&& before.connected() ==> attempts(ops_since(self.link_ops(), before.link_ops()), before.wire_packet(request),
            before.wire_timeout(with_data), before.wire_min(with_data), request[6], before.retries() as nat, res)
    }

    /// The number of send retries of the request loops.
    pub open spec fn retries(&self) -> u32 {
        self.communication.retries()
    }

    /// The receive timeout of network requests.
    pub open spec fn timeout(&self) -> Duration {
        self.communication.timeout()
    }

    /// The connection type, retry settings and attached transports of `self`
    /// are those of `other` (a transport's own state may have moved on).
    pub open spec fn same_link(&self, other: &PoKeysDevice) -> bool {
        &&& self.same_connection(other)
        &&& self.communication.same_settings(&other.communication)
    }

    /// The connection type and attached transports of `self` are those of
    /// `other`.
    pub open spec fn same_connection(&self, other: &PoKeysDevice) -> bool {
        &&& self.connection_type == other.connection_type
        &&& self.connection_param == other.connection_param
        &&& (self.usb_interface is Some <==> other.usb_interface is Some)
        &&& (self.network_interface is Some <==> other.network_interface is Some)
    }

    /// The response of the last exchange.
    pub open spec fn reply(&self) -> Seq<u8> {
        self.log().last().1
    }

    /// `self` is `before` after one more exchange, whose request was the
    /// packet of type `t`, parameters `p1` to `p4`, the next request ID and
    /// `payload`; the response validated against that ID.
    pub open spec fn exchanged(&self, before: &PoKeysDevice, t: u8, p1: u8, p2: u8, p3: u8, p4: u8, payload: Seq<u8>) -> bool {
        &&& self.request_id() == next_id(before.request_id())
        &&& self.log().len() == before.log().len() + 1
        &&& self.log().take(before.log().len() as int) == before.log()
        &&& self.log().last().0 == request_packet(t, p1, p2, p3, p4, self.request_id(), payload)
        &&& response_valid(self.reply(), self.request_id())
        &&& self.reply().len() == RESPONSE_BUFFER_SIZE
    }

    /// The device data, peripheral state and configuration of `self` are
    /// those of `other`.
    pub open spec fn same_data(&self, other: &PoKeysDevice) -> bool {
        self.same_data_except(other, Set::empty())
    }

    /// The device data, peripheral state and configuration of `self` are
    /// those of `other`, but for the fields in `changed`.
    pub open spec fn same_data_except(&self, other: &PoKeysDevice, changed: Set<DeviceField>) -> bool {
        &&& changed.contains(DeviceField::Info) || self.info == other.info
        &&& changed.contains(DeviceField::DeviceData) || self.device_data == other.device_data
        &&& changed.contains(DeviceField::NetworkDeviceData) || self.network_device_data == other.network_device_data
        &&& changed.contains(DeviceField::Model) || self.model == other.model
        &&& changed.contains(DeviceField::Pins) || self.pins == other.pins
        &&& changed.contains(DeviceField::Encoders) || self.encoders == other.encoders
        &&& changed.contains(DeviceField::Pwm) || self.pwm == other.pwm
        &&& changed.contains(DeviceField::MatrixKeyboard) || self.matrix_keyboard == other.matrix_keyboard
        &&& changed.contains(DeviceField::MatrixLed) || self.matrix_led == other.matrix_led
        &&& changed.contains(DeviceField::Lcd) || self.lcd == other.lcd
        &&& changed.contains(DeviceField::PulseEngineV2) || self.pulse_engine_v2 == other.pulse_engine_v2
        &&& changed.contains(DeviceField::EasySensors) || self.easy_sensors == other.easy_sensors
        &&& changed.contains(DeviceField::Rtc) || self.rtc == other.rtc
        &&& changed.contains(DeviceField::FastEncodersConfiguration) || self.fast_encoders_configuration == other.fast_encoders_configuration
        &&& changed.contains(DeviceField::FastEncodersOptions) || self.fast_encoders_options == other.fast_encoders_options
        &&& changed.contains(DeviceField::UltraFastEncoderConfiguration) || self.ultra_fast_encoder_configuration == other.ultra_fast_encoder_configuration
        &&& changed.contains(DeviceField::UltraFastEncoderOptions) || self.ultra_fast_encoder_options == other.ultra_fast_encoder_options
        &&& changed.contains(DeviceField::UltraFastEncoderFilter) || self.ultra_fast_encoder_filter == other.ultra_fast_encoder_filter
        &&& changed.contains(DeviceField::PoExtBusData) || self.po_ext_bus_data == other.po_ext_bus_data
        &&& changed.contains(DeviceField::I2cConfig) || self.i2c_config == other.i2c_config
        &&& changed.contains(DeviceField::I2cMetrics) || self.i2c_metrics == other.i2c_metrics
        &&& changed.contains(DeviceField::ValidationLevel) || self.validation_level == other.validation_level
    }

    /// `self` is `before` with the fields in `changed` updated and no
    /// exchange made.
    pub open spec fn local_update(&self, before: &PoKeysDevice, changed: Set<DeviceField>) -> bool {
        &&& self.same_link(before)
        &&& self.log() == before.log()
        &&& self.request_id() == before.request_id()
        &&& self.same_data_except(before, changed)
    }

    /// Pin `pin` (1-based) is in the pin list.
    pub open spec fn valid_pin(&self, pin: u32) -> bool {
        1 <= pin && pin <= self.pins@.len()
    }

    /// The device data and link of `self` are those of `before`, and no
    /// exchange was made.
    pub open spec fn unchanged(&self, before: &PoKeysDevice) -> bool {
        self.local_update(before, Set::empty())
    }

    /// `self` is `before` after one more exchange (see [`Self::exchanged`])
    /// with the retry settings kept.
    pub open spec fn exchanged_once(&self, before: &PoKeysDevice, t: u8, p1: u8, p2: u8, p3: u8, p4: u8, payload: Seq<u8>) -> bool {
        self.same_link(before) && self.exchanged(before, t, p1, p2, p3, p4, payload)
    }

    /// One request without payload was tried over the transport (see
    /// [`Self::send_request`]): without a transport of the connection type
    /// nothing is sent and `NotConnected` comes back; with one, the next
    /// request ID is used, and a request that got no valid response left
    /// the log as it was and came back as a `Transfer` error.
    pub open spec fn tried<T>(&self, before: &PoKeysDevice, r: Result<T>) -> bool {
        &&& !before.connected() ==> (r matches Err(PoKeysError::NotConnected)) && self.request_id() == before.request_id()
            && self.log() == before.log()
        &&& before.connected() ==> self.request_id() == next_id(before.request_id())
        &&& before.connected() && self.log() == before.log() ==> r matches Err(PoKeysError::Transfer(_))
    }

    /// The response of the exchange logged since `before`, if one was.
    pub open spec fn new_reply(&self, before: &PoKeysDevice) -> Option<Seq<u8>> {
        if self.log().len() > before.log().len() {
            Some(self.reply())
        } else {
            None
        }
    }

    /// The request without payload of type `t` and parameters `p1` to `p4`
    /// was tried over the transport (see [`Self::tried`]); with a transport,
    /// it was the packet with the next request ID that the retry loop
    /// handed over, and a logged response is the bytes that loop took (see
    /// [`Self::sent_on_link`]).
    pub open spec fn tried_req<T>(&self, before: &PoKeysDevice, t: u8, p1: u8, p2: u8, p3: u8, p4: u8, r: Result<T>)
        -> bool {
        &&& self.tried(before, r)
        &&& self.sent_on_link(before, request_packet(t, p1, p2, p3, p4, self.request_id(), Seq::empty()), false,
            self.new_reply(before))
    }

    /// The request of type `t`, parameters `p1` to `p4` and `payload` was
    /// tried over the transport (see [`Self::tried_with_data`]); with a
    /// transport, it was the packet with the next request ID that the retry
    /// loop handed over, and a logged response is the bytes that loop took.
    pub open spec fn tried_data_req<T>(&self, before: &PoKeysDevice, t: u8, p1: u8, p2: u8, p3: u8, p4: u8,
        payload: Seq<u8>, r: Result<T>) -> bool {
        &&& self.tried_with_data(before, r)
        &&& self.sent_on_link(before, request_packet(t, p1, p2, p3, p4, self.request_id(), payload), true,
            self.new_reply(before))
    }

    /// One request with payload was tried over the transport (see
    /// [`Self::send_request_with_data`]): the next request ID is used in
    /// any case; without a transport of the connection type nothing is sent
    /// and `NotConnected` comes back; with one, a request that got no valid
    /// response left the log as it was and came back as a `Transfer` error.
    pub open spec fn tried_with_data<T>(&self, before: &PoKeysDevice, r: Result<T>) -> bool {
        &&& self.request_id() == next_id(before.request_id())
        &&& !before.connected() ==> (r matches Err(PoKeysError::NotConnected)) && self.log() == before.log()
        &&& before.connected() && self.log() == before.log() ==> r matches Err(PoKeysError::Transfer(_))
    }

    /// A device of the given connection type with no transport attached and
    /// blank data.
    pub fn new(connection_type: DeviceConnectionType) -> (r: Self)
        ensures
            r.connection() == connection_type,
            !r.connected(),
            r.log() == Seq::<Exchange>::empty(),
            r.request_id() == 0,
            r.retries() == 3,
            r.timeout() == crate::types::duration_from_millis(1000),
            r.info == zero_device_info(),
            r.rtc == zero_clock(),
            device_data_is_blank(r.device_data),
            r.network_device_data is None,
            r.model is None,
            r.pins@.len() == 0,
            r.encoders@.len() == 0,
            r.matrix_led@.len() == 0,
            r.easy_sensors@.len() == 0,
            r.po_ext_bus_data@.len() == 0,
    {
        PoKeysDevice {
            connection_type,
            connection_param: ConnectionParam::Tcp,
            info: DeviceInfo::default(),
            device_data: DeviceData::default(),
            network_device_data: None,
            model: None,
            pins: Vec::new(),
            encoders: Vec::new(),
            pwm: PwmData::new(),
            matrix_keyboard: MatrixKeyboard::new(),
            matrix_led: Vec::new(),
            lcd: LcdData::new(),
            pulse_engine_v2: PulseEngineV2::new(),
            easy_sensors: Vec::new(),
            rtc: RealTimeClock::default(),
            communication: CommunicationManager::new(connection_type),
            usb_interface: None,
            network_interface: None,
            fast_encoders_configuration: 0,
            fast_encoders_options: 0,
            ultra_fast_encoder_configuration: 0,
            ultra_fast_encoder_options: 0,
            ultra_fast_encoder_filter: 0,
            po_ext_bus_data: Vec::new(),
            i2c_config: I2cConfig::default(),
            i2c_metrics: I2cMetrics::default(),
            validation_level: ValidationLevel::Disabled,
            exchanges: Ghost(Seq::empty()),
        }
    }

    /// Attach the USB transport.
    pub fn attach_usb_interface(&mut self, interface: Box<dyn UsbHidInterface>)
        ensures
            final(self).usb_interface is Some,
            final(self).network_interface is Some <==> old(self).network_interface is Some,
            final(self).connection() == old(self).connection(),
            final(self).connection_param == old(self).connection_param,
            final(self).communication == old(self).communication,
            final(self).log() == old(self).log(),
            final(self).same_data(old(self)),
    {
        self.usb_interface = Some(interface);
    }

    /// Attach the network transport.
    pub fn attach_network_interface(&mut self, interface: Box<dyn NetworkInterface>)
        ensures
            final(self).network_interface is Some,
            final(self).usb_interface is Some <==> old(self).usb_interface is Some,
            final(self).connection() == old(self).connection(),
            final(self).connection_param == old(self).connection_param,
            final(self).communication == old(self).communication,
            final(self).log() == old(self).log(),
            final(self).same_data(old(self)),
    {
        self.network_interface = Some(interface);
    }

    /// Send a request without payload and wait for its response, over the
    /// transport of the connection type. Without that transport the request
    /// is not prepared and `NotConnected` is returned; a transport that gives
    /// no valid response within the retries yields its `Transfer` error.
    pub fn send_request(&mut self, request_type: u8, param1: u8, param2: u8, param3: u8, param4: u8)
        -> (r: Result<[u8; RESPONSE_BUFFER_SIZE]>)
        ensures
            final(self).same_link(old(self)),
            final(self).same_data(old(self)),
            r matches Ok(resp) ==> (final(self).exchanged(old(self), request_type, param1, param2, param3, param4,
                Seq::empty()) && final(self).reply() == resp@),
            r is Err ==> final(self).log() == old(self).log(),
            !old(self).connected() ==> (r matches Err(PoKeysError::NotConnected)
                && final(self).request_id() == old(self).request_id()),
            old(self).connected() ==> final(self).request_id() == next_id(old(self).request_id()),
            old(self).connected() && r is Err ==> r matches Err(PoKeysError::Transfer(_)),
            old(self).connected() && old(self).retries() == 0 ==> r is Err,
            final(self).sent_on_link(old(self), request_packet(request_type, param1, param2, param3, param4,
                final(self).request_id(), Seq::empty()), false, reply_of(r)),
            final(self).tried_req(old(self), request_type, param1, param2, param3, param4, r),
    {
        proof {
            assert(self.link_ops().take(self.link_ops().len() as int) =~= self.link_ops());
        }
        let r = match self.connection_type {
            DeviceConnectionType::NetworkDevice => {
                match &mut self.network_interface {
                    Some(iface) => self.communication.send_network_request(iface, request_type, param1, param2, param3, param4),
                    None => { return Err(PoKeysError::NotConnected); },
                }
            },
            _ => {
                match &mut self.usb_interface {
                    Some(iface) => self.communication.send_usb_request(iface, request_type, param1, param2, param3, param4),
                    None => { return Err(PoKeysError::NotConnected); },
                }
            },
        };
        if let Ok(resp) = &r {
            let ghost request = request_packet(request_type, param1, param2, param3, param4,
                self.communication.last_request_id(), Seq::empty());
            self.exchanges = Ghost(self.exchanges@.push((request, resp@)));
            assert(self.log().take(old(self).log().len() as int) =~= old(self).log());
        }
        r
    }

    /// Send a request carrying up to 56 bytes of `data` and wait for its
    /// response. The request is prepared (and its ID used) before the
    /// transport is looked up.
    pub fn send_request_with_data(&mut self, request_type: u8, param1: u8, param2: u8, param3: u8, param4: u8,
        data: &[u8]) -> (r: Result<[u8; RESPONSE_BUFFER_SIZE]>)
        ensures
            final(self).same_link(old(self)),
            final(self).same_data(old(self)),
            final(self).request_id() == next_id(old(self).request_id()),
            r matches Ok(resp) ==> (final(self).exchanged(old(self), request_type, param1, param2, param3, param4,
                payload_part(data@)) && final(self).reply() == resp@),
            r is Err ==> final(self).log() == old(self).log(),
            !old(self).connected() ==> r matches Err(PoKeysError::NotConnected),
            old(self).connected() && r is Err ==> r matches Err(PoKeysError::Transfer(_)),
            old(self).connected() && old(self).retries() == 0 ==> r is Err,
            final(self).sent_on_link(old(self), request_packet(request_type, param1, param2, param3, param4,
                final(self).request_id(), payload_part(data@)), true, reply_of(r)),
            final(self).tried_data_req(old(self), request_type, param1, param2, param3, param4, payload_part(data@), r),
    {
        proof {
            assert(self.link_ops().take(self.link_ops().len() as int) =~= self.link_ops());
        }
        let request = self.communication.prepare_request_with_data(request_type, param1, param2, param3, param4,
            Some(data));
        let r = match self.connection_type {
            DeviceConnectionType::NetworkDevice => {
                match &mut self.network_interface {
                    Some(iface) => self.communication.send_network_request_raw(iface, &request),
                    None => { return Err(PoKeysError::NotConnected); },
                }
            },
            _ => {
                match &mut self.usb_interface {
                    Some(iface) => self.communication.send_usb_request_raw(iface, &request),
                    None => { return Err(PoKeysError::NotConnected); },
                }
            },
        };
        if let Ok(resp) = &r {
            self.exchanges = Ghost(self.exchanges@.push((request@, resp@)));
            assert(self.log().take(old(self).log().len() as int) =~= old(self).log());
        }
        r
    }
}

/// The device information with every count and flag zero.
pub open spec fn zero_device_info() -> DeviceInfo {
    DeviceInfo {
        pin_count: 0,
        pwm_count: 0,
        basic_encoder_count: 0,
        encoders_count: 0,
        fast_encoders: 0,
        ultra_fast_encoders: 0,
        pwm_internal_frequency: 0,
        analog_inputs: 0,
        key_mapping: 0,
        triggered_key_mapping: 0,
        key_repeat_delay: 0,
        digital_counters: 0,
        joystick_button_axis_mapping: 0,
        joystick_analog_to_digital_mapping: 0,
        macros: 0,
        matrix_keyboard: 0,
        matrix_keyboard_triggered_mapping: 0,
        lcd: 0,
        matrix_led: 0,
        connection_signal: 0,
        po_ext_bus: 0,
        po_net: 0,
        analog_filtering: 0,
        init_outputs_start: 0,
        prot_i2c: 0,
        prot_1wire: 0,
        additional_options: 0,
        load_status: 0,
        custom_device_name: 0,
        po_tlog27_support: 0,
        sensor_list: 0,
        web_interface: 0,
        fail_safe_settings: 0,
        joystick_hat_switch: 0,
        pulse_engine: 0,
        pulse_engine_v2: 0,
        easy_sensors: 0,
    }
}

impl Default for DeviceInfo {
    fn default() -> (r: Self)
        ensures
            r == zero_device_info(),
    {
        DeviceInfo {
        pin_count: 0,
        pwm_count: 0,
        basic_encoder_count: 0,
        encoders_count: 0,
        fast_encoders: 0,
        ultra_fast_encoders: 0,
        pwm_internal_frequency: 0,
        analog_inputs: 0,
        key_mapping: 0,
        triggered_key_mapping: 0,
        key_repeat_delay: 0,
        digital_counters: 0,
        joystick_button_axis_mapping: 0,
        joystick_analog_to_digital_mapping: 0,
        macros: 0,
        matrix_keyboard: 0,
        matrix_keyboard_triggered_mapping: 0,
        lcd: 0,
        matrix_led: 0,
        connection_signal: 0,
        po_ext_bus: 0,
        po_net: 0,
        analog_filtering: 0,
        init_outputs_start: 0,
        prot_i2c: 0,
        prot_1wire: 0,
        additional_options: 0,
        load_status: 0,
        custom_device_name: 0,
        po_tlog27_support: 0,
        sensor_list: 0,
        web_interface: 0,
        fail_safe_settings: 0,
        joystick_hat_switch: 0,
        pulse_engine: 0,
        pulse_engine_v2: 0,
        easy_sensors: 0,
        }
    }
}

/// The real-time clock with every field zero.
pub open spec fn zero_clock() -> RealTimeClock {
    RealTimeClock { sec: 0, min: 0, hour: 0, dow: 0, dom: 0, tmp: 0, doy: 0, month: 0, year: 0 }
}

impl Default for RealTimeClock {
    fn default() -> (r: Self)
        ensures
            r == zero_clock(),
    {
        RealTimeClock { sec: 0, min: 0, hour: 0, dow: 0, dom: 0, tmp: 0, doy: 0, month: 0, year: 0 }
    }
}

/// A little-endian 32-bit number from four bytes.
pub open spec fn le_u32(b0: u8, b1: u8, b2: u8, b3: u8) -> u32 {
    (b0 as int + 256 * b1 as int + 65536 * b2 as int + 16777216 * b3 as int) as u32
}

/// The `PK58` or `PKEx` signature of an extended device at bytes 8 to 11 of a
/// response of at least 64 bytes.
pub open spec fn has_extended_signature(r: Seq<u8>) -> bool {
    &&& r.len() >= 64
    &&& r[8] == 0x50u8
    &&& r[9] == 0x4Bu8
    &&& ((r[10] == 0x35u8 && r[11] == 0x38u8) || (r[10] == 0x45u8 && r[11] == 0x78u8))
}

/// `after` is `before` updated from a `0x00` device data response: the
/// software version byte 4 gives major `1 + high nibble` and minor `low
/// nibble`, byte 5 the revision. An extended device (see
/// [`has_extended_signature`]) also gives a 32-bit serial at bytes 12 to 15,
/// the secondary version at 16 and 17, the hardware type at 18, the user ID
/// at 19, the build date at 20 to 30, the name at 31 to 40, the firmware type
/// at 41, the product ID at 57 and the lock status at 58; a legacy device
/// gives a 16-bit big-endian serial at bytes 2 and 3, hardware type 0 and no
/// name or build date.
pub open spec fn device_data_parsed(after: DeviceData, before: DeviceData, r: Seq<u8>) -> bool {
    &&& after.firmware_version_major == 1 + r[4] / 16
    &&& after.firmware_version_minor == r[4] % 16
    &&& after.firmware_revision == r[5]
    &&& after.device_type_id == before.device_type_id
    &&& after.device_type_name == before.device_type_name
    &&& after.activation_code == before.activation_code
    &&& after.device_type == before.device_type
    &&& after.activated_options == before.activated_options
    &&& after.device_is_bootloader == before.device_is_bootloader
    &&& if has_extended_signature(r) {
        &&& after.serial_number == le_u32(r[12], r[13], r[14], r[15])
        &&& after.device_lock_status == r[58]
        &&& after.secondary_firmware_version_major == r[16]
        &&& after.secondary_firmware_version_minor == r[17]
        &&& after.hw_type == r[18]
        &&& after.user_id == r[19]
        &&& after.fw_type == r[41]
        &&& after.product_id == r[57]
        &&& after.device_name@ == r.subrange(31, 41) + Seq::new(20, |i: int| 0u8)
        &&& after.build_date@ == r.subrange(20, 31) + Seq::new(1, |i: int| 0u8)
    } else {
        &&& after.serial_number == 256 * r[2] + r[3]
        &&& after.hw_type == 0
        &&& after.device_name@ == Seq::new(30, |i: int| 0u8)
        &&& after.build_date@ == Seq::new(12, |i: int| 0u8)
        &&& after.device_lock_status == before.device_lock_status
        &&& after.secondary_firmware_version_major == before.secondary_firmware_version_major
        &&& after.secondary_firmware_version_minor == before.secondary_firmware_version_minor
        &&& after.user_id == before.user_id
        &&& after.fw_type == before.fw_type
        &&& after.product_id == before.product_id
    }
}

/// The serial number that a device data response gives: for an extended
/// device the little-endian 32-bit number of bytes 12 to 15 (byte 12 the
/// lowest), for a legacy one the big-endian 16-bit number of bytes 2 and 3
/// (byte 3 the lowest); and the firmware version `1 + high nibble` and `low
/// nibble` of byte 4, revision byte 5.
pub proof fn lemma_device_data_serial(after: DeviceData, before: DeviceData, r: Seq<u8>)
    requires
        r.len() >= 6,
        device_data_parsed(after, before, r),
    ensures
        has_extended_signature(r) ==> after.serial_number == r[12] as int + 256 * (r[13] as int) + 65536 * (r[14] as int)
            + 16777216 * (r[15] as int),
        !has_extended_signature(r) ==> after.serial_number == 256 * (r[2] as int) + r[3] as int,
        after.firmware_version_major == 1 + r[4] / 16,
        after.firmware_version_minor == r[4] % 16,
        after.firmware_revision == r[5],
{
}

/// The signature test on a response, in code.
fn extended_signature(r: &[u8]) -> (b: bool)
    ensures
        b == has_extended_signature(r@),
{
    r.len() >= 64 && r[8] == 0x50 && r[9] == 0x4B && ((r[10] == 0x35 && r[11] == 0x38) || (r[10] == 0x45
        && r[11] == 0x78))
}

/// `n` bytes of `src` from `from`, followed by zeros up to `N`.
fn bytes_padded<const N: usize>(src: &[u8], from: usize, n: usize) -> (r: [u8; N])
    requires
        from + n <= src@.len(),
        from <= 64,
        n <= 64,
        n <= N,
    ensures
        r@ == src@.subrange(from as int, from + n) + Seq::new((N - n) as nat, |i: int| 0u8),
{
    let mut out = [0u8; N];
    let mut i: usize = 0;
    while i < n
        invariant
            i <= n,
            n <= N,
            from + n <= src@.len(),
            from <= 64,
            n <= 64,
            out@.len() == N,
            forall|k: int| 0 <= k < i ==> out@[k] == src@[from + k],
            forall|k: int| i <= k < N ==> out@[k] == 0u8,
        decreases n - i,
    {
        out[i] = src[from + i];
        i = i + 1;
    }
    assert(out@ =~= src@.subrange(from as int, from + n) + Seq::new((N - n) as nat, |i: int| 0u8));
    out
}

/// The system load reported by a `0x05` response: byte 2.
pub fn parse_system_load_response(response: &[u8]) -> (r: u8)
    requires
        response@.len() >= 3,
    ensures
        r == response@[2],
{
    response[2]
}

/// Message of a key mapping read response that does not echo `0xCA`.
pub open spec fn mapping_command_message(option: u8, echo: u8) -> Seq<char> {
    "Invalid response command for key mapping read (option "@ + dec(option as nat) + "): 0x"@ + hex2(echo)
}

/// Message of a key mapping read response shorter than 42 bytes.
pub open spec fn mapping_short_message(option: u8, len: nat) -> Seq<char> {
    "Key mapping response too short for option "@ + dec(option as nat) + ": "@ + dec(len) + " bytes (need 42)"@
}

/// Check a key mapping read response: it echoes `0xCA` and has the 42 bytes
/// that a chunk decode reads.
pub fn validate_matrix_kb_mapping_response(response: &[u8], option: u8) -> (r: Result<()>)
    requires
        response@.len() >= 2,
    ensures
        response@[1] != 0xCA ==> (r matches Err(PoKeysError::Protocol(m)) && m@ == mapping_command_message(option,
            response@[1])),
        response@[1] == 0xCA && response@.len() < 42 ==> (r matches Err(PoKeysError::Protocol(m)) && m@
            == mapping_short_message(option, response@.len())),
        response@[1] == 0xCA && response@.len() >= 42 ==> r is Ok,
{
    if response[1] != 0xCA {
        let mut m = string_of("Invalid response command for key mapping read (option ");
        push_dec(&mut m, option as u64);
        m.append("): 0x");
        push_hex2(&mut m, response[1]);
        return Err(PoKeysError::Protocol(m));
    }
    if response.len() < 42 {
        let mut m = string_of("Key mapping response too short for option ");
        push_dec(&mut m, option as u64);
        m.append(": ");
        push_dec(&mut m, response.len() as u64);
        m.append(" bytes (need 42)");
        return Err(PoKeysError::Protocol(m));
    }
    Ok(())
}

impl PoKeysDevice {
    /// Update the device data from a `0x00` device data response (see
    /// [`device_data_parsed`]); nothing else changes.
    pub fn parse_device_data_response(&mut self, response: &[u8]) -> (r: Result<()>)
        requires
            response@.len() >= 6,
        ensures
            r is Ok,
            device_data_parsed(final(self).device_data, old(self).device_data, response@),
            final(self).local_update(old(self), set![DeviceField::DeviceData]),
    {
        let v = response[4];
        proof { crate::bits::lemma_nibbles(v); }
        let major: u8 = 1 + ((v >> 4u8) & 0x0F);
        let minor: u8 = v & 0x0F;
        if extended_signature(response) {
            let serial: u32 = (response[12] as u32) | ((response[13] as u32) << 8u32) | ((response[14] as u32)
                << 16u32) | ((response[15] as u32) << 24u32);
            let b0 = response[12];
            let b1 = response[13];
            let b2 = response[14];
            let b3 = response[15];
            proof { crate::bits::lemma_le_join(b0, b1, b2, b3); }
            self.device_data.serial_number = serial;
            self.device_data.device_lock_status = response[58];
            self.device_data.firmware_version_major = major;
            self.device_data.firmware_version_minor = minor;
            self.device_data.firmware_revision = response[5];
            self.device_data.secondary_firmware_version_major = response[16];
            self.device_data.secondary_firmware_version_minor = response[17];
            self.device_data.hw_type = response[18];
            self.device_data.user_id = response[19];
            self.device_data.fw_type = response[41];
            self.device_data.product_id = response[57];
            self.device_data.device_name = bytes_padded::<30>(response, 31, 10);
            self.device_data.build_date = bytes_padded::<12>(response, 20, 11);
        } else {
            let serial: u32 = ((response[2] as u32) << 8u32) | (response[3] as u32);
            let b2 = response[2];
            let b3 = response[3];
            assert(((b2 as u32) << 8u32) | (b3 as u32) == 256 * (b2 as u32) + (b3 as u32)) by (bit_vector);
            self.device_data.serial_number = serial;
            self.device_data.firmware_version_major = major;
            self.device_data.firmware_version_minor = minor;
            self.device_data.firmware_revision = response[5];
            self.device_data.hw_type = 0;
            self.device_data.device_name = [0u8; 30];
            self.device_data.build_date = [0u8; 12];
            assert(self.device_data.device_name@ =~= Seq::new(30, |i: int| 0u8));
            assert(self.device_data.build_date@ =~= Seq::new(12, |i: int| 0u8));
        }
        Ok(())
    }
}

/// Whether the PoKeys57CNC pin table gives `pin` the capability `cap`.
pub open spec fn pokeys57cnc_pin_has(pin: u32, cap: PinCapability) -> bool {
    if 1 <= pin <= 2 {
        cap is DigitalInput || cap is DigitalOutput || cap is DigitalCounter || cap is FastEncoder1A
    } else if 3 <= pin <= 6 {
        cap is DigitalInput || cap is DigitalCounter || cap is FastEncoder1A
    } else if pin == 8 || (12 <= pin <= 13) {
        cap is DigitalInput || cap is DigitalOutput
    } else if (9 <= pin <= 11) || (15 <= pin <= 16) || pin == 19 {
        cap is DigitalInput || cap is DigitalCounter
    } else if pin == 14 {
        cap is DigitalInput
    } else if (17 <= pin <= 18) || (20 <= pin <= 21) {
        cap is DigitalOutput || cap is PwmOutput
    } else {
        false
    }
}

/// The PoKeys57CNC pin table read by capability: digital inputs on pins 1
/// to 6, 8 to 16 and 19; digital outputs on 1, 2, 8, 12, 13, 17, 18, 20 and
/// 21; digital counters on 1 to 6, 9 to 11, 15, 16 and 19; fast encoder 1A
/// on 1 to 6; PWM outputs on 17, 18, 20 and 21; no other capability on any
/// pin.
pub proof fn lemma_pokeys57cnc_table(pin: u32, cap: PinCapability)
    ensures
        cap is DigitalInput ==> (pokeys57cnc_pin_has(pin, cap) <==> (1 <= pin <= 6 || 8 <= pin <= 16 || pin == 19)),
        cap is DigitalOutput ==> (pokeys57cnc_pin_has(pin, cap) <==> (pin == 1 || pin == 2 || pin == 8 || pin == 12
            || pin == 13 || pin == 17 || pin == 18 || pin == 20 || pin == 21)),
        cap is DigitalCounter ==> (pokeys57cnc_pin_has(pin, cap) <==> (1 <= pin <= 6 || 9 <= pin <= 11 || pin == 15
            || pin == 16 || pin == 19)),
        cap is FastEncoder1A ==> (pokeys57cnc_pin_has(pin, cap) <==> 1 <= pin <= 6),
        cap is PwmOutput ==> (pokeys57cnc_pin_has(pin, cap) <==> (pin == 17 || pin == 18 || pin == 20 || pin == 21)),
        !(cap is DigitalInput || cap is DigitalOutput || cap is DigitalCounter || cap is FastEncoder1A
            || cap is PwmOutput) ==> !pokeys57cnc_pin_has(pin, cap),
{
}

/// The PoKeys57CNC pin capability table.
pub fn check_pokeys57cnc_pin_capability(pin: u32, capability: PinCapability) -> (r: bool)
    ensures
        r == pokeys57cnc_pin_has(pin, capability),
{
    if 1 <= pin && pin <= 2 {
        matches!(capability, PinCapability::DigitalInput | PinCapability::DigitalOutput
            | PinCapability::DigitalCounter | PinCapability::FastEncoder1A)
    } else if 3 <= pin && pin <= 6 {
        matches!(capability, PinCapability::DigitalInput | PinCapability::DigitalCounter
            | PinCapability::FastEncoder1A)
    } else if pin == 8 || (12 <= pin && pin <= 13) {
        matches!(capability, PinCapability::DigitalInput | PinCapability::DigitalOutput)
    } else if (9 <= pin && pin <= 11) || (15 <= pin && pin <= 16) || pin == 19 {
        matches!(capability, PinCapability::DigitalInput | PinCapability::DigitalCounter)
    } else if pin == 14 {
        matches!(capability, PinCapability::DigitalInput)
    } else if (17 <= pin && pin <= 18) || (20 <= pin && pin <= 21) {
        matches!(capability, PinCapability::DigitalOutput | PinCapability::PwmOutput)
    } else {
        false
    }
}

/// The XOR of a sequence of bytes.
pub open spec fn xor_all(s: Seq<u8>) -> u8
    decreases s.len(),
{
    if s.len() == 0 { 0 } else { xor_all(s.drop_last()) ^ s.last() }
}

/// XOR checksum of a packet.
fn xor_checksum(data: &[u8], n: usize) -> (r: u8)
    requires
        n <= data@.len(),
    ensures
        r == xor_all(data@.take(n as int)),
{
    let mut acc: u8 = 0;
    let mut i: usize = 0;
    while i < n
        invariant
            i <= n,
            n <= data@.len(),
            acc == xor_all(data@.take(i as int)),
        decreases n - i,
    {
        assert(data@.take(i + 1).drop_last() =~= data@.take(i as int));
        acc = acc ^ data[i];
        i = i + 1;
    }
    acc
}

/// Which check refuses a packet at a validation level: 0 none, 1 the size
/// (fewer than 3 bytes), 2 the command byte, 3 the device ID byte, 4 the
/// last byte, which must be the XOR of the others. `Basic` checks the size;
/// `Strict` all four, with commands `0x11..=0x42` and device IDs below 16;
/// `Custom` those that its configuration enables, against its command set
/// (when not empty) and its maximum device ID.
pub open spec fn packet_fault(level: &ValidationLevel, data: Seq<u8>) -> int {
    let short = data.len() < 3;
    match level {
        ValidationLevel::Disabled => 0,
        ValidationLevel::Basic => if short { 1 } else { 0 },
        ValidationLevel::Strict => {
            if short { 1 }
            else if !(0x11 <= data[0] <= 0x42) { 2 }
            else if data[1] >= 16 { 3 }
            else if data.last() != xor_all(data.drop_last()) { 4 }
            else { 0 }
        },
        ValidationLevel::Custom(c) => {
            if c.validate_packet_structure && short { 1 }
            else if short { 0 }
            else if c.validate_command_ids && !c.valid_commands@.is_empty() && !c.valid_commands@.contains(data[0]) { 2 }
            else if c.validate_device_ids && data[1] > c.max_device_id { 3 }
            else if c.validate_checksums && data.last() != xor_all(data.drop_last()) { 4 }
            else { 0 }
        },
    }
}

/// The result that a packet check gives for a fault.
pub open spec fn packet_check_result(fault: int, data: Seq<u8>, r: Result<()>) -> bool {
    if fault == 1 {
        r matches Err(PoKeysError::InvalidPacketStructure(m)) && m@ == "Minimum packet size is 3 bytes"@
    } else if fault == 2 {
        r matches Err(PoKeysError::InvalidCommand(c)) && c == data[0]
    } else if fault == 3 {
        r matches Err(PoKeysError::InvalidDeviceId(d)) && d == data[1]
    } else if fault == 4 {
        r matches Err(PoKeysError::InvalidChecksumDetailed { expected, received })
            && expected == xor_all(data.drop_last()) && received == data.last()
    } else {
        r is Ok
    }
}

fn short_packet() -> (r: PoKeysError)
    ensures
        r matches PoKeysError::InvalidPacketStructure(m) && m@ == "Minimum packet size is 3 bytes"@,
{
    PoKeysError::InvalidPacketStructure(string_of("Minimum packet size is 3 bytes"))
}

fn checksum_fault(data: &[u8]) -> (r: Option<PoKeysError>)
    requires
        data@.len() >= 3,
    ensures
        data@.last() != xor_all(data@.drop_last()) ==> (r matches Some(PoKeysError::InvalidChecksumDetailed {
            expected, received }) && expected == xor_all(data@.drop_last()) && received == data@.last()),
        data@.last() == xor_all(data@.drop_last()) ==> r is None,
{
    let n = data.len() - 1;
    let expected = xor_checksum(data, n);
    assert(data@.take(n as int) =~= data@.drop_last());
    let received = data[n];
    if received != expected {
        Some(PoKeysError::InvalidChecksumDetailed { expected, received })
    } else {
        None
    }
}

impl PoKeysDevice {
    /// Validate a packet at the device's validation level (see
    /// [`packet_fault`]).
    pub fn validate_packet(&self, data: &[u8]) -> (r: Result<()>)
        ensures
            packet_check_result(packet_fault(&self.validation_level, data@), data@, r),
    {
        match &self.validation_level {
            ValidationLevel::Disabled => Ok(()),
            ValidationLevel::Basic => self.validate_basic_structure(data),
            ValidationLevel::Strict => self.validate_strict_protocol(data),
            ValidationLevel::Custom(config) => self.validate_custom(data, config),
        }
    }

    fn validate_basic_structure(&self, data: &[u8]) -> (r: Result<()>)
        ensures
            packet_check_result(packet_fault(&ValidationLevel::Basic, data@), data@, r),
    {
        if data.len() < 3 {
            return Err(short_packet());
        }
        Ok(())
    }

    fn validate_strict_protocol(&self, data: &[u8]) -> (r: Result<()>)
        ensures
            packet_check_result(packet_fault(&ValidationLevel::Strict, data@), data@, r),
    {
        if data.len() < 3 {
            return Err(short_packet());
        }
        let command = data[0];
        let device_id = data[1];
        if !(0x11 <= command && command <= 0x42) {
            return Err(PoKeysError::InvalidCommand(command));
        }
        if device_id >= 16 {
            return Err(PoKeysError::InvalidDeviceId(device_id));
        }
        match checksum_fault(data) {
            Some(e) => Err(e),
            None => Ok(()),
        }
    }

    fn validate_custom(&self, data: &[u8], config: &ValidationConfig) -> (r: Result<()>)
        ensures
            packet_check_result(packet_fault(&ValidationLevel::Custom(*config), data@), data@, r),
    {
        if config.validate_packet_structure && data.len() < 3 {
            return Err(short_packet());
        }
        if data.len() >= 3 {
            let command = data[0];
            let device_id = data[1];
            if config.validate_command_ids && !config.valid_commands.is_empty() && !config.valid_commands.contains(
                &command) {
                return Err(PoKeysError::InvalidCommand(command));
            }
            if config.validate_device_ids && device_id > config.max_device_id {
                return Err(PoKeysError::InvalidDeviceId(device_id));
            }
            if config.validate_checksums {
                match checksum_fault(data) {
                    Some(e) => { return Err(e); },
                    None => {},
                }
            }
        }
        Ok(())
    }

    /// Whether the device type's pin table gives `pin` the capability: false
    /// for a pin beyond the pin list, and for any device but the PoKeys57CNC
    /// (type 32).
    pub fn check_pin_capability(&self, pin: u32, capability: PinCapability) -> (r: bool)
        ensures
            r == ((pin as int) < self.pins@.len() && self.device_data.device_type_id == 32
                && pokeys57cnc_pin_has(pin, capability)),
    {
        if pin as usize >= self.pins.len() {
            return false;
        }
        if self.device_data.device_type_id == 32 {
            check_pokeys57cnc_pin_capability(pin, capability)
        } else {
            false
        }
    }
}

/// `before` and `after` differ only in the retry settings.
pub open spec fn settings_update(after: &PoKeysDevice, before: &PoKeysDevice) -> bool {
    &&& after.same_connection(before)
    &&& after.log() == before.log()
    &&& after.request_id() == before.request_id()
    &&& after.same_data(before)
}

/// The network information that a `0xE0` read response reports: DHCP at
/// byte 8, the set-up address at 9 to 12, the current address at 13 to 16,
/// the TCP timeout at 17 and 18 (little endian, in units of 100 ms, saturated
/// in milliseconds), the gateway at 19 to 22, the mask at 23 to 26 and the
/// options at 27.
pub open spec fn network_info_parsed(c: NetworkDeviceInfo, r: Seq<u8>) -> bool {
    let units = r[17] as int + 256 * r[18] as int;
    &&& c.dhcp == r[8]
    &&& c.ip_address_setup@ == r.subrange(9, 13)
    &&& c.ip_address_current@ == r.subrange(13, 17)
    &&& c.tcp_timeout == (if units * 100 > 65535 { 65535 } else { units * 100 })
    &&& c.gateway_ip@ == r.subrange(19, 23)
    &&& c.subnet_mask@ == r.subrange(23, 27)
    &&& c.additional_network_options == r[27]
}

fn four(r: &[u8], at: usize) -> (q: [u8; 4])
    requires
        at + 4 <= r@.len(),
        at <= 64,
    ensures
        q@ == r@.subrange(at as int, at + 4),
{
    let q = [r[at], r[at + 1], r[at + 2], r[at + 3]];
    assert(q@ =~= r@.subrange(at as int, at + 4));
    q
}

/// Parse the network information of a `0xE0` read response.
pub fn parse_network_configuration(response: &[u8]) -> (c: NetworkDeviceInfo)
    requires
        response@.len() >= 28,
    ensures
        network_info_parsed(c, response@),
{
    let units: u16 = (response[17] as u16) | ((response[18] as u16) << 8u16);
    let lo = response[17];
    let hi = response[18];
    assert((lo as u16) | ((hi as u16) << 8u16) == lo as int + 256 * hi as int) by (bit_vector);
    NetworkDeviceInfo {
        dhcp: response[8],
        ip_address_setup: four(response, 9),
        ip_address_current: four(response, 13),
        tcp_timeout: if units > 655 { 65535 } else { units * 100 },
        gateway_ip: four(response, 19),
        subnet_mask: four(response, 23),
        additional_network_options: response[27],
    }
}

/// The 21-byte payload of a `0xE0` option-10 write: DHCP, the set-up
/// address, four zeros, the TCP timeout in units of 100 ms (at least 1,
/// little endian), the gateway, the mask, whether a gateway or mask is set,
/// and the options with the upper nibble `0xA`.
pub open spec fn network_config_payload(c: NetworkDeviceInfo) -> Seq<u8> {
    let units: int = if c.tcp_timeout / 100 < 1 { 1 } else { (c.tcp_timeout / 100) as int };
    let flag: u8 = if c.gateway_ip@ != seq![0u8, 0, 0, 0] || c.subnet_mask@ != seq![0u8, 0, 0, 0] { 1 } else { 0 };
    seq![c.dhcp] + c.ip_address_setup@ + seq![0u8, 0, 0, 0, (units % 256) as u8, (units / 256) as u8]
        + c.gateway_ip@ + c.subnet_mask@ + seq![flag, (c.additional_network_options % 16 + 0xA0) as u8]
}

/// The layout of the network configuration write, byte by byte: DHCP at 0,
/// the set-up address at 1 to 4 (its first byte first), zeros at 5 to 8, the
/// TCP timeout in units of 100 ms (at least one) at 9 (low) and 10 (high),
/// the gateway at 11 to 14, the mask at 15 to 18, at 19 whether a gateway
/// or mask is set, and at 20 the options in the low nibble under `0xA`.
pub proof fn lemma_network_config_layout(c: NetworkDeviceInfo)
    ensures
        network_config_payload(c).len() == 21,
        network_config_payload(c)[0] == c.dhcp,
        forall|k: int| 0 <= k < 4 ==> #[trigger] network_config_payload(c)[1 + k] == c.ip_address_setup@[k]
            && network_config_payload(c)[5 + k] == 0 && network_config_payload(c)[11 + k] == c.gateway_ip@[k]
            && network_config_payload(c)[15 + k] == c.subnet_mask@[k],
        network_config_payload(c)[9] + 256 * network_config_payload(c)[10] == (if c.tcp_timeout < 100 { 1 } else {
            c.tcp_timeout / 100 }),
        (network_config_payload(c)[19] == 1) == (exists|k: int| 0 <= k < 4 && (c.gateway_ip@[k] != 0
            || c.subnet_mask@[k] != 0)),
        network_config_payload(c)[19] <= 1,
        network_config_payload(c)[20] / 16 == 0xA && network_config_payload(c)[20] % 16 == c.additional_network_options % 16,
{
    let p = network_config_payload(c);
    assert forall|k: int| 0 <= k < 4 implies #[trigger] p[1 + k] == c.ip_address_setup@[k] && p[5 + k] == 0 && p[11
        + k] == c.gateway_ip@[k] && p[15 + k] == c.subnet_mask@[k] by {
        if k == 0 {} else if k == 1 {} else if k == 2 {} else {}
    }
    let g = c.gateway_ip@;
    let m = c.subnet_mask@;
    if g[0] == 0 && g[1] == 0 && g[2] == 0 && g[3] == 0 {
        assert(g =~= seq![0u8, 0, 0, 0]);
    }
    if m[0] == 0 && m[1] == 0 && m[2] == 0 && m[3] == 0 {
        assert(m =~= seq![0u8, 0, 0, 0]);
    }
    if g != seq![0u8, 0, 0, 0] {
        if g[0] == 0 && g[1] == 0 && g[2] == 0 && g[3] == 0 {
        } else if g[0] != 0 {
            assert(0 <= 0 < 4 && (g[0] != 0 || m[0] != 0));
        } else if g[1] != 0 {
            assert(0 <= 1 < 4 && (g[1] != 0 || m[1] != 0));
        } else if g[2] != 0 {
            assert(0 <= 2 < 4 && (g[2] != 0 || m[2] != 0));
        } else {
            assert(0 <= 3 < 4 && (g[3] != 0 || m[3] != 0));
        }
    }
    if m != seq![0u8, 0, 0, 0] {
        if m[0] == 0 && m[1] == 0 && m[2] == 0 && m[3] == 0 {
        } else if m[0] != 0 {
            assert(0 <= 0 < 4 && (g[0] != 0 || m[0] != 0));
        } else if m[1] != 0 {
            assert(0 <= 1 < 4 && (g[1] != 0 || m[1] != 0));
        } else if m[2] != 0 {
            assert(0 <= 2 < 4 && (g[2] != 0 || m[2] != 0));
        } else {
            assert(0 <= 3 < 4 && (g[3] != 0 || m[3] != 0));
        }
    }
}

fn network_config_bytes(config: &NetworkDeviceInfo) -> (d: [u8; 21])
    ensures
        d@ == network_config_payload(*config),
{
    let t = config.tcp_timeout / 100;
    let units: u16 = if t < 1 { 1 } else { t };
    let zero4: [u8; 4] = [0, 0, 0, 0];
    let g = config.gateway_ip;
    let m = config.subnet_mask;
    let set = g[0] != 0 || g[1] != 0 || g[2] != 0 || g[3] != 0 || m[0] != 0 || m[1] != 0 || m[2] != 0 || m[3] != 0;
    let flag: u8 = if set { 1 } else { 0 };
    let opts = config.additional_network_options;
    let options: u8 = (opts & 0x0F) | 0xA0;
    assert((opts & 0x0F) | 0xA0 == opts % 16 + 0xA0) by (bit_vector);
    let lo: u8 = (units % 256) as u8;
    let hi: u8 = (units / 256) as u8;
    let s = config.ip_address_setup;
    let d: [u8; 21] = [config.dhcp, s[0], s[1], s[2], s[3], 0, 0, 0, 0, lo, hi, g[0], g[1], g[2], g[3], m[0], m[1],
        m[2], m[3], flag, options];
    proof {
        assert(g@ != seq![0u8, 0, 0, 0] <==> (g[0] != 0 || g[1] != 0 || g[2] != 0 || g[3] != 0)) by {
            if g[0] == 0 && g[1] == 0 && g[2] == 0 && g[3] == 0 {
                assert(g@ =~= seq![0u8, 0, 0, 0]);
            }
        }
        assert(m@ != seq![0u8, 0, 0, 0] <==> (m[0] != 0 || m[1] != 0 || m[2] != 0 || m[3] != 0)) by {
            if m[0] == 0 && m[1] == 0 && m[2] == 0 && m[3] == 0 {
                assert(m@ =~= seq![0u8, 0, 0, 0]);
            }
        }
    }
    assert(d@ =~= network_config_payload(*config));
    d
}

impl PoKeysDevice {
    /// Read the device data (`0x00`) and update `device_data` from the
    /// response (see [`device_data_parsed`]).
    pub fn read_device_data(&mut self) -> (r: Result<()>)
        ensures
            final(self).tried(old(self), r),
            final(self).same_link(old(self)),
            r is Ok ==> final(self).exchanged(old(self), 0x00, 0, 0, 0, 0, Seq::empty())
                && device_data_parsed(final(self).device_data, old(self).device_data, final(self).reply())
                && final(self).same_data_except(old(self), set![DeviceField::DeviceData]),
            r is Err ==> final(self).log() == old(self).log() && final(self).same_data(old(self)),
            !old(self).connected() ==> r matches Err(PoKeysError::NotConnected),
    {
        let response = self.send_request(0x00, 0, 0, 0, 0)?;
        if response.len() < 64 {
            return Err(PoKeysError::Protocol(string_of("Read device data response too short")));
        }
        let ghost mid = *self;
        self.parse_device_data_response(&response)
    }

    /// Whether the device reports its configuration as locked: reads the
    /// device data and tests the lock status byte.
    pub fn is_configuration_locked(&mut self) -> (r: Result<bool>)
        ensures
            final(self).tried(old(self), r),
            link_error(r),
            final(self).same_link(old(self)),
            r is Ok ==> final(self).exchanged(old(self), 0x00, 0, 0, 0, 0, Seq::empty())
                && device_data_parsed(final(self).device_data, old(self).device_data, final(self).reply())
                && final(self).same_data_except(old(self), set![DeviceField::DeviceData]),
            r matches Ok(b) ==> b == (final(self).reply()[58] != 0 && has_extended_signature(final(self).reply())
                || old(self).device_data.device_lock_status != 0 && !has_extended_signature(final(self).reply())),
            r is Err ==> final(self).log() == old(self).log() && final(self).same_data(old(self)),
            !old(self).connected() ==> r matches Err(PoKeysError::NotConnected),
    {
        self.read_device_data()?;
        Ok(self.device_data.device_lock_status != 0)
    }

    /// The system load in percent (`0x05`): byte 2 of the response.
    pub fn get_system_load(&mut self) -> (r: Result<u8>)
        ensures
            final(self).tried(old(self), r),
            final(self).same_link(old(self)),
            final(self).same_data(old(self)),
            r matches Ok(v) ==> final(self).exchanged(old(self), 0x05, 0, 0, 0, 0, Seq::empty())
                && v == final(self).reply()[2],
            r is Err ==> final(self).log() == old(self).log(),
            !old(self).connected() ==> r matches Err(PoKeysError::NotConnected),
    {
        let response = self.send_request(0x05, 0, 0, 0, 0)?;
        Ok(parse_system_load_response(&response))
    }

    /// Save the configuration to the device's memory (`0x50` with `0xAA`,
    /// `0x55`).
    pub fn save_configuration(&mut self) -> (r: Result<()>)
        ensures
            final(self).tried(old(self), r),
            final(self).same_link(old(self)),
            final(self).same_data(old(self)),
            r is Ok ==> final(self).exchanged(old(self), 0x50, 0xAA, 0x55, 0, 0, Seq::empty()),
            r is Err ==> final(self).log() == old(self).log(),
            !old(self).connected() ==> r matches Err(PoKeysError::NotConnected),
    {
        self.send_request(0x50, 0xAA, 0x55, 0, 0)?;
        Ok(())
    }

    /// Reset the configuration (`0x52` with `0xAA`, `0x55`). The device may
    /// drop the connection before it replies, so a transfer error counts as
    /// success: with a transport attached this always succeeds.
    pub fn clear_configuration(&mut self) -> (r: Result<()>)
        ensures
            link_error(r),
            final(self).same_link(old(self)),
            final(self).same_data(old(self)),
            r is Ok <==> old(self).connected(),
            !old(self).connected() ==> r matches Err(PoKeysError::NotConnected),
            final(self).log() == old(self).log()
                || final(self).exchanged(old(self), 0x52, 0xAA, 0x55, 0, 0, Seq::empty()),
    {
        match self.send_request(0x52, 0xAA, 0x55, 0, 0) {
            Ok(_) => Ok(()),
            Err(PoKeysError::Transfer(_)) => Ok(()),
            Err(e) => Err(e),
        }
    }

    /// Reboot the device (`0xF3`). The device may reboot before it replies, so
    /// a transfer error counts as success: with a transport attached this
    /// always succeeds.
    pub fn reboot_device(&mut self) -> (r: Result<()>)
        ensures
            link_error(r),
            final(self).same_link(old(self)),
            final(self).same_data(old(self)),
            r is Ok <==> old(self).connected(),
            !old(self).connected() ==> r matches Err(PoKeysError::NotConnected),
            final(self).log() == old(self).log()
                || final(self).exchanged(old(self), 0xF3, 0, 0, 0, 0, Seq::empty()),
    {
        match self.send_request(0xF3, 0, 0, 0, 0) {
            Ok(_) => Ok(()),
            Err(PoKeysError::Transfer(_)) => Ok(()),
            Err(e) => Err(e),
        }
    }

    /// Send a request of any type and return the raw response.
    pub fn custom_request(&mut self, request_type: u8, param1: u8, param2: u8, param3: u8, param4: u8)
        -> (r: Result<[u8; RESPONSE_BUFFER_SIZE]>)
        ensures
            final(self).tried(old(self), r),
            final(self).same_link(old(self)),
            final(self).same_data(old(self)),
            r matches Ok(resp) ==> (final(self).exchanged(old(self), request_type, param1, param2, param3, param4,
                Seq::empty()) && final(self).reply() == resp@),
            r is Err ==> final(self).log() == old(self).log(),
            !old(self).connected() ==> r matches Err(PoKeysError::NotConnected),
    {
        self.send_request(request_type, param1, param2, param3, param4)
    }

    /// Set the send retries and the network timeout in milliseconds; the read
    /// retry count is not used.
    pub fn set_ethernet_retry_count_and_timeout(&mut self, send_retries: u32, read_retries: u32, timeout_ms: u32)
        ensures
            settings_update(final(self), old(self)),
            final(self).retries() == send_retries,
            final(self).timeout() == crate::types::duration_from_millis(timeout_ms as u64),
    {
        self.communication.set_retries_and_timeout(send_retries, 0, millis(timeout_ms as u64));
    }

    /// Set the network receive timeout, keeping the retry count.
    pub fn set_network_timeout(&mut self, timeout: Duration)
        ensures
            settings_update(final(self), old(self)),
            final(self).retries() == old(self).retries(),
            final(self).timeout() == timeout,
    {
        let send_retries = self.communication.send_retries();
        self.communication.set_retries_and_timeout(send_retries, 0, timeout);
    }

    /// Set the number of send retries, keeping the timeout.
    pub fn set_network_retries(&mut self, retries: u32)
        ensures
            settings_update(final(self), old(self)),
            final(self).retries() == retries,
            final(self).timeout() == old(self).timeout(),
    {
        let timeout = self.communication.socket_timeout();
        self.communication.set_retries_and_timeout(retries, 0, timeout);
    }

    /// The network receive timeout.
    pub fn network_timeout(&self) -> (r: Duration)
        ensures
            r == self.timeout(),
    {
        self.communication.socket_timeout()
    }

    /// The number of send retries.
    pub fn send_retries(&self) -> (r: u32)
        ensures
            r == self.retries(),
    {
        self.communication.send_retries()
    }

    /// One retry with a 100 ms timeout, for latency-sensitive polling.
    pub fn tune_for_realtime_polling(&mut self)
        ensures
            settings_update(final(self), old(self)),
            final(self).retries() == 1,
            final(self).timeout() == crate::types::duration_from_millis(100),
    {
        self.communication.set_retries_and_timeout(1, 0, millis(100));
    }

    /// The connection type.
    pub fn get_connection_type(&self) -> (r: DeviceConnectionType)
        ensures
            r == self.connection(),
    {
        self.connection_type
    }

    /// Set the I2C configuration.
    pub fn set_i2c_config(&mut self, config: I2cConfig)
        ensures
            final(self).i2c_config == config,
            final(self).local_update(old(self), set![DeviceField::I2cConfig]),
    {
        self.i2c_config = config;
    }

    /// The I2C configuration.
    pub fn get_i2c_config(&self) -> (r: &I2cConfig)
        ensures
            *r == self.i2c_config,
    {
        &self.i2c_config
    }

    /// Set the validation level.
    pub fn set_validation_level(&mut self, level: ValidationLevel)
        ensures
            final(self).validation_level == level,
            final(self).local_update(old(self), set![DeviceField::ValidationLevel]),
    {
        self.validation_level = level;
    }

    /// The I2C metrics.
    pub fn get_i2c_metrics(&self) -> (r: &I2cMetrics)
        ensures
            *r == self.i2c_metrics,
    {
        &self.i2c_metrics
    }

    /// Reset the I2C metrics to zero.
    pub fn reset_i2c_metrics(&mut self)
        ensures
            final(self).i2c_metrics.total_commands == 0,
            final(self).i2c_metrics.successful_commands == 0,
            final(self).i2c_metrics.failed_commands == 0,
            final(self).i2c_metrics.error_counts@ == Map::<String, u32>::empty(),
            final(self).local_update(old(self), set![DeviceField::I2cMetrics]),
    {
        self.i2c_metrics = I2cMetrics::default();
    }

    /// Whether the loaded model gives pin `pin` (as a byte) the capability;
    /// true when no model is loaded.
    pub fn is_pin_capability_supported(&self, pin: u32, capability: &str) -> (r: bool)
        ensures
            r == match self.model {
                Some(m) => pin_has(m, pin as u8, capability@),
                None => true,
            },
    {
        match &self.model {
            Some(model) => model.is_pin_capability_supported(pin as u8, capability),
            None => true,
        }
    }

    /// The capabilities that the loaded model lists for pin `pin` (as a
    /// byte); none without a model.
    pub fn get_pin_capabilities(&self, pin: u32) -> (r: Vec<String>)
        ensures
            r@.map_values(|s: String| s@) == match self.model {
                Some(m) => if m.pins@.contains_key(pin as u8) { cap_seq(m.pins@[pin as u8]) } else { Seq::empty() },
                None => Seq::empty(),
            },
    {
        match &self.model {
            Some(model) => model.get_pin_capabilities(pin as u8),
            None => {
                let v: Vec<String> = Vec::new();
                assert(v@.map_values(|s: String| s@) =~= Seq::<Seq<char>>::empty());
                v
            },
        }
    }

    /// Validate a capability of pin `pin` (as a byte) against the loaded
    /// model; anything passes without a model.
    pub fn validate_pin_capability(&self, pin: u32, capability: &str) -> (r: Result<()>)
        requires
            encoder_cap_well_formed(capability@),
        ensures
            match self.model {
                Some(m) => pin_capability_outcome(m, pin as u8, capability@, r),
                None => r is Ok,
            },
    {
        match &self.model {
            Some(model) => model.validate_pin_capability(pin as u8, capability),
            None => Ok(()),
        }
    }

    /// The capabilities related to one of pin `pin` (as a byte) in the
    /// loaded model; none without a model.
    pub fn get_related_capabilities(&self, pin: u32, capability: &str) -> (r: Vec<(String, u8)>)
        requires
            encoder_cap_well_formed(capability@),
        ensures
            r@.map_values(|e: (String, u8)| (e.0@, e.1)) == match self.model {
                Some(m) => related_capabilities(m, pin as u8, capability@),
                None => Seq::empty(),
            },
    {
        match &self.model {
            Some(model) => model.get_related_capabilities(pin as u8, capability),
            None => {
                let v: Vec<(String, u8)> = Vec::new();
                assert(v@.map_values(|e: (String, u8)| (e.0@, e.1)) =~= Seq::<(Seq<char>, u8)>::empty());
                v
            },
        }
    }

    /// Write the network configuration and save it (`0xE0` option 10, see
    /// [`network_config_payload`]).
    pub fn set_network_configuration(&mut self, config: &NetworkDeviceInfo) -> (r: Result<()>)
        ensures
            final(self).tried_with_data(old(self), r),
            final(self).same_link(old(self)),
            final(self).same_data(old(self)),
            r is Ok ==> final(self).exchanged(old(self), 0xE0, 10, 0, 0, 0, network_config_payload(*config)),
            r is Err ==> final(self).log() == old(self).log(),
            !old(self).connected() ==> r matches Err(PoKeysError::NotConnected),
    {
        let data = network_config_bytes(config);
        self.send_request_with_data(0xE0, 10, 0, 0, 0, &data)?;
        Ok(())
    }

    /// The network configuration: the entry of `discovered` whose serial is
    /// the device's, and the information of a `0xE0` read.
    pub fn get_network_configuration(&mut self, discovered: &[NetworkDeviceSummary])
        -> (r: Result<(Option<NetworkDeviceSummary>, NetworkDeviceInfo)>)
        ensures
            final(self).tried(old(self), r),
            final(self).same_link(old(self)),
            final(self).same_data(old(self)),
            r matches Ok((d, c)) ==> final(self).exchanged(old(self), 0xE0, 0, 0, 0, 0, Seq::empty())
                && network_info_parsed(c, final(self).reply())
                && d == first_with_serial(discovered@, old(self).device_data.serial_number),
            r is Err ==> final(self).log() == old(self).log(),
            !old(self).connected() ==> r matches Err(PoKeysError::NotConnected),
    {
        let serial = self.device_data.serial_number;
        let mut found: Option<NetworkDeviceSummary> = None;
        let mut i: usize = 0;
        assert(discovered@.skip(0) =~= discovered@);
        while i < discovered.len() && found.is_none()
            invariant
                i <= discovered@.len(),
                found is None ==> first_with_serial(discovered@, serial) == first_with_serial(discovered@.skip(i as int),
                    serial),
                found is Some ==> first_with_serial(discovered@, serial) == found,
            decreases discovered@.len() - i,
        {
            assert(discovered@.skip(i as int).first() == discovered@[i as int]);
            assert(discovered@.skip(i as int).drop_first() =~= discovered@.skip(i + 1));
            if discovered[i].serial_number == serial {
                found = Some(discovered[i]);
            }
            i = i + 1;
        }
        proof {
            if found is None {
                assert(discovered@.skip(i as int) =~= Seq::<NetworkDeviceSummary>::empty());
            }
        }
        let response = self.send_request(0xE0, 0x00, 0x00, 0, 0)?;
        let config = parse_network_configuration(&response);
        Ok((found, config))
    }
}

/// The first summary of a list with the given serial number.
pub open spec fn first_with_serial(list: Seq<NetworkDeviceSummary>, serial: u32) -> Option<NetworkDeviceSummary>
    decreases list.len(),
{
    if list.len() == 0 {
        None
    } else if list.first().serial_number == serial {
        Some(list.first())
    } else {
        first_with_serial(list.drop_first(), serial)
    }
}

/// The error of a pin number outside the pin list.
pub open spec fn invalid_pin<T>(r: Result<T>) -> bool {
    r matches Err(PoKeysError::Parameter(m)) && m@ == "Invalid pin number"@
}

/// The error that a device gives for a refused pin operation.
pub open spec fn pin_refused<T>(r: Result<T>) -> bool {
    r matches Err(PoKeysError::InternalError(m)) && m@ == "Invalid pin or configuration locked"@
}

/// The request ID `k` steps after `id`.
pub open spec fn id_after(id: u8, k: nat) -> u8 {
    ((id as int + k) % 256) as u8
}

impl PoKeysDevice {
    /// Response `i` among the exchanges made since `before`.
    pub open spec fn response_no(&self, before: &PoKeysDevice, i: int) -> Seq<u8> {
        self.log()[before.log().len() + i].1
    }

    /// `self` is `before` after one exchange for each packet of `reqs`, in
    /// order; each response validated against its request's ID (byte 6).
    pub open spec fn exchanged_all(&self, before: &PoKeysDevice, reqs: Seq<Seq<u8>>) -> bool {
        &&& self.logged_all(before, reqs)
        &&& self.request_id() == id_after(before.request_id(), reqs.len())
    }

    /// The requests `reqs` (without checks on their responses) were sent in
    /// order, each once the one before went through: those that went
    /// through are logged since `before`. Without a transport of the
    /// connection type nothing is sent and `NotConnected` comes back; with
    /// one, `r` is `Ok` when every request went through, else it is the
    /// `Transfer` error of the first request that got no valid response,
    /// whose ID was used, and nothing after it was sent.
    pub open spec fn sent_in_turn<T>(&self, before: &PoKeysDevice, reqs: Seq<Req>, r: Result<T>) -> bool {
        let id0 = before.request_id();
        let k = self.log().len() - before.log().len();
        &&& 0 <= k <= reqs.len()
        &&& self.logged_all(before, packets(reqs.take(k), id0))
        &&& k > 0 ==> before.connected()
        &&& r is Ok ==> k == reqs.len() && self.exchanged_all(before, packets(reqs, id0))
        &&& r is Err ==> k < reqs.len() && (if before.connected() {
            (r matches Err(PoKeysError::Transfer(_))) && self.request_id() == id_after(id0, (k + 1) as nat)
        } else {
            (r matches Err(PoKeysError::NotConnected)) && k == 0 && self.request_id() == id0
        })
    }

    /// The log of `self` is that of `before` followed by one exchange for
    /// each packet of `reqs`, in order; each response validated against its
    /// request's ID (byte 6).
    pub open spec fn logged_all(&self, before: &PoKeysDevice, reqs: Seq<Seq<u8>>) -> bool {
        &&& self.log().len() == before.log().len() + reqs.len()
        &&& self.log().take(before.log().len() as int) == before.log()
        &&& forall|i: int| 0 <= i < reqs.len() ==> #[trigger] self.log()[before.log().len() + i].0 == reqs[i]
        &&& forall|i: int| 0 <= i < reqs.len() ==> response_valid(#[trigger] self.response_no(before, i), reqs[i][6])
            && self.response_no(before, i).len() == RESPONSE_BUFFER_SIZE
    }
}

/// One exchange is a sequence of one.
pub proof fn lemma_exchanged_one(after: &PoKeysDevice, before: &PoKeysDevice, t: u8, p1: u8, p2: u8, p3: u8, p4: u8,
    payload: Seq<u8>)
    requires
        after.exchanged(before, t, p1, p2, p3, p4, payload),
        payload.len() <= 56,
    ensures
        after.exchanged_all(before, seq![request_packet(t, p1, p2, p3, p4, next_id(before.request_id()), payload)]),
{
    let req = request_packet(t, p1, p2, p3, p4, next_id(before.request_id()), payload);
    assert(req[6] == next_id(before.request_id()));
    assert(after.log()[before.log().len() as int] == after.log().last());
}

/// Exchanges in sequence chain.
pub proof fn lemma_exchanged_chain(c: &PoKeysDevice, b: &PoKeysDevice, a: &PoKeysDevice, r1: Seq<Seq<u8>>, r2: Seq<Seq<u8>>)
    requires
        b.exchanged_all(a, r1),
        c.exchanged_all(b, r2),
    ensures
        c.exchanged_all(a, r1 + r2),
{
    let n = a.log().len();
    let m = b.log().len();
    assert(c.log().take(n as int) =~= c.log().take(m as int).take(n as int));
    let x = a.request_id() as int + r1.len();
    let y = r2.len() as int;
    vstd::arithmetic::div_mod::lemma_add_mod_noop(x, y, 256);
    vstd::arithmetic::div_mod::lemma_mod_twice(y, 256);
    assert(y % 256 % 256 == y % 256);
    assert(((x % 256) + y) % 256 == (x + y) % 256) by {
        vstd::arithmetic::div_mod::lemma_add_mod_noop(x % 256, y, 256);
        vstd::arithmetic::div_mod::lemma_mod_twice(x, 256);
    }
    assert forall|i: int| 0 <= i < (r1 + r2).len() implies #[trigger] c.log()[n + i].0 == (r1 + r2)[i] by {
        if i < r1.len() {
            assert(c.log()[n + i] == c.log().take(m as int)[n + i]);
            assert(b.log()[n + i].0 == r1[i]);
        } else {
            let j = i - r1.len();
            assert(c.log()[m + j].0 == r2[j]);
        }
    }
    assert forall|i: int| 0 <= i < (r1 + r2).len() implies response_valid(#[trigger] c.response_no(a, i),
        (r1 + r2)[i][6]) && c.response_no(a, i).len() == RESPONSE_BUFFER_SIZE by {
        if i < r1.len() {
            assert(c.log()[n + i] == c.log().take(m as int)[n + i]);
            assert(c.response_no(a, i) == b.response_no(a, i));
        } else {
            let j = i - r1.len();
            assert(c.response_no(a, i) == c.response_no(b, j));
        }
    }
}

/// A request: type, four parameters and payload.
pub type Req = (u8, u8, u8, u8, u8, Seq<u8>);

/// The packets of a sequence of requests made one after the other from
/// request ID `id`.
pub open spec fn packets(reqs: Seq<Req>, id: u8) -> Seq<Seq<u8>> {
    Seq::new(reqs.len(), |j: int| request_packet(reqs[j].0, reqs[j].1, reqs[j].2, reqs[j].3, reqs[j].4,
        id_after(id, (j + 1) as nat), reqs[j].5))
}

/// A request without payload.
pub open spec fn plain(t: u8, p1: u8, p2: u8, p3: u8, p4: u8) -> Req {
    (t, p1, p2, p3, p4, Seq::empty())
}

/// One more exchange extends a sequence of exchanges by its request.
pub proof fn lemma_exchange_step(cur: &PoKeysDevice, prev: &PoKeysDevice, start: &PoKeysDevice, reqs: Seq<Req>, k: int)
    requires
        0 <= k < reqs.len(),
        reqs[k].5.len() <= 56,
        prev.exchanged_all(start, packets(reqs.take(k), start.request_id())),
        cur.exchanged(prev, reqs[k].0, reqs[k].1, reqs[k].2, reqs[k].3, reqs[k].4, reqs[k].5),
    ensures
        cur.exchanged_all(start, packets(reqs.take(k + 1), start.request_id())),
{
    let id0 = start.request_id();
    lemma_exchanged_one(cur, prev, reqs[k].0, reqs[k].1, reqs[k].2, reqs[k].3, reqs[k].4, reqs[k].5);
    let x = id0 as int + k;
    assert(next_id(id_after(id0, k as nat)) == id_after(id0, (k + 1) as nat)) by {
        vstd::arithmetic::div_mod::lemma_add_mod_noop(x, 1, 256);
        vstd::arithmetic::div_mod::lemma_mod_twice(x, 256);
    }
    let one = seq![request_packet(reqs[k].0, reqs[k].1, reqs[k].2, reqs[k].3, reqs[k].4, next_id(prev.request_id()), reqs[k].5)];
    lemma_exchanged_chain(cur, prev, start, packets(reqs.take(k), id0), one);
    assert(packets(reqs.take(k), id0) + one =~= packets(reqs.take(k + 1), id0));
}

/// All requests went through: they were sent in turn with `Ok`.
pub proof fn lemma_sent_all<T>(cur: &PoKeysDevice, start: &PoKeysDevice, reqs: Seq<Req>, r: Result<T>)
    requires
        cur.exchanged_all(start, packets(reqs, start.request_id())),
        reqs.len() > 0 ==> start.connected(),
        r is Ok,
    ensures
        cur.sent_in_turn(start, reqs, r),
{
    assert(reqs.take(reqs.len() as int) =~= reqs);
}

/// Request `k` of `reqs` got no valid response after the ones before it
/// went through: they were sent in turn with its error.
pub proof fn lemma_sent_fail<T>(cur: &PoKeysDevice, prev: &PoKeysDevice, start: &PoKeysDevice, reqs: Seq<Req>, k: int,
    r: Result<T>)
    requires
        0 <= k < reqs.len(),
        prev.exchanged_all(start, packets(reqs.take(k), start.request_id())),
        prev.connected() == start.connected(),
        k > 0 ==> start.connected(),
        r is Err,
        cur.tried(prev, r) || cur.tried_with_data(prev, r),
        cur.log() == prev.log(),
        !start.connected() ==> cur.request_id() == prev.request_id(),
    ensures
        cur.sent_in_turn(start, reqs, r),
{
    let id0 = start.request_id();
    let ps = packets(reqs.take(k), id0);
    assert forall|i: int| 0 <= i < ps.len() implies response_valid(#[trigger] cur.response_no(start, i), ps[i][6])
        && cur.response_no(start, i).len() == RESPONSE_BUFFER_SIZE by {
        assert(cur.response_no(start, i) == prev.response_no(start, i));
    }
    lemma_next_id_after(id0, k as nat);
    if !start.connected() {
        assert(id_after(id0, 0) == id0);
    }
}

/// IDs counted on from an ID counted on add up.
pub proof fn lemma_id_after_add(id: u8, a: nat, b: nat)
    ensures
        id_after(id_after(id, a), b) == id_after(id, a + b),
{
    let x = id as int + a;
    vstd::arithmetic::div_mod::lemma_add_mod_noop(x, b as int, 256);
    vstd::arithmetic::div_mod::lemma_mod_twice(x, 256);
    vstd::arithmetic::div_mod::lemma_mod_twice(b as int, 256);
    vstd::arithmetic::div_mod::lemma_add_mod_noop(x % 256, b as int, 256);
}

/// Logged exchanges in sequence chain.
pub proof fn lemma_logged_chain(c: &PoKeysDevice, b: &PoKeysDevice, a: &PoKeysDevice, r1: Seq<Seq<u8>>, r2: Seq<Seq<u8>>)
    requires
        b.logged_all(a, r1),
        c.logged_all(b, r2),
    ensures
        c.logged_all(a, r1 + r2),
{
    let n = a.log().len();
    let m = b.log().len();
    assert(c.log().take(n as int) =~= c.log().take(m as int).take(n as int));
    assert forall|i: int| 0 <= i < (r1 + r2).len() implies #[trigger] c.log()[n + i].0 == (r1 + r2)[i] by {
        if i < r1.len() {
            assert(c.log()[n + i] == c.log().take(m as int)[n + i]);
            assert(b.log()[n + i].0 == r1[i]);
        } else {
            let j = i - r1.len();
            assert(c.log()[m + j].0 == r2[j]);
        }
    }
    assert forall|i: int| 0 <= i < (r1 + r2).len() implies response_valid(#[trigger] c.response_no(a, i),
        (r1 + r2)[i][6]) && c.response_no(a, i).len() == RESPONSE_BUFFER_SIZE by {
        if i < r1.len() {
            assert(c.log()[n + i] == c.log().take(m as int)[n + i]);
            assert(c.response_no(a, i) == b.response_no(a, i));
        } else {
            let j = i - r1.len();
            assert(c.response_no(a, i) == c.response_no(b, j));
        }
    }
}

/// Requests sent in turn after requests that all went through were sent in
/// turn with them.
pub proof fn lemma_sent_chain<T>(cur: &PoKeysDevice, mid: &PoKeysDevice, start: &PoKeysDevice, a: Seq<Req>, b: Seq<Req>,
    r: Result<T>)
    requires
        mid.exchanged_all(start, packets(a, start.request_id())),
        cur.sent_in_turn(mid, b, r),
        mid.connected() == start.connected(),
        a.len() > 0 ==> start.connected(),
    ensures
        cur.sent_in_turn(start, a + b, r),
{
    let id0 = start.request_id();
    let kb = cur.log().len() - mid.log().len();
    assert((a + b).take(a.len() + kb) =~= a + b.take(kb));
    crate::device::lcd_ops::lemma_packets_concat(a, b.take(kb), id0);
    lemma_logged_chain(cur, mid, start, packets(a, id0), packets(b.take(kb), mid.request_id()));
    if r is Ok {
        assert(b.take(kb) =~= b);
        crate::device::lcd_ops::lemma_packets_concat(a, b, id0);
        lemma_exchanged_chain(cur, mid, start, packets(a, id0), packets(b, mid.request_id()));
    } else if start.connected() {
        lemma_id_after_add(id0, a.len(), (kb + 1) as nat);
    } else {
        assert(a.len() == 0);
        assert(id_after(id0, 0) == id0);
    }
}

/// Requests sent in turn that failed were sent in turn as the beginning of
/// a longer list.
pub proof fn lemma_sent_prefix<T>(cur: &PoKeysDevice, start: &PoKeysDevice, a: Seq<Req>, full: Seq<Req>, r: Result<T>)
    requires
        cur.sent_in_turn(start, a, r),
        r is Err,
        a.len() <= full.len(),
        a == full.take(a.len() as int),
    ensures
        cur.sent_in_turn(start, full, r),
{
    let k = cur.log().len() - start.log().len();
    assert(full.take(k) =~= a.take(k));
}

/// Requests sent in turn from one of two states with the same log, request
/// ID and link were sent in turn from the other.
pub proof fn lemma_sent_same_base<T>(cur: &PoKeysDevice, a: &PoKeysDevice, b: &PoKeysDevice, reqs: Seq<Req>, r: Result<T>)
    requires
        a.log() == b.log(),
        a.request_id() == b.request_id(),
        a.connected() == b.connected(),
        cur.sent_in_turn(a, reqs, r),
    ensures
        cur.sent_in_turn(b, reqs, r),
{
    let k = cur.log().len() - a.log().len();
    lemma_same_base(cur, a, b, packets(reqs.take(k), a.request_id()));
    if r is Ok {
        lemma_same_base(cur, a, b, packets(reqs, a.request_id()));
    }
}

/// No exchange is an empty sequence of exchanges.
pub proof fn lemma_exchange_none(d: &PoKeysDevice, reqs: Seq<Req>)
    ensures
        d.exchanged_all(d, packets(reqs.take(0), d.request_id())),
{
    assert(d.log().take(d.log().len() as int) =~= d.log());
    assert(id_after(d.request_id(), 0) == d.request_id());
}

/// Exchanges counted from one of two states with the same log and request
/// ID are counted from the other.
pub proof fn lemma_same_base(d: &PoKeysDevice, a: &PoKeysDevice, b: &PoKeysDevice, reqs: Seq<Seq<u8>>)
    requires
        a.log() == b.log(),
        d.logged_all(a, reqs),
    ensures
        d.logged_all(b, reqs),
        a.request_id() == b.request_id() && d.exchanged_all(a, reqs) ==> d.exchanged_all(b, reqs),
{
    assert forall|i: int| 0 <= i < reqs.len() implies response_valid(#[trigger] d.response_no(b, i), reqs[i][6])
        && d.response_no(b, i).len() == RESPONSE_BUFFER_SIZE by {
        assert(d.response_no(b, i) == d.response_no(a, i));
    }
}

/// The request ID after `id_after(id, k)` is `id_after(id, k + 1)`.
pub proof fn lemma_next_id_after(id: u8, k: nat)
    ensures
        next_id(id_after(id, k)) == id_after(id, k + 1),
{
    let x = id as int + k;
    vstd::arithmetic::div_mod::lemma_add_mod_noop(x, 1, 256);
    vstd::arithmetic::div_mod::lemma_mod_twice(x, 256);
}

/// Two states with the same log and request ID count the same exchanges.
pub proof fn lemma_same_log(d1: &PoKeysDevice, d2: &PoKeysDevice, start: &PoKeysDevice, reqs: Seq<Seq<u8>>)
    requires
        d1.log() == d2.log(),
        d1.request_id() == d2.request_id(),
        d1.exchanged_all(start, reqs),
    ensures
        d2.exchanged_all(start, reqs),
        forall|j: int| #[trigger] d2.response_no(start, j) == d1.response_no(start, j),
{
    assert forall|i: int| 0 <= i < reqs.len() implies response_valid(#[trigger] d2.response_no(start, i), reqs[i][6])
        && d2.response_no(start, i).len() == RESPONSE_BUFFER_SIZE by {
        assert(d2.response_no(start, i) == d1.response_no(start, i));
    }
}

} // verus!
