//! Matrix keyboard requests of a device (command `0xCA`).

use vstd::prelude::*;
use vstd::string::*;
use crate::device::{
    DeviceField, MATRIX_KEYBOARD_ID, PoKeysDevice, Req, id_after, is_kb_readback, kb_config_payload_byte,
    kb_verify_outcome, lemma_next_id_after, packets, plain, readback_echo_message, encode_matrix_kb_config_payload,
    parse_matrix_kb_config_readback, verify_matrix_kb_config_matches, lemma_exchange_none, lemma_exchange_step,
    lemma_same_log, link_error,
};
use crate::error::{PoKeysError, Result};
use crate::io::{settings_applied};
use crate::keyboard_matrix::{MatrixKeyboard, MatrixKeyboardConfig};
use crate::text::{dec, hex2, push_dec, push_hex2, string_of};
use crate::communication::{payload_part, request_packet, response_valid};
use crate::device::{keys_in_chunk, bit_of, decoded_list, decoded_triggered, is_mapping_chunk, encode_matrix_kb_mapping_chunk,
    decode_matrix_kb_mapping_chunk, validate_matrix_kb_mapping_response};

verus! {

/// The first pin of a list outside 1 to 55.
pub open spec fn first_bad_pin(pins: Seq<u8>) -> Option<u8>
    decreases pins.len(),
{
    if pins.len() == 0 {
        None
    } else if pins.first() == 0 || pins.first() > 55 {
        Some(pins.first())
    } else {
        first_bad_pin(pins.drop_first())
    }
}

/// The first row pin that is also a column pin.
pub open spec fn first_shared_pin(rows: Seq<u8>, cols: Seq<u8>) -> Option<u8>
    decreases rows.len(),
{
    if rows.len() == 0 {
        None
    } else if cols.contains(rows.first()) {
        Some(rows.first())
    } else {
        first_shared_pin(rows.drop_first(), cols)
    }
}

/// The parameter error of a matrix keyboard configuration, if any: the size,
/// the list lengths, the used pins (rows then columns) outside 1 to 55, then
/// a used row pin that is also a used column pin. Entries beyond the size are
/// not checked.
pub open spec fn kb_param_error(width: u8, height: u8, cols: Seq<u8>, rows: Seq<u8>) -> Option<Seq<char>> {
    if width == 0 || width > 8 {
        Some("Matrix width must be 1-8 (got "@ + dec(width as nat) + ")"@)
    } else if height == 0 || height > 16 {
        Some("Matrix height must be 1-16 (got "@ + dec(height as nat) + ")"@)
    } else if cols.len() < width {
        Some("column_pins has "@ + dec(cols.len()) + " entries, need at least "@ + dec(width as nat))
    } else if rows.len() < height {
        Some("row_pins has "@ + dec(rows.len()) + " entries, need at least "@ + dec(height as nat))
    } else if first_bad_pin(rows.take(height as int) + cols.take(width as int)) is Some {
        Some("Matrix keyboard pin "@ + dec(first_bad_pin(rows.take(height as int) + cols.take(width as int))->0 as nat)
            + " is out of range (must be 1-55)"@)
    } else if first_shared_pin(rows.take(height as int), cols.take(width as int)) is Some {
        Some("Pin "@ + dec(first_shared_pin(rows.take(height as int), cols.take(width as int))->0 as nat)
            + " cannot be used as both a row and a column"@)
    } else {
        None
    }
}

/// The settings bytes with the function of each listed pin set to `f`,
/// keeping its invert flag, in list order.
pub open spec fn with_function(raw: Seq<u8>, pins: Seq<u8>, f: u8) -> Seq<u8>
    decreases pins.len(),
{
    if pins.len() == 0 {
        raw
    } else {
        let prev = with_function(raw, pins.drop_last(), f);
        let i = pins.last() - 1;
        prev.update(i, f | (prev[i] & 0x80))
    }
}

/// The settings bytes that a matrix keyboard configuration writes: used rows
/// become digital outputs, then used columns digital inputs.
pub open spec fn kb_pin_settings(raw: Seq<u8>, width: u8, height: u8, cols: Seq<u8>, rows: Seq<u8>) -> Seq<u8> {
    with_function(with_function(raw, rows.take(height as int), 4), cols.take(width as int), 2)
}

/// The 55-byte option-16 configuration payload.
pub open spec fn kb_config_payload(width: u8, height: u8, cols: Seq<u8>, rows: Seq<u8>) -> Seq<u8> {
    Seq::new(55, |j: int| kb_config_payload_byte(width, height, cols, rows, j))
}

/// The first `n` entries of `s` (as far as it reaches), zero padded to `n`.
pub open spec fn padded(s: Seq<u8>, n: nat) -> Seq<u8> {
    Seq::new(n, |i: int| if i < s.len() { s[i] } else { 0u8 })
}

fn bad_pin_check(pins: &[u8], upto: usize, rest: &[u8], upto2: usize) -> (r: Option<u8>)
    requires
        upto <= pins@.len(),
        upto2 <= rest@.len(),
        upto <= 16,
        upto2 <= 8,
    ensures
        r == first_bad_pin(pins@.take(upto as int) + rest@.take(upto2 as int)),
{
    let ghost all = pins@.take(upto as int) + rest@.take(upto2 as int);
    let mut i: usize = 0;
    assert(all.skip(0) =~= all);
    while i < upto + upto2
        invariant
            upto <= pins@.len(),
            upto2 <= rest@.len(),
            upto <= 16,
            upto2 <= 8,
            all == pins@.take(upto as int) + rest@.take(upto2 as int),
            i <= upto + upto2,
            first_bad_pin(all) == first_bad_pin(all.skip(i as int)),
        decreases upto + upto2 - i,
    {
        let p = if i < upto { pins[i] } else { rest[i - upto] };
        assert(all.skip(i as int).first() == p);
        assert(all.skip(i as int).drop_first() =~= all.skip(i + 1));
        if p == 0 || p > 55 {
            return Some(p);
        }
        i = i + 1;
    }
    assert(all.skip(i as int) =~= Seq::<u8>::empty());
    None
}

fn shared_pin_check(rows: &[u8], h: usize, cols: &[u8], w: usize) -> (r: Option<u8>)
    requires
        h <= rows@.len(),
        w <= cols@.len(),
    ensures
        r == first_shared_pin(rows@.take(h as int), cols@.take(w as int)),
{
    let ghost rs = rows@.take(h as int);
    let ghost cs = cols@.take(w as int);
    let mut i: usize = 0;
    assert(rs.skip(0) =~= rs);
    while i < h
        invariant
            h <= rows@.len(),
            w <= cols@.len(),
            rs == rows@.take(h as int),
            cs == cols@.take(w as int),
            i <= h,
            first_shared_pin(rs, cs) == first_shared_pin(rs.skip(i as int), cs),
        decreases h - i,
    {
        let p = rows[i];
        assert(rs.skip(i as int).first() == p);
        assert(rs.skip(i as int).drop_first() =~= rs.skip(i + 1));
        let mut j: usize = 0;
        let mut found = false;
        while j < w
            invariant
                j <= w,
                w <= cols@.len(),
                cs == cols@.take(w as int),
                found == (exists|k: int| 0 <= k < j && cs[k] == p),
            decreases w - j,
        {
            assert(cs[j as int] == cols@[j as int]);
            if cols[j] == p {
                found = true;
            }
            j = j + 1;
        }
        assert(found == cs.contains(p));
        if found {
            return Some(p);
        }
        i = i + 1;
    }
    assert(rs.skip(i as int) =~= Seq::<u8>::empty());
    None
}

fn param(m: String) -> (e: PoKeysError)
    ensures
        e == PoKeysError::Parameter(m),
{
    PoKeysError::Parameter(m)
}

/// Check the parameters of a matrix keyboard configuration.
pub fn kb_param_check(width: u8, height: u8, column_pins: &[u8], row_pins: &[u8]) -> (r: Result<()>)
    ensures
        match kb_param_error(width, height, column_pins@, row_pins@) {
            Some(m) => r matches Err(PoKeysError::Parameter(mm)) && mm@ == m,
            None => r is Ok,
        },
{
    if width == 0 || width > 8 {
        let mut m = string_of("Matrix width must be 1-8 (got ");
        push_dec(&mut m, width as u64);
        m.append(")");
        return Err(param(m));
    }
    if height == 0 || height > 16 {
        let mut m = string_of("Matrix height must be 1-16 (got ");
        push_dec(&mut m, height as u64);
        m.append(")");
        return Err(param(m));
    }
    if column_pins.len() < width as usize {
        let mut m = string_of("column_pins has ");
        push_dec(&mut m, column_pins.len() as u64);
        m.append(" entries, need at least ");
        push_dec(&mut m, width as u64);
        return Err(param(m));
    }
    if row_pins.len() < height as usize {
        let mut m = string_of("row_pins has ");
        push_dec(&mut m, row_pins.len() as u64);
        m.append(" entries, need at least ");
        push_dec(&mut m, height as u64);
        return Err(param(m));
    }
    match bad_pin_check(row_pins, height as usize, column_pins, width as usize) {
        Some(p) => {
            let mut m = string_of("Matrix keyboard pin ");
            push_dec(&mut m, p as u64);
            m.append(" is out of range (must be 1-55)");
            return Err(param(m));
        },
        None => {},
    }
    match shared_pin_check(row_pins, height as usize, column_pins, width as usize) {
        Some(p) => {
            let mut m = string_of("Pin ");
            push_dec(&mut m, p as u64);
            m.append(" cannot be used as both a row and a column");
            return Err(param(m));
        },
        None => {},
    }
    Ok(())
}

proof fn lemma_with_function_len(raw: Seq<u8>, pins: Seq<u8>, f: u8)
    requires
        forall|k: int| 0 <= k < pins.len() ==> 1 <= #[trigger] pins[k] <= raw.len(),
    ensures
        with_function(raw, pins, f).len() == raw.len(),
    decreases pins.len(),
{
    if pins.len() > 0 {
        lemma_with_function_len(raw, pins.drop_last(), f);
    }
}

proof fn lemma_no_bad_pin(pins: Seq<u8>)
    requires
        first_bad_pin(pins) is None,
    ensures
        forall|k: int| 0 <= k < pins.len() ==> 1 <= #[trigger] pins[k] <= 55,
    decreases pins.len(),
{
    if pins.len() > 0 {
        lemma_no_bad_pin(pins.drop_first());
        assert forall|k: int| 0 <= k < pins.len() implies 1 <= #[trigger] pins[k] <= 55 by {
            if k > 0 {
                assert(pins[k] == pins.drop_first()[k - 1]);
            }
        }
    }
}

fn set_functions(raw: &mut [u8; 55], pins: &[u8], n: usize, f: u8)
    requires
        n <= pins@.len(),
        forall|k: int| 0 <= k < n ==> 1 <= #[trigger] pins@[k] <= 55,
    ensures
        final(raw)@ == with_function(old(raw)@, pins@.take(n as int), f),
{
    let ghost orig = raw@;
    let mut i: usize = 0;
    while i < n
        invariant
            i <= n,
            n <= pins@.len(),
            forall|k: int| 0 <= k < n ==> 1 <= #[trigger] pins@[k] <= 55,
            raw@ == with_function(orig, pins@.take(i as int), f),
            raw@.len() == 55,
        decreases n - i,
    {
        proof {
            assert(pins@.take(i + 1).drop_last() =~= pins@.take(i as int));
        }
        let idx = (pins[i] - 1) as usize;
        let invert = raw[idx] & 0x80;
        raw[idx] = f | invert;
        i = i + 1;
    }
}

fn pad_copy<const N: usize>(src: &[u8]) -> (r: [u8; N])
    ensures
        r@ == padded(src@, N as nat),
{
    let mut out = [0u8; N];
    let mut i: usize = 0;
    while i < N && i < src.len()
        invariant
            i <= N,
            i <= src@.len(),
            out@.len() == N,
            forall|k: int| 0 <= k < i ==> out@[k] == src@[k],
            forall|k: int| i <= k < N ==> out@[k] == 0u8,
        decreases N - i,
    {
        out[i] = src[i];
        i = i + 1;
    }
    assert(out@ =~= padded(src@, N as nat));
    out
}

/// Message of a `0xCA` response that does not echo the command.
pub open spec fn kb_echo_message(what: Seq<char>, echo: u8) -> Seq<char> {
    "Invalid response command for "@ + what + ": 0x"@ + hex2(echo)
}

fn kb_echo_error(what: &str, echo: u8) -> (e: PoKeysError)
    ensures
        e matches PoKeysError::Protocol(m) && m@ == kb_echo_message(what@, echo),
{
    let mut m = string_of("Invalid response command for ");
    m.append(what);
    m.append(": 0x");
    push_hex2(&mut m, echo);
    PoKeysError::Protocol(m)
}

impl PoKeysDevice {
    /// Read the matrix keyboard configuration (`0xCA` option 1, see
    /// [`is_kb_readback`]).
    pub fn get_matrix_keyboard_configuration(&mut self) -> (r: Result<MatrixKeyboardConfig>)
        ensures
            link_error(r),
            final(self).tried(old(self), r),
            final(self).same_link(old(self)),
            final(self).same_data(old(self)),
            !old(self).connected() ==> r matches Err(PoKeysError::NotConnected),
            r matches Ok(c) ==> final(self).exchanged(old(self), 0xCA, 1, 0, 0, 0, Seq::empty())
                && final(self).reply()[1] == 0xCA && is_kb_readback(c, final(self).reply()),
            r is Err && final(self).log() != old(self).log() ==> final(self).exchanged(old(self), 0xCA, 1, 0, 0, 0,
                Seq::empty()) && final(self).reply()[1] != 0xCA && (r matches Err(PoKeysError::Protocol(m))
                && m@ == readback_echo_message(final(self).reply())),
    {
        let response = self.send_request(0xCA, 1, MATRIX_KEYBOARD_ID, 0, 0)?;
        parse_matrix_kb_config_readback(&response)
    }

    fn verify_matrix_kb_config_applied(&mut self, width: u8, height: u8, column_pins: &[u8], row_pins: &[u8],
        enabled: bool) -> (r: Result<()>)
        ensures
            link_error(r),
            final(self).same_link(old(self)),
            final(self).same_data(old(self)),
            !old(self).connected() ==> r matches Err(PoKeysError::NotConnected),
            r is Ok ==> final(self).exchanged(old(self), 0xCA, 1, 0, 0, 0, Seq::empty())
                && final(self).reply()[1] == 0xCA && exists|c: MatrixKeyboardConfig| #[trigger] is_kb_readback(c,
                final(self).reply()) && kb_verify_outcome(c, width, height, column_pins@, row_pins@, enabled) is None,
    {
        let actual = self.get_matrix_keyboard_configuration()?;
        verify_matrix_kb_config_matches(&actual, width, height, column_pins, row_pins, enabled)
    }

    /// Configure the matrix keyboard. After the parameter checks (see
    /// [`kb_param_error`]), the pin settings are read, the used rows made
    /// digital outputs and the used columns digital inputs, and written back
    /// (see [`kb_pin_settings`]); then the option-16 configuration is sent and
    /// must be echoed, and an option-1 readback must match it (see
    /// [`kb_verify_outcome`]). Only then is the local keyboard state set.
    pub fn configure_matrix_keyboard(&mut self, width: u8, height: u8, column_pins: &[u8], row_pins: &[u8])
        -> (r: Result<()>)
        ensures
            final(self).same_link(old(self)),
            kb_param_error(width, height, column_pins@, row_pins@) matches Some(m) ==> (r matches Err(PoKeysError::Parameter(mm))
                && mm@ == m) && final(self).unchanged(old(self)),
            kb_param_error(width, height, column_pins@, row_pins@) is None && !old(self).connected() ==> r matches Err(
                PoKeysError::NotConnected),
            kb_param_error(width, height, column_pins@, row_pins@) is None ==> link_error(r),
            r is Err ==> final(self).same_data_except(old(self), set![DeviceField::Pins]),
            r is Ok ==> {
                let settings = kb_pin_settings(final(self).response_no(old(self), 0).subrange(8, 63), width, height,
                    column_pins@, row_pins@);
                &&& kb_param_error(width, height, column_pins@, row_pins@) is None
                &&& final(self).exchanged_all(old(self), packets(seq![plain(0xC0, 0, 0, 0, 0), (0xC0u8, 1u8, 0u8, 0u8, 0u8,
                    settings), (0xCAu8, 16u8, 0u8, 0u8, 0u8, kb_config_payload(width, height, column_pins@, row_pins@)),
                    plain(0xCA, 1, 0, 0, 0)], old(self).request_id()))
                &&& final(self).response_no(old(self), 0)[1] == 0xC0
                &&& final(self).response_no(old(self), 1)[1] == 0xC0
                &&& final(self).response_no(old(self), 2)[1] == 0xCA
                &&& final(self).response_no(old(self), 3)[1] == 0xCA
                &&& exists|c: MatrixKeyboardConfig| #[trigger] is_kb_readback(c, final(self).response_no(old(self), 3))
                    && kb_verify_outcome(c, width, height, column_pins@, row_pins@, true) is None
                &&& final(self).pins@ == settings_applied(old(self).pins@, settings)
                &&& final(self).matrix_keyboard == (MatrixKeyboard {
                    configuration: 1,
                    width,
                    height,
                    column_pins: final(self).matrix_keyboard.column_pins,
                    row_pins: final(self).matrix_keyboard.row_pins,
                    ..old(self).matrix_keyboard
                })
                &&& final(self).matrix_keyboard.column_pins@ == padded(column_pins@, 8)
                &&& final(self).matrix_keyboard.row_pins@ == padded(row_pins@, 16)
                &&& final(self).same_data_except(old(self), set![DeviceField::Pins, DeviceField::MatrixKeyboard])
            },
    {
        kb_param_check(width, height, column_pins, row_pins)?;
        proof {
            lemma_no_bad_pin(row_pins@.take(height as int) + column_pins@.take(width as int));
            assert forall|k: int| 0 <= k < height implies 1 <= #[trigger] row_pins@[k] <= 55 by {
                assert(row_pins@[k] == (row_pins@.take(height as int) + column_pins@.take(width as int))[k]);
            }
            assert forall|k: int| 0 <= k < width implies 1 <= #[trigger] column_pins@[k] <= 55 by {
                assert(column_pins@[k] == (row_pins@.take(height as int) + column_pins@.take(width as int))[height + k]);
            }
        }
        let ghost start = *self;
        let raw0 = self.read_all_pin_settings_raw()?;
        let ghost s1 = *self;
        let mut raw = raw0;
        set_functions(&mut raw, row_pins, height as usize, 4);
        set_functions(&mut raw, column_pins, width as usize, 2);
        self.set_all_pin_settings_raw(&raw)?;
        let ghost s2 = *self;
        let data = encode_matrix_kb_config_payload(width, height, column_pins, row_pins);
        let response = self.send_request_with_data(0xCA, 16, MATRIX_KEYBOARD_ID, 0, 0, &data)?;
        if response[1] != 0xCA {
            return Err(kb_echo_error("matrix keyboard configure", response[1]));
        }
        let ghost s3 = *self;
        self.verify_matrix_kb_config_applied(width, height, column_pins, row_pins, true)?;
        let ghost s4 = *self;
        proof {
            let reqs: Seq<Req> = seq![plain(0xC0, 0, 0, 0, 0), (0xC0u8, 1u8, 0u8, 0u8, 0u8, raw@), (0xCAu8, 16u8, 0u8,
                0u8, 0u8, data@), plain(0xCA, 1, 0, 0, 0)];
            assert(data@ =~= kb_config_payload(width, height, column_pins@, row_pins@));
            assert(payload_part(data@) == data@);
            assert(payload_part(raw@) == raw@);
            lemma_exchange_none(&start, reqs);
            lemma_exchange_step(&s1, &start, &start, reqs, 0);
            lemma_exchange_step(&s2, &s1, &start, reqs, 1);
            lemma_exchange_step(&s3, &s2, &start, reqs, 2);
            lemma_exchange_step(&s4, &s3, &start, reqs, 3);
            assert(reqs.take(4) =~= reqs);
            assert(s4.response_no(&start, 0) == s1.reply());
            assert(s4.response_no(&start, 1) == s2.reply());
            assert(s4.response_no(&start, 2) == s3.reply());
            assert(s4.response_no(&start, 3) == s4.reply());
            assert(settings_applied(settings_applied(start.pins@, raw0@), raw@) =~= settings_applied(start.pins@, raw@));
        }
        self.matrix_keyboard.configuration = 1;
        self.matrix_keyboard.width = width;
        self.matrix_keyboard.height = height;
        self.matrix_keyboard.column_pins = pad_copy::<8>(column_pins);
        self.matrix_keyboard.row_pins = pad_copy::<16>(row_pins);
        proof {
            let c = choose|c: MatrixKeyboardConfig| #[trigger] is_kb_readback(c, s4.reply()) && kb_verify_outcome(c, width,
                height, column_pins@, row_pins@, true) is None;
            assert(self.response_no(&start, 3) == s4.reply());
            assert(is_kb_readback(c, self.response_no(&start, 3)));
            assert(self.pins@ == settings_applied(start.pins@, raw@));
            assert(raw@ == kb_pin_settings(self.response_no(&start, 0).subrange(8, 63), width, height, column_pins@,
                row_pins@));
        }
        Ok(())
    }
}

/// The key states after a `0xCA` option-20 read: key `k` (of the first 128)
/// is 1 when bit `k % 8` of byte `8 + k / 8` is set; the rest are 0.
pub open spec fn key_states(len: nat, r: Seq<u8>) -> Seq<u8> {
    Seq::new(len, |k: int| if k < 128 && bit_of(r[8 + k / 8], k % 8) { 1u8 } else { 0u8 })
}

/// `pkt` writes the mapping chunk of 16 keys from `base` with `option`.
pub open spec fn is_mapping_write(pkt: Seq<u8>, option: u8, id: u8, codes: Seq<u8>, modifiers: Seq<u8>,
    triggered: Option<Seq<u8>>, base: int) -> bool {
    exists|payload: Seq<u8>| #[trigger] request_packet(0xCA, option, 0, 0, 0, id, payload) == pkt
        && is_mapping_chunk(payload, codes, modifiers, triggered, base)
}

/// `after` is `before` after `n` mapping writes, options `first` on, each
/// echoed with `0xCA`.
pub open spec fn mapping_writes(after: &PoKeysDevice, before: &PoKeysDevice, n: nat, first: u8, codes: Seq<u8>,
    modifiers: Seq<u8>, triggered: Option<Seq<u8>>) -> bool {
    &&& after.log().len() == before.log().len() + n
    &&& after.log().take(before.log().len() as int) == before.log()
    &&& after.request_id() == id_after(before.request_id(), n)
    &&& forall|k: int| 0 <= k < n ==> is_mapping_write(#[trigger] after.log()[before.log().len() + k].0,
        (first + k) as u8, id_after(before.request_id(), (k + 1) as nat), codes, modifiers, triggered, 16 * k)
    &&& forall|k: int| 0 <= k < n ==> response_valid(#[trigger] after.response_no(before, k),
        id_after(before.request_id(), (k + 1) as nat)) && after.response_no(before, k)[1] == 0xCA
}

/// A list after mapping reads of the given responses, chunk `k` from
/// response `k` at offset `off`.
pub open spec fn mapping_reads(list: Seq<u8>, resps: Seq<Seq<u8>>, off: int) -> Seq<u8>
    decreases resps.len(),
{
    if resps.len() == 0 {
        list
    } else {
        decoded_list(mapping_reads(list, resps.drop_last(), off), resps.last(), 16 * (resps.len() - 1), off)
    }
}

/// A triggered list after mapping reads of the given responses.
pub open spec fn triggered_reads(list: Seq<u8>, resps: Seq<Seq<u8>>) -> Seq<u8>
    decreases resps.len(),
{
    if resps.len() == 0 {
        list
    } else {
        decoded_triggered(triggered_reads(list, resps.drop_last()), resps.last(), 16 * (resps.len() - 1))
    }
}

/// The responses of the `n` exchanges made since `before`.
pub open spec fn responses_since(after: &PoKeysDevice, before: &PoKeysDevice, n: nat) -> Seq<Seq<u8>> {
    Seq::new(n, |k: int| after.response_no(before, k))
}

/// The read requests of a mapping: options `first` to `first + 7`.
pub open spec fn mapping_read_reqs(first: u8) -> Seq<Req> {
    Seq::new(8, |k: int| plain(0xCA, (first + k) as u8, 0, 0, 0))
}

proof fn lemma_mapping_reads_len(list: Seq<u8>, resps: Seq<Seq<u8>>, off: int)
    ensures
        mapping_reads(list, resps, off).len() == list.len(),
        triggered_reads(list, resps).len() == list.len(),
    decreases resps.len(),
{
    if resps.len() > 0 {
        lemma_mapping_reads_len(list, resps.drop_last(), off);
    }
}

impl PoKeysDevice {
    /// Disable the matrix keyboard: an option-16 write of 55 zero bytes that
    /// must be echoed, then an option-1 readback that must report it disabled.
    #[verifier::rlimit(40)]
    pub fn disable_matrix_keyboard(&mut self) -> (r: Result<()>)
        ensures
            link_error(r),
            final(self).same_link(old(self)),
            !old(self).connected() ==> r matches Err(PoKeysError::NotConnected),
            r is Err ==> final(self).same_data(old(self)),
            r is Ok ==> {
                &&& final(self).exchanged_all(old(self), packets(seq![(0xCAu8, 16u8, 0u8, 0u8, 0u8, Seq::new(55, |i: int| 0u8)),
                    plain(0xCA, 1, 0, 0, 0)], old(self).request_id()))
                &&& final(self).response_no(old(self), 0)[1] == 0xCA
                &&& final(self).response_no(old(self), 1)[1] == 0xCA
                &&& final(self).response_no(old(self), 1)[8] & 1 == 0
                &&& final(self).matrix_keyboard == (MatrixKeyboard { configuration: 0, ..old(self).matrix_keyboard })
                &&& final(self).same_data_except(old(self), set![DeviceField::MatrixKeyboard])
            },
    {
        let ghost start = *self;
        let data = [0u8; 55];
        let response = self.send_request_with_data(0xCA, 16, MATRIX_KEYBOARD_ID, 0, 0, &data)?;
        if response[1] != 0xCA {
            return Err(kb_echo_error("matrix keyboard disable", response[1]));
        }
        let ghost s1 = *self;
        let empty: [u8; 0] = [];
        self.verify_matrix_kb_config_applied(0, 0, &empty, &empty, false)?;
        let ghost s2 = *self;
        proof {
            let reqs: Seq<Req> = seq![(0xCAu8, 16u8, 0u8, 0u8, 0u8, data@), plain(0xCA, 1, 0, 0, 0)];
            assert(data@ =~= Seq::new(55, |i: int| 0u8));
            assert(payload_part(data@) == data@);
            lemma_exchange_none(&start, reqs);
            lemma_exchange_step(&s1, &start, &start, reqs, 0);
            lemma_exchange_step(&s2, &s1, &start, reqs, 1);
            assert(reqs.take(2) =~= reqs);
            assert(s2.response_no(&start, 0) == s1.reply());
            assert(s2.response_no(&start, 1) == s2.reply());
            let c = choose|c: MatrixKeyboardConfig| #[trigger] is_kb_readback(c, s2.reply()) && kb_verify_outcome(c, 0,
                0, empty@, empty@, false) is None;
            assert(!c.enabled);
        }
        self.matrix_keyboard.configuration = 0;
        Ok(())
    }

    /// Read the key states (`0xCA` option 20, see [`key_states`]); the
    /// response must echo `0xCA`.
    pub fn read_matrix_keyboard(&mut self) -> (r: Result<()>)
        ensures
            final(self).tried(old(self), r),
            final(self).same_link(old(self)),
            !old(self).connected() ==> r matches Err(PoKeysError::NotConnected),
            r is Err ==> final(self).same_data(old(self)),
            r is Err && final(self).log() != old(self).log() ==> final(self).exchanged(old(self), 0xCA, 20, 0, 0, 0,
                Seq::empty()) && (r matches Err(PoKeysError::Protocol(m)) && m@ == kb_echo_message(
                "matrix keyboard read"@, final(self).reply()[1])) && final(self).reply()[1] != 0xCA,
            r is Ok ==> {
                &&& final(self).exchanged(old(self), 0xCA, 20, 0, 0, 0, Seq::empty())
                &&& final(self).reply()[1] == 0xCA
                &&& final(self).matrix_keyboard == (MatrixKeyboard {
                    key_values: final(self).matrix_keyboard.key_values, ..old(self).matrix_keyboard })
                &&& final(self).matrix_keyboard.key_values@ == key_states(old(self).matrix_keyboard.key_values@.len(),
                    final(self).reply())
                &&& final(self).same_data_except(old(self), set![DeviceField::MatrixKeyboard])
            },
    {
        let response = self.send_request(0xCA, 20, MATRIX_KEYBOARD_ID, 0, 0)?;
        if response[1] != 0xCA {
            return Err(kb_echo_error("matrix keyboard read", response[1]));
        }
        if response.len() < 24 {
            let mut m = string_of("Matrix keyboard status response too short: ");
            push_dec(&mut m, response.len() as u64);
            m.append(" bytes (need 24)");
            return Err(PoKeysError::Protocol(m));
        }
        let n = self.matrix_keyboard.key_values.len();
        let mut values: Vec<u8> = Vec::new();
        let mut k: usize = 0;
        while k < n
            invariant
                k <= n,
                values@ == key_states(n as nat, response@).take(k as int),
            decreases n - k,
        {
            let mut v: u8 = 0;
            if k < 128 {
                let b = response[8 + k / 8];
                let q: u8 = (k % 8) as u8;
                proof { crate::bits::lemma_mask_bit(b, q); }
                if (b & (1u8 << q)) != 0 {
                    v = 1;
                }
            }
            values.push(v);
            assert(values@ =~= key_states(n as nat, response@).take(k + 1));
            k = k + 1;
        }
        assert(values@ =~= key_states(n as nat, response@));
        self.matrix_keyboard.key_values = values;
        Ok(())
    }

    /// Set the scanning decimation (0 to 50, `0xCA` option 50); the response
    /// must echo `0xCA`.
    pub fn set_matrix_keyboard_scanning_decimation(&mut self, decimation: u8) -> (r: Result<()>)
        ensures
            decimation <= 50 ==> final(self).tried_with_data(old(self), r),
            final(self).same_link(old(self)),
            decimation > 50 ==> (r matches Err(PoKeysError::Parameter(m)) && m@ == "scanning decimation must be 0-50 (got "@
                + dec(decimation as nat) + ")"@) && final(self).unchanged(old(self)),
            decimation <= 50 && !old(self).connected() ==> r matches Err(PoKeysError::NotConnected),
            r is Err ==> final(self).same_data(old(self)),
            r is Ok ==> {
                &&& final(self).exchanged(old(self), 0xCA, 50, 0, 0, 0, seq![decimation])
                &&& final(self).reply()[1] == 0xCA
                &&& final(self).matrix_keyboard == (MatrixKeyboard { scanning_decimation: decimation,
                    ..old(self).matrix_keyboard })
                &&& final(self).same_data_except(old(self), set![DeviceField::MatrixKeyboard])
            },
    {
        if decimation > 50 {
            let mut m = string_of("scanning decimation must be 0-50 (got ");
            push_dec(&mut m, decimation as u64);
            m.append(")");
            return Err(PoKeysError::Parameter(m));
        }
        let data = [decimation];
        assert(data@ =~= seq![decimation]);
        let response = self.send_request_with_data(0xCA, 50, MATRIX_KEYBOARD_ID, 0, 0, &data)?;
        if response[1] != 0xCA {
            return Err(kb_echo_error("scanning decimation", response[1]));
        }
        self.matrix_keyboard.scanning_decimation = decimation;
        Ok(())
    }

    fn write_key_mapping(&mut self, first: u8, up: bool) -> (r: Result<()>)
        requires
            first == 2 || first == 22,
        ensures
            final(self).same_link(old(self)),
            final(self).same_data(old(self)),
            !old(self).connected() ==> r matches Err(PoKeysError::NotConnected),
            r is Ok && !up ==> mapping_writes(final(self), old(self), 8, first, old(self).matrix_keyboard.key_mapping_key_code@,
                old(self).matrix_keyboard.key_mapping_key_modifier@,
                Some(old(self).matrix_keyboard.key_mapping_triggered_key@)),
            r is Ok && up ==> mapping_writes(final(self), old(self), 8, first,
                old(self).matrix_keyboard.key_mapping_key_code_up@, old(self).matrix_keyboard.key_mapping_key_modifier_up@,
                None),
    {
        let ghost start = *self;
        let ghost codes = if up { self.matrix_keyboard.key_mapping_key_code_up@ } else { self.matrix_keyboard.key_mapping_key_code@ };
        let ghost mods = if up { self.matrix_keyboard.key_mapping_key_modifier_up@ } else { self.matrix_keyboard.key_mapping_key_modifier@ };
        let ghost trig = if up { None } else { Some(self.matrix_keyboard.key_mapping_triggered_key@) };
        let mut k: u8 = 0;
        assert(self.log().take(start.log().len() as int) =~= start.log());
        while k < 8
            invariant
                k <= 8,
                first == 2 || first == 22,
                self.same_link(&start),
                self.same_data(&start),
                codes == if up { start.matrix_keyboard.key_mapping_key_code_up@ } else { start.matrix_keyboard.key_mapping_key_code@ },
                mods == if up { start.matrix_keyboard.key_mapping_key_modifier_up@ } else { start.matrix_keyboard.key_mapping_key_modifier@ },
                trig == if up { None } else { Some(start.matrix_keyboard.key_mapping_triggered_key@) },
                start.connected() == old(self).connected(),
                start == *old(self),
                k > 0 ==> start.connected(),
                mapping_writes(&*self, &start, k as nat, first, codes, mods, trig),
            decreases 8 - k,
        {
            let option: u8 = first + k;
            let chunk_base: usize = (k as usize) * 16;
            let data = if up {
                encode_matrix_kb_mapping_chunk(&self.matrix_keyboard.key_mapping_key_code_up,
                    &self.matrix_keyboard.key_mapping_key_modifier_up, None, chunk_base)
            } else {
                encode_matrix_kb_mapping_chunk(&self.matrix_keyboard.key_mapping_key_code,
                    &self.matrix_keyboard.key_mapping_key_modifier, Some(self.matrix_keyboard.key_mapping_triggered_key.as_slice()),
                    chunk_base)
            };
            let ghost before = *self;
            let response = self.send_request_with_data(0xCA, option, MATRIX_KEYBOARD_ID, 0, 0, &data)?;
            if response[1] != 0xCA {
                let mut m = string_of(if up { "Invalid response command for up-key mapping write (option " } else {
                    "Invalid response command for key mapping write (option " });
                push_dec(&mut m, option as u64);
                m.append("): 0x");
                push_hex2(&mut m, response[1]);
                return Err(PoKeysError::Protocol(m));
            }
            proof {
                let n0 = start.log().len();
                assert(payload_part(data@) == data@);
                lemma_next_id_after(start.request_id(), k as nat);
                assert(is_mapping_chunk(data@, codes, mods, trig, 16 * k));
                assert(self.log().take(n0 as int) =~= before.log().take(n0 as int)) by {
                    assert(self.log().take(before.log().len() as int) == before.log());
                }
                assert forall|j: int| 0 <= j < k + 1 implies is_mapping_write(#[trigger] self.log()[n0 + j].0,
                    (first + j) as u8, id_after(start.request_id(), (j + 1) as nat), codes, mods, trig, 16 * j) by {
                    if j < k {
                        assert(self.log()[n0 + j] == before.log()[n0 + j]) by {
                            assert(self.log().take(before.log().len() as int) == before.log());
                            assert(self.log().take(before.log().len() as int)[n0 + j] == self.log()[n0 + j]);
                        }
                    } else {
                        assert(self.log()[n0 + j].0 == request_packet(0xCA, option, 0, 0, 0, self.request_id(), data@));
                    }
                }
                assert forall|j: int| 0 <= j < k + 1 implies response_valid(#[trigger] self.response_no(&start, j),
                    id_after(start.request_id(), (j + 1) as nat)) && self.response_no(&start, j)[1] == 0xCA by {
                    if j < k {
                        assert(self.log()[n0 + j] == before.log()[n0 + j]) by {
                            assert(self.log().take(before.log().len() as int) == before.log());
                            assert(self.log().take(before.log().len() as int)[n0 + j] == self.log()[n0 + j]);
                        }
                        assert(self.response_no(&start, j) == before.response_no(&start, j));
                    } else {
                        assert(self.response_no(&start, j) == self.reply());
                    }
                }
            }
            k = k + 1;
        }
        Ok(())
    }

    /// Write the down-event key mapping of all 128 keys: options 2 to 9, each
    /// with 16 keys' codes, modifiers and triggered flags (see
    /// [`is_mapping_chunk`]); each must be echoed.
    pub fn set_matrix_keyboard_key_mapping(&mut self) -> (r: Result<()>)
        ensures
            final(self).same_link(old(self)),
            final(self).same_data(old(self)),
            !old(self).connected() ==> r matches Err(PoKeysError::NotConnected),
            r is Ok ==> mapping_writes(final(self), old(self), 8, 2, old(self).matrix_keyboard.key_mapping_key_code@,
                old(self).matrix_keyboard.key_mapping_key_modifier@,
                Some(old(self).matrix_keyboard.key_mapping_triggered_key@)),
    {
        self.write_key_mapping(2, false)
    }

    /// Write the up-event key mapping of all 128 keys: options 22 to 29, each
    /// with 16 keys' codes and modifiers; each must be echoed.
    pub fn set_matrix_keyboard_key_mapping_up(&mut self) -> (r: Result<()>)
        ensures
            final(self).same_link(old(self)),
            final(self).same_data(old(self)),
            !old(self).connected() ==> r matches Err(PoKeysError::NotConnected),
            r is Ok ==> mapping_writes(final(self), old(self), 8, 22, old(self).matrix_keyboard.key_mapping_key_code_up@,
                old(self).matrix_keyboard.key_mapping_key_modifier_up@, None),
    {
        self.write_key_mapping(22, true)
    }
}

impl PoKeysDevice {
    fn read_key_mapping(&mut self, first: u8, up: bool) -> (r: Result<()>)
        requires
            first == 12 || first == 32,
        ensures
            link_error(r),
            final(self).same_link(old(self)),
            !old(self).connected() ==> r matches Err(PoKeysError::NotConnected),
            final(self).same_data_except(old(self), set![DeviceField::MatrixKeyboard]),
            r is Ok ==> {
                let resps = responses_since(final(self), old(self), 8);
                let kb0 = old(self).matrix_keyboard;
                let kb = final(self).matrix_keyboard;
                &&& final(self).exchanged_all(old(self), packets(mapping_read_reqs(first), old(self).request_id()))
                &&& forall|j: int| 0 <= j < 8 ==> #[trigger] final(self).response_no(old(self), j)[1] == 0xCA
                &&& !up ==> kb == (MatrixKeyboard { key_mapping_key_code: kb.key_mapping_key_code,
                    key_mapping_key_modifier: kb.key_mapping_key_modifier,
                    key_mapping_triggered_key: kb.key_mapping_triggered_key, ..kb0 })
                    && kb.key_mapping_key_code@ == mapping_reads(kb0.key_mapping_key_code@, resps, 8)
                    && kb.key_mapping_key_modifier@ == mapping_reads(kb0.key_mapping_key_modifier@, resps, 24)
                    && kb.key_mapping_triggered_key@ == triggered_reads(kb0.key_mapping_triggered_key@, resps)
                &&& up ==> kb == (MatrixKeyboard { key_mapping_key_code_up: kb.key_mapping_key_code_up,
                    key_mapping_key_modifier_up: kb.key_mapping_key_modifier_up, ..kb0 })
                    && kb.key_mapping_key_code_up@ == mapping_reads(kb0.key_mapping_key_code_up@, resps, 8)
                    && kb.key_mapping_key_modifier_up@ == mapping_reads(kb0.key_mapping_key_modifier_up@, resps, 24)
            },
    {
        let ghost start = *self;
        let ghost kb0 = self.matrix_keyboard;
        let mut k: u8 = 0;
        proof {
            lemma_exchange_none(&start, mapping_read_reqs(first));
            assert(responses_since(&*self, &start, 0) =~= Seq::<Seq<u8>>::empty());
        }
        while k < 8
            invariant
                k <= 8,
                first == 12 || first == 32,
                start == *old(self),
                kb0 == start.matrix_keyboard,
                k > 0 ==> start.connected(),
                self.same_link(&start),
                self.same_data_except(&start, set![DeviceField::MatrixKeyboard]),
                self.exchanged_all(&start, packets(mapping_read_reqs(first).take(k as int), start.request_id())),
                forall|j: int| 0 <= j < k ==> #[trigger] self.response_no(&start, j)[1] == 0xCA,
                !up ==> self.matrix_keyboard == (MatrixKeyboard {
                    key_mapping_key_code: self.matrix_keyboard.key_mapping_key_code,
                    key_mapping_key_modifier: self.matrix_keyboard.key_mapping_key_modifier,
                    key_mapping_triggered_key: self.matrix_keyboard.key_mapping_triggered_key, ..kb0 })
                    && self.matrix_keyboard.key_mapping_key_code@ == mapping_reads(kb0.key_mapping_key_code@,
                        responses_since(&*self, &start, k as nat), 8)
                    && self.matrix_keyboard.key_mapping_key_modifier@ == mapping_reads(kb0.key_mapping_key_modifier@,
                        responses_since(&*self, &start, k as nat), 24)
                    && self.matrix_keyboard.key_mapping_triggered_key@ == triggered_reads(
                        kb0.key_mapping_triggered_key@, responses_since(&*self, &start, k as nat)),
                up ==> self.matrix_keyboard == (MatrixKeyboard {
                    key_mapping_key_code_up: self.matrix_keyboard.key_mapping_key_code_up,
                    key_mapping_key_modifier_up: self.matrix_keyboard.key_mapping_key_modifier_up, ..kb0 })
                    && self.matrix_keyboard.key_mapping_key_code_up@ == mapping_reads(kb0.key_mapping_key_code_up@,
                        responses_since(&*self, &start, k as nat), 8)
                    && self.matrix_keyboard.key_mapping_key_modifier_up@ == mapping_reads(
                        kb0.key_mapping_key_modifier_up@, responses_since(&*self, &start, k as nat), 24),
            decreases 8 - k,
        {
            let option: u8 = first + k;
            let chunk_base: usize = (k as usize) * 16;
            let ghost before = *self;
            let response = self.send_request(0xCA, option, MATRIX_KEYBOARD_ID, 0, 0)?;
            validate_matrix_kb_mapping_response(&response, option)?;
            let ghost mid = *self;
            proof {
                lemma_exchange_step(&mid, &before, &start, mapping_read_reqs(first), k as int);
                let n0 = start.log().len();
                assert forall|j: int| 0 <= j < k implies #[trigger] mid.response_no(&start, j) == before.response_no(&start, j) by {
                    assert(mid.log().take(before.log().len() as int)[n0 + j] == mid.log()[n0 + j]);
                }
                assert(mid.response_no(&start, k as int) == response@);
                assert(responses_since(&mid, &start, (k + 1) as nat).drop_last() =~= responses_since(&before, &start, k as nat));
                assert(responses_since(&mid, &start, (k + 1) as nat).last() == response@);
                lemma_mapping_reads_len(kb0.key_mapping_key_code@, responses_since(&before, &start, k as nat), 8);
                lemma_mapping_reads_len(kb0.key_mapping_key_modifier@, responses_since(&before, &start, k as nat), 24);
                lemma_mapping_reads_len(kb0.key_mapping_key_code_up@, responses_since(&before, &start, k as nat), 8);
                lemma_mapping_reads_len(kb0.key_mapping_key_modifier_up@, responses_since(&before, &start, k as nat), 24);
            }
            if up {
                decode_matrix_kb_mapping_chunk(&response, &mut self.matrix_keyboard.key_mapping_key_code_up,
                    &mut self.matrix_keyboard.key_mapping_key_modifier_up, None, chunk_base);
            } else {
                decode_matrix_kb_mapping_chunk(&response, &mut self.matrix_keyboard.key_mapping_key_code,
                    &mut self.matrix_keyboard.key_mapping_key_modifier,
                    Some(&mut self.matrix_keyboard.key_mapping_triggered_key), chunk_base);
            }
            proof {
                assert(self.log() == mid.log());
                lemma_same_log(&mid, &*self, &start, packets(mapping_read_reqs(first).take(k + 1), start.request_id()));
                assert(responses_since(&*self, &start, (k + 1) as nat) =~= responses_since(&mid, &start, (k + 1) as nat));
            }
            k = k + 1;
        }
        proof {
            assert(mapping_read_reqs(first).take(8) =~= mapping_read_reqs(first));
        }
        Ok(())
    }

    /// Read the down-event key mapping of all 128 keys: options 12 to 19, each
    /// response checked (see [`validate_matrix_kb_mapping_response`]) and
    /// decoded into the codes, modifiers and triggered flags (see
    /// [`mapping_reads`], [`triggered_reads`]).
    pub fn get_matrix_keyboard_key_mapping(&mut self) -> (r: Result<()>)
        ensures
            link_error(r),
            final(self).same_link(old(self)),
            !old(self).connected() ==> r matches Err(PoKeysError::NotConnected),
            final(self).same_data_except(old(self), set![DeviceField::MatrixKeyboard]),
            r is Ok ==> {
                let resps = responses_since(final(self), old(self), 8);
                let kb0 = old(self).matrix_keyboard;
                let kb = final(self).matrix_keyboard;
                &&& final(self).exchanged_all(old(self), packets(mapping_read_reqs(12), old(self).request_id()))
                &&& forall|j: int| 0 <= j < 8 ==> #[trigger] final(self).response_no(old(self), j)[1] == 0xCA
                &&& kb == (MatrixKeyboard { key_mapping_key_code: kb.key_mapping_key_code,
                    key_mapping_key_modifier: kb.key_mapping_key_modifier,
                    key_mapping_triggered_key: kb.key_mapping_triggered_key, ..kb0 })
                &&& kb.key_mapping_key_code@ == mapping_reads(kb0.key_mapping_key_code@, resps, 8)
                &&& kb.key_mapping_key_modifier@ == mapping_reads(kb0.key_mapping_key_modifier@, resps, 24)
                &&& kb.key_mapping_triggered_key@ == triggered_reads(kb0.key_mapping_triggered_key@, resps)
            },
    {
        self.read_key_mapping(12, false)
    }

    /// Read the up-event key mapping of all 128 keys: options 32 to 39, each
    /// response checked and decoded into the codes and modifiers.
    pub fn get_matrix_keyboard_key_mapping_up(&mut self) -> (r: Result<()>)
        ensures
            link_error(r),
            final(self).same_link(old(self)),
            !old(self).connected() ==> r matches Err(PoKeysError::NotConnected),
            final(self).same_data_except(old(self), set![DeviceField::MatrixKeyboard]),
            r is Ok ==> {
                let resps = responses_since(final(self), old(self), 8);
                let kb0 = old(self).matrix_keyboard;
                let kb = final(self).matrix_keyboard;
                &&& final(self).exchanged_all(old(self), packets(mapping_read_reqs(32), old(self).request_id()))
                &&& forall|j: int| 0 <= j < 8 ==> #[trigger] final(self).response_no(old(self), j)[1] == 0xCA
                &&& kb == (MatrixKeyboard { key_mapping_key_code_up: kb.key_mapping_key_code_up,
                    key_mapping_key_modifier_up: kb.key_mapping_key_modifier_up, ..kb0 })
                &&& kb.key_mapping_key_code_up@ == mapping_reads(kb0.key_mapping_key_code_up@, resps, 8)
                &&& kb.key_mapping_key_modifier_up@ == mapping_reads(kb0.key_mapping_key_modifier_up@, resps, 24)
            },
    {
        self.read_key_mapping(32, true)
    }
}

} // verus!
