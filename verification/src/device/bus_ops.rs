//! Bus requests of a device: I2C (`0xDB`), SPI (`0xE5`), CAN (`0xE0` to
//! `0xE5`), UART (`0xD0` to `0xD4`) and 1-Wire (`0xC0` to `0xC4`).
//!
//! An I2C operation that the device reports as in progress is finished by a
//! separate result request; the pause between the two belongs to the
//! caller, so each such operation is offered as a start and a result step.

use vstd::prelude::*;
use vstd::string::*;
use crate::device::{PoKeysDevice, Req, le_u32, packets, plain, lemma_exchange_none, lemma_exchange_step,
    lemma_same_base, lemma_sent_all, lemma_sent_fail};
use crate::device::link_error;
use crate::error::{PoKeysError, Result};
use crate::text::string_of;
use crate::types::{CanMessage, I2cStatus};

verus! {

/// The I2C status of a status byte: 1 success, `0x10` in progress, anything
/// else an error.
pub open spec fn i2c_status_of(b: u8) -> I2cStatus {
    if b == 1 { I2cStatus::Success } else if b == 0x10 { I2cStatus::InProgress } else { I2cStatus::Error }
}

/// How an I2C status byte reads: 1 is success, `0x10` in progress, every
/// other byte an error; reading the number of success or in-progress gives
/// that status back.
pub proof fn lemma_i2c_status_bytes(b: u8)
    ensures
        i2c_status_of(b) is Success <==> b == 1,
        i2c_status_of(b) is InProgress <==> b == 0x10,
        i2c_status_of(b) is Error <==> b != 1 && b != 0x10,
        !(i2c_status_of(b) is Complete),
        i2c_status_of(crate::types::i2c_status_value(I2cStatus::Success)) is Success,
        i2c_status_of(crate::types::i2c_status_value(I2cStatus::InProgress)) is InProgress,
{
}

/// The data of an I2C read result `r`: `r[9]` bytes from byte 10 when the
/// status is success and they fit, else none.
pub open spec fn i2c_read_data(r: Seq<u8>) -> Seq<u8> {
    if i2c_status_of(r[3]) == I2cStatus::Success && 10 + r[9] <= r.len() { r.subrange(10, 10 + r[9]) } else { Seq::empty() }
}

/// Whether an I2C scan result `r` reports address `a`: bit `a % 8` of byte
/// `9 + a / 8`, for the 7-bit addresses `0x08` to `0x77`.
pub open spec fn scan_found(r: Seq<u8>, a: int) -> bool {
    0x08 <= a <= 0x77 && (r[9 + a / 8] >> ((a % 8) as u8)) & 1 == 1
}

/// The addresses below `n` that a scan result reports, ascending.
pub open spec fn scan_list(r: Seq<u8>, n: nat) -> Seq<u8>
    decreases n,
{
    if n == 0 {
        Seq::empty()
    } else {
        scan_list(r, (n - 1) as nat) + (if scan_found(r, n - 1) { seq![(n - 1) as u8] } else { Seq::empty() })
    }
}

/// The addresses of an I2C scan result: those of [`scan_list`] when the
/// status is success, else none.
pub open spec fn i2c_scan_addresses(r: Seq<u8>) -> Seq<u8> {
    if i2c_status_of(r[3]) == I2cStatus::Success { scan_list(r, 128) } else { Seq::empty() }
}

/// Fragment `k` of a long I2C write: header `0xF0` with the low four bits of
/// `k`, then up to 30 bytes of data from `30k`.
pub open spec fn i2c_fragment(data: Seq<u8>, k: int) -> Seq<u8> {
    let end = if 30 * k + 30 <= data.len() { 30 * k + 30 } else { data.len() as int };
    seq![(0xF0 + k % 16) as u8] + data.subrange(30 * k, end)
}

/// The number of fragments of a long I2C write.
pub open spec fn i2c_fragment_count(len: nat) -> nat {
    ((len + 29) / 30) as nat
}

/// The message of an I2C write whose data does not fit one packet.
pub open spec fn i2c_too_large(r: Result<I2cStatus>, size: nat) -> bool {
    r matches Err(PoKeysError::I2cPacketTooLarge { size: s, max_size: m, suggestion: g }) && s == size && m == 32
        && g@ == "Use i2c_write_fragmented() for large packets or split data manually"@
}

/// The requests of a CAN send: header, then the first four data bytes when
/// the message has data, then the last four when it has more than four.
pub open spec fn can_send_reqs(m: CanMessage) -> Seq<Req> {
    let d = m.data@;
    let head = seq![plain(0xE1, (m.id % 256) as u8, ((m.id / 256) % 256) as u8, m.len, m.format)];
    if m.len == 0 {
        head
    } else if m.len <= 4 {
        head + seq![plain(0xE2, d[0], d[1], d[2], d[3])]
    } else {
        head + seq![plain(0xE2, d[0], d[1], d[2], d[3]), plain(0xE3, d[4], d[5], d[6], d[7])]
    }
}

/// The message of a CAN receive result `r` (a message at byte 8 flag):
/// identifier at bytes 9 to 12, length, format and type at 13 to 15, data
/// from byte 16.
pub open spec fn can_message_of(r: Seq<u8>, m: CanMessage) -> bool {
    &&& m.id == le_u32(r[9], r[10], r[11], r[12])
    &&& m.len == r[13]
    &&& m.format == r[14]
    &&& m.msg_type == r[15]
    &&& m.data@ == r.subrange(16, 16 + r[13]) + Seq::new((8 - r[13]) as nat, |i: int| 0u8)
}

/// The IDs that a 1-Wire search result reports: `min(r[8], 7)` IDs of
/// eight bytes from byte 9.
pub open spec fn onewire_ids(r: Seq<u8>, ids: Seq<[u8; 8]>) -> bool {
    &&& ids.len() == (if r[8] < 7 { r[8] as int } else { 7 })
    &&& forall|k: int| 0 <= k < ids.len() ==> (#[trigger] ids[k])@ == r.subrange(9 + 8 * k, 17 + 8 * k)
}

/// The UART data of a read result `r`: `r[8]` bytes from byte 9 when they
/// fit, else none.
pub open spec fn uart_data(r: Seq<u8>) -> Seq<u8> {
    if 9 + r[8] <= r.len() { r.subrange(9, 9 + r[8]) } else { Seq::empty() }
}

fn bytes_range(s: &[u8], from: usize, to: usize) -> (r: Vec<u8>)
    requires
        from <= to <= s@.len(),
    ensures
        r@ == s@.subrange(from as int, to as int),
{
    let mut r: Vec<u8> = Vec::new();
    let mut i = from;
    while i < to
        invariant
            from <= i <= to,
            to <= s@.len(),
            r@ == s@.subrange(from as int, i as int),
        decreases to - i,
    {
        r.push(s[i]);
        assert(r@ =~= s@.subrange(from as int, i + 1));
        i = i + 1;
    }
    r
}

/// The I2C status in byte 3 of a response (see [`i2c_status_of`]); a
/// response under four bytes is an error.
pub fn parse_i2c_status(response: &[u8]) -> (r: Result<I2cStatus>)
    ensures
        response@.len() < 4 ==> (r matches Err(PoKeysError::Protocol(m)) && m@ == "Invalid I2C response length"@),
        response@.len() >= 4 ==> r == Ok::<I2cStatus, PoKeysError>(i2c_status_of(response@[3])),
{
    if response.len() < 4 {
        return Err(PoKeysError::Protocol(string_of("Invalid I2C response length")));
    }
    let b = response[3];
    if b == 1 {
        Ok(I2cStatus::Success)
    } else if b == 0x10 {
        Ok(I2cStatus::InProgress)
    } else {
        Ok(I2cStatus::Error)
    }
}

/// The fragments, of at most 30 data bytes each, of a long I2C write (see
/// [`i2c_fragment`]).
pub fn i2c_fragments(data: &[u8]) -> (r: Vec<Vec<u8>>)
    ensures
        r@.len() == i2c_fragment_count(data@.len()),
        forall|k: int| 0 <= k < r@.len() ==> (#[trigger] r@[k])@ == i2c_fragment(data@, k),
{
    let n = data.len();
    let count: usize = n / 30 + if n % 30 != 0 { 1 } else { 0 };
    assert(count == i2c_fragment_count(n as nat)) by (nonlinear_arith)
        requires count == n / 30 + if n % 30 != 0 { 1int } else { 0 };
    let mut r: Vec<Vec<u8>> = Vec::new();
    let mut k: usize = 0;
    while k < count
        invariant
            k <= count,
            n == data@.len(),
            count == n / 30 + if n % 30 != 0 { 1int } else { 0 },
            r@.len() == k,
            forall|j: int| 0 <= j < k ==> (#[trigger] r@[j])@ == i2c_fragment(data@, j),
        decreases count - k,
    {
        assert(30 * k < n) by (nonlinear_arith)
            requires k < count, count == n / 30 + if n % 30 != 0 { 1int } else { 0 };
        let start = 30 * k;
        let end = if n - start >= 30 { start + 30 } else { n };
        let mut packet: Vec<u8> = Vec::new();
        let h: u8 = (k % 16) as u8;
        packet.push(0xF0u8 | h);
        assert(0xF0u8 | h == (0xF0 + h) as u8) by (bit_vector)
            requires h < 16;
        let body = bytes_range(data, start, end);
        let mut i: usize = 0;
        while i < body.len()
            invariant
                i <= body@.len(),
                h < 16,
                packet@ == seq![(0xF0 + h) as u8] + body@.take(i as int),
            decreases body@.len() - i,
        {
            packet.push(body[i]);
            assert(packet@ =~= seq![(0xF0 + h) as u8] + body@.take(i + 1));
            i = i + 1;
        }
        assert(body@.take(body@.len() as int) =~= body@);
        assert(packet@ =~= i2c_fragment(data@, k as int));
        r.push(packet);
        proof {
            assert forall|j: int| 0 <= j < k + 1 implies (#[trigger] r@[j])@ == i2c_fragment(data@, j) by {}
        }
        k = k + 1;
    }
    r
}

/// The packet of an I2C register write: the register, then the data (at
/// most 31 bytes).
pub fn i2c_register_packet(register: u8, data: &[u8]) -> (r: Result<Vec<u8>>)
    ensures
        data@.len() > 31 ==> (r matches Err(PoKeysError::Parameter(m)) && m@
            == "I2C register data too long (maximum 31 bytes)"@),
        data@.len() <= 31 ==> (r matches Ok(p) && p@ == seq![register] + data@),
{
    if data.len() > 31 {
        return Err(PoKeysError::Parameter(string_of("I2C register data too long (maximum 31 bytes)")));
    }
    let mut p: Vec<u8> = Vec::new();
    p.push(register);
    let mut i: usize = 0;
    while i < data.len()
        invariant
            i <= data@.len(),
            p@ == seq![register] + data@.take(i as int),
        decreases data@.len() - i,
    {
        p.push(data[i]);
        assert(p@ =~= seq![register] + data@.take(i + 1));
        i = i + 1;
    }
    assert(data@.take(data@.len() as int) =~= data@);
    Ok(p)
}

impl PoKeysDevice {
    /// Check that the I2C bus is active (`0xDB`/`0x02`, status byte 3 must
    /// be 1).
    pub fn i2c_init(&mut self) -> (r: Result<()>)
        ensures
            final(self).tried(old(self), r),
            final(self).same_link(old(self)),
            final(self).same_data(old(self)),
            final(self).log() != old(self).log() ==> final(self).exchanged(old(self), 0xDB, 0x02, 0, 0, 0, Seq::empty())
                && (if final(self).reply()[3] == 1 { r is Ok } else { r matches Err(PoKeysError::Protocol(m)) && m@
                == "I2C bus not available"@ }),
            final(self).log() == old(self).log() ==> r is Err,
    {
        let response = self.send_request(0xDB, 0x02, 0, 0, 0)?;
        if response[3] == 1 {
            Ok(())
        } else {
            Err(PoKeysError::Protocol(string_of("I2C bus not available")))
        }
    }

    /// Configure the I2C bus: the device sets speed and options itself, so
    /// this checks that the bus is active (see [`Self::i2c_init`]).
    pub fn i2c_configure(&mut self, speed_khz: u16, options: u8) -> (r: Result<()>)
        ensures
            final(self).tried(old(self), r),
            link_error(r),
            final(self).same_link(old(self)),
            final(self).same_data(old(self)),
            final(self).log() != old(self).log() ==> final(self).exchanged(old(self), 0xDB, 0x02, 0, 0, 0, Seq::empty())
                && (if final(self).reply()[3] == 1 { r is Ok } else { r matches Err(PoKeysError::Protocol(m)) && m@
                == "I2C bus not available"@ }),
            final(self).log() == old(self).log() ==> r is Err,
    {
        self.i2c_init()
    }

    /// The I2C bus status (`0xDB`/`0x02`, byte 3).
    pub fn i2c_get_status(&mut self) -> (r: Result<I2cStatus>)
        ensures
            final(self).tried(old(self), r),
            final(self).same_link(old(self)),
            final(self).same_data(old(self)),
            final(self).log() != old(self).log() ==> final(self).exchanged(old(self), 0xDB, 0x02, 0, 0, 0, Seq::empty())
                && r == Ok::<I2cStatus, PoKeysError>(i2c_status_of(final(self).reply()[3])),
            final(self).log() == old(self).log() ==> r is Err,
    {
        let response = self.send_request(0xDB, 0x02, 0, 0, 0)?;
        parse_i2c_status(&response)
    }

    /// Start an I2C write of 1 to 32 bytes to `address` (`0xDB`/`0x10`, the
    /// data as payload) and return the status it reports.
    pub fn i2c_write_start(&mut self, address: u8, data: &[u8]) -> (r: Result<I2cStatus>)
        ensures
            final(self).same_link(old(self)),
            final(self).same_data(old(self)),
            data@.len() == 0 ==> (r matches Err(PoKeysError::Parameter(m)) && m@ == "I2C data cannot be empty"@)
                && final(self).unchanged(old(self)),
            data@.len() > 32 ==> i2c_too_large(r, data@.len()) && final(self).unchanged(old(self)),
            1 <= data@.len() <= 32 ==> {
                &&& final(self).tried_with_data(old(self), r)
                &&& final(self).log() != old(self).log() ==> final(self).exchanged(old(self), 0xDB, 0x10, address,
                    data@.len() as u8, 0, data@) && r == Ok::<I2cStatus, PoKeysError>(i2c_status_of(final(self).reply()[3]))
                &&& final(self).log() == old(self).log() ==> r is Err
            },
    {
        if data.len() == 0 {
            return Err(PoKeysError::Parameter(string_of("I2C data cannot be empty")));
        }
        if data.len() > 32 {
            return Err(PoKeysError::I2cPacketTooLarge {
                size: data.len(),
                max_size: 32,
                suggestion: string_of("Use i2c_write_fragmented() for large packets or split data manually"),
            });
        }
        let response = self.send_request_with_data(0xDB, 0x10, address, data.len() as u8, 0, data)?;
        parse_i2c_status(&response)
    }

    /// The status of a started I2C write (`0xDB`/`0x11`).
    pub fn i2c_write_result(&mut self) -> (r: Result<I2cStatus>)
        ensures
            final(self).tried(old(self), r),
            final(self).same_link(old(self)),
            final(self).same_data(old(self)),
            final(self).log() != old(self).log() ==> final(self).exchanged(old(self), 0xDB, 0x11, 0, 0, 0, Seq::empty())
                && r == Ok::<I2cStatus, PoKeysError>(i2c_status_of(final(self).reply()[3])),
            final(self).log() == old(self).log() ==> r is Err,
    {
        let response = self.send_request(0xDB, 0x11, 0, 0, 0)?;
        parse_i2c_status(&response)
    }

    /// Start an I2C read of 1 to 32 bytes from `address` (`0xDB`/`0x20`) and
    /// return the status it reports.
    pub fn i2c_read_start(&mut self, address: u8, length: u8) -> (r: Result<I2cStatus>)
        ensures
            final(self).same_link(old(self)),
            final(self).same_data(old(self)),
            length == 0 ==> (r matches Err(PoKeysError::Parameter(m)) && m@ == "I2C read length cannot be zero"@)
                && final(self).unchanged(old(self)),
            length > 32 ==> (r matches Err(PoKeysError::Parameter(m)) && m@
                == "I2C read length too long (maximum 32 bytes)"@) && final(self).unchanged(old(self)),
            1 <= length <= 32 ==> {
                &&& final(self).tried(old(self), r)
                &&& final(self).log() != old(self).log() ==> final(self).exchanged(old(self), 0xDB, 0x20, address, length,
                    0, Seq::empty()) && r == Ok::<I2cStatus, PoKeysError>(i2c_status_of(final(self).reply()[3]))
                &&& final(self).log() == old(self).log() ==> r is Err
            },
    {
        if length == 0 {
            return Err(PoKeysError::Parameter(string_of("I2C read length cannot be zero")));
        }
        if length > 32 {
            return Err(PoKeysError::Parameter(string_of("I2C read length too long (maximum 32 bytes)")));
        }
        let response = self.send_request(0xDB, 0x20, address, length, 0)?;
        parse_i2c_status(&response)
    }

    /// The status and data of a started I2C read (`0xDB`/`0x21`, see
    /// [`i2c_read_data`]).
    pub fn i2c_read_result(&mut self) -> (r: Result<(I2cStatus, Vec<u8>)>)
        ensures
            final(self).tried(old(self), r),
            final(self).same_link(old(self)),
            final(self).same_data(old(self)),
            final(self).log() != old(self).log() ==> final(self).exchanged(old(self), 0xDB, 0x21, 0, 0, 0, Seq::empty())
                && (r matches Ok((s, d)) && s == i2c_status_of(final(self).reply()[3]) && d@ == i2c_read_data(
                final(self).reply())),
            final(self).log() == old(self).log() ==> r is Err,
    {
        let response = self.send_request(0xDB, 0x21, 0, 0, 0)?;
        let status = parse_i2c_status(&response)?;
        let mut data: Vec<u8> = Vec::new();
        if status == I2cStatus::Success && response.len() > 10 {
            let n = response[9] as usize;
            if response.len() >= 10 + n {
                data = bytes_range(&response, 10, 10 + n);
            }
        }
        Ok((status, data))
    }

    /// Start an I2C bus scan (`0xDB`/`0x30`) and return the status it
    /// reports.
    pub fn i2c_scan_start(&mut self) -> (r: Result<I2cStatus>)
        ensures
            final(self).tried(old(self), r),
            final(self).same_link(old(self)),
            final(self).same_data(old(self)),
            final(self).log() != old(self).log() ==> final(self).exchanged(old(self), 0xDB, 0x30, 0, 0, 0, Seq::empty())
                && r == Ok::<I2cStatus, PoKeysError>(i2c_status_of(final(self).reply()[3])),
            final(self).log() == old(self).log() ==> r is Err,
    {
        let response = self.send_request(0xDB, 0x30, 0, 0, 0)?;
        parse_i2c_status(&response)
    }

    /// The addresses found by a started I2C scan (`0xDB`/`0x31`, see
    /// [`i2c_scan_addresses`]).
    pub fn i2c_scan_result(&mut self) -> (r: Result<Vec<u8>>)
        ensures
            final(self).tried(old(self), r),
            final(self).same_link(old(self)),
            final(self).same_data(old(self)),
            final(self).log() != old(self).log() ==> final(self).exchanged(old(self), 0xDB, 0x31, 0, 0, 0, Seq::empty())
                && (r matches Ok(a) && a@ == i2c_scan_addresses(final(self).reply())),
            final(self).log() == old(self).log() ==> r is Err,
    {
        let response = self.send_request(0xDB, 0x31, 0, 0, 0)?;
        let status = parse_i2c_status(&response)?;
        let mut found: Vec<u8> = Vec::new();
        if status == I2cStatus::Success && response.len() >= 25 {
            let mut byte_idx: usize = 0;
            while byte_idx < 16
                invariant
                    byte_idx <= 16,
                    response@.len() == 68,
                    found@ == scan_list(response@, (8 * byte_idx) as nat),
                decreases 16 - byte_idx,
            {
                let byte_val = response[9 + byte_idx];
                let mut bit_idx: usize = 0;
                while bit_idx < 8
                    invariant
                        byte_idx < 16,
                        bit_idx <= 8,
                        response@.len() == 68,
                        byte_val == response@[9 + byte_idx],
                        found@ == scan_list(response@, (8 * byte_idx + bit_idx) as nat),
                    decreases 8 - bit_idx,
                {
                    let a = byte_idx * 8 + bit_idx;
                    let q = bit_idx as u8;
                    proof { crate::bits::lemma_mask_bit(byte_val, q); }
                    assert(a / 8 == byte_idx && a % 8 == bit_idx) by (nonlinear_arith)
                        requires a == byte_idx * 8 + bit_idx, bit_idx < 8;
                    if (byte_val & (1u8 << q)) != 0 {
                        if 0x08 <= a && a <= 0x77 {
                            found.push(a as u8);
                        }
                    }
                    assert(found@ =~= scan_list(response@, (8 * byte_idx + bit_idx + 1) as nat));
                    bit_idx = bit_idx + 1;
                }
                byte_idx = byte_idx + 1;
            }
        }
        Ok(found)
    }

    /// Set the SPI prescaler and frame format (`0xE5`/`0x01`).
    pub fn spi_configure(&mut self, prescaler: u8, frame_format: u8) -> (r: Result<()>)
        ensures
            final(self).tried(old(self), r),
            final(self).same_link(old(self)),
            final(self).same_data(old(self)),
            r is Ok ==> final(self).exchanged(old(self), 0xE5, 0x01, prescaler, frame_format, 0, Seq::empty()),
            r is Err ==> final(self).log() == old(self).log(),
    {
        self.send_request(0xE5, 0x01, prescaler, frame_format, 0)?;
        Ok(())
    }

    /// Write 1 to 55 bytes over SPI with chip select `pin_cs` (`0xE5`/`0x10`,
    /// the data as payload); status byte 3 must be 1.
    pub fn spi_write(&mut self, buffer: &[u8], pin_cs: u8) -> (r: Result<()>)
        ensures
            final(self).same_link(old(self)),
            final(self).same_data(old(self)),
            buffer@.len() == 0 ==> (r matches Err(PoKeysError::Parameter(m)) && m@ == "SPI buffer cannot be empty"@)
                && final(self).unchanged(old(self)),
            buffer@.len() > 55 ==> (r matches Err(PoKeysError::Parameter(m)) && m@
                == "SPI data too long (maximum 55 bytes)"@) && final(self).unchanged(old(self)),
            1 <= buffer@.len() <= 55 ==> {
                &&& final(self).tried_with_data(old(self), r)
                &&& final(self).log() != old(self).log() ==> final(self).exchanged(old(self), 0xE5, 0x10,
                    buffer@.len() as u8, pin_cs, 0, buffer@) && (if final(self).reply()[3] == 1 { r is Ok } else {
                    r matches Err(PoKeysError::Protocol(m)) && m@ == "SPI write failed"@ })
                &&& final(self).log() == old(self).log() ==> r is Err
            },
    {
        if buffer.len() == 0 {
            return Err(PoKeysError::Parameter(string_of("SPI buffer cannot be empty")));
        }
        if buffer.len() > 55 {
            return Err(PoKeysError::Parameter(string_of("SPI data too long (maximum 55 bytes)")));
        }
        let response = self.send_request_with_data(0xE5, 0x10, buffer.len() as u8, pin_cs, 0, buffer)?;
        if response[3] == 1 {
            Ok(())
        } else {
            Err(PoKeysError::Protocol(string_of("SPI write failed")))
        }
    }

    /// Read 1 to 55 bytes over SPI (`0xE5`/`0x20`): status byte 3 must be 1,
    /// the data follows from byte 8.
    pub fn spi_read(&mut self, length: u8) -> (r: Result<Vec<u8>>)
        ensures
            final(self).same_link(old(self)),
            final(self).same_data(old(self)),
            length == 0 ==> (r matches Err(PoKeysError::Parameter(m)) && m@ == "SPI read length cannot be zero"@)
                && final(self).unchanged(old(self)),
            length > 55 ==> (r matches Err(PoKeysError::Parameter(m)) && m@
                == "SPI read length too long (maximum 55 bytes)"@) && final(self).unchanged(old(self)),
            1 <= length <= 55 ==> {
                &&& final(self).tried(old(self), r)
                &&& final(self).log() != old(self).log() ==> final(self).exchanged(old(self), 0xE5, 0x20, length, 0, 0,
                    Seq::empty()) && (if final(self).reply()[3] == 1 {
                    r matches Ok(d) && d@ == final(self).reply().subrange(8, 8 + length)
                } else {
                    r matches Err(PoKeysError::Protocol(m)) && m@ == "SPI read failed"@
                })
                &&& final(self).log() == old(self).log() ==> r is Err
            },
    {
        if length == 0 {
            return Err(PoKeysError::Parameter(string_of("SPI read length cannot be zero")));
        }
        if length > 55 {
            return Err(PoKeysError::Parameter(string_of("SPI read length too long (maximum 55 bytes)")));
        }
        let response = self.send_request(0xE5, 0x20, length, 0, 0)?;
        if response[3] == 1 {
            Ok(bytes_range(&response, 8, 8 + length as usize))
        } else {
            Err(PoKeysError::Protocol(string_of("SPI read failed")))
        }
    }

    /// Write over SPI, then read as many bytes (see [`Self::spi_write`] and
    /// [`Self::spi_read`]).
    pub fn spi_transfer(&mut self, write_data: &[u8], pin_cs: u8) -> (r: Result<Vec<u8>>)
        ensures
            !(write_data@.len() == 0) && !(write_data@.len() > 55) ==> link_error(r),
            final(self).same_link(old(self)),
            final(self).same_data(old(self)),
            write_data@.len() == 0 ==> (r matches Err(PoKeysError::Parameter(m)) && m@ == "SPI buffer cannot be empty"@)
                && final(self).unchanged(old(self)),
            write_data@.len() > 55 ==> (r matches Err(PoKeysError::Parameter(m)) && m@
                == "SPI data too long (maximum 55 bytes)"@) && final(self).unchanged(old(self)),
            r matches Ok(d) ==> final(self).exchanged_all(old(self), packets(seq![(0xE5u8, 0x10u8, write_data@.len()
                as u8, pin_cs, 0u8, write_data@), plain(0xE5, 0x20, write_data@.len() as u8, 0, 0)],
                old(self).request_id())) && d@ == final(self).reply().subrange(8, 8 + write_data@.len() as int),
    {
        let ghost start = *self;
        let ghost reqs: Seq<Req> = seq![(0xE5u8, 0x10u8, write_data@.len() as u8, pin_cs, 0u8, write_data@), plain(0xE5,
            0x20, write_data@.len() as u8, 0, 0)];
        proof { lemma_exchange_none(&start, reqs); }
        self.spi_write(write_data, pin_cs)?;
        let ghost s1 = *self;
        proof { lemma_exchange_step(&s1, &start, &start, reqs, 0); }
        let r = self.spi_read(write_data.len() as u8);
        proof {
            if r is Ok {
                lemma_exchange_step(&*self, &s1, &start, reqs, 1);
                assert(reqs.take(2) =~= reqs);
            }
        }
        r
    }

    /// Set the CAN baud rate (its three low bytes) and mode (`0xE0`).
    pub fn can_configure(&mut self, baud_rate: u32, mode: u8) -> (r: Result<()>)
        ensures
            final(self).tried(old(self), r),
            final(self).same_link(old(self)),
            final(self).same_data(old(self)),
            r is Ok ==> final(self).exchanged(old(self), 0xE0, (baud_rate % 256) as u8, ((baud_rate / 256) % 256) as u8,
                ((baud_rate / 65536) % 256) as u8, mode, Seq::empty()),
            r is Err ==> final(self).log() == old(self).log(),
    {
        let b0 = (baud_rate & 0xFF) as u8;
        let b1 = ((baud_rate >> 8u32) & 0xFF) as u8;
        let b2 = ((baud_rate >> 16u32) & 0xFF) as u8;
        proof { crate::bits::lemma_le_split(baud_rate); }
        self.send_request(0xE0, b0, b1, b2, mode)?;
        Ok(())
    }

    /// Send a CAN message (see [`can_send_reqs`]).
    pub fn can_send(&mut self, message: &CanMessage) -> (r: Result<()>)
        ensures
            final(self).same_link(old(self)),
            final(self).same_data(old(self)),
            final(self).sent_in_turn(old(self), can_send_reqs(*message), r),
    {
        let id = message.id;
        let i0 = (id & 0xFF) as u8;
        let i1 = ((id >> 8u32) & 0xFF) as u8;
        proof { crate::bits::lemma_le_split(id); }
        let ghost start = *self;
        let ghost reqs = can_send_reqs(*message);
        proof { lemma_exchange_none(&start, reqs); }
        match self.send_request(0xE1, i0, i1, message.len, message.format) {
            Err(e) => {
                proof { lemma_sent_fail(&*self, &start, &start, reqs, 0, Err::<(), PoKeysError>(e)); }
                return Err(e);
            },
            Ok(_) => {},
        }
        let ghost s1 = *self;
        proof { lemma_exchange_step(&s1, &start, &start, reqs, 0); }
        if message.len > 0 {
            match self.send_request(0xE2, message.data[0], message.data[1], message.data[2], message.data[3]) {
                Err(e) => {
                    proof { lemma_sent_fail(&*self, &s1, &start, reqs, 1, Err::<(), PoKeysError>(e)); }
                    return Err(e);
                },
                Ok(_) => {},
            }
            let ghost s2 = *self;
            proof { lemma_exchange_step(&s2, &s1, &start, reqs, 1); }
            if message.len > 4 {
                match self.send_request(0xE3, message.data[4], message.data[5], message.data[6], message.data[7]) {
                    Err(e) => {
                        proof { lemma_sent_fail(&*self, &s2, &start, reqs, 2, Err::<(), PoKeysError>(e)); }
                        return Err(e);
                    },
                    Ok(_) => {},
                }
                proof { lemma_exchange_step(&*self, &s2, &start, reqs, 2); }
            }
        }
        proof {
            assert(reqs.take(reqs.len() as int) =~= reqs);
            lemma_sent_all(&*self, &start, reqs, Ok::<(), PoKeysError>(()));
        }
        Ok(())
    }

    /// Receive a CAN message (`0xE4`): none when byte 8 is 0, else the
    /// message of [`can_message_of`]; a length past 8 is refused.
    pub fn can_receive(&mut self) -> (r: Result<Option<CanMessage>>)
        ensures
            final(self).tried(old(self), r),
            final(self).same_link(old(self)),
            final(self).same_data(old(self)),
            final(self).log() != old(self).log() ==> final(self).exchanged(old(self), 0xE4, 0, 0, 0, 0, Seq::empty()) && ({
                let b = final(self).reply();
                if b[8] == 0 {
                    r == Ok::<Option<CanMessage>, PoKeysError>(None)
                } else if b[13] > 8 {
                    r matches Err(PoKeysError::Protocol(m)) && m@ == "CAN message length exceeds 8 bytes"@
                } else {
                    r matches Ok(Some(m)) && can_message_of(b, m)
                }
            }),
            final(self).log() == old(self).log() ==> r is Err,
    {
        let response = self.send_request(0xE4, 0, 0, 0, 0)?;
        if response[8] == 0 {
            return Ok(None);
        }
        let len = response[13];
        if len > 8 {
            return Err(PoKeysError::Protocol(string_of("CAN message length exceeds 8 bytes")));
        }
        let (b9, b10, b11, b12) = (response[9], response[10], response[11], response[12]);
        let id: u32 = (b9 as u32) | ((b10 as u32) << 8u32) | ((b11 as u32) << 16u32) | ((b12 as u32) << 24u32);
        proof { crate::bits::lemma_le_join(b9, b10, b11, b12); }
        let mut data = [0u8; 8];
        let mut i: usize = 0;
        while i < len as usize
            invariant
                len <= 8,
                i <= len,
                response@.len() == 68,
                forall|k: int| 0 <= k < i ==> data@[k] == response@[16 + k],
                forall|k: int| i <= k < 8 ==> data@[k] == 0,
            decreases len - i,
        {
            data[i] = response[16 + i];
            i = i + 1;
        }
        let ghost b = response@;
        assert(data@ =~= b.subrange(16, 16 + len) + Seq::new((8 - len) as nat, |i: int| 0u8));
        Ok(Some(CanMessage { id, data, len, format: response[14], msg_type: response[15] }))
    }

    /// Set a CAN filter: the two low bytes of the identifier and of the mask
    /// (`0xE5`).
    pub fn can_set_filter(&mut self, filter_id: u32, mask: u32) -> (r: Result<()>)
        ensures
            final(self).tried(old(self), r),
            final(self).same_link(old(self)),
            final(self).same_data(old(self)),
            r is Ok ==> final(self).exchanged(old(self), 0xE5, (filter_id % 256) as u8, ((filter_id / 256) % 256) as u8,
                (mask % 256) as u8, ((mask / 256) % 256) as u8, Seq::empty()),
            r is Err ==> final(self).log() == old(self).log(),
    {
        let f0 = (filter_id & 0xFF) as u8;
        let f1 = ((filter_id >> 8u32) & 0xFF) as u8;
        let m0 = (mask & 0xFF) as u8;
        let m1 = ((mask >> 8u32) & 0xFF) as u8;
        proof { crate::bits::lemma_le_split(filter_id); }
        proof { crate::bits::lemma_le_split(mask); }
        self.send_request(0xE5, f0, f1, m0, m1)?;
        Ok(())
    }

    /// Configure the UART: the two low bytes of the baud rate, data and stop
    /// bits (`0xD0`), then the parity (`0xD1`).
    pub fn uart_configure(&mut self, baud_rate: u32, data_bits: u8, stop_bits: u8, parity: u8) -> (r: Result<()>)
        ensures
            final(self).same_link(old(self)),
            final(self).same_data(old(self)),
            final(self).sent_in_turn(old(self), seq![plain(0xD0, (baud_rate % 256) as u8, ((baud_rate / 256) % 256) as u8,
                data_bits, stop_bits), plain(0xD1, parity, 0, 0, 0)], r),
    {
        let b0 = (baud_rate & 0xFF) as u8;
        let b1 = ((baud_rate >> 8u32) & 0xFF) as u8;
        proof { crate::bits::lemma_le_split(baud_rate); }
        let ghost start = *self;
        let ghost reqs: Seq<Req> = seq![plain(0xD0, b0, b1, data_bits, stop_bits), plain(0xD1, parity, 0, 0, 0)];
        proof { lemma_exchange_none(&start, reqs); }
        match self.send_request(0xD0, b0, b1, data_bits, stop_bits) {
            Err(e) => {
                proof { lemma_sent_fail(&*self, &start, &start, reqs, 0, Err::<(), PoKeysError>(e)); }
                return Err(e);
            },
            Ok(_) => {},
        }
        let ghost s1 = *self;
        proof { lemma_exchange_step(&s1, &start, &start, reqs, 0); }
        match self.send_request(0xD1, parity, 0, 0, 0) {
            Err(e) => {
                proof { lemma_sent_fail(&*self, &s1, &start, reqs, 1, Err::<(), PoKeysError>(e)); }
                return Err(e);
            },
            Ok(_) => {},
        }
        proof {
            lemma_exchange_step(&*self, &s1, &start, reqs, 1);
            assert(reqs.take(2) =~= reqs);
            lemma_sent_all(&*self, &start, reqs, Ok::<(), PoKeysError>(()));
        }
        Ok(())
    }

    /// Announce a UART write of up to 60 bytes (`0xD2` with the length; the
    /// request carries no data bytes).
    pub fn uart_write(&mut self, data: &[u8]) -> (r: Result<()>)
        ensures
            data@.len() <= 60 ==> final(self).tried(old(self), r),
            final(self).same_link(old(self)),
            final(self).same_data(old(self)),
            data@.len() > 60 ==> (r matches Err(PoKeysError::Parameter(m)) && m@ == "UART data too long"@)
                && final(self).unchanged(old(self)),
            data@.len() <= 60 ==> (r is Ok ==> final(self).exchanged(old(self), 0xD2, data@.len() as u8, 0, 0, 0,
                Seq::empty())) && (r is Err ==> final(self).log() == old(self).log()),
    {
        if data.len() > 60 {
            return Err(PoKeysError::Parameter(string_of("UART data too long")));
        }
        self.send_request(0xD2, data.len() as u8, 0, 0, 0)?;
        Ok(())
    }

    /// Read received UART bytes (`0xD3`, see [`uart_data`]).
    pub fn uart_read(&mut self) -> (r: Result<Vec<u8>>)
        ensures
            final(self).tried(old(self), r),
            final(self).same_link(old(self)),
            final(self).same_data(old(self)),
            r matches Ok(d) ==> final(self).exchanged(old(self), 0xD3, 0, 0, 0, 0, Seq::empty()) && d@ == uart_data(
                final(self).reply()),
            r is Err ==> final(self).log() == old(self).log(),
    {
        let response = self.send_request(0xD3, 0, 0, 0, 0)?;
        let mut data: Vec<u8> = Vec::new();
        let n = response[8] as usize;
        if response.len() >= 9 + n {
            data = bytes_range(&response, 9, 9 + n);
        }
        Ok(data)
    }

    /// The UART transmit buffer space and received byte count (`0xD4`,
    /// bytes 8 and 9).
    pub fn uart_status(&mut self) -> (r: Result<(u8, u8)>)
        ensures
            final(self).tried(old(self), r),
            final(self).same_link(old(self)),
            final(self).same_data(old(self)),
            r matches Ok((tx, rx)) ==> final(self).exchanged(old(self), 0xD4, 0, 0, 0, 0, Seq::empty())
                && tx == final(self).reply()[8] && rx == final(self).reply()[9],
            r is Err ==> final(self).log() == old(self).log(),
    {
        let response = self.send_request(0xD4, 0, 0, 0, 0)?;
        Ok((response[8], response[9]))
    }

    /// Initialise the 1-Wire bus (`0xC0`).
    pub fn onewire_init(&mut self) -> (r: Result<()>)
        ensures
            final(self).tried(old(self), r),
            final(self).same_link(old(self)),
            final(self).same_data(old(self)),
            r is Ok ==> final(self).exchanged(old(self), 0xC0, 0, 0, 0, 0, Seq::empty()),
            r is Err ==> final(self).log() == old(self).log(),
    {
        self.send_request(0xC0, 0, 0, 0, 0)?;
        Ok(())
    }

    /// Reset the 1-Wire bus (`0xC1`); whether a device answered (byte 8).
    pub fn onewire_reset(&mut self) -> (r: Result<bool>)
        ensures
            final(self).tried(old(self), r),
            final(self).same_link(old(self)),
            final(self).same_data(old(self)),
            r matches Ok(p) ==> final(self).exchanged(old(self), 0xC1, 0, 0, 0, 0, Seq::empty())
                && p == (final(self).reply()[8] != 0),
            r is Err ==> final(self).log() == old(self).log(),
    {
        let response = self.send_request(0xC1, 0, 0, 0, 0)?;
        Ok(response[8] != 0)
    }

    /// Write one byte on the 1-Wire bus (`0xC2`).
    pub fn onewire_write_byte(&mut self, data: u8) -> (r: Result<()>)
        ensures
            final(self).tried(old(self), r),
            final(self).same_link(old(self)),
            final(self).same_data(old(self)),
            r is Ok ==> final(self).exchanged(old(self), 0xC2, data, 0, 0, 0, Seq::empty()),
            r is Err ==> final(self).log() == old(self).log(),
    {
        self.send_request(0xC2, data, 0, 0, 0)?;
        Ok(())
    }

    /// Read one byte from the 1-Wire bus (`0xC3`, byte 8).
    pub fn onewire_read_byte(&mut self) -> (r: Result<u8>)
        ensures
            final(self).tried(old(self), r),
            final(self).same_link(old(self)),
            final(self).same_data(old(self)),
            r matches Ok(b) ==> final(self).exchanged(old(self), 0xC3, 0, 0, 0, 0, Seq::empty())
                && b == final(self).reply()[8],
            r is Err ==> final(self).log() == old(self).log(),
    {
        let response = self.send_request(0xC3, 0, 0, 0, 0)?;
        Ok(response[8])
    }

    /// Search the 1-Wire bus (`0xC4`, see [`onewire_ids`]).
    pub fn onewire_search(&mut self) -> (r: Result<Vec<[u8; 8]>>)
        ensures
            final(self).tried(old(self), r),
            final(self).same_link(old(self)),
            final(self).same_data(old(self)),
            r matches Ok(ids) ==> final(self).exchanged(old(self), 0xC4, 0, 0, 0, 0, Seq::empty()) && onewire_ids(
                final(self).reply(), ids@),
            r is Err ==> final(self).log() == old(self).log(),
    {
        let response = self.send_request(0xC4, 0, 0, 0, 0)?;
        let count = response[8] as usize;
        let mut devices: Vec<[u8; 8]> = Vec::new();
        let mut i: usize = 0;
        while i < count
            invariant
                i <= count,
                count == response@[8],
                response@.len() == 68,
                devices@.len() == (if i < 7 { i as int } else { 7 }),
                forall|k: int| 0 <= k < devices@.len() ==> (#[trigger] devices@[k])@ == response@.subrange(9 + 8 * k,
                    17 + 8 * k),
            decreases count - i,
        {
            let start = 9 + i * 8;
            if start + 7 < response.len() {
                let mut id = [0u8; 8];
                let mut j: usize = 0;
                while j < 8
                    invariant
                        j <= 8,
                        start + 8 <= 68,
                        response@.len() == 68,
                        forall|q: int| 0 <= q < j ==> id@[q] == response@[start + q],
                    decreases 8 - j,
                {
                    id[j] = response[start + j];
                    j = j + 1;
                }
                assert(id@ =~= response@.subrange(start as int, start + 8));
                devices.push(id);
            }
            i = i + 1;
        }
        Ok(devices)
    }
}

/// Write over SPI (see [`PoKeysDevice::spi_write`]).
pub fn spi_write_simple(device: &mut PoKeysDevice, buffer: &[u8], pin_cs: u8) -> (r: Result<()>)
    ensures
        !(buffer@.len() == 0) && !(buffer@.len() > 55) ==> final(device).tried_with_data(old(device), r),
        !(buffer@.len() == 0) && !(buffer@.len() > 55) ==> link_error(r),
        final(device).same_link(old(device)),
        final(device).same_data(old(device)),
        buffer@.len() == 0 ==> (r matches Err(PoKeysError::Parameter(m)) && m@ == "SPI buffer cannot be empty"@)
            && final(device).unchanged(old(device)),
        buffer@.len() > 55 ==> (r matches Err(PoKeysError::Parameter(m)) && m@ == "SPI data too long (maximum 55 bytes)"@)
            && final(device).unchanged(old(device)),
        1 <= buffer@.len() <= 55 ==> {
            &&& final(device).log() != old(device).log() ==> final(device).exchanged(old(device), 0xE5, 0x10,
                buffer@.len() as u8, pin_cs, 0, buffer@) && (if final(device).reply()[3] == 1 { r is Ok } else {
                r matches Err(PoKeysError::Protocol(m)) && m@ == "SPI write failed"@ })
            &&& final(device).log() == old(device).log() ==> r is Err
        },
{
    device.spi_write(buffer, pin_cs)
}

/// Read over SPI (see [`PoKeysDevice::spi_read`]).
pub fn spi_read_simple(device: &mut PoKeysDevice, length: u8) -> (r: Result<Vec<u8>>)
    ensures
        !(length == 0) && !(length > 55) ==> final(device).tried(old(device), r),
        !(length == 0) && !(length > 55) ==> link_error(r),
        final(device).same_link(old(device)),
        final(device).same_data(old(device)),
        length == 0 ==> (r matches Err(PoKeysError::Parameter(m)) && m@ == "SPI read length cannot be zero"@)
            && final(device).unchanged(old(device)),
        length > 55 ==> (r matches Err(PoKeysError::Parameter(m)) && m@ == "SPI read length too long (maximum 55 bytes)"@)
            && final(device).unchanged(old(device)),
        1 <= length <= 55 ==> {
            &&& final(device).log() != old(device).log() ==> final(device).exchanged(old(device), 0xE5, 0x20, length, 0,
                0, Seq::empty()) && (if final(device).reply()[3] == 1 {
                r matches Ok(d) && d@ == final(device).reply().subrange(8, 8 + length)
            } else {
                r matches Err(PoKeysError::Protocol(m)) && m@ == "SPI read failed"@
            })
            &&& final(device).log() == old(device).log() ==> r is Err
        },
{
    device.spi_read(length)
}

/// Configure SPI (see [`PoKeysDevice::spi_configure`]).
pub fn spi_configure_simple(device: &mut PoKeysDevice, prescaler: u8, frame_format: u8) -> (r: Result<()>)
    ensures
        final(device).tried(old(device), r),
        link_error(r),
        final(device).same_link(old(device)),
        final(device).same_data(old(device)),
        r is Ok ==> final(device).exchanged(old(device), 0xE5, 0x01, prescaler, frame_format, 0, Seq::empty()),
        r is Err ==> final(device).log() == old(device).log(),
{
    device.spi_configure(prescaler, frame_format)
}

/// Send a standard-frame CAN data message of up to 8 bytes.
pub fn can_send_standard(device: &mut PoKeysDevice, id: u16, data: &[u8]) -> (r: Result<()>)
    ensures
        !(data@.len() > 8) ==> link_error(r),
        final(device).same_link(old(device)),
        final(device).same_data(old(device)),
        data@.len() > 8 ==> (r matches Err(PoKeysError::Parameter(m)) && m@ == "CAN data too long"@)
            && final(device).unchanged(old(device)),
        data@.len() <= 8 && r is Ok ==> exists|m: CanMessage| {
            &&& m.id == id as u32 && m.len == data@.len() && m.format == 0 && m.msg_type == 0
            &&& m.data@ == data@ + Seq::new((8 - data@.len()) as nat, |i: int| 0u8)
            &&& #[trigger] final(device).exchanged_all(old(device), packets(can_send_reqs(m), old(device).request_id()))
        },
{
    if data.len() > 8 {
        return Err(PoKeysError::Parameter(string_of("CAN data too long")));
    }
    let mut bytes = [0u8; 8];
    let mut i: usize = 0;
    while i < data.len()
        invariant
            i <= data@.len() <= 8,
            forall|k: int| 0 <= k < i ==> bytes@[k] == data@[k],
            forall|k: int| i <= k < 8 ==> bytes@[k] == 0,
        decreases data@.len() - i,
    {
        bytes[i] = data[i];
        i = i + 1;
    }
    assert(bytes@ =~= data@ + Seq::new((8 - data@.len()) as nat, |i: int| 0u8));
    let message = CanMessage { id: id as u32, data: bytes, len: data.len() as u8, format: 0, msg_type: 0 };
    device.can_send(&message)
}

} // verus!
