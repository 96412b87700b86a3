//! OEM parameters (command `0xFD`): 62 non-volatile 32-bit values, indices
//! 0 to 61, one of which holds the device location.

use vstd::prelude::*;
use vstd::string::*;
use crate::device::PoKeysDevice;
use crate::device::long_value;
use crate::device::link_error;
use crate::error::{PoKeysError, Result};
use crate::text::{dec, hex2, push_dec, push_hex2, string_of};

verus! {

/// Highest OEM parameter index.
pub const OEM_PARAMETER_MAX_INDEX: u8 = 61;

/// OEM parameter index of the device location.
pub const LOCATION_PARAMETER_INDEX: u8 = 0;

/// The OEM parameter command.
pub const OEM_PARAM_CMD: u8 = 0xFD;
/// Sub-command: read parameters.
pub const OEM_PARAM_READ: u8 = 0x00;
/// Sub-command: write a parameter.
pub const OEM_PARAM_WRITE: u8 = 0x01;
/// Sub-command: clear a parameter.
pub const OEM_PARAM_CLEAR: u8 = 0x02;

/// Response byte of the echoed sub-command.
pub const RESP_SUBCMD: usize = 2;
/// Response byte of the set-status bits of a read.
pub const RESP_STATUS: usize = 5;
/// Response byte of the first parameter value.
pub const RESP_VALUE_START: usize = 8;

/// The message of an index past 61.
pub open spec fn oem_index_message(index: u8) -> Seq<char> {
    "OEM parameter index "@ + dec(index as nat) + " out of range (valid range 0–"@ + dec(61) + ")"@
}

/// The message of a response whose sub-command (byte 2) is not the
/// request's.
pub open spec fn oem_subcommand_message(op: Seq<char>, b: u8) -> Seq<char> {
    "OEM "@ + op + ": unexpected response sub-command 0x"@ + hex2(b)
}

/// What a read of an OEM parameter gives for response `r`: an error when
/// the sub-command is not 0, nothing when status bit 0 is clear, else the
/// signed value at bytes 8 to 11.
pub open spec fn oem_read_result(r: Seq<u8>, v: Result<Option<i32>>) -> bool {
    if r[2] != 0 {
        v matches Err(PoKeysError::Protocol(m)) && m@ == oem_subcommand_message("read"@, r[2])
    } else if r[5] % 2 == 0 {
        v == Ok::<Option<i32>, PoKeysError>(None)
    } else {
        v == Ok::<Option<i32>, PoKeysError>(Some(long_value(r, 8)))
    }
}

/// What a write of `value` gives for response `r`: an error when the
/// sub-command is not 1 or the echoed value (bytes 8 to 11) differs.
pub open spec fn oem_write_result(r: Seq<u8>, value: i32, v: Result<()>) -> bool {
    if r[2] != 1 {
        v matches Err(PoKeysError::Protocol(m)) && m@ == oem_subcommand_message("write"@, r[2])
    } else if long_value(r, 8) != value {
        v matches Err(PoKeysError::Protocol(m)) && m@ == "OEM write: echoed value "@ + crate::text::dec_signed(
            long_value(r, 8) as int) + " does not match written value "@ + crate::text::dec_signed(value as int)
    } else {
        v is Ok
    }
}

/// The four little-endian bytes of a signed value.
pub open spec fn i32_le(v: i32) -> Seq<u8> {
    crate::device::le_bytes(v as u32)
}

/// Check that an OEM parameter index is at most 61.
pub fn validate_index(index: u8) -> (r: Result<()>)
    ensures
        index <= 61 <==> r is Ok,
        index > 61 ==> (r matches Err(PoKeysError::Parameter(m)) && m@ == oem_index_message(index)),
{
    if index > OEM_PARAMETER_MAX_INDEX {
        let mut m = string_of("OEM parameter index ");
        push_dec(&mut m, index as u64);
        m.append(" out of range (valid range 0–");
        push_dec(&mut m, OEM_PARAMETER_MAX_INDEX as u64);
        m.append(")");
        return Err(PoKeysError::Parameter(m));
    }
    Ok(())
}

fn subcommand_error(op: &str, b: u8) -> (e: PoKeysError)
    ensures
        e matches PoKeysError::Protocol(m) && m@ == oem_subcommand_message(op@, b),
{
    let mut m = string_of("OEM ");
    m.append(op);
    m.append(": unexpected response sub-command 0x");
    push_hex2(&mut m, b);
    PoKeysError::Protocol(m)
}

/// Interpret the response of an OEM parameter read (see
/// [`oem_read_result`]).
pub fn parse_oem_read_response(response: &[u8]) -> (r: Result<Option<i32>>)
    requires
        response@.len() >= 12,
    ensures
        oem_read_result(response@, r),
{
    if response[2] != OEM_PARAM_READ {
        return Err(subcommand_error("read", response[2]));
    }
    let s = response[5];
    assert((s & 0x01 == 0) == (s % 2 == 0)) by (bit_vector);
    if response[5] & 0x01 == 0 {
        return Ok(None);
    }
    Ok(Some(crate::device::read_long(response, 8)))
}

/// Interpret the response of an OEM parameter write of `value` (see
/// [`oem_write_result`]).
pub fn parse_oem_write_response(response: &[u8], value: i32) -> (r: Result<()>)
    requires
        response@.len() >= 12,
    ensures
        oem_write_result(response@, value, r),
{
    if response[2] != OEM_PARAM_WRITE {
        return Err(subcommand_error("write", response[2]));
    }
    let echoed = crate::device::read_long(response, 8);
    if echoed != value {
        let mut m = string_of("OEM write: echoed value ");
        crate::text::push_dec_signed(&mut m, echoed as i64);
        m.append(" does not match written value ");
        crate::text::push_dec_signed(&mut m, value as i64);
        return Err(PoKeysError::Protocol(m));
    }
    Ok(())
}

impl PoKeysDevice {
    /// Read OEM parameter `index` (`0xFD`/`0x00`, one parameter; see
    /// [`oem_read_result`]); `None` when the parameter was never set.
    pub fn read_oem_parameter(&mut self, index: u8) -> (r: Result<Option<i32>>)
        ensures
            final(self).same_link(old(self)),
            final(self).same_data(old(self)),
            index > 61 ==> (r matches Err(PoKeysError::Parameter(m)) && m@ == oem_index_message(index))
                && final(self).unchanged(old(self)),
            index <= 61 ==> {
                &&& final(self).tried(old(self), r)
                &&& final(self).log() != old(self).log() ==> final(self).exchanged(old(self), 0xFD, 0x00, index, 1, 0,
                    Seq::empty()) && oem_read_result(final(self).reply(), r)
                &&& final(self).log() == old(self).log() ==> r is Err
            },
    {
        validate_index(index)?;
        let response = self.send_request(OEM_PARAM_CMD, OEM_PARAM_READ, index, 1, 0)?;
        parse_oem_read_response(&response)
    }

    /// Write OEM parameter `index` (`0xFD`/`0x01`, the value's four
    /// little-endian bytes as payload) and check the echo (see
    /// [`oem_write_result`]).
    pub fn write_oem_parameter(&mut self, index: u8, value: i32) -> (r: Result<()>)
        ensures
            final(self).same_link(old(self)),
            final(self).same_data(old(self)),
            index > 61 ==> (r matches Err(PoKeysError::Parameter(m)) && m@ == oem_index_message(index))
                && final(self).unchanged(old(self)),
            index <= 61 ==> {
                &&& final(self).tried_with_data(old(self), r)
                &&& final(self).log() != old(self).log() ==> final(self).exchanged(old(self), 0xFD, 0x01, index, 0, 0,
                    i32_le(value)) && oem_write_result(final(self).reply(), value, r)
                &&& final(self).log() == old(self).log() ==> r is Err
            },
    {
        validate_index(index)?;
        let v = value as u32;
        let bytes: [u8; 4] = [(v & 0xFF) as u8, ((v >> 8u32) & 0xFF) as u8, ((v >> 16u32) & 0xFF) as u8,
            ((v >> 24u32) & 0xFF) as u8];
        proof { crate::bits::lemma_le_split(v); }
        assert(bytes@ =~= i32_le(value));
        let response = self.send_request_with_data(OEM_PARAM_CMD, OEM_PARAM_WRITE, index, 0, 0, &bytes)?;
        parse_oem_write_response(&response, value)
    }

    /// Clear OEM parameter `index` (`0xFD`/`0x02`); the response must echo
    /// sub-command 2.
    pub fn clear_oem_parameter(&mut self, index: u8) -> (r: Result<()>)
        ensures
            final(self).same_link(old(self)),
            final(self).same_data(old(self)),
            index > 61 ==> (r matches Err(PoKeysError::Parameter(m)) && m@ == oem_index_message(index))
                && final(self).unchanged(old(self)),
            index <= 61 ==> {
                &&& final(self).tried(old(self), r)
                &&& final(self).log() != old(self).log() ==> final(self).exchanged(old(self), 0xFD, 0x02, index, 0, 0,
                    Seq::empty()) && (if final(self).reply()[2] != 2 {
                    r matches Err(PoKeysError::Protocol(m)) && m@ == oem_subcommand_message("clear"@,
                        final(self).reply()[2])
                } else {
                    r is Ok
                })
                &&& final(self).log() == old(self).log() ==> r is Err
            },
    {
        validate_index(index)?;
        let response = self.send_request(OEM_PARAM_CMD, OEM_PARAM_CLEAR, index, 0, 0)?;
        if response[2] != OEM_PARAM_CLEAR {
            return Err(subcommand_error("clear", response[2]));
        }
        Ok(())
    }

    /// Read the device location (OEM parameter 0).
    pub fn get_location(&mut self) -> (r: Result<Option<i32>>)
        ensures
            final(self).tried(old(self), r),
            link_error(r),
            final(self).same_link(old(self)),
            final(self).same_data(old(self)),
            final(self).log() != old(self).log() ==> final(self).exchanged(old(self), 0xFD, 0x00, 0, 1, 0, Seq::empty())
                && oem_read_result(final(self).reply(), r),
            final(self).log() == old(self).log() ==> r is Err,
    {
        self.read_oem_parameter(LOCATION_PARAMETER_INDEX)
    }

    /// Write the device location (OEM parameter 0).
    pub fn set_location(&mut self, location: i32) -> (r: Result<()>)
        ensures
            final(self).tried_with_data(old(self), r),
            link_error(r),
            final(self).same_link(old(self)),
            final(self).same_data(old(self)),
            final(self).log() != old(self).log() ==> final(self).exchanged(old(self), 0xFD, 0x01, 0, 0, 0, i32_le(location))
                && oem_write_result(final(self).reply(), location, r),
            final(self).log() == old(self).log() ==> r is Err,
    {
        self.write_oem_parameter(LOCATION_PARAMETER_INDEX, location)
    }

    /// Clear the device location (OEM parameter 0).
    pub fn clear_location(&mut self) -> (r: Result<()>)
        ensures
            final(self).tried(old(self), r),
            link_error(r),
            final(self).same_link(old(self)),
            final(self).same_data(old(self)),
            final(self).log() != old(self).log() ==> final(self).exchanged(old(self), 0xFD, 0x02, 0, 0, 0, Seq::empty())
                && (if final(self).reply()[2] != 2 {
                r matches Err(PoKeysError::Protocol(m)) && m@ == oem_subcommand_message("clear"@, final(self).reply()[2])
            } else {
                r is Ok
            }),
            final(self).log() == old(self).log() ==> r is Err,
    {
        self.clear_oem_parameter(LOCATION_PARAMETER_INDEX)
    }
}

} // verus!
