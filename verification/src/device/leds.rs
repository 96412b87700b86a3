//! LED matrix and 7-segment display requests of a device.

use vstd::prelude::*;
use vstd::string::*;
use crate::communication::{network_packet, payload_part, request_packet, response_valid, next_id};
use crate::device::{DeviceField, PoKeysDevice, Req, packets, plain, lemma_exchange_none, lemma_exchange_step, lemma_same_log,
    lemma_same_base};
use crate::device::link_error;
use crate::error::{PoKeysError, Result};
use crate::matrix::{
    LedMatrixConfig, MatrixAction, MatrixLed, MatrixLedProtocolConfig, SevenSegmentDisplay, led_addressable,
    led_bit, led_in_range, led_state, number_rows, text_rows, seven_segment_pattern,
};
use crate::models::{DeviceModel, first_non_output_pin, led_matrix_pins, led_pin_text};
use crate::text::{dec, push_dec, string_of};
use crate::types::{DeviceConnectionType, RESPONSE_BUFFER_SIZE};

verus! {

/// The display size byte: characters (rows) in the low nibble, columns in
/// the high nibble.
pub open spec fn display_size_byte(characters: u8, columns: u8) -> u8 {
    ((columns % 16) * 16 + characters % 16) as u8
}

/// The enable flags byte: bit 0 for display 1, bit 1 for display 2.
pub open spec fn matrix_enabled_byte(c: MatrixLedProtocolConfig) -> u8 {
    ((if c.display1_enabled { 1int } else { 0 }) + (if c.display2_enabled { 2int } else { 0 })) as u8
}

/// The display bytes by bit: the size byte keeps the character count in
/// its low nibble and the column count in its high nibble, each read back
/// modulo 16; the enable byte has bit 0 for display 1 and bit 1 for display
/// 2, and nothing else.
pub proof fn lemma_led_config_bytes(characters: u8, columns: u8, c: MatrixLedProtocolConfig)
    ensures
        display_size_byte(characters, columns) % 16 == characters % 16,
        display_size_byte(characters, columns) / 16 == columns % 16,
        (matrix_enabled_byte(c) % 2 == 1) == c.display1_enabled,
        ((matrix_enabled_byte(c) / 2) % 2 == 1) == c.display2_enabled,
        matrix_enabled_byte(c) < 4,
{
}

/// The protocol configuration that a `0xD5` read reports: the enable flags
/// from byte 2, and the character counts from the low nibbles of bytes 4
/// (display 1) and 3 (display 2), which the device reports swapped.
pub open spec fn led_config_read(r: Seq<u8>) -> MatrixLedProtocolConfig {
    MatrixLedProtocolConfig {
        display1_enabled: r[2] % 2 == 1,
        display2_enabled: (r[2] / 2) % 2 == 1,
        display1_characters: r[4] % 16,
        display2_characters: r[3] % 16,
    }
}

/// The `0xD6` action code of a matrix and action, for matrices 1 and 2.
pub open spec fn led_action_code(matrix_id: u8, action: MatrixAction) -> Option<u8> {
    if matrix_id == 1 {
        Some(match action { MatrixAction::UpdateWhole => 1u8, MatrixAction::SetPixel => 5u8, MatrixAction::ClearPixel => 6u8 })
    } else if matrix_id == 2 {
        Some(match action { MatrixAction::UpdateWhole => 11u8, MatrixAction::SetPixel => 15u8, MatrixAction::ClearPixel => 16u8 })
    } else {
        None
    }
}

/// The LED matrix action codes: matrix 1 updates with 1, sets a pixel with
/// 5 and clears one with 6; matrix 2 uses 11, 15 and 16; other matrices
/// have none.
pub proof fn lemma_led_action_codes(matrix_id: u8, action: MatrixAction)
    ensures
        matrix_id == 1 && action is UpdateWhole ==> led_action_code(matrix_id, action) == Some(1u8),
        matrix_id == 1 && action is SetPixel ==> led_action_code(matrix_id, action) == Some(5u8),
        matrix_id == 1 && action is ClearPixel ==> led_action_code(matrix_id, action) == Some(6u8),
        matrix_id == 2 && action is UpdateWhole ==> led_action_code(matrix_id, action) == Some(11u8),
        matrix_id == 2 && action is SetPixel ==> led_action_code(matrix_id, action) == Some(15u8),
        matrix_id == 2 && action is ClearPixel ==> led_action_code(matrix_id, action) == Some(16u8),
        matrix_id != 1 && matrix_id != 2 ==> led_action_code(matrix_id, action) is None,
{
}

/// The index of the first configuration with a matrix ID other than 1 or 2
/// or a character count outside 1 to 8.
pub open spec fn first_bad_led_config(configs: Seq<LedMatrixConfig>) -> Option<int>
    decreases configs.len(),
{
    if configs.len() == 0 {
        None
    } else {
        match first_bad_led_config(configs.drop_last()) {
            Some(i) => Some(i),
            None => {
                let c = configs.last();
                if c.matrix_id < 1 || c.matrix_id > 2 || c.characters < 1 || c.characters > 8 {
                    Some(configs.len() - 1)
                } else {
                    None
                }
            },
        }
    }
}

/// The message of a configuration that fails the basic checks.
pub open spec fn led_config_message(c: LedMatrixConfig) -> Seq<char> {
    if c.matrix_id < 1 || c.matrix_id > 2 {
        "Matrix ID must be 1 or 2"@
    } else {
        "Character count must be between 1 and 8 for 7-segment displays"@
    }
}

/// The index of the first configuration whose matrix pins the model does
/// not list as digital outputs.
pub open spec fn first_model_led_error(m: DeviceModel, configs: Seq<LedMatrixConfig>) -> Option<int>
    decreases configs.len(),
{
    if configs.len() == 0 {
        None
    } else {
        match first_model_led_error(m, configs.drop_last()) {
            Some(i) => Some(i),
            None => if first_non_output_pin(m, led_matrix_pins(configs.last().matrix_id)) is Some {
                Some(configs.len() - 1)
            } else {
                None
            },
        }
    }
}

/// The protocol configuration that a list of display configurations gives:
/// both displays start disabled with one character, and each configuration
/// sets its matrix's flag and count in turn.
pub open spec fn led_protocol(configs: Seq<LedMatrixConfig>) -> MatrixLedProtocolConfig
    decreases configs.len(),
{
    if configs.len() == 0 {
        MatrixLedProtocolConfig { display1_enabled: false, display2_enabled: false, display1_characters: 1, display2_characters: 1 }
    } else {
        let p = led_protocol(configs.drop_last());
        let c = configs.last();
        if c.matrix_id == 1 {
            MatrixLedProtocolConfig { display1_enabled: c.enabled, display1_characters: c.characters, ..p }
        } else {
            MatrixLedProtocolConfig { display2_enabled: c.enabled, display2_characters: c.characters, ..p }
        }
    }
}

/// The LED matrix index error.
pub open spec fn invalid_led_index<T>(r: Result<T>) -> bool {
    r matches Err(PoKeysError::Parameter(m)) && m@ == "Invalid LED matrix index"@
}

fn bad_led_index() -> (e: PoKeysError)
    ensures
        invalid_led_index::<()>(Err(e)),
{
    PoKeysError::Parameter(string_of("Invalid LED matrix index"))
}

fn copy_protocol_config(c: &MatrixLedProtocolConfig) -> (r: MatrixLedProtocolConfig)
    ensures
        r == *c,
{
    MatrixLedProtocolConfig {
        display1_enabled: c.display1_enabled,
        display2_enabled: c.display2_enabled,
        display1_characters: c.display1_characters,
        display2_characters: c.display2_characters,
    }
}

impl PoKeysDevice {
    /// The display size byte of a character count and column count.
    pub fn encode_display_size(&self, characters: u8, columns: u8) -> (r: u8)
        ensures
            r == display_size_byte(characters, columns),
    {
        assert((characters & 0x0F) | ((columns & 0x0F) << 4u8) == ((columns % 16) * 16 + characters % 16) as u8)
            by (bit_vector);
        (characters & 0x0F) | ((columns & 0x0F) << 4u8)
    }

    /// The enable flags byte of a protocol configuration.
    pub fn encode_matrix_enabled(&self, config: &MatrixLedProtocolConfig) -> (r: u8)
        ensures
            r == matrix_enabled_byte(*config),
    {
        let mut enabled: u8 = 0;
        if config.display1_enabled {
            enabled = enabled | 1;
        }
        if config.display2_enabled {
            enabled = enabled | 2;
        }
        assert((0u8 | 1u8) == 1u8 && (0u8 | 2u8) == 2u8 && (1u8 | 2u8) == 3u8) by (bit_vector);
        enabled
    }

    /// Configure the LED matrices (`0xD5` option 0): the enable flags and the
    /// two display sizes, 8 columns each.
    pub fn configure_led_matrix(&mut self, config: &MatrixLedProtocolConfig) -> (r: Result<()>)
        ensures
            final(self).tried(old(self), r),
            final(self).same_link(old(self)),
            final(self).same_data(old(self)),
            !old(self).connected() ==> r matches Err(PoKeysError::NotConnected),
            r is Ok ==> final(self).exchanged(old(self), 0xD5, 0, matrix_enabled_byte(*config),
                display_size_byte(config.display1_characters, 8), display_size_byte(config.display2_characters, 8),
                Seq::empty()),
            r is Err ==> final(self).log() == old(self).log(),
    {
        let enabled_flags = self.encode_matrix_enabled(config);
        let display1_size = self.encode_display_size(config.display1_characters, crate::matrix::SEVEN_SEGMENT_COLUMNS);
        let display2_size = self.encode_display_size(config.display2_characters, crate::matrix::SEVEN_SEGMENT_COLUMNS);
        self.send_request(0xD5, 0x00, enabled_flags, display1_size, display2_size)?;
        Ok(())
    }

    /// Read the LED matrix configuration (`0xD5` option 1, see
    /// [`led_config_read`]).
    pub fn read_led_matrix_config(&mut self) -> (r: Result<MatrixLedProtocolConfig>)
        ensures
            final(self).tried(old(self), r),
            final(self).same_link(old(self)),
            final(self).same_data(old(self)),
            !old(self).connected() ==> r matches Err(PoKeysError::NotConnected),
            r matches Ok(c) ==> final(self).exchanged(old(self), 0xD5, 1, 0, 0, 0, Seq::empty())
                && c == led_config_read(final(self).reply()),
            r is Err ==> final(self).log() == old(self).log(),
    {
        let response = self.send_request(0xD5, 0x01, 0, 0, 0)?;
        let flags = response[2];
        let s1 = response[3];
        let s2 = response[4];
        proof { crate::bits::lemma_flag_bits(flags); }
        proof { crate::bits::lemma_nibbles(s1); crate::bits::lemma_nibbles(s2); }
        Ok(MatrixLedProtocolConfig {
            display1_enabled: (flags & 0x01) != 0,
            display2_enabled: (flags & 0x02) != 0,
            display1_characters: s2 & 0x0F,
            display2_characters: s1 & 0x0F,
        })
    }

    /// Update an LED matrix (`0xD6`) with an action, position and up to 56
    /// bytes of data. Only network devices take it; a matrix other than 1 or
    /// 2 is refused before the request is prepared. Without a network
    /// transport nothing is sent and the call succeeds.
    pub fn update_led_matrix(&mut self, matrix_id: u8, action: MatrixAction, row: u8, column: u8, data: &[u8])
        -> (r: Result<()>)
        ensures
            final(self).same_connection(old(self)),
            final(self).same_data(old(self)),
            final(self).communication.same_settings(&old(self).communication),
            led_action_code(matrix_id, action) is None ==> (r matches Err(PoKeysError::Parameter(m))
                && m@ == "Invalid matrix ID: "@ + dec(matrix_id as nat)) && final(self).unchanged(old(self)),
            led_action_code(matrix_id, action) is Some ==> final(self).request_id() == next_id(old(self).request_id()),
            led_action_code(matrix_id, action) is Some && old(self).connection() != DeviceConnectionType::NetworkDevice
                ==> (r matches Err(PoKeysError::NotSupported)) && final(self).log() == old(self).log(),
            led_action_code(matrix_id, action) is Some && old(self).connection() == DeviceConnectionType::NetworkDevice
                && old(self).network_interface is None ==> r is Ok && final(self).log() == old(self).log(),
            r is Ok && final(self).log() != old(self).log() ==> final(self).exchanged(old(self), 0xD6,
                led_action_code(matrix_id, action)->0, row, column, 0, payload_part(data@)),
            r is Err ==> final(self).log() == old(self).log(),
    {
        let action_code: u8 = if matrix_id == 1 {
            match action { MatrixAction::UpdateWhole => 1, MatrixAction::SetPixel => 5, MatrixAction::ClearPixel => 6 }
        } else if matrix_id == 2 {
            match action { MatrixAction::UpdateWhole => 11, MatrixAction::SetPixel => 15, MatrixAction::ClearPixel => 16 }
        } else {
            let mut m = string_of("Invalid matrix ID: ");
            push_dec(&mut m, matrix_id as u64);
            return Err(PoKeysError::Parameter(m));
        };
        let request = self.communication.prepare_request_with_data(0xD6, action_code, row, column, 0, Some(data));
        match self.connection_type {
            DeviceConnectionType::NetworkDevice => {
                match &mut self.network_interface {
                    Some(iface) => {
                        let request_id = request[6];
                        let packet = network_packet(&request);
                        iface.send(packet.as_slice())?;
                        let mut response = [0u8; RESPONSE_BUFFER_SIZE];
                        iface.receive(&mut response)?;
                        self.communication.validate_response(&response, request_id)?;
                        self.exchanges = Ghost(self.exchanges@.push((request@, response@)));
                        assert(self.log().take(old(self).log().len() as int) =~= old(self).log());
                    },
                    None => {},
                }
            },
            _ => {
                return Err(PoKeysError::NotSupported);
            },
        }
        Ok(())
    }
}

proof fn lemma_bad_led_config_prefix(configs: Seq<LedMatrixConfig>, i: int)
    requires
        0 <= i <= configs.len(),
        first_bad_led_config(configs.take(i)) is None,
        i < configs.len() ==> !(configs[i].matrix_id < 1 || configs[i].matrix_id > 2 || configs[i].characters < 1
            || configs[i].characters > 8),
    ensures
        first_bad_led_config(configs.take(i + 1)) is None || i == configs.len(),
{
    if i < configs.len() {
        assert(configs.take(i + 1).drop_last() =~= configs.take(i));
    }
}

impl PoKeysDevice {
    /// Configure the LED matrices from display configurations: each must
    /// name matrix 1 or 2 and 1 to 8 characters; with a model loaded, each
    /// matrix's pins must be digital outputs there; then the protocol
    /// configuration (see [`led_protocol`]) is sent.
    pub fn configure_led_matrices(&mut self, configs: &[LedMatrixConfig]) -> (r: Result<()>)
        ensures
            final(self).same_link(old(self)),
            final(self).same_data(old(self)),
            first_bad_led_config(configs@) matches Some(i) ==> (r matches Err(PoKeysError::InvalidConfiguration(m))
                && m@ == led_config_message(configs@[i])) && final(self).log() == old(self).log(),
            first_bad_led_config(configs@) is None && old(self).model is Some && first_model_led_error(
                old(self).model->0, configs@) is Some ==> {
                let md = old(self).model->0;
                let i = first_model_led_error(md, configs@)->0;
                &&& r matches Err(PoKeysError::ModelValidationError(m)) && m@ == led_pin_text(
                    first_non_output_pin(md, led_matrix_pins(configs@[i].matrix_id))->0, configs@[i].matrix_id)
                &&& final(self).log() == old(self).log()
            },
            r is Ok ==> final(self).exchanged(old(self), 0xD5, 0, matrix_enabled_byte(led_protocol(configs@)),
                display_size_byte(led_protocol(configs@).display1_characters, 8), display_size_byte(
                led_protocol(configs@).display2_characters, 8), Seq::empty()),
            r is Err ==> final(self).log() == old(self).log(),
    {
        let n = configs.len();
        let mut i: usize = 0;
        while i < n
            invariant
                i <= n,
                n == configs@.len(),
                first_bad_led_config(configs@.take(i as int)) is None,
            decreases n - i,
        {
            proof { assert(configs@.take(i + 1).drop_last() =~= configs@.take(i as int)); }
            let c = &configs[i];
            if c.matrix_id < 1 || c.matrix_id > 2 {
                proof { lemma_bad_led_prefix_some(configs@, i as int); }
                return Err(PoKeysError::InvalidConfiguration(string_of("Matrix ID must be 1 or 2")));
            }
            if c.characters < 1 || c.characters > 8 {
                proof { lemma_bad_led_prefix_some(configs@, i as int); }
                return Err(PoKeysError::InvalidConfiguration(string_of(
                    "Character count must be between 1 and 8 for 7-segment displays")));
            }
            i = i + 1;
        }
        proof {
            assert(configs@.take(n as int) =~= configs@);
            lemma_no_bad_led(configs@);
        }
        match &self.model {
            Some(model) => {
                let mut j: usize = 0;
                while j < n
                    invariant
                        j <= n,
                        n == configs@.len(),
                        self.model == Some(*model),
                        first_bad_led_config(configs@) is None,
                        forall|q: int| 0 <= q < n ==> 1 <= #[trigger] configs@[q].matrix_id <= 2,
                        first_model_led_error(*model, configs@.take(j as int)) is None,
                    decreases n - j,
                {
                    proof { assert(configs@.take(j + 1).drop_last() =~= configs@.take(j as int)); }
                    match model.validate_led_matrix_config(&configs[j]) {
                        Ok(_) => {},
                        Err(e) => {
                            proof { lemma_model_led_prefix_some(*model, configs@, j as int); }
                            return Err(e);
                        },
                    }
                    j = j + 1;
                }
                proof { assert(configs@.take(n as int) =~= configs@); }
            },
            None => {},
        }
        let mut proto = MatrixLedProtocolConfig {
            display1_enabled: false,
            display2_enabled: false,
            display1_characters: 1,
            display2_characters: 1,
        };
        let mut k: usize = 0;
        assert(configs@.take(0) =~= Seq::<LedMatrixConfig>::empty());
        while k < n
            invariant
                k <= n,
                n == configs@.len(),
                proto == led_protocol(configs@.take(k as int)),
            decreases n - k,
        {
            proof { assert(configs@.take(k + 1).drop_last() =~= configs@.take(k as int)); }
            if configs[k].matrix_id == 1 {
                proto.display1_enabled = configs[k].enabled;
                proto.display1_characters = configs[k].characters;
            } else {
                proto.display2_enabled = configs[k].enabled;
                proto.display2_characters = configs[k].characters;
            }
            k = k + 1;
        }
        proof { assert(configs@.take(n as int) =~= configs@); }
        self.configure_led_matrix(&proto)?;
        Ok(())
    }
}

proof fn lemma_bad_led_prefix_some(configs: Seq<LedMatrixConfig>, i: int)
    requires
        0 <= i < configs.len(),
        first_bad_led_config(configs.take(i)) is None,
        configs[i].matrix_id < 1 || configs[i].matrix_id > 2 || configs[i].characters < 1 || configs[i].characters > 8,
    ensures
        first_bad_led_config(configs) == Some(i),
    decreases configs.len(),
{
    if configs.len() == i + 1 {
        assert(configs.drop_last() =~= configs.take(i));
    } else {
        assert(configs.drop_last().take(i) =~= configs.take(i));
        lemma_bad_led_prefix_some(configs.drop_last(), i);
    }
}

proof fn lemma_model_led_prefix_some(m: DeviceModel, configs: Seq<LedMatrixConfig>, i: int)
    requires
        0 <= i < configs.len(),
        first_model_led_error(m, configs.take(i)) is None,
        first_non_output_pin(m, led_matrix_pins(configs[i].matrix_id)) is Some,
    ensures
        first_model_led_error(m, configs) == Some(i),
    decreases configs.len(),
{
    if configs.len() == i + 1 {
        assert(configs.drop_last() =~= configs.take(i));
    } else {
        assert(configs.drop_last().take(i) =~= configs.take(i));
        lemma_model_led_prefix_some(m, configs.drop_last(), i);
    }
}

proof fn lemma_no_bad_led(configs: Seq<LedMatrixConfig>)
    requires
        first_bad_led_config(configs) is None,
    ensures
        forall|q: int| 0 <= q < configs.len() ==> 1 <= #[trigger] configs[q].matrix_id <= 2,
    decreases configs.len(),
{
    if configs.len() > 0 {
        lemma_no_bad_led(configs.drop_last());
        assert forall|q: int| 0 <= q < configs.len() implies 1 <= #[trigger] configs[q].matrix_id <= 2 by {
            if q < configs.len() - 1 {
                assert(configs[q] == configs.drop_last()[q]);
            }
        }
    }
}

/// The requests that push an LED matrix's data: rows 0 to 2 with `0x63`,
/// rows 3 to 5 with `0x64` when it has more than 3 rows, rows 6 and 7 with
/// `0x65` when it has more than 6.
pub open spec fn led_update_reqs(index: u8, m: MatrixLed) -> Seq<Req> {
    let d = m.data@;
    seq![plain(0x63, index, d[0], d[1], d[2])] + (if m.rows > 3 { seq![plain(0x64, index, d[3], d[4], d[5])] } else {
        Seq::empty()
    }) + (if m.rows > 6 { seq![plain(0x65, index, d[6], d[7], 0)] } else { Seq::empty() })
}

impl PoKeysDevice {
    /// Enable LED matrix `led_index` with a size of at most 8 by 8 and send
    /// the configuration (`0x62`); the local state is set before sending.
    pub fn configure_matrix_led(&mut self, led_index: usize, rows: u8, columns: u8) -> (r: Result<()>)
        ensures
            final(self).same_link(old(self)),
            led_index >= old(self).matrix_led@.len() ==> invalid_led_index(r) && final(self).unchanged(old(self)),
            led_index < old(self).matrix_led@.len() && (rows > 8 || columns > 8) ==> (r matches Err(PoKeysError::Parameter(m))
                && m@ == "Matrix LED size too large"@) && final(self).unchanged(old(self)),
            led_index < old(self).matrix_led@.len() && rows <= 8 && columns <= 8 ==> {
                &&& final(self).tried(old(self), r)
                &&& final(self).matrix_led@ == old(self).matrix_led@.update(led_index as int, (MatrixLed {
                    display_enabled: 1, rows, columns, ..old(self).matrix_led@[led_index as int] }))
                &&& final(self).same_data_except(old(self), set![DeviceField::MatrixLed])
                &&& r is Ok ==> final(self).exchanged(old(self), 0x62, led_index as u8, rows, columns, 1, Seq::empty())
                &&& r is Err ==> final(self).log() == old(self).log()
                &&& !old(self).connected() ==> r matches Err(PoKeysError::NotConnected)
            },
    {
        if led_index >= self.matrix_led.len() {
            return Err(bad_led_index());
        }
        if rows > 8 || columns > 8 {
            return Err(PoKeysError::Parameter(string_of("Matrix LED size too large")));
        }
        let mut m = self.matrix_led[led_index];
        m.display_enabled = 1;
        m.rows = rows;
        m.columns = columns;
        self.matrix_led.set(led_index, m);
        self.send_request(0x62, led_index as u8, rows, columns, 1)?;
        Ok(())
    }

    /// Push LED matrix `led_index`'s data to the device (see
    /// [`led_update_reqs`]) and clear its refresh flag; a disabled matrix is
    /// refused as not supported.
    pub fn update_matrix_led(&mut self, led_index: usize) -> (r: Result<()>)
        ensures
            !(led_index >= old(self).matrix_led@.len()) && !(led_index < old(self).matrix_led@.len() && old(self).matrix_led@[led_index as int].display_enabled == 0) ==> link_error(r),
            final(self).same_link(old(self)),
            led_index >= old(self).matrix_led@.len() ==> invalid_led_index(r) && final(self).unchanged(old(self)),
            led_index < old(self).matrix_led@.len() && old(self).matrix_led@[led_index as int].display_enabled == 0 ==> (
                r matches Err(PoKeysError::NotSupported)) && final(self).unchanged(old(self)),
            led_index < old(self).matrix_led@.len() && !old(self).connected() ==> r is Err,
            r is Err ==> final(self).same_data(old(self)),
            r is Ok ==> {
                &&& led_index < old(self).matrix_led@.len()
                &&& final(self).exchanged_all(old(self), packets(led_update_reqs(led_index as u8,
                    old(self).matrix_led@[led_index as int]), old(self).request_id()))
                &&& final(self).matrix_led@ == old(self).matrix_led@.update(led_index as int, (MatrixLed {
                    refresh_flag: 0, ..old(self).matrix_led@[led_index as int] }))
                &&& final(self).same_data_except(old(self), set![DeviceField::MatrixLed])
            },
    {
        if led_index >= self.matrix_led.len() {
            return Err(bad_led_index());
        }
        if !self.matrix_led[led_index].is_enabled() {
            return Err(PoKeysError::NotSupported);
        }
        let m = self.matrix_led[led_index];
        let data = m.data;
        let rows = m.rows;
        let idx = led_index as u8;
        let ghost start = *self;
        let ghost reqs = led_update_reqs(idx, m);
        proof { lemma_exchange_none(&start, reqs); }
        self.send_request(0x63, idx, data[0], data[1], data[2])?;
        proof {
            lemma_exchange_step(&*self, &start, &start, reqs, 0);
        }
        if rows > 3 {
            let ghost before = *self;
            self.send_request(0x64, idx, data[3], data[4], data[5])?;
            proof {
                lemma_exchange_step(&*self, &before, &start, reqs, 1);
            }
        }
        if rows > 6 {
            let ghost before = *self;
            self.send_request(0x65, idx, data[6], data[7], 0)?;
            proof {
                lemma_exchange_step(&*self, &before, &start, reqs, 2);
            }
        }
        proof {
            assert(reqs.take(reqs.len() as int) =~= reqs);
        }
        let ghost sent = *self;
        let mut m2 = m;
        m2.refresh_flag = 0;
        self.matrix_led.set(led_index, m2);
        proof {
            lemma_same_log(&sent, &*self, &start, packets(reqs, start.request_id()));
        }
        Ok(())
    }

    /// The state of one LED of matrix `led_index`.
    pub fn get_matrix_led(&self, led_index: usize, row: usize, col: usize) -> (r: Result<bool>)
        requires
            led_index < self.matrix_led@.len() ==> led_addressable(self.matrix_led@[led_index as int], row as int),
        ensures
            led_index >= self.matrix_led@.len() ==> invalid_led_index(r),
            led_index < self.matrix_led@.len() ==> r == Ok::<bool, PoKeysError>(led_state(
                self.matrix_led@[led_index as int], row as int, col as int)),
    {
        if led_index >= self.matrix_led.len() {
            return Err(bad_led_index());
        }
        Ok(self.matrix_led[led_index].get_led(row, col))
    }
}

impl PoKeysDevice {
    /// Switch one LED of matrix `led_index` and push the matrix (see
    /// [`Self::update_matrix_led`]); a position outside the matrix is refused
    /// before anything changes.
    pub fn set_matrix_led(&mut self, led_index: usize, row: usize, col: usize, state: bool) -> (r: Result<()>)
        requires
            led_index < old(self).matrix_led@.len() ==> led_addressable(old(self).matrix_led@[led_index as int], row as int),
        ensures
            final(self).same_link(old(self)),
            led_index >= old(self).matrix_led@.len() ==> invalid_led_index(r) && final(self).unchanged(old(self)),
            led_index < old(self).matrix_led@.len() && !led_in_range(old(self).matrix_led@[led_index as int], row as int,
                col as int) ==> (r matches Err(PoKeysError::Parameter(m)) && m@ == "Invalid LED position"@)
                && final(self).unchanged(old(self)),
            final(self).same_data_except(old(self), set![DeviceField::MatrixLed]),
            r is Ok ==> {
                let m0 = old(self).matrix_led@[led_index as int];
                let m = final(self).matrix_led@[led_index as int];
                &&& led_index < old(self).matrix_led@.len()
                &&& final(self).matrix_led@.len() == old(self).matrix_led@.len()
                &&& forall|k: int| 0 <= k < old(self).matrix_led@.len() && k != led_index ==> #[trigger] final(self).matrix_led@[k]
                    == old(self).matrix_led@[k]
                &&& led_state(m, row as int, col as int) == state
                &&& forall|i: int, j: int| 0 <= i < 8 && 0 <= j < 8 && (i != row || j != col) ==> #[trigger] led_bit(m.data@, i,
                    j) == led_bit(m0.data@, i, j)
                &&& m.rows == m0.rows && m.columns == m0.columns && m.display_enabled == m0.display_enabled
                &&& m.refresh_flag == 0
                &&& final(self).exchanged_all(old(self), packets(led_update_reqs(led_index as u8, m), old(self).request_id()))
            },
    {
        if led_index >= self.matrix_led.len() {
            return Err(bad_led_index());
        }
        let mut m = self.matrix_led[led_index];
        m.set_led(row, col, state)?;
        self.matrix_led.set(led_index, m);
        let ghost mid = *self;
        self.update_matrix_led(led_index)?;
        proof {
            lemma_same_base(&*self, &mid, old(self), packets(led_update_reqs(led_index as u8, mid.matrix_led@[led_index as int]),
                mid.request_id()));
            assert(led_update_reqs(led_index as u8, mid.matrix_led@[led_index as int]) == led_update_reqs(led_index as u8,
                self.matrix_led@[led_index as int]));
        }
        Ok(())
    }

    /// Switch every LED of matrix `led_index` off and push the matrix.
    pub fn clear_matrix_led(&mut self, led_index: usize) -> (r: Result<()>)
        ensures
            final(self).same_link(old(self)),
            led_index >= old(self).matrix_led@.len() ==> invalid_led_index(r) && final(self).unchanged(old(self)),
            final(self).same_data_except(old(self), set![DeviceField::MatrixLed]),
            r is Ok ==> {
                let m0 = old(self).matrix_led@[led_index as int];
                let m = (MatrixLed { data: final(self).matrix_led@[led_index as int].data, refresh_flag: 0, ..m0 });
                &&& led_index < old(self).matrix_led@.len()
                &&& m.data@ == Seq::new(8, |i: int| 0u8)
                &&& final(self).matrix_led@ == old(self).matrix_led@.update(led_index as int, m)
                &&& final(self).exchanged_all(old(self), packets(led_update_reqs(led_index as u8, m), old(self).request_id()))
            },
    {
        if led_index >= self.matrix_led.len() {
            return Err(bad_led_index());
        }
        let mut m = self.matrix_led[led_index];
        m.clear_all();
        self.matrix_led.set(led_index, m);
        let ghost mid = *self;
        self.update_matrix_led(led_index)?;
        proof {
            lemma_same_base(&*self, &mid, old(self), packets(led_update_reqs(led_index as u8, mid.matrix_led@[led_index as int]),
                mid.request_id()));
            assert(self.matrix_led@ =~= old(self).matrix_led@.update(led_index as int, (MatrixLed {
                data: self.matrix_led@[led_index as int].data, refresh_flag: 0, ..old(self).matrix_led@[led_index as int] })));
        }
        Ok(())
    }

    /// Switch every LED of matrix `led_index` on and push the matrix.
    pub fn set_all_matrix_led(&mut self, led_index: usize) -> (r: Result<()>)
        ensures
            final(self).same_link(old(self)),
            led_index >= old(self).matrix_led@.len() ==> invalid_led_index(r) && final(self).unchanged(old(self)),
            final(self).same_data_except(old(self), set![DeviceField::MatrixLed]),
            r is Ok ==> {
                let m0 = old(self).matrix_led@[led_index as int];
                let m = (MatrixLed { data: final(self).matrix_led@[led_index as int].data, refresh_flag: 0, ..m0 });
                &&& led_index < old(self).matrix_led@.len()
                &&& m.data@ == Seq::new(8, |i: int| 0xFFu8)
                &&& final(self).matrix_led@ == old(self).matrix_led@.update(led_index as int, m)
                &&& final(self).exchanged_all(old(self), packets(led_update_reqs(led_index as u8, m), old(self).request_id()))
            },
    {
        if led_index >= self.matrix_led.len() {
            return Err(bad_led_index());
        }
        let mut m = self.matrix_led[led_index];
        m.set_all();
        self.matrix_led.set(led_index, m);
        let ghost mid = *self;
        self.update_matrix_led(led_index)?;
        proof {
            lemma_same_base(&*self, &mid, old(self), packets(led_update_reqs(led_index as u8, mid.matrix_led@[led_index as int]),
                mid.request_id()));
            assert(self.matrix_led@ =~= old(self).matrix_led@.update(led_index as int, (MatrixLed {
                data: self.matrix_led@[led_index as int].data, refresh_flag: 0, ..old(self).matrix_led@[led_index as int] })));
        }
        Ok(())
    }
}

impl SevenSegmentDisplay {
    /// Show a number on the display's matrix (see [`number_rows`]) with an
    /// update-whole `0xD6` request.
    pub fn display_number(&self, device: &mut PoKeysDevice, number: u32) -> (r: Result<()>)
        requires
            self.character_count <= 8,
            self.decimal_points@.len() >= self.character_count,
        ensures
            final(device).same_connection(old(device)),
            final(device).same_data(old(device)),
            led_action_code(self.matrix_id, MatrixAction::UpdateWhole) is None ==> (r matches Err(PoKeysError::Parameter(m))
                && m@ == "Invalid matrix ID: "@ + dec(self.matrix_id as nat)) && final(device).unchanged(old(device)),
            r is Ok && final(device).log() != old(device).log() ==> final(device).exchanged(old(device), 0xD6,
                led_action_code(self.matrix_id, MatrixAction::UpdateWhole)->0, 0, 0, 0, number_rows(self, number as nat)),
            r is Err ==> final(device).log() == old(device).log(),
    {
        let rows = self.number_row_data(number);
        assert(payload_part(rows@) == rows@);
        device.update_led_matrix(self.matrix_id, MatrixAction::UpdateWhole, 0, 0, &rows)
    }

    /// Show text on the display's matrix (see [`text_rows`]) with an
    /// update-whole `0xD6` request.
    pub fn display_text(&self, device: &mut PoKeysDevice, text: &str) -> (r: Result<()>)
        requires
            (if text@.len() < self.character_count { text@.len() as int } else { self.character_count as int }) <= 8,
            forall|i: int| 0 <= i < self.character_count && i < text@.len() && seven_segment_pattern(text@[i]) is Some
                ==> i < self.decimal_points@.len(),
        ensures
            final(device).same_connection(old(device)),
            final(device).same_data(old(device)),
            led_action_code(self.matrix_id, MatrixAction::UpdateWhole) is None ==> (r matches Err(PoKeysError::Parameter(m))
                && m@ == "Invalid matrix ID: "@ + dec(self.matrix_id as nat)) && final(device).unchanged(old(device)),
            r is Ok && final(device).log() != old(device).log() ==> final(device).exchanged(old(device), 0xD6,
                led_action_code(self.matrix_id, MatrixAction::UpdateWhole)->0, 0, 0, 0, text_rows(self, text@)),
            r is Err ==> final(device).log() == old(device).log(),
    {
        let rows = self.text_row_data(text);
        assert(payload_part(rows@) == rows@);
        device.update_led_matrix(self.matrix_id, MatrixAction::UpdateWhole, 0, 0, &rows)
    }

    /// Show text that mixes digits and letters: the same as
    /// [`Self::display_text`].
    pub fn display_mixed(&self, device: &mut PoKeysDevice, text: &str) -> (r: Result<()>)
        requires
            (if text@.len() < self.character_count { text@.len() as int } else { self.character_count as int }) <= 8,
            forall|i: int| 0 <= i < self.character_count && i < text@.len() && seven_segment_pattern(text@[i]) is Some
                ==> i < self.decimal_points@.len(),
        ensures
            final(device).same_connection(old(device)),
            final(device).same_data(old(device)),
            led_action_code(self.matrix_id, MatrixAction::UpdateWhole) is None ==> (r matches Err(PoKeysError::Parameter(m))
                && m@ == "Invalid matrix ID: "@ + dec(self.matrix_id as nat)) && final(device).unchanged(old(device)),
            r is Ok && final(device).log() != old(device).log() ==> final(device).exchanged(old(device), 0xD6,
                led_action_code(self.matrix_id, MatrixAction::UpdateWhole)->0, 0, 0, 0, text_rows(self, text@)),
            r is Err ==> final(device).log() == old(device).log(),
    {
        self.display_text(device, text)
    }
}

} // verus!
