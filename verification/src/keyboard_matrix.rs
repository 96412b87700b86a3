//! Matrix keyboard state and configuration (command 0xCA).
//!
//! Keys are indexed on a fixed 8-column layout: the key at row `r`, column
//! `c` has index `r * 8 + c`, whatever the configured width.

use vstd::prelude::*;

verus! {

/// A snapshot of the device-side matrix keyboard configuration.
#[derive(Debug, Clone, Copy, PartialEq, Eq)]
pub struct MatrixKeyboardConfig {
    /// Whether the matrix keyboard is enabled.
    pub enabled: bool,
    /// Number of columns (1..=8).
    pub width: u8,
    /// Number of rows (1..=16).
    pub height: u8,
    /// 1-based pin numbers for rows; entries beyond `height` are 0.
    pub row_pins: [u8; 16],
    /// 1-based pin numbers for columns; entries beyond `width` are 0.
    pub column_pins: [u8; 8],
    /// Direct/macro mapping bitmap, one bit per key.
    pub direct_macro_bitmap: [u8; 16],
    /// Alternate-function pin (1-based, 0 when disabled).
    pub alternate_function_pin: u8,
    /// Scanning decimation factor (0..=50).
    pub scanning_decimation: u8,
}

/// `x - 1`, or 0 when `x` is 0.
pub open spec fn minus_one_sat(x: u8) -> u8 {
    if x == 0 { 0 } else { (x - 1) as u8 }
}

/// The wire size byte: the low nibble of `width - 1` in the high nibble and
/// the low nibble of `height - 1` in the low nibble (both saturating at 0).
pub open spec fn size_byte_of(width: u8, height: u8) -> u8 {
    ((minus_one_sat(width) % 16) * 16 + minus_one_sat(height) % 16) as u8
}

impl MatrixKeyboardConfig {
    /// Wire size byte: `(width-1) << 4 | (height-1)`.
    pub fn size_byte(&self) -> (r: u8)
        ensures
            r == size_byte_of(self.width, self.height),
    {
        let w = self.width.saturating_sub(1);
        let h = self.height.saturating_sub(1);
        let r: u8 = (w << 4u8) | (h & 0x0F);
        assert((w << 4u8) | (h & 0x0F) == ((w % 16) * 16 + h % 16) as u8) by (bit_vector);
        r
    }
}

/// Number of key slots of a matrix keyboard.
pub const MATRIX_KEY_COUNT: usize = 128;

/// A vector of `n` zeros.
pub fn zeros(n: usize) -> (r: Vec<u8>)
    ensures
        r@ == Seq::new(n as nat, |i: int| 0u8),
{
    let mut r: Vec<u8> = Vec::new();
    let mut i: usize = 0;
    while i < n
        invariant
            i <= n,
            r@ == Seq::new(i as nat, |k: int| 0u8),
        decreases n - i,
    {
        r.push(0);
        assert(r@ =~= Seq::new((i + 1) as nat, |k: int| 0u8));
        i = i + 1;
    }
    r
}

/// Matrix keyboard configuration and key state.
#[derive(Debug, Clone)]
pub struct MatrixKeyboard {
    pub configuration: u8,
    pub width: u8,
    pub height: u8,
    pub scanning_decimation: u8,
    pub column_pins: [u8; 8],
    pub row_pins: [u8; 16],
    pub macro_mapping_options: Vec<u8>,
    pub key_mapping_key_code: Vec<u8>,
    pub key_mapping_key_modifier: Vec<u8>,
    pub key_mapping_triggered_key: Vec<u8>,
    pub key_mapping_key_code_up: Vec<u8>,
    pub key_mapping_key_modifier_up: Vec<u8>,
    pub key_values: Vec<u8>,
}

/// The index of a key on the 8-column layout.
pub open spec fn key_index(row: int, col: int) -> int {
    row * 8 + col
}

/// Whether the key at a position reads as pressed: the position lies within
/// the configured size and its key value is non-zero.
pub open spec fn key_pressed(kb: &MatrixKeyboard, row: int, col: int) -> bool {
    &&& row < kb.height
    &&& col < kb.width
    &&& key_index(row, col) < kb.key_values@.len()
    &&& kb.key_values@[key_index(row, col)] != 0
}

/// A keyboard with zero configuration and 128 zero entries in each table.
pub open spec fn is_blank_keyboard(kb: &MatrixKeyboard) -> bool {
    let z = Seq::new(128, |i: int| 0u8);
    &&& kb.configuration == 0
    &&& kb.width == 0
    &&& kb.height == 0
    &&& kb.scanning_decimation == 0
    &&& kb.column_pins@ == Seq::new(8, |i: int| 0u8)
    &&& kb.row_pins@ == Seq::new(16, |i: int| 0u8)
    &&& kb.macro_mapping_options@ == z
    &&& kb.key_mapping_key_code@ == z
    &&& kb.key_mapping_key_modifier@ == z
    &&& kb.key_mapping_triggered_key@ == z
    &&& kb.key_mapping_key_code_up@ == z
    &&& kb.key_mapping_key_modifier_up@ == z
    &&& kb.key_values@ == z
}

impl MatrixKeyboard {
    /// A keyboard with zero configuration and 128 zero entries in each table.
    pub fn new() -> (r: Self)
        ensures
            is_blank_keyboard(&r),
    {
        let r = MatrixKeyboard {
            configuration: 0,
            width: 0,
            height: 0,
            scanning_decimation: 0,
            column_pins: [0u8; 8],
            row_pins: [0u8; 16],
            macro_mapping_options: zeros(MATRIX_KEY_COUNT),
            key_mapping_key_code: zeros(MATRIX_KEY_COUNT),
            key_mapping_key_modifier: zeros(MATRIX_KEY_COUNT),
            key_mapping_triggered_key: zeros(MATRIX_KEY_COUNT),
            key_mapping_key_code_up: zeros(MATRIX_KEY_COUNT),
            key_mapping_key_modifier_up: zeros(MATRIX_KEY_COUNT),
            key_values: zeros(MATRIX_KEY_COUNT),
        };
        assert(r.column_pins@ =~= Seq::new(8, |i: int| 0u8));
        assert(r.row_pins@ =~= Seq::new(16, |i: int| 0u8));
        r
    }

    /// Whether the keyboard is enabled.
    pub fn is_enabled(&self) -> (r: bool)
        ensures
            r == (self.configuration != 0),
    {
        self.configuration != 0
    }

    /// Whether the key at `row`, `col` is pressed; false outside the
    /// configured size.
    pub fn get_key_state(&self, row: usize, col: usize) -> (r: bool)
        ensures
            r == key_pressed(self, row as int, col as int),
    {
        if row >= self.height as usize || col >= self.width as usize {
            return false;
        }
        let key_index = row * 8 + col;
        if key_index < self.key_values.len() {
            self.key_values[key_index] != 0
        } else {
            false
        }
    }
}

impl Default for MatrixKeyboard {
    fn default() -> (r: Self)
        ensures
            is_blank_keyboard(&r),
    {
        MatrixKeyboard::new()
    }
}

} // verus!
