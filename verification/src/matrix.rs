//! LED matrix state and 7-segment character patterns.
//!
//! Segment bits of a 7-segment pattern: bit 0 = DP, 1 = G, 2 = F, 3 = E,
//! 4 = D, 5 = C, 6 = B, 7 = A.

use vstd::prelude::*;
use vstd::string::*;
use crate::error::{PoKeysError, Result};
use crate::text::string_of;

verus! {

/// LED matrix state: up to 8 rows of 8 LEDs, one bit per LED.
#[derive(Debug, Clone, Copy)]
pub struct MatrixLed {
    pub display_enabled: u8,
    pub rows: u8,
    pub columns: u8,
    pub refresh_flag: u8,
    pub data: [u8; 8],
}

/// Bit `col` of row `row` of matrix data.
pub open spec fn led_bit(data: Seq<u8>, row: int, col: int) -> bool {
    (data[row] >> (col as u8)) & 1 == 1
}

/// The state of the LED at `row`, `col`: false outside the configured rows
/// or past column 7.
pub open spec fn led_state(m: MatrixLed, row: int, col: int) -> bool {
    row < m.rows && col < 8 && led_bit(m.data@, row, col)
}

/// The LED at `row`, `col` exists: within the configured rows and the eight
/// columns.
pub open spec fn led_in_range(m: MatrixLed, row: int, col: int) -> bool {
    0 <= row < m.rows && 0 <= col < 8
}

/// Positions are addressable without leaving the data array.
pub open spec fn led_addressable(m: MatrixLed, row: int) -> bool {
    row < m.rows ==> row < 8
}

impl MatrixLed {
    /// An LED matrix with every field zero.
    pub fn new() -> (r: Self)
        ensures
            r.display_enabled == 0,
            r.rows == 0,
            r.columns == 0,
            r.refresh_flag == 0,
            r.data@ == Seq::new(8, |i: int| 0u8),
    {
        let r = MatrixLed { display_enabled: 0, rows: 0, columns: 0, refresh_flag: 0, data: [0u8; 8] };
        assert(r.data@ =~= Seq::new(8, |i: int| 0u8));
        r
    }

    /// Whether the display is enabled.
    pub fn is_enabled(&self) -> (r: bool)
        ensures
            r == (self.display_enabled != 0),
    {
        self.display_enabled != 0
    }

    /// Switch one LED on or off and flag the matrix for refresh.
    pub fn set_led(&mut self, row: usize, col: usize, state: bool) -> (r: Result<()>)
        requires
            led_addressable(*old(self), row as int),
        ensures
            r is Ok <==> led_in_range(*old(self), row as int, col as int),
            r is Err ==> (r matches Err(PoKeysError::Parameter(m)) && m@ == "Invalid LED position"@),
            r is Err ==> *final(self) == *old(self),
            r is Ok ==> {
                &&& led_state(*final(self), row as int, col as int) == state
                &&& forall|i: int, j: int| 0 <= i < 8 && 0 <= j < 8 && (i != row || j != col)
                    ==> #[trigger] led_bit(final(self).data@, i, j) == led_bit(old(self).data@, i, j)
                &&& final(self).refresh_flag == 1
                &&& final(self).rows == old(self).rows
                &&& final(self).columns == old(self).columns
                &&& final(self).display_enabled == old(self).display_enabled
            },
    {
        proof {
            reveal_strlit("Invalid LED position");
        }
        if row >= self.rows as usize || col >= 8 {
            return Err(PoKeysError::Parameter(string_of("Invalid LED position")));
        }
        let old_byte = self.data[row];
        let c: u8 = col as u8;
        let new_byte: u8 = if state { old_byte | (1u8 << c) } else { old_byte & !(1u8 << c) };
        assert(((new_byte >> c) & 1 == 1) == state) by (bit_vector)
            requires
                c < 8,
                new_byte == (if state { old_byte | (1u8 << c) } else { old_byte & !(1u8 << c) }),
        ;
        self.data[row] = new_byte;
        self.refresh_flag = 1;
        proof {
            assert forall|i: int, j: int| 0 <= i < 8 && 0 <= j < 8 && (i != row || j != col)
                implies #[trigger] led_bit(self.data@, i, j) == led_bit(old(self).data@, i, j) by {
                if i == row {
                    let jj = j as u8;
                    assert(jj != c);
                    assert(((new_byte >> jj) & 1) == ((old_byte >> jj) & 1)) by (bit_vector)
                        requires
                            c < 8,
                            jj < 8,
                            jj != c,
                            new_byte == (if state { old_byte | (1u8 << c) } else { old_byte & !(1u8 << c) }),
                    ;
                }
            }
        }
        Ok(())
    }

    /// Whether an LED is on; false outside the matrix.
    pub fn get_led(&self, row: usize, col: usize) -> (r: bool)
        requires
            led_addressable(*self, row as int),
        ensures
            r == led_state(*self, row as int, col as int),
    {
        if row >= self.rows as usize || col >= 8 {
            return false;
        }
        let c: u8 = col as u8;
        let b = self.data[row];
        proof { crate::bits::lemma_mask_bit(b, c); }
        (b & (1u8 << c)) != 0
    }

    /// Switch every LED off and flag the matrix for refresh.
    pub fn clear_all(&mut self)
        ensures
            final(self).data@ == Seq::new(8, |i: int| 0u8),
            final(self).refresh_flag == 1,
            final(self).rows == old(self).rows,
            final(self).columns == old(self).columns,
            final(self).display_enabled == old(self).display_enabled,
    {
        self.data = [0u8; 8];
        self.refresh_flag = 1;
        assert(self.data@ =~= Seq::new(8, |i: int| 0u8));
    }

    /// Switch every LED on and flag the matrix for refresh.
    pub fn set_all(&mut self)
        ensures
            final(self).data@ == Seq::new(8, |i: int| 0xFFu8),
            final(self).refresh_flag == 1,
            final(self).rows == old(self).rows,
            final(self).columns == old(self).columns,
            final(self).display_enabled == old(self).display_enabled,
    {
        self.data = [0xFFu8; 8];
        self.refresh_flag = 1;
        assert(self.data@ =~= Seq::new(8, |i: int| 0xFFu8));
    }
}

impl Default for MatrixLed {
    fn default() -> (r: Self)
        ensures
            r.display_enabled == 0,
            r.rows == 0,
            r.columns == 0,
            r.refresh_flag == 0,
            r.data@ == Seq::new(8, |i: int| 0u8),
    {
        MatrixLed::new()
    }
}

/// A 7-segment display on an LED matrix.
#[derive(Debug, Clone)]
pub struct LedMatrixConfig {
    pub name: String,
    pub description: Option<String>,
    /// 1 or 2.
    pub matrix_id: u8,
    pub enabled: bool,
    /// Number of 7-segment characters (1 to 8).
    pub characters: u8,
}

/// A 7-segment display helper: which matrix, how many characters, and the
/// decimal point of each.
pub struct SevenSegmentDisplay {
    pub matrix_id: u8,
    pub character_count: u8,
    pub decimal_points: Vec<bool>,
}

/// LED matrix settings as the protocol carries them.
pub struct MatrixLedProtocolConfig {
    pub display1_enabled: bool,
    pub display2_enabled: bool,
    /// Number of characters of display 1 (rows in the protocol).
    pub display1_characters: u8,
    /// Number of characters of display 2 (rows in the protocol).
    pub display2_characters: u8,
}

/// Columns of a 7-segment display: 7 segments and the decimal point.
pub const SEVEN_SEGMENT_COLUMNS: u8 = 8;

/// Pins of LED matrix 1: data, latch, clock.
pub const LED_MATRIX_1_PINS: [u8; 3] = [9, 10, 11];
/// Pins of LED matrix 2: data, latch, clock.
pub const LED_MATRIX_2_PINS: [u8; 3] = [23, 24, 25];

/// 7-segment patterns of the digits 0 to 9.
pub const SEVEN_SEGMENT_DIGITS: [u8; 10] = [
    0b11111100,
    0b01100000,
    0b11011010,
    0b11110010,
    0b01100110,
    0b10110110,
    0b10111110,
    0b11100000,
    0b11111110,
    0b11110110,
];

/// 7-segment patterns of the letters that a 7-segment display can show.
pub const SEVEN_SEGMENT_LETTERS: [(char, u8); 19] = [
    ('a', 0b11101110),
    ('b', 0b00111110),
    ('c', 0b10011100),
    ('d', 0b01111010),
    ('e', 0b10011110),
    ('f', 0b10001110),
    ('h', 0b01101110),
    ('i', 0b01100000),
    ('j', 0b01110000),
    ('l', 0b00011100),
    ('n', 0b00101010),
    ('o', 0b11111100),
    ('p', 0b11001110),
    ('q', 0b11100110),
    ('r', 0b00001010),
    ('s', 0b10110110),
    ('t', 0b00011110),
    ('u', 0b01111000),
    ('y', 0b01110110),
];

/// Matrix action types for LED matrix updates.
#[derive(Debug, Clone, Copy, PartialEq, Eq, Structural)]
pub enum MatrixAction {
    UpdateWhole,
    SetPixel,
    ClearPixel,
}

/// The 7-segment pattern of a decimal digit.
pub open spec fn digit_pattern(d: int) -> u8 {
    if d == 0 { 0b11111100 }
    else if d == 1 { 0b01100000 }
    else if d == 2 { 0b11011010 }
    else if d == 3 { 0b11110010 }
    else if d == 4 { 0b01100110 }
    else if d == 5 { 0b10110110 }
    else if d == 6 { 0b10111110 }
    else if d == 7 { 0b11100000 }
    else if d == 8 { 0b11111110 }
    else { 0b11110110 }
}

/// The 7-segment pattern of a lower-case letter, where there is one.
pub open spec fn letter_pattern(c: char) -> Option<u8> {
    if c == 'a' { Some(0b11101110u8) }
    else if c == 'b' { Some(0b00111110u8) }
    else if c == 'c' { Some(0b10011100u8) }
    else if c == 'd' { Some(0b01111010u8) }
    else if c == 'e' { Some(0b10011110u8) }
    else if c == 'f' { Some(0b10001110u8) }
    else if c == 'h' { Some(0b01101110u8) }
    else if c == 'i' { Some(0b01100000u8) }
    else if c == 'j' { Some(0b01110000u8) }
    else if c == 'l' { Some(0b00011100u8) }
    else if c == 'n' { Some(0b00101010u8) }
    else if c == 'o' { Some(0b11111100u8) }
    else if c == 'p' { Some(0b11001110u8) }
    else if c == 'q' { Some(0b11100110u8) }
    else if c == 'r' { Some(0b00001010u8) }
    else if c == 's' { Some(0b10110110u8) }
    else if c == 't' { Some(0b00011110u8) }
    else if c == 'u' { Some(0b01111000u8) }
    else if c == 'y' { Some(0b01110110u8) }
    else { None }
}

/// The lower-case form of an ASCII letter; other characters are unchanged.
pub open spec fn ascii_lower(c: char) -> char {
    if 'A' <= c <= 'Z' { ((c as u32) + 32) as char } else { c }
}

/// The 7-segment pattern of a character: digits, `N`, letters (either case),
/// `-`, `_`, `]`, `[` and space.
pub open spec fn seven_segment_pattern(c: char) -> Option<u8> {
    if '0' <= c <= '9' {
        Some(digit_pattern((c as u32 - '0' as u32) as int))
    } else if c == 'N' {
        Some(0b11101100u8)
    } else if ('a' <= c <= 'z') || ('A' <= c <= 'Z') {
        letter_pattern(ascii_lower(c))
    } else if c == '-' {
        Some(0b00000010u8)
    } else if c == '_' {
        Some(0b00010000u8)
    } else if c == ']' {
        Some(0b11110000u8)
    } else if c == '[' {
        Some(0b10011100u8)
    } else if c == ' ' {
        Some(0u8)
    } else {
        None
    }
}

/// The digits of the matrix display, bit 7 to bit 1 being segments A to G:
/// each digit character gets its documented pattern (for example `7`
/// lights A, B and C, and `1` only B and C); no two digits share a pattern;
/// and each digit lights the same segments as the MAX7219 pattern of that
/// digit, whose bits sit one place lower.
pub proof fn lemma_digit_patterns()
    ensures
        seven_segment_pattern('0') == Some(0b11111100u8),
        seven_segment_pattern('1') == Some(0b01100000u8),
        seven_segment_pattern('2') == Some(0b11011010u8),
        seven_segment_pattern('3') == Some(0b11110010u8),
        seven_segment_pattern('4') == Some(0b01100110u8),
        seven_segment_pattern('5') == Some(0b10110110u8),
        seven_segment_pattern('6') == Some(0b10111110u8),
        seven_segment_pattern('7') == Some(0b11100000u8),
        seven_segment_pattern('8') == Some(0b11111110u8),
        seven_segment_pattern('9') == Some(0b11110110u8),
        forall|a: char, b: char| '0' <= a <= '9' && '0' <= b <= '9' && a != b ==> #[trigger] seven_segment_pattern(a)
            != #[trigger] seven_segment_pattern(b),
        forall|c: char| '0' <= c <= '9' ==> #[trigger] seven_segment_pattern(c) == Some((2 * crate::devices::spi::max7219::digit_segments(
            c as int - '0' as int)) as u8),
{
    assert forall|c: char| '0' <= c <= '9' implies #[trigger] seven_segment_pattern(c) == Some(digit_pattern(c as int - 48))
        by {
        assert((c as u32 - '0' as u32) as int == c as int - 48);
    }
    assert forall|x: int, y: int| 0 <= x < 10 && 0 <= y < 10 && x != y implies #[trigger] digit_pattern(x)
        != #[trigger] digit_pattern(y) by {}
    assert forall|c: char| '0' <= c <= '9' implies #[trigger] seven_segment_pattern(c) == Some((2
        * crate::devices::spi::max7219::digit_segments(c as int - '0' as int)) as u8) by {
        assert(seven_segment_pattern(c) == Some(digit_pattern(c as int - 48)));
    }
}

/// The letters and signs of the matrix display, bit 7 to bit 1 being
/// segments A to G: each gets its documented pattern, a capital letter the
/// pattern of its small letter (but `N`, which has its own); letters outside
/// the table (`g`, `k`, `m`, `v`, `w`, `x`, `z` and their capitals) and all
/// other characters but digits have none.
pub proof fn lemma_letter_patterns()
    ensures
        seven_segment_pattern('a') == Some(0b11101110u8),
        seven_segment_pattern('A') == Some(0b11101110u8),
        seven_segment_pattern('b') == Some(0b00111110u8),
        seven_segment_pattern('B') == Some(0b00111110u8),
        seven_segment_pattern('c') == Some(0b10011100u8),
        seven_segment_pattern('C') == Some(0b10011100u8),
        seven_segment_pattern('d') == Some(0b01111010u8),
        seven_segment_pattern('D') == Some(0b01111010u8),
        seven_segment_pattern('e') == Some(0b10011110u8),
        seven_segment_pattern('E') == Some(0b10011110u8),
        seven_segment_pattern('f') == Some(0b10001110u8),
        seven_segment_pattern('F') == Some(0b10001110u8),
        seven_segment_pattern('h') == Some(0b01101110u8),
        seven_segment_pattern('H') == Some(0b01101110u8),
        seven_segment_pattern('i') == Some(0b01100000u8),
        seven_segment_pattern('I') == Some(0b01100000u8),
        seven_segment_pattern('j') == Some(0b01110000u8),
        seven_segment_pattern('J') == Some(0b01110000u8),
        seven_segment_pattern('l') == Some(0b00011100u8),
        seven_segment_pattern('L') == Some(0b00011100u8),
        seven_segment_pattern('n') == Some(0b00101010u8),
        seven_segment_pattern('o') == Some(0b11111100u8),
        seven_segment_pattern('O') == Some(0b11111100u8),
        seven_segment_pattern('p') == Some(0b11001110u8),
        seven_segment_pattern('P') == Some(0b11001110u8),
        seven_segment_pattern('q') == Some(0b11100110u8),
        seven_segment_pattern('Q') == Some(0b11100110u8),
        seven_segment_pattern('r') == Some(0b00001010u8),
        seven_segment_pattern('R') == Some(0b00001010u8),
        seven_segment_pattern('s') == Some(0b10110110u8),
        seven_segment_pattern('S') == Some(0b10110110u8),
        seven_segment_pattern('t') == Some(0b00011110u8),
        seven_segment_pattern('T') == Some(0b00011110u8),
        seven_segment_pattern('u') == Some(0b01111000u8),
        seven_segment_pattern('U') == Some(0b01111000u8),
        seven_segment_pattern('y') == Some(0b01110110u8),
        seven_segment_pattern('Y') == Some(0b01110110u8),
        seven_segment_pattern('N') == Some(0b11101100u8),
        seven_segment_pattern('-') == Some(0b00000010u8),
        seven_segment_pattern('_') == Some(0b00010000u8),
        seven_segment_pattern(']') == Some(0b11110000u8),
        seven_segment_pattern('[') == Some(0b10011100u8),
        seven_segment_pattern(' ') == Some(0b00000000u8),
        forall|c: char| !('0' <= c <= '9') && !(c == 'a' || c == 'b' || c == 'c' || c == 'd' || c == 'e' || c == 'f' || c == 'h' || c == 'i' || c == 'j' || c == 'l' || c == 'n' || c == 'o' || c == 'p' || c == 'q' || c == 'r' || c == 's' || c == 't' || c == 'u' || c == 'y' || c == 'A' || c == 'B' || c == 'C' || c == 'D' || c == 'E' || c == 'F' || c == 'H' || c == 'I' || c == 'J' || c == 'L' || c == 'N' || c == 'O' || c == 'P' || c == 'Q' || c == 'R' || c == 'S' || c == 'T' || c == 'U' || c == 'Y' || c == '-' || c == '_' || c == ']' || c == '[' || c == ' ') ==> #[trigger] seven_segment_pattern(c) is None,
{
}

fn digit_pattern_of(d: u8) -> (r: u8)
    ensures
        r == digit_pattern(d as int),
{
    if d == 0 { 0b11111100 }
    else if d == 1 { 0b01100000 }
    else if d == 2 { 0b11011010 }
    else if d == 3 { 0b11110010 }
    else if d == 4 { 0b01100110 }
    else if d == 5 { 0b10110110 }
    else if d == 6 { 0b10111110 }
    else if d == 7 { 0b11100000 }
    else if d == 8 { 0b11111110 }
    else { 0b11110110 }
}

fn letter_pattern_of(c: char) -> (r: Option<u8>)
    ensures
        r == letter_pattern(c),
{
    if c == 'a' { Some(0b11101110u8) }
    else if c == 'b' { Some(0b00111110u8) }
    else if c == 'c' { Some(0b10011100u8) }
    else if c == 'd' { Some(0b01111010u8) }
    else if c == 'e' { Some(0b10011110u8) }
    else if c == 'f' { Some(0b10001110u8) }
    else if c == 'h' { Some(0b01101110u8) }
    else if c == 'i' { Some(0b01100000u8) }
    else if c == 'j' { Some(0b01110000u8) }
    else if c == 'l' { Some(0b00011100u8) }
    else if c == 'n' { Some(0b00101010u8) }
    else if c == 'o' { Some(0b11111100u8) }
    else if c == 'p' { Some(0b11001110u8) }
    else if c == 'q' { Some(0b11100110u8) }
    else if c == 'r' { Some(0b00001010u8) }
    else if c == 's' { Some(0b10110110u8) }
    else if c == 't' { Some(0b00011110u8) }
    else if c == 'u' { Some(0b01111000u8) }
    else if c == 'y' { Some(0b01110110u8) }
    else { None }
}

/// The 7-segment pattern of a character, where it has one.
pub fn get_seven_segment_pattern(ch: char) -> (r: Option<u8>)
    ensures
        r == seven_segment_pattern(ch),
{
    if '0' <= ch && ch <= '9' {
        let d: u8 = ((ch as u32) - ('0' as u32)) as u8;
        Some(digit_pattern_of(d))
    } else if ch == 'N' {
        Some(0b11101100u8)
    } else if ('a' <= ch && ch <= 'z') || ('A' <= ch && ch <= 'Z') {
        let lower: char = if 'A' <= ch && ch <= 'Z' { (((ch as u32) + 32) as u8) as char } else { ch };
        assert(lower == ascii_lower(ch));
        letter_pattern_of(lower)
    } else if ch == '-' {
        Some(0b00000010u8)
    } else if ch == '_' {
        Some(0b00010000u8)
    } else if ch == ']' {
        Some(0b11110000u8)
    } else if ch == '[' {
        Some(0b10011100u8)
    } else if ch == ' ' {
        Some(0u8)
    } else {
        None
    }
}

/// The decimal digits of a number, most significant first.
pub open spec fn digits_of(n: nat) -> Seq<u8>
    decreases n,
{
    if n < 10 {
        seq![n as u8]
    } else {
        digits_of(n / 10).push((n % 10) as u8)
    }
}

/// The digits of a number for a display of `count` characters: left-padded
/// with zeros to `count` digits, then cut to the first `count`.
pub open spec fn display_digits(n: nat, count: nat) -> Seq<u8> {
    let d = digits_of(n);
    let pad: nat = if d.len() < count { (count - d.len()) as nat } else { 0 };
    (Seq::new(pad, |i: int| 0u8) + d).take(count as int)
}

/// Every digit is below 10.
pub proof fn lemma_digits_small(n: nat)
    ensures
        forall|i: int| 0 <= i < digits_of(n).len() ==> digits_of(n)[i] < 10,
        digits_of(n).len() >= 1,
    decreases n,
{
    if n >= 10 {
        lemma_digits_small(n / 10);
    }
}

fn push_digits(v: &mut Vec<u8>, n: u32)
    ensures
        final(v)@ == old(v)@ + digits_of(n as nat),
    decreases n,
{
    if n >= 10 {
        push_digits(v, n / 10);
    }
    v.push((n % 10) as u8);
    assert(final(v)@ =~= old(v)@ + digits_of(n as nat));
}

/// The pattern of a digit or character with the decimal point bit added.
pub open spec fn with_point(pattern: u8, point: bool) -> u8 {
    if point { pattern | 1 } else { pattern }
}

/// The rows that `display_number` sends: row `i` below the character count
/// holds the pattern of the `i`-th display digit with its decimal point; the
/// others are 0.
pub open spec fn number_rows(d: &SevenSegmentDisplay, n: nat) -> Seq<u8> {
    let digits = display_digits(n, d.character_count as nat);
    Seq::new(8, |i: int|
        if i < d.character_count { with_point(digit_pattern(digits[i] as int), d.decimal_points@[i]) } else { 0u8 })
}

/// The rows that `display_text` sends: row `i` below both the character
/// count and the text length holds the pattern of the `i`-th character with
/// its decimal point, or 0 for a character without pattern; other rows are 0.
pub open spec fn text_rows(d: &SevenSegmentDisplay, text: Seq<char>) -> Seq<u8> {
    Seq::new(8, |i: int|
        if i < d.character_count && i < text.len() {
            match seven_segment_pattern(text[i]) {
                Some(p) => with_point(p, d.decimal_points@[i]),
                None => 0u8,
            }
        } else {
            0u8
        })
}

impl SevenSegmentDisplay {
    /// A display of `character_count` characters with every decimal point off.
    pub fn new(matrix_id: u8, character_count: u8) -> (r: Self)
        ensures
            r.matrix_id == matrix_id,
            r.character_count == character_count,
            r.decimal_points@ == Seq::new(character_count as nat, |i: int| false),
    {
        let mut points: Vec<bool> = Vec::new();
        let mut i: u8 = 0;
        while i < character_count
            invariant
                i <= character_count,
                points@ == Seq::new(i as nat, |k: int| false),
            decreases character_count - i,
        {
            points.push(false);
            assert(points@ =~= Seq::new((i + 1) as nat, |k: int| false));
            i = i + 1;
        }
        SevenSegmentDisplay { matrix_id, character_count, decimal_points: points }
    }

    /// Switch the decimal point of one character; characters past the count
    /// are ignored.
    pub fn set_decimal_point(&mut self, character: u8, enabled: bool)
        requires
            character < old(self).character_count ==> character < old(self).decimal_points@.len(),
        ensures
            final(self).matrix_id == old(self).matrix_id,
            final(self).character_count == old(self).character_count,
            final(self).decimal_points@ == (if character < old(self).character_count {
                old(self).decimal_points@.update(character as int, enabled)
            } else {
                old(self).decimal_points@
            }),
    {
        if character < self.character_count {
            self.decimal_points.set(character as usize, enabled);
        }
    }

    /// The digits of `number` for this display: left-padded with zeros to the
    /// character count, then cut to it.
    pub fn number_to_digits(&self, number: u32) -> (r: Vec<u8>)
        ensures
            r@ == display_digits(number as nat, self.character_count as nat),
    {
        let mut digits: Vec<u8> = Vec::new();
        push_digits(&mut digits, number);
        assert(digits@ =~= digits_of(number as nat));
        let count = self.character_count as usize;
        let pad: usize = if digits.len() < count { count - digits.len() } else { 0 };
        let ghost padded = Seq::new(pad as nat, |i: int| 0u8) + digits@;
        let mut out: Vec<u8> = Vec::new();
        let mut i: usize = 0;
        while i < count
            invariant
                count == self.character_count,
                pad == (if digits@.len() < count { (count - digits@.len()) as int } else { 0 }),
                padded == Seq::new(pad as nat, |i: int| 0u8) + digits@,
                padded.len() >= count,
                i <= count,
                out@ == padded.take(i as int),
            decreases count - i,
        {
            let v: u8 = if i < pad { 0 } else { digits[i - pad] };
            assert(v == padded[i as int]);
            out.push(v);
            assert(out@ =~= padded.take(i + 1));
            i = i + 1;
        }
        out
    }

    /// The row data that shows `number`.
    pub fn number_row_data(&self, number: u32) -> (r: [u8; 8])
        requires
            self.character_count <= 8,
            self.decimal_points@.len() >= self.character_count,
        ensures
            r@ == number_rows(self, number as nat),
    {
        let digits = self.number_to_digits(number);
        proof {
            lemma_digits_small(number as nat);
        }
        let mut rows = [0u8; 8];
        let count = self.character_count as usize;
        let mut i: usize = 0;
        while i < count
            invariant
                count == self.character_count,
                count <= 8,
                self.decimal_points@.len() >= count,
                digits@ == display_digits(number as nat, count as nat),
                digits@.len() == count,
                i <= count,
                forall|k: int| 0 <= k < i ==> rows@[k] == number_rows(self, number as nat)[k],
                forall|k: int| i <= k < 8 ==> rows@[k] == 0u8,
            decreases count - i,
        {
            let p = digit_pattern_of(digits[i]);
            rows[i] = if self.decimal_points[i] { p | 1 } else { p };
            i = i + 1;
        }
        assert(rows@ =~= number_rows(self, number as nat));
        rows
    }

    /// The row data that shows `text`.
    pub fn text_row_data(&self, text: &str) -> (r: [u8; 8])
        requires
            (if text@.len() < self.character_count { text@.len() as int } else { self.character_count as int }) <= 8,
            forall|i: int| 0 <= i < self.character_count && i < text@.len()
                && seven_segment_pattern(text@[i]) is Some ==> i < self.decimal_points@.len(),
        ensures
            r@ == text_rows(self, text@),
    {
        let len = text.unicode_len();
        let count = self.character_count as usize;
        let n: usize = if len < count { len } else { count };
        let mut rows = [0u8; 8];
        let mut i: usize = 0;
        while i < n
            invariant
                count == self.character_count,
                len == text@.len(),
                n == (if len < count { len } else { count }),
                n <= 8,
                forall|k: int| 0 <= k < self.character_count && k < text@.len()
                    && seven_segment_pattern(text@[k]) is Some ==> k < self.decimal_points@.len(),
                i <= n,
                forall|k: int| 0 <= k < i ==> rows@[k] == text_rows(self, text@)[k],
                forall|k: int| i <= k < 8 ==> rows@[k] == 0u8,
            decreases n - i,
        {
            let ch = text.get_char(i);
            match get_seven_segment_pattern(ch) {
                Some(p) => {
                    rows[i] = if self.decimal_points[i] { p | 1 } else { p };
                },
                None => {
                    rows[i] = 0;
                },
            }
            i = i + 1;
        }
        assert(rows@ =~= text_rows(self, text@));
        rows
    }
}

} // verus!
