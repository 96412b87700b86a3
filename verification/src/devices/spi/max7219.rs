//! MAX7219 7-segment display controllers on the SPI bus of a device, alone
//! or daisy-chained (up to eight).
//!
//! Every register write is one SPI write (see [`PoKeysDevice::spi_write`])
//! of two bytes per display in the chain: the highest display first, the
//! targeted display getting the register and value, the others a no-op.

use vstd::prelude::*;
use vstd::string::*;
use vstd::view::View;
use crate::device::{PoKeysDevice, Req, packets, lemma_exchange_none, lemma_exchange_step, lemma_same_base,
    lemma_exchanged_chain};
use crate::device::{lemma_packets_concat, id_after, lemma_next_id_after};
use crate::communication::response_valid;
use crate::types::RESPONSE_BUFFER_SIZE;
use crate::error::{PoKeysError, Result};
use crate::text::{dec, push_dec, string_of};

verus! {

/// Register of digit 0.
pub const REG_DIGIT0: u8 = 0x01;
/// Decode mode register.
pub const REG_DECODE_MODE: u8 = 0x09;
/// Intensity register.
pub const REG_INTENSITY: u8 = 0x0A;
/// Scan limit register.
pub const REG_SCAN_LIMIT: u8 = 0x0B;
/// Shutdown register.
pub const REG_SHUTDOWN: u8 = 0x0C;
/// Display test register.
pub const REG_DISPLAY_TEST: u8 = 0x0F;
/// No-operation register, for the other displays of a chain.
pub const REG_NOOP: u8 = 0x00;

/// Code B decoding on all digits.
pub const DECODE_B_ALL: u8 = 0xFF;
/// No decoding (raw segments).
pub const DECODE_NONE: u8 = 0x00;
/// Scan all eight digits.
pub const SCAN_LIMIT_8: u8 = 0x07;
/// Normal operation.
pub const NORMAL_MODE: u8 = 0x01;
/// Shutdown.
pub const SHUTDOWN_MODE: u8 = 0x00;
/// Display test on.
pub const TEST_ON: u8 = 0x01;
/// Display test off.
pub const TEST_OFF: u8 = 0x00;

/// Segments of `A`.
pub const LETTER_A_UPPER: u8 = 0b01110111;
/// Segments of `B`.
pub const LETTER_B_UPPER: u8 = 0b01111111;
/// Segments of `C`.
pub const LETTER_C_UPPER: u8 = 0b01001110;
/// Segments of `E`.
pub const LETTER_E_UPPER: u8 = 0b01001111;
/// Segments of `F`.
pub const LETTER_F_UPPER: u8 = 0b01000111;
/// Segments of `G`.
pub const LETTER_G_UPPER: u8 = 0b01011110;
/// Segments of `H`.
pub const LETTER_H_UPPER: u8 = 0b00110111;
/// Segments of `I`.
pub const LETTER_I_UPPER: u8 = 0b00110000;
/// Segments of `J`.
pub const LETTER_J_UPPER: u8 = 0b00111100;
/// Segments of `L`.
pub const LETTER_L_UPPER: u8 = 0b00001110;
/// Segments of `N`.
pub const LETTER_N_UPPER: u8 = 0b01110110;
/// Segments of `O`.
pub const LETTER_O_UPPER: u8 = 0b01111110;
/// Segments of `P`.
pub const LETTER_P_UPPER: u8 = 0b01100111;
/// Segments of `S`.
pub const LETTER_S_UPPER: u8 = 0b01011011;
/// Segments of `U`.
pub const LETTER_U_UPPER: u8 = 0b00111110;
/// Segments of `Y`.
pub const LETTER_Y_UPPER: u8 = 0b00111011;
/// Segments of `b`.
pub const LETTER_B_LOWER: u8 = 0b00011111;
/// Segments of `c`.
pub const LETTER_C_LOWER: u8 = 0b00001101;
/// Segments of `d`.
pub const LETTER_D_LOWER: u8 = 0b00111101;
/// Segments of `e`.
pub const LETTER_E_LOWER: u8 = 0b01001111;
/// Segments of `f`.
pub const LETTER_F_LOWER: u8 = 0b01000111;
/// Segments of `g`.
pub const LETTER_G_LOWER: u8 = 0b01111011;
/// Segments of `h`.
pub const LETTER_H_LOWER: u8 = 0b00010111;
/// Segments of `i`.
pub const LETTER_I_LOWER: u8 = 0b00000100;
/// Segments of `j`.
pub const LETTER_J_LOWER: u8 = 0b00111000;
/// Segments of `l`.
pub const LETTER_L_LOWER: u8 = 0b00000110;
/// Segments of `n`.
pub const LETTER_N_LOWER: u8 = 0b00010101;
/// Segments of `o`.
pub const LETTER_O_LOWER: u8 = 0b00011101;
/// Segments of `p`.
pub const LETTER_P_LOWER: u8 = 0b01100111;
/// Segments of `r`.
pub const LETTER_R_LOWER: u8 = 0b00000101;
/// Segments of `s`.
pub const LETTER_S_LOWER: u8 = 0b01011011;
/// Segments of `t`.
pub const LETTER_T_LOWER: u8 = 0b00001111;
/// Segments of `u`.
pub const LETTER_U_LOWER: u8 = 0b00011100;
/// Segments of `y`.
pub const LETTER_Y_LOWER: u8 = 0b00111011;
/// Segments of `-`.
pub const SYMBOL_DASH: u8 = 0b00000001;
/// Segments of `_`.
pub const SYMBOL_UNDERSCORE: u8 = 0b00001000;
/// No segment.
pub const SYMBOL_BLANK: u8 = 0b00000000;
/// The decimal point.
pub const SYMBOL_DP: u8 = 0b10000000;
/// Segments of `[`.
pub const SYMBOL_LEFT_BRACKET: u8 = 0b01001110;
/// Segments of `]`.
pub const SYMBOL_RIGHT_BRACKET: u8 = 0b01111000;

/// The MAX7219 register map and settings: no-op 0, digits 0 to 7 at 1 to
/// 8, decode mode 9, intensity `0x0A`, scan limit `0x0B`, shutdown `0x0C`,
/// display test `0x0F`; decode all `0xFF` or none 0, scan of all eight
/// digits 7, normal operation 1, shutdown 0, test on 1 and off 0.
pub proof fn lemma_register_map()
    ensures
        REG_NOOP == 0 && REG_DIGIT0 == 1 && REG_DECODE_MODE == 9 && REG_INTENSITY == 0x0A && REG_SCAN_LIMIT == 0x0B
            && REG_SHUTDOWN == 0x0C && REG_DISPLAY_TEST == 0x0F,
        DECODE_B_ALL == 0xFF && DECODE_NONE == 0 && SCAN_LIMIT_8 == 7 && NORMAL_MODE == 1 && SHUTDOWN_MODE == 0
            && TEST_ON == 1 && TEST_OFF == 0,
        SYMBOL_DP == 0x80,
{
}

/// Display modes.
#[derive(Debug, Clone, Copy, PartialEq, Eq, Structural)]
pub enum DisplayMode {
    /// Code B decoding: digits 0 to 9 directly.
    CodeB,
    /// Raw segments: every segment under control.
    RawSegments,
}

/// Where text stands on the eight digits.
#[derive(Debug, Clone, Copy, PartialEq, Eq, Structural)]
pub enum TextJustification {
    Left,
    Right,
    Center,
}

/// The segments of digit `d` (0 to 9).
pub open spec fn digit_segments(d: int) -> u8 {
    if d == 0 { 0b01111110 }
    else if d == 1 { 0b00110000 }
    else if d == 2 { 0b01101101 }
    else if d == 3 { 0b01111001 }
    else if d == 4 { 0b00110011 }
    else if d == 5 { 0b01011011 }
    else if d == 6 { 0b01011111 }
    else if d == 7 { 0b01110000 }
    else if d == 8 { 0b01111111 }
    else { 0b01111011 }
}

/// The segments of a character; unknown characters show a dash.
pub open spec fn char_segments(c: char) -> u8 {
    if '0' <= c <= '9' { digit_segments(c as int - '0' as int) }
    else if c == 'A' || c == 'a' { LETTER_A_UPPER }
    else if c == 'B' { LETTER_B_UPPER }
    else if c == 'C' { LETTER_C_UPPER }
    else if c == 'D' || c == 'd' { LETTER_D_LOWER }
    else if c == 'E' { LETTER_E_UPPER }
    else if c == 'F' { LETTER_F_UPPER }
    else if c == 'G' { LETTER_G_UPPER }
    else if c == 'H' { LETTER_H_UPPER }
    else if c == 'I' { LETTER_I_UPPER }
    else if c == 'J' { LETTER_J_UPPER }
    else if c == 'L' { LETTER_L_UPPER }
    else if c == 'N' { LETTER_N_UPPER }
    else if c == 'O' { LETTER_O_UPPER }
    else if c == 'P' { LETTER_P_UPPER }
    else if c == 'R' || c == 'r' { LETTER_R_LOWER }
    else if c == 'S' { LETTER_S_UPPER }
    else if c == 'T' || c == 't' { LETTER_T_LOWER }
    else if c == 'U' { LETTER_U_UPPER }
    else if c == 'Y' { LETTER_Y_UPPER }
    else if c == 'b' { LETTER_B_LOWER }
    else if c == 'c' { LETTER_C_LOWER }
    else if c == 'e' { LETTER_E_LOWER }
    else if c == 'f' { LETTER_F_LOWER }
    else if c == 'g' { LETTER_G_LOWER }
    else if c == 'h' { LETTER_H_LOWER }
    else if c == 'i' { LETTER_I_LOWER }
    else if c == 'j' { LETTER_J_LOWER }
    else if c == 'l' { LETTER_L_LOWER }
    else if c == 'n' { LETTER_N_LOWER }
    else if c == 'o' { LETTER_O_LOWER }
    else if c == 'p' { LETTER_P_LOWER }
    else if c == 's' { LETTER_S_LOWER }
    else if c == 'u' { LETTER_U_LOWER }
    else if c == 'y' { LETTER_Y_LOWER }
    else if c == '_' { SYMBOL_UNDERSCORE }
    else if c == '[' { SYMBOL_LEFT_BRACKET }
    else if c == ']' { SYMBOL_RIGHT_BRACKET }
    else if c == ' ' { SYMBOL_BLANK }
    else { SYMBOL_DASH }
}

/// The character table of the display, bit 6 to bit 0 being segments A to
/// G: each character that `display_text` shows gets the pattern the table
/// documents (for example `E` lights A, D, E, F and G, and `F` only A, E, F
/// and G), and every character outside the table is shown as a dash (G).
pub proof fn lemma_char_segments_table()
    ensures
        char_segments('0') == 0b01111110,
        char_segments('1') == 0b00110000,
        char_segments('2') == 0b01101101,
        char_segments('3') == 0b01111001,
        char_segments('4') == 0b00110011,
        char_segments('5') == 0b01011011,
        char_segments('6') == 0b01011111,
        char_segments('7') == 0b01110000,
        char_segments('8') == 0b01111111,
        char_segments('9') == 0b01111011,
        char_segments('A') == 0b01110111,
        char_segments('a') == 0b01110111,
        char_segments('B') == 0b01111111,
        char_segments('C') == 0b01001110,
        char_segments('D') == 0b00111101,
        char_segments('d') == 0b00111101,
        char_segments('E') == 0b01001111,
        char_segments('F') == 0b01000111,
        char_segments('G') == 0b01011110,
        char_segments('H') == 0b00110111,
        char_segments('I') == 0b00110000,
        char_segments('J') == 0b00111100,
        char_segments('L') == 0b00001110,
        char_segments('N') == 0b01110110,
        char_segments('O') == 0b01111110,
        char_segments('P') == 0b01100111,
        char_segments('R') == 0b00000101,
        char_segments('r') == 0b00000101,
        char_segments('S') == 0b01011011,
        char_segments('T') == 0b00001111,
        char_segments('t') == 0b00001111,
        char_segments('U') == 0b00111110,
        char_segments('Y') == 0b00111011,
        char_segments('b') == 0b00011111,
        char_segments('c') == 0b00001101,
        char_segments('e') == 0b01001111,
        char_segments('f') == 0b01000111,
        char_segments('g') == 0b01111011,
        char_segments('h') == 0b00010111,
        char_segments('i') == 0b00000100,
        char_segments('j') == 0b00111000,
        char_segments('l') == 0b00000110,
        char_segments('n') == 0b00010101,
        char_segments('o') == 0b00011101,
        char_segments('p') == 0b01100111,
        char_segments('s') == 0b01011011,
        char_segments('u') == 0b00011100,
        char_segments('y') == 0b00111011,
        char_segments('-') == 0b00000001,
        char_segments('_') == 0b00001000,
        char_segments('[') == 0b01001110,
        char_segments(']') == 0b01111000,
        char_segments(' ') == 0b00000000,
        forall|c: char| !(c == '0' || c == '1' || c == '2' || c == '3' || c == '4' || c == '5' || c == '6' || c == '7' || c == '8' || c == '9' || c == 'A' || c == 'a' || c == 'B' || c == 'C' || c == 'D' || c == 'd' || c == 'E' || c == 'F' || c == 'G' || c == 'H' || c == 'I' || c == 'J' || c == 'L' || c == 'N' || c == 'O' || c == 'P' || c == 'R' || c == 'r' || c == 'S' || c == 'T' || c == 't' || c == 'U' || c == 'Y' || c == 'b' || c == 'c' || c == 'e' || c == 'f' || c == 'g' || c == 'h' || c == 'i' || c == 'j' || c == 'l' || c == 'n' || c == 'o' || c == 'p' || c == 's' || c == 'u' || c == 'y' || c == '-' || c == '_' || c == '[' || c == ']' || c == ' ') ==> #[trigger] char_segments(c) == 0b00000001,
{
}

/// The segment patterns of text from character `i`: each character but
/// `.` gives its segments, with the decimal point added when a `.` follows
/// it; a `.` that follows no character is dropped.
pub open spec fn text_patterns(chars: Seq<char>, i: int) -> Seq<u8>
    decreases chars.len() - i,
{
    if i < 0 || i >= chars.len() {
        Seq::empty()
    } else if chars[i] == '.' {
        text_patterns(chars, i + 1)
    } else if i + 1 < chars.len() && chars[i + 1] == '.' {
        seq![char_segments(chars[i]) | SYMBOL_DP] + text_patterns(chars, i + 2)
    } else {
        seq![char_segments(chars[i])] + text_patterns(chars, i + 1)
    }
}

/// The first digit that text of `n` patterns starts at.
pub open spec fn start_position(j: TextJustification, n: int) -> int {
    match j {
        TextJustification::Left => 0,
        TextJustification::Right => if n >= 8 { 0 } else { 8 - n },
        TextJustification::Center => if n >= 8 { 0 } else { (8 - n) / 2 },
    }
}

/// The eight digit patterns of justified text, left to right: the first
/// eight patterns of the text placed from [`start_position`], blanks
/// elsewhere.
pub open spec fn justified_digits(text: Seq<char>, j: TextJustification) -> Seq<u8> {
    let p = text_patterns(text, 0).take(if text_patterns(text, 0).len() < 8 { text_patterns(text, 0).len() as int }
        else { 8 });
    let s = start_position(j, p.len() as int);
    Seq::new(8, |k: int| if s <= k < s + p.len() { p[k - s] } else { SYMBOL_BLANK })
}

/// `n` divided by ten `k` times.
pub open spec fn shifted(n: u32, k: nat) -> u32
    decreases k,
{
    if k == 0 { n } else { shifted(n, (k - 1) as nat) / 10 }
}

/// The Code B value of digit `k` from the right of `n`: its decimal digit,
/// blank (`0x0F`) past the number's leading digit; the rightmost digit is
/// always shown.
pub open spec fn number_digit(n: u32, k: nat) -> u8 {
    if k == 0 { (n % 10) as u8 } else if shifted(n, k) == 0 { 0x0F } else { (shifted(n, k) % 10) as u8 }
}

/// The state of a MAX7219 controller.
#[derive(Clone, Copy)]
pub struct Max7219State {
    pub cs_pin: u8,
    pub mode: DisplayMode,
    pub intensity: u8,
    pub chain_length: u8,
    pub target_display: u8,
}

/// One register write: to the targeted display, or to every display of the
/// chain.
#[derive(Clone, Copy)]
pub struct RegisterWrite {
    pub all: bool,
    pub target: u8,
    pub register: u8,
    pub value: u8,
}

/// The SPI bytes of a register write over a chain of `chain` displays.
pub open spec fn write_bytes(chain: u8, w: RegisterWrite) -> Seq<u8> {
    Seq::new(2 * chain as nat, |i: int| {
        let display = chain - 1 - i / 2;
        if w.all || display == w.target {
            if i % 2 == 0 { w.register } else { w.value }
        } else {
            0u8
        }
    })
}

/// The SPI write request of a register write.
pub open spec fn write_req(s: Max7219State, w: RegisterWrite) -> Req {
    let b = write_bytes(s.chain_length, w);
    (0xE5u8, 0x10u8, b.len() as u8, s.cs_pin, 0u8, b)
}

/// The requests of a list of register writes.
pub open spec fn plan_reqs(s: Max7219State, plan: Seq<RegisterWrite>) -> Seq<Req> {
    Seq::new(plan.len(), |i: int| write_req(s, plan[i]))
}

/// A write of `value` to `register` of the targeted display.
pub open spec fn to_target(s: Max7219State, register: u8, value: u8) -> RegisterWrite {
    RegisterWrite { all: false, target: s.target_display, register, value }
}

/// A write of `value` to `register` of every display.
pub open spec fn to_all(register: u8, value: u8) -> RegisterWrite {
    RegisterWrite { all: true, target: 0, register, value }
}

/// The eight digit writes that show `digits` left to right on display
/// `target` (the leftmost digit is digit register 8).
pub open spec fn digit_writes(target: u8, digits: Seq<u8>) -> Seq<RegisterWrite> {
    Seq::new(8, |p: int| RegisterWrite { all: false, target, register: (8 - p) as u8, value: digits[p] })
}

/// The blank digit value of a mode.
pub open spec fn blank_of(mode: DisplayMode) -> u8 {
    match mode { DisplayMode::CodeB => 0x0F, DisplayMode::RawSegments => 0x00 }
}

/// The writes that clear display `target`: digits 1 to 8 blank.
pub open spec fn clear_writes(target: u8, mode: DisplayMode) -> Seq<RegisterWrite> {
    Seq::new(8, |d: int| RegisterWrite { all: false, target, register: (1 + d) as u8, value: blank_of(mode) })
}

/// The writes that clear displays `0` to `n - 1` of a chain, in order.
pub open spec fn clear_chain_writes(n: nat, mode: DisplayMode) -> Seq<RegisterWrite>
    decreases n,
{
    if n == 0 { Seq::empty() } else { clear_chain_writes((n - 1) as nat, mode) + clear_writes((n - 1) as u8, mode) }
}

/// The writes that set up displays `0` to `n - 1` of a chain for Code B:
/// decode mode, intensity 8 and scan limit, display by display.
pub open spec fn setup_chain_writes(n: nat) -> Seq<RegisterWrite>
    decreases n,
{
    if n == 0 {
        Seq::empty()
    } else {
        let t = (n - 1) as u8;
        setup_chain_writes((n - 1) as nat) + seq![RegisterWrite { all: false, target: t, register: REG_DECODE_MODE,
            value: DECODE_B_ALL }, RegisterWrite { all: false, target: t, register: REG_INTENSITY, value: 8 },
            RegisterWrite { all: false, target: t, register: REG_SCAN_LIMIT, value: SCAN_LIMIT_8 }]
    }
}

/// An intensity limited to 15.
pub open spec fn intensity_of(i: u8) -> u8 {
    if i < 15 { i } else { 15 }
}

/// The message of a display index past the chain.
pub open spec fn display_index_message(index: u8, chain: u8) -> Seq<char> {
    "Display index "@ + dec(index as nat) + " out of range (0-"@ + dec((chain - 1) as nat) + ")"@
}

/// The segments of digit `d` (0 to 9); other values show 9's.
pub fn digit_pattern(d: usize) -> (r: u8)
    ensures
        r == digit_segments(d as int),
{
    if d == 0 { 0b01111110 }
    else if d == 1 { 0b00110000 }
    else if d == 2 { 0b01101101 }
    else if d == 3 { 0b01111001 }
    else if d == 4 { 0b00110011 }
    else if d == 5 { 0b01011011 }
    else if d == 6 { 0b01011111 }
    else if d == 7 { 0b01110000 }
    else if d == 8 { 0b01111111 }
    else { 0b01111011 }
}

/// The segments of a character (see [`char_segments`]).
pub fn char_to_segments(c: char) -> (r: u8)
    ensures
        r == char_segments(c),
{
    if '0' <= c && c <= '9' {
        digit_pattern((c as u32 - '0' as u32) as usize)
    } else if c == 'A' || c == 'a' { LETTER_A_UPPER }
    else if c == 'B' { LETTER_B_UPPER }
    else if c == 'C' { LETTER_C_UPPER }
    else if c == 'D' || c == 'd' { LETTER_D_LOWER }
    else if c == 'E' { LETTER_E_UPPER }
    else if c == 'F' { LETTER_F_UPPER }
    else if c == 'G' { LETTER_G_UPPER }
    else if c == 'H' { LETTER_H_UPPER }
    else if c == 'I' { LETTER_I_UPPER }
    else if c == 'J' { LETTER_J_UPPER }
    else if c == 'L' { LETTER_L_UPPER }
    else if c == 'N' { LETTER_N_UPPER }
    else if c == 'O' { LETTER_O_UPPER }
    else if c == 'P' { LETTER_P_UPPER }
    else if c == 'R' || c == 'r' { LETTER_R_LOWER }
    else if c == 'S' { LETTER_S_UPPER }
    else if c == 'T' || c == 't' { LETTER_T_LOWER }
    else if c == 'U' { LETTER_U_UPPER }
    else if c == 'Y' { LETTER_Y_UPPER }
    else if c == 'b' { LETTER_B_LOWER }
    else if c == 'c' { LETTER_C_LOWER }
    else if c == 'e' { LETTER_E_LOWER }
    else if c == 'f' { LETTER_F_LOWER }
    else if c == 'g' { LETTER_G_LOWER }
    else if c == 'h' { LETTER_H_LOWER }
    else if c == 'i' { LETTER_I_LOWER }
    else if c == 'j' { LETTER_J_LOWER }
    else if c == 'l' { LETTER_L_LOWER }
    else if c == 'n' { LETTER_N_LOWER }
    else if c == 'o' { LETTER_O_LOWER }
    else if c == 'p' { LETTER_P_LOWER }
    else if c == 's' { LETTER_S_LOWER }
    else if c == 'u' { LETTER_U_LOWER }
    else if c == 'y' { LETTER_Y_LOWER }
    else if c == '_' { SYMBOL_UNDERSCORE }
    else if c == '[' { SYMBOL_LEFT_BRACKET }
    else if c == ']' { SYMBOL_RIGHT_BRACKET }
    else if c == ' ' { SYMBOL_BLANK }
    else { SYMBOL_DASH }
}

/// A MAX7219 controller, alone or in a chain of up to eight, on a chip
/// select pin.
pub struct Max7219 {
    cs_pin: u8,
    mode: DisplayMode,
    intensity: u8,
    chain_length: u8,
    target_display: u8,
}

impl View for Max7219 {
    type V = Max7219State;

    closed spec fn view(&self) -> Max7219State {
        Max7219State {
            cs_pin: self.cs_pin,
            mode: self.mode,
            intensity: self.intensity,
            chain_length: self.chain_length,
            target_display: self.target_display,
        }
    }
}

/// The chain holds 1 to 8 displays, the target is one of them and the
/// intensity is at most 15.
pub open spec fn max7219_ok(s: Max7219State) -> bool {
    1 <= s.chain_length <= 8 && s.target_display < s.chain_length && s.intensity <= 15
}

/// `after` is `before` after the register writes of `plan`, made one by one
/// while each succeeds: the writes that were answered are logged in order,
/// each but the last of them with status 1. `r` is `Ok` when every write
/// was answered with status 1. Else the first write that failed used its
/// request ID and nothing after it was sent, and `r` is its error:
/// `NotConnected` without a transport, a `Transfer` error where it got no
/// valid response, `SPI write failed` where its status was not 1.
pub open spec fn wrote_plan(after: PoKeysDevice, before: PoKeysDevice, s: Max7219State, plan: Seq<RegisterWrite>,
    r: Result<()>) -> bool {
    let reqs = plan_reqs(s, plan);
    let id0 = before.request_id();
    let k = after.log().len() - before.log().len();
    &&& after.same_link(&before)
    &&& after.same_data(&before)
    &&& 0 <= k <= reqs.len()
    &&& after.logged_all(&before, packets(reqs.take(k), id0))
    &&& forall|i: int| 0 <= i < k - 1 ==> (#[trigger] after.response_no(&before, i))[3] == 1
    &&& k > 0 ==> before.connected()
    &&& r is Ok ==> k == reqs.len() && after.exchanged_all(&before, packets(reqs, id0)) && (k > 0
        ==> after.response_no(&before, k - 1)[3] == 1)
    &&& r is Err ==> {
        ||| k < reqs.len() && after.request_id() == id_after(id0, (k + 1) as nat) && (k > 0 ==> after.response_no(
            &before,
            k - 1,
        )[3] == 1) && (if before.connected() {
            r matches Err(PoKeysError::Transfer(_))
        } else {
            r matches Err(PoKeysError::NotConnected)
        })
        ||| k > 0 && after.request_id() == id_after(id0, k as nat) && after.response_no(&before, k - 1)[3] != 1 && (
        r matches Err(PoKeysError::Protocol(m)) && m@ == "SPI write failed"@)
    }
}

proof fn lemma_earlier_responses(after: &PoKeysDevice, before: &PoKeysDevice, start: &PoKeysDevice, n: int)
    requires
        after.log().take(before.log().len() as int) == before.log(),
        before.log().len() == start.log().len() + n,
        after.log().len() >= before.log().len(),
    ensures
        forall|j: int| 0 <= j < n ==> #[trigger] after.response_no(start, j) == before.response_no(start, j),
{
    assert forall|j: int| 0 <= j < n implies #[trigger] after.response_no(start, j) == before.response_no(start, j) by {
        assert(after.log().take(before.log().len() as int)[start.log().len() + j] == after.log()[start.log().len() + j]);
    }
}

impl Max7219 {
    #[verifier::type_invariant]
    spec fn inv(&self) -> bool {
        max7219_ok(self@)
    }

    fn command_bytes(&self, w: &RegisterWrite) -> (r: Vec<u8>)
        ensures
            r@ == write_bytes(self@.chain_length, *w),
            2 <= r@.len() <= 16,
    {
        proof { use_type_invariant(self); }
        let chain = self.chain_length;
        let mut r: Vec<u8> = Vec::new();
        let mut k: u8 = 0;
        while k < chain
            invariant
                1 <= chain <= 8,
                chain == self@.chain_length,
                k <= chain,
                r@.len() == 2 * k,
                forall|i: int| 0 <= i < 2 * k ==> r@[i] == write_bytes(chain, *w)[i],
            decreases chain - k,
        {
            let display = chain - 1 - k;
            if w.all || display == w.target {
                r.push(w.register);
                r.push(w.value);
            } else {
                r.push(0);
                r.push(0);
            }
            proof {
                assert((2 * k) / 2 == k && (2 * k + 1) / 2 == k && (2 * k) % 2 == 0 && (2 * k + 1) % 2 == 1);
            }
            k = k + 1;
        }
        assert(r@ =~= write_bytes(chain, *w));
        r
    }

    /// Make the register writes of `plan` one by one, stopping at the first
    /// that fails.
    fn write_plan(&self, device: &mut PoKeysDevice, plan: &Vec<RegisterWrite>) -> (r: Result<()>)
        ensures
            wrote_plan(*final(device), *old(device), self@, plan@, r),
    {
        let ghost start = *device;
        let ghost reqs = plan_reqs(self@, plan@);
        let ghost id0 = start.request_id();
        proof { lemma_exchange_none(&start, reqs); }
        let mut i: usize = 0;
        while i < plan.len()
            invariant
                i <= plan@.len(),
                reqs == plan_reqs(self@, plan@),
                id0 == start.request_id(),
                start == *old(device),
                device.same_link(&start),
                device.same_data(&start),
                device.exchanged_all(&start, packets(reqs.take(i as int), id0)),
                forall|j: int| 0 <= j < i ==> (#[trigger] device.response_no(&start, j))[3] == 1,
                i > 0 ==> start.connected(),
            decreases plan@.len() - i,
        {
            let w = plan[i];
            let bytes = self.command_bytes(&w);
            let ghost before = *device;
            assert(reqs[i as int] == write_req(self@, plan@[i as int]));
            let res = device.spi_write(bytes.as_slice(), self.cs_pin);
            match res {
                Ok(()) => {
                    proof {
                        assert(device.log() != before.log());
                        lemma_exchange_step(&*device, &before, &start, reqs, i as int);
                        lemma_earlier_responses(&*device, &before, &start, i as int);
                        assert(device.response_no(&start, i as int) == device.reply());
                        assert forall|j: int| 0 <= j < i + 1 implies (#[trigger] device.response_no(&start, j))[3]
                            == 1 by {
                            if j < i {
                                assert(device.response_no(&start, j) == before.response_no(&start, j));
                            }
                        }
                    }
                },
                Err(e) => {
                    proof {
                        if device.log() == before.log() {
                            let ps = packets(reqs.take(i as int), id0);
                            assert forall|j: int| 0 <= j < ps.len() implies response_valid(
                                #[trigger] device.response_no(&start, j),
                                ps[j][6],
                            ) && device.response_no(&start, j).len() == RESPONSE_BUFFER_SIZE by {
                                assert(device.response_no(&start, j) == before.response_no(&start, j));
                            }
                            lemma_next_id_after(id0, i as nat);
                            assert forall|j: int| 0 <= j < i implies (#[trigger] device.response_no(&start, j))[3]
                                == 1 by {
                                assert(device.response_no(&start, j) == before.response_no(&start, j));
                            }
                        } else {
                            lemma_exchange_step(&*device, &before, &start, reqs, i as int);
                            lemma_earlier_responses(&*device, &before, &start, i as int);
                            assert(device.response_no(&start, i as int) == device.reply());
                            assert forall|j: int| 0 <= j < i implies (#[trigger] device.response_no(&start, j))[3]
                                == 1 by {
                                assert(device.response_no(&start, j) == before.response_no(&start, j));
                            }
                        }
                    }
                    return Err(e);
                },
            }
            i = i + 1;
        }
        proof { assert(reqs.take(plan@.len() as int) =~= reqs); }
        Ok(())
    }

    /// A controller for a chain of `chain_length` displays (1 to 8) on
    /// `cs_pin`: configure SPI (`0xE5`/`0x01` with prescaler 4, format 0),
    /// bring every display out of shutdown and test mode, then set each up
    /// for Code B (see [`setup_chain_writes`]); the first display is the
    /// target.
    pub fn new_chain(device: &mut PoKeysDevice, cs_pin: u8, chain_length: u8) -> (r: Result<Max7219>)
        ensures
            final(device).same_link(old(device)),
            final(device).same_data(old(device)),
            (chain_length == 0 || chain_length > 8) ==> (r matches Err(PoKeysError::Parameter(m)) && m@
                == "Chain length must be 1-8, got "@ + dec(chain_length as nat)) && final(device).unchanged(old(device)),
            r matches Ok(m) ==> {
                let s = Max7219State { cs_pin, mode: DisplayMode::CodeB, intensity: 8, chain_length, target_display: 0 };
                &&& m@ == s
                &&& final(device).exchanged_all(old(device), packets(seq![(0xE5u8, 0x01u8, 0x04u8, 0x00u8, 0u8,
                    Seq::<u8>::empty())] + plan_reqs(s, seq![to_all(REG_SHUTDOWN, NORMAL_MODE), to_all(
                    REG_DISPLAY_TEST, TEST_OFF)] + setup_chain_writes(chain_length as nat)), old(device).request_id()))
            },
    {
        if chain_length == 0 || chain_length > 8 {
            let mut m = string_of("Chain length must be 1-8, got ");
            push_dec(&mut m, chain_length as u64);
            return Err(PoKeysError::Parameter(m));
        }
        let m = Max7219 { cs_pin, mode: DisplayMode::CodeB, intensity: 8, chain_length, target_display: 0 };
        let ghost start = *device;
        device.spi_configure(0x04, 0x00)?;
        let ghost s1 = *device;
        let mut plan: Vec<RegisterWrite> = Vec::new();
        plan.push(RegisterWrite { all: true, target: 0, register: REG_SHUTDOWN, value: NORMAL_MODE });
        plan.push(RegisterWrite { all: true, target: 0, register: REG_DISPLAY_TEST, value: TEST_OFF });
        let mut i: u8 = 0;
        while i < chain_length
            invariant
                i <= chain_length <= 8,
                plan@ == seq![to_all(REG_SHUTDOWN, NORMAL_MODE), to_all(REG_DISPLAY_TEST, TEST_OFF)]
                    + setup_chain_writes(i as nat),
            decreases chain_length - i,
        {
            plan.push(RegisterWrite { all: false, target: i, register: REG_DECODE_MODE, value: DECODE_B_ALL });
            plan.push(RegisterWrite { all: false, target: i, register: REG_INTENSITY, value: 8 });
            plan.push(RegisterWrite { all: false, target: i, register: REG_SCAN_LIMIT, value: SCAN_LIMIT_8 });
            assert(plan@ =~= seq![to_all(REG_SHUTDOWN, NORMAL_MODE), to_all(REG_DISPLAY_TEST, TEST_OFF)]
                + setup_chain_writes((i + 1) as nat));
            i = i + 1;
        }
        let r = m.write_plan(device, &plan);
        proof {
            if r is Ok {
                let first: Seq<Req> = seq![(0xE5u8, 0x01u8, 0x04u8, 0x00u8, 0u8, Seq::<u8>::empty())];
                lemma_exchange_none(&start, first);
                lemma_exchange_step(&s1, &start, &start, first, 0);
                assert(first.take(1) =~= first);
                let rest = plan_reqs(m@, plan@);
                lemma_exchanged_chain(&*device, &s1, &start, packets(first, start.request_id()), packets(rest,
                    s1.request_id()));
                lemma_packets_concat(first, rest, start.request_id());
            }
        }
        match r {
            Ok(()) => Ok(m),
            Err(e) => Err(e),
        }
    }

    /// A controller for one display (see [`Self::new_chain`]).
    pub fn new(device: &mut PoKeysDevice, cs_pin: u8) -> (r: Result<Max7219>)
        ensures
            final(device).same_link(old(device)),
            final(device).same_data(old(device)),
            r matches Ok(m) ==> {
                let s = Max7219State { cs_pin, mode: DisplayMode::CodeB, intensity: 8, chain_length: 1, target_display: 0 };
                &&& m@ == s
                &&& final(device).exchanged_all(old(device), packets(seq![(0xE5u8, 0x01u8, 0x04u8, 0x00u8, 0u8,
                    Seq::<u8>::empty())] + plan_reqs(s, seq![to_all(REG_SHUTDOWN, NORMAL_MODE), to_all(
                    REG_DISPLAY_TEST, TEST_OFF)] + setup_chain_writes(1)), old(device).request_id()))
            },
    {
        Self::new_chain(device, cs_pin, 1)
    }

    /// Code B mode at an intensity (at most 15): decode all digits, scan
    /// all eight, set the intensity.
    pub fn configure_numeric(&mut self, device: &mut PoKeysDevice, intensity: u8) -> (r: Result<()>)
        ensures
            final(self)@ == (Max7219State { mode: DisplayMode::CodeB, intensity: intensity_of(intensity), ..old(self)@ }),
            wrote_plan(*final(device), *old(device), final(self)@, seq![to_target(final(self)@, REG_DECODE_MODE,
                DECODE_B_ALL), to_target(final(self)@, REG_SCAN_LIMIT, SCAN_LIMIT_8), to_target(final(self)@,
                REG_INTENSITY, intensity_of(intensity))], r),
    {
        proof { use_type_invariant(&*self); }
        self.mode = DisplayMode::CodeB;
        self.intensity = if intensity < 15 { intensity } else { 15 };
        let t = self.target_display;
        let mut plan: Vec<RegisterWrite> = Vec::new();
        plan.push(RegisterWrite { all: false, target: t, register: REG_DECODE_MODE, value: DECODE_B_ALL });
        plan.push(RegisterWrite { all: false, target: t, register: REG_SCAN_LIMIT, value: SCAN_LIMIT_8 });
        plan.push(RegisterWrite { all: false, target: t, register: REG_INTENSITY, value: self.intensity });
        self.write_plan(device, &plan)
    }

    /// Raw segment mode at an intensity (at most 15): no decoding, scan all
    /// eight digits, set the intensity.
    pub fn configure_raw_segments(&mut self, device: &mut PoKeysDevice, intensity: u8) -> (r: Result<()>)
        ensures
            final(self)@ == (Max7219State { mode: DisplayMode::RawSegments, intensity: intensity_of(intensity),
                ..old(self)@ }),
            wrote_plan(*final(device), *old(device), final(self)@, seq![to_target(final(self)@, REG_DECODE_MODE,
                DECODE_NONE), to_target(final(self)@, REG_SCAN_LIMIT, SCAN_LIMIT_8), to_target(final(self)@,
                REG_INTENSITY, intensity_of(intensity))], r),
    {
        proof { use_type_invariant(&*self); }
        self.mode = DisplayMode::RawSegments;
        self.intensity = if intensity < 15 { intensity } else { 15 };
        let t = self.target_display;
        let mut plan: Vec<RegisterWrite> = Vec::new();
        plan.push(RegisterWrite { all: false, target: t, register: REG_DECODE_MODE, value: DECODE_NONE });
        plan.push(RegisterWrite { all: false, target: t, register: REG_SCAN_LIMIT, value: SCAN_LIMIT_8 });
        plan.push(RegisterWrite { all: false, target: t, register: REG_INTENSITY, value: self.intensity });
        self.write_plan(device, &plan)
    }

    fn write_digits(&self, device: &mut PoKeysDevice, digits: &[u8; 8]) -> (r: Result<()>)
        ensures
            wrote_plan(*final(device), *old(device), self@, digit_writes(self@.target_display, digits@), r),
    {
        let mut plan: Vec<RegisterWrite> = Vec::new();
        let mut p: usize = 0;
        while p < 8
            invariant
                p <= 8,
                plan@ == digit_writes(self@.target_display, digits@).take(p as int),
            decreases 8 - p,
        {
            plan.push(RegisterWrite { all: false, target: self.target_display, register: (8 - p) as u8, value: digits[p] });
            assert(plan@ =~= digit_writes(self@.target_display, digits@).take(p + 1));
            p = p + 1;
        }
        assert(plan@ =~= digit_writes(self@.target_display, digits@));
        self.write_plan(device, &plan)
    }

    /// Show a number right-aligned in Code B mode (see [`number_digit`]).
    pub fn display_number(&mut self, device: &mut PoKeysDevice, number: u32) -> (r: Result<()>)
        ensures
            final(self)@ == old(self)@,
            old(self)@.mode != DisplayMode::CodeB ==> (r matches Err(PoKeysError::Parameter(m)) && m@
                == "display_number requires Code B mode"@) && final(device).unchanged(old(device)),
            old(self)@.mode == DisplayMode::CodeB ==> wrote_plan(*final(device), *old(device), old(self)@, digit_writes(
                old(self)@.target_display, Seq::new(8, |p: int| number_digit(number, (7 - p) as nat))), r),
    {
        if self.mode != DisplayMode::CodeB {
            return Err(PoKeysError::Parameter(string_of("display_number requires Code B mode")));
        }
        let mut num = number;
        let mut digits = [0x0Fu8; 8];
        let mut i: usize = 0;
        while i < 8
            invariant
                i <= 8,
                num == shifted(number, i as nat),
                forall|k: int| 0 <= k < i ==> digits@[7 - k] == #[trigger] number_digit(number, k as nat),
                forall|q: int| 0 <= q < 8 - i ==> #[trigger] digits@[q] == 0x0F,
            decreases 8 - i,
        {
            if num > 0 || i == 0 {
                digits[7 - i] = (num % 10) as u8;
                num = num / 10;
            } else {
                digits[7 - i] = 0x0F;
            }
            i = i + 1;
        }
        assert(digits@ =~= Seq::new(8, |p: int| number_digit(number, (7 - p) as nat)));
        self.write_digits(device, &digits)
    }

    /// Show text left-justified in raw segment mode (see
    /// [`Self::display_text_justified`]).
    pub fn display_text(&mut self, device: &mut PoKeysDevice, text: &str) -> (r: Result<()>)
        ensures
            final(self)@ == old(self)@,
            old(self)@.mode != DisplayMode::RawSegments ==> (r matches Err(PoKeysError::Parameter(m)) && m@
                == "display_text_justified requires raw segments mode"@) && final(device).unchanged(old(device)),
            old(self)@.mode == DisplayMode::RawSegments ==> wrote_plan(*final(device), *old(device), old(self)@,
                digit_writes(old(self)@.target_display, justified_digits(text@, TextJustification::Left)), r),
    {
        self.display_text_justified(device, text, TextJustification::Left)
    }

    /// Show text in raw segment mode, placed by a justification (see
    /// [`justified_digits`]).
    pub fn display_text_justified(&mut self, device: &mut PoKeysDevice, text: &str, justification: TextJustification)
        -> (r: Result<()>)
        ensures
            final(self)@ == old(self)@,
            old(self)@.mode != DisplayMode::RawSegments ==> (r matches Err(PoKeysError::Parameter(m)) && m@
                == "display_text_justified requires raw segments mode"@) && final(device).unchanged(old(device)),
            old(self)@.mode == DisplayMode::RawSegments ==> wrote_plan(*final(device), *old(device), old(self)@,
                digit_writes(old(self)@.target_display, justified_digits(text@, justification)), r),
    {
        if self.mode != DisplayMode::RawSegments {
            return Err(PoKeysError::Parameter(string_of("display_text_justified requires raw segments mode")));
        }
        let digits = justify_text(text, justification);
        self.write_digits(device, &digits)
    }

    /// Show eight raw segment patterns, left to right, in raw segment mode.
    pub fn display_raw_patterns(&mut self, device: &mut PoKeysDevice, patterns: &[u8; 8]) -> (r: Result<()>)
        ensures
            final(self)@ == old(self)@,
            old(self)@.mode != DisplayMode::RawSegments ==> (r matches Err(PoKeysError::Parameter(m)) && m@
                == "display_raw_patterns requires raw segments mode"@) && final(device).unchanged(old(device)),
            old(self)@.mode == DisplayMode::RawSegments ==> wrote_plan(*final(device), *old(device), old(self)@,
                digit_writes(old(self)@.target_display, patterns@), r),
    {
        if self.mode != DisplayMode::RawSegments {
            return Err(PoKeysError::Parameter(string_of("display_raw_patterns requires raw segments mode")));
        }
        self.write_digits(device, patterns)
    }

    fn clear_plan(&self) -> (plan: Vec<RegisterWrite>)
        ensures
            plan@ == clear_writes(self@.target_display, self@.mode),
    {
        let blank: u8 = match self.mode {
            DisplayMode::CodeB => 0x0F,
            DisplayMode::RawSegments => 0x00,
        };
        let mut plan: Vec<RegisterWrite> = Vec::new();
        let mut d: u8 = 0;
        while d < 8
            invariant
                d <= 8,
                blank == blank_of(self@.mode),
                plan@ == clear_writes(self@.target_display, self@.mode).take(d as int),
            decreases 8 - d,
        {
            plan.push(RegisterWrite { all: false, target: self.target_display, register: REG_DIGIT0 + d, value: blank });
            assert(plan@ =~= clear_writes(self@.target_display, self@.mode).take(d + 1));
            d = d + 1;
        }
        assert(plan@ =~= clear_writes(self@.target_display, self@.mode));
        plan
    }

    /// Blank all eight digits of the targeted display (see [`blank_of`]).
    pub fn clear(&mut self, device: &mut PoKeysDevice) -> (r: Result<()>)
        ensures
            final(self)@ == old(self)@,
            wrote_plan(*final(device), *old(device), old(self)@, clear_writes(old(self)@.target_display, old(self)@.mode),
                r),
    {
        let plan = self.clear_plan();
        self.write_plan(device, &plan)
    }

    fn write_single(&self, device: &mut PoKeysDevice, w: RegisterWrite) -> (r: Result<()>)
        ensures
            wrote_plan(*final(device), *old(device), self@, seq![w], r),
    {
        let mut plan: Vec<RegisterWrite> = Vec::new();
        plan.push(w);
        assert(plan@ =~= seq![w]);
        self.write_plan(device, &plan)
    }

    /// Set the intensity (at most 15) of the targeted display.
    pub fn set_intensity(&mut self, device: &mut PoKeysDevice, intensity: u8) -> (r: Result<()>)
        ensures
            final(self)@ == (Max7219State { intensity: intensity_of(intensity), ..old(self)@ }),
            wrote_plan(*final(device), *old(device), final(self)@, seq![to_target(final(self)@, REG_INTENSITY,
                intensity_of(intensity))], r),
    {
        proof { use_type_invariant(&*self); }
        self.intensity = if intensity < 15 { intensity } else { 15 };
        let w = RegisterWrite { all: false, target: self.target_display, register: REG_INTENSITY, value: self.intensity };
        self.write_single(device, w)
    }

    /// Turn the display test (all segments on) of the targeted display on or
    /// off.
    pub fn set_test_mode(&mut self, device: &mut PoKeysDevice, enable: bool) -> (r: Result<()>)
        ensures
            final(self)@ == old(self)@,
            wrote_plan(*final(device), *old(device), old(self)@, seq![to_target(old(self)@, REG_DISPLAY_TEST, if enable {
                TEST_ON } else { TEST_OFF })], r),
    {
        let w = RegisterWrite { all: false, target: self.target_display, register: REG_DISPLAY_TEST, value: if enable {
            TEST_ON } else { TEST_OFF } };
        self.write_single(device, w)
    }

    /// Put the targeted display into shutdown or normal operation.
    pub fn set_shutdown(&mut self, device: &mut PoKeysDevice, shutdown: bool) -> (r: Result<()>)
        ensures
            final(self)@ == old(self)@,
            wrote_plan(*final(device), *old(device), old(self)@, seq![to_target(old(self)@, REG_SHUTDOWN, if shutdown {
                SHUTDOWN_MODE } else { NORMAL_MODE })], r),
    {
        let w = RegisterWrite { all: false, target: self.target_display, register: REG_SHUTDOWN, value: if shutdown {
            SHUTDOWN_MODE } else { NORMAL_MODE } };
        self.write_single(device, w)
    }

    /// The display mode.
    pub fn mode(&self) -> (r: DisplayMode)
        ensures
            r == self@.mode,
    {
        self.mode
    }

    /// The intensity.
    pub fn intensity(&self) -> (r: u8)
        ensures
            r == self@.intensity,
    {
        self.intensity
    }

    /// The number of displays in the chain.
    pub fn chain_length(&self) -> (r: u8)
        ensures
            r == self@.chain_length,
    {
        self.chain_length
    }

    /// The targeted display.
    pub fn target_display(&self) -> (r: u8)
        ensures
            r == self@.target_display,
    {
        self.target_display
    }

    /// Target display `display_index` of the chain for later operations.
    pub fn set_target_display(&mut self, display_index: u8) -> (r: Result<()>)
        ensures
            display_index >= old(self)@.chain_length ==> (r matches Err(PoKeysError::Parameter(m)) && m@
                == display_index_message(display_index, old(self)@.chain_length)) && final(self)@ == old(self)@,
            display_index < old(self)@.chain_length ==> r is Ok && final(self)@ == (Max7219State {
                target_display: display_index, ..old(self)@ }),
    {
        proof { use_type_invariant(&*self); }
        if display_index >= self.chain_length {
            let mut m = string_of("Display index ");
            push_dec(&mut m, display_index as u64);
            m.append(" out of range (0-");
            push_dec(&mut m, (self.chain_length - 1) as u64);
            m.append(")");
            return Err(PoKeysError::Parameter(m));
        }
        self.target_display = display_index;
        Ok(())
    }

    /// Target a display, then show text left-justified on it.
    pub fn display_text_on(&mut self, device: &mut PoKeysDevice, text: &str, display_index: u8) -> (r: Result<()>)
        ensures
            display_index >= old(self)@.chain_length ==> (r matches Err(PoKeysError::Parameter(m)) && m@
                == display_index_message(display_index, old(self)@.chain_length)) && final(self)@ == old(self)@
                && final(device).unchanged(old(device)),
            display_index < old(self)@.chain_length ==> {
                &&& final(self)@ == (Max7219State { target_display: display_index, ..old(self)@ })
                &&& old(self)@.mode != DisplayMode::RawSegments ==> (r matches Err(PoKeysError::Parameter(m)) && m@
                    == "display_text_justified requires raw segments mode"@) && final(device).unchanged(old(device))
                &&& old(self)@.mode == DisplayMode::RawSegments ==> wrote_plan(*final(device), *old(device), final(self)@,
                    digit_writes(display_index, justified_digits(text@, TextJustification::Left)), r)
            },
    {
        self.set_target_display(display_index)?;
        self.display_text(device, text)
    }

    /// Target a display, then show justified text on it.
    pub fn display_text_justified_on(&mut self, device: &mut PoKeysDevice, text: &str, justification: TextJustification,
        display_index: u8) -> (r: Result<()>)
        ensures
            display_index >= old(self)@.chain_length ==> (r matches Err(PoKeysError::Parameter(m)) && m@
                == display_index_message(display_index, old(self)@.chain_length)) && final(self)@ == old(self)@
                && final(device).unchanged(old(device)),
            display_index < old(self)@.chain_length ==> {
                &&& final(self)@ == (Max7219State { target_display: display_index, ..old(self)@ })
                &&& old(self)@.mode != DisplayMode::RawSegments ==> (r matches Err(PoKeysError::Parameter(m)) && m@
                    == "display_text_justified requires raw segments mode"@) && final(device).unchanged(old(device))
                &&& old(self)@.mode == DisplayMode::RawSegments ==> wrote_plan(*final(device), *old(device), final(self)@,
                    digit_writes(display_index, justified_digits(text@, justification)), r)
            },
    {
        self.set_target_display(display_index)?;
        self.display_text_justified(device, text, justification)
    }

    /// Blank every display of the chain, first to last; the target stays.
    pub fn clear_all(&mut self, device: &mut PoKeysDevice) -> (r: Result<()>)
        ensures
            final(self)@ == old(self)@,
            wrote_plan(*final(device), *old(device), old(self)@, clear_chain_writes(old(self)@.chain_length as nat,
                old(self)@.mode), r),
    {
        proof { use_type_invariant(&*self); }
        let blank: u8 = match self.mode {
            DisplayMode::CodeB => 0x0F,
            DisplayMode::RawSegments => 0x00,
        };
        let mut plan: Vec<RegisterWrite> = Vec::new();
        let mut t: u8 = 0;
        while t < self.chain_length
            invariant
                t <= self@.chain_length <= 8,
                blank == blank_of(self@.mode),
                plan@ == clear_chain_writes(t as nat, self@.mode),
            decreases self@.chain_length - t,
        {
            let ghost before = plan@;
            let mut d: u8 = 0;
            while d < 8
                invariant
                    d <= 8,
                    t < 8,
                    blank == blank_of(self@.mode),
                    plan@ == before + clear_writes(t, self@.mode).take(d as int),
                decreases 8 - d,
            {
                plan.push(RegisterWrite { all: false, target: t, register: REG_DIGIT0 + d, value: blank });
                assert(plan@ =~= before + clear_writes(t, self@.mode).take(d + 1));
                d = d + 1;
            }
            assert(clear_writes(t, self@.mode).take(8) =~= clear_writes(t, self@.mode));
            assert(plan@ =~= clear_chain_writes((t + 1) as nat, self@.mode));
            t = t + 1;
        }
        self.write_plan(device, &plan)
    }

    /// Set the intensity (at most 15) of every display of the chain.
    pub fn set_intensity_all(&mut self, device: &mut PoKeysDevice, intensity: u8) -> (r: Result<()>)
        ensures
            final(self)@ == (Max7219State { intensity: intensity_of(intensity), ..old(self)@ }),
            wrote_plan(*final(device), *old(device), final(self)@, seq![to_all(REG_INTENSITY, intensity_of(intensity))],
                r),
    {
        proof { use_type_invariant(&*self); }
        self.intensity = if intensity < 15 { intensity } else { 15 };
        let w = RegisterWrite { all: true, target: 0, register: REG_INTENSITY, value: self.intensity };
        self.write_single(device, w)
    }

    /// Turn the display test of every display on or off.
    pub fn set_test_mode_all(&mut self, device: &mut PoKeysDevice, enable: bool) -> (r: Result<()>)
        ensures
            final(self)@ == old(self)@,
            wrote_plan(*final(device), *old(device), old(self)@, seq![to_all(REG_DISPLAY_TEST, if enable { TEST_ON } else {
                TEST_OFF })], r),
    {
        let w = RegisterWrite { all: true, target: 0, register: REG_DISPLAY_TEST, value: if enable { TEST_ON } else {
            TEST_OFF } };
        self.write_single(device, w)
    }

    /// Put every display into shutdown or normal operation.
    pub fn set_shutdown_all(&mut self, device: &mut PoKeysDevice, shutdown: bool) -> (r: Result<()>)
        ensures
            final(self)@ == old(self)@,
            wrote_plan(*final(device), *old(device), old(self)@, seq![to_all(REG_SHUTDOWN, if shutdown { SHUTDOWN_MODE }
                else { NORMAL_MODE })], r),
    {
        let w = RegisterWrite { all: true, target: 0, register: REG_SHUTDOWN, value: if shutdown { SHUTDOWN_MODE } else {
            NORMAL_MODE } };
        self.write_single(device, w)
    }
}

/// The eight digit patterns of justified text (see [`justified_digits`]).
pub fn justify_text(text: &str, justification: TextJustification) -> (r: [u8; 8])
    ensures
        r@ == justified_digits(text@, justification),
{
    let n = text.unicode_len();
    let ghost chars = text@;
    let ghost all = text_patterns(chars, 0);
    let mut parsed: Vec<u8> = Vec::new();
    let mut i: usize = 0;
    while i < n && parsed.len() < 8
        invariant
            n == chars.len(),
            chars == text@,
            i <= n,
            parsed@.len() <= 8,
            parsed@ + text_patterns(chars, i as int) == all,
        decreases n - i,
    {
        let c = text.get_char(i);
        if c == '.' {
            i = i + 1;
        } else {
            let has_decimal = i + 1 < n && text.get_char(i + 1) == '.';
            let mut pattern = char_to_segments(c);
            if has_decimal {
                pattern = pattern | SYMBOL_DP;
                assert(parsed@.push(pattern) + text_patterns(chars, i + 2) =~= parsed@ + text_patterns(chars, i as int));
                i = i + 2;
            } else {
                assert(parsed@.push(pattern) + text_patterns(chars, i + 1) =~= parsed@ + text_patterns(chars, i as int));
                i = i + 1;
            }
            parsed.push(pattern);
        }
    }
    let ghost p = all.take(if all.len() < 8 { all.len() as int } else { 8 });
    proof {
        if parsed@.len() < 8 {
            assert(text_patterns(chars, i as int) =~= Seq::<u8>::empty());
            assert(all =~= parsed@);
        }
        assert(parsed@ =~= p);
    }
    let len = parsed.len();
    let start: usize = match justification {
        TextJustification::Left => 0,
        TextJustification::Right => if len >= 8 { 0 } else { 8 - len },
        TextJustification::Center => if len >= 8 { 0 } else { (8 - len) / 2 },
    };
    let mut digits = [SYMBOL_BLANK; 8];
    let mut k: usize = 0;
    while k < len
        invariant
            k <= len <= 8,
            len == parsed@.len(),
            start == start_position(justification, len as int),
            start + len <= 8,
            forall|q: int| 0 <= q < 8 ==> digits@[q] == (if start <= q < start + k { parsed@[q - start] } else {
                SYMBOL_BLANK }),
        decreases len - k,
    {
        digits[start + k] = parsed[k];
        k = k + 1;
    }
    assert(digits@ =~= justified_digits(text@, justification));
    digits
}

} // verus!
