//! Character LCD state: four lines of 20 bytes and eight custom characters.

use vstd::prelude::*;
use vstd::string::*;
use crate::error::{PoKeysError, Result};
use crate::text::{bytes_until_zero, from_utf8, pad_zeros, padded_array, string_of, until_zero};

verus! {

/// LCD display data.
#[derive(Debug, Clone, Copy)]
pub struct LcdData {
    pub configuration: u8,
    pub rows: u8,
    pub columns: u8,
    pub row_refresh_flags: u8,
    pub line1: [u8; 20],
    pub line2: [u8; 20],
    pub line3: [u8; 20],
    pub line4: [u8; 20],
    pub custom_characters: [[u8; 8]; 8],
}

/// The bytes of line `line` (1 to 4).
pub open spec fn line_bytes(lcd: LcdData, line: int) -> Seq<u8> {
    if line == 1 { lcd.line1@ }
    else if line == 2 { lcd.line2@ }
    else if line == 3 { lcd.line3@ }
    else { lcd.line4@ }
}

/// Whether two LCD states agree on everything but line `line` and the
/// refresh flags.
pub open spec fn same_except_line(a: LcdData, b: LcdData, line: int) -> bool {
    &&& a.configuration == b.configuration
    &&& a.rows == b.rows
    &&& a.columns == b.columns
    &&& a.custom_characters == b.custom_characters
    &&& forall|l: int| 1 <= l <= 4 && l != line ==> line_bytes(a, l) == line_bytes(b, l)
}

/// The text an LCD line holds: its bytes before the first zero, when they
/// are valid UTF-8.
pub open spec fn line_text_outcome(lcd: LcdData, line: int, r: Result<String>) -> bool {
    if !(1 <= line <= 4) {
        r matches Err(PoKeysError::Parameter(m)) && m@ == "Invalid line number"@
    } else if !vstd::utf8::valid_utf8(until_zero(line_bytes(lcd, line))) {
        r matches Err(PoKeysError::Protocol(m)) && m@ == "Invalid UTF-8 in LCD text"@
    } else {
        r matches Ok(s) && s@ == vstd::utf8::decode_utf8(until_zero(line_bytes(lcd, line)))
    }
}

/// An LCD with every field zero.
pub open spec fn is_blank_lcd(lcd: LcdData) -> bool {
    &&& lcd.configuration == 0
    &&& lcd.rows == 0
    &&& lcd.columns == 0
    &&& lcd.row_refresh_flags == 0
    &&& forall|l: int| 1 <= l <= 4 ==> line_bytes(lcd, l) == Seq::new(20, |i: int| 0u8)
    &&& forall|c: int| 0 <= c < 8 ==> lcd.custom_characters@[c]@ == Seq::new(8, |i: int| 0u8)
}

impl LcdData {
    /// An LCD with every field zero.
    pub fn new() -> (r: Self)
        ensures
            is_blank_lcd(r),
    {
        let r = LcdData {
            configuration: 0,
            rows: 0,
            columns: 0,
            row_refresh_flags: 0,
            line1: [0u8; 20],
            line2: [0u8; 20],
            line3: [0u8; 20],
            line4: [0u8; 20],
            custom_characters: [[0u8; 8]; 8],
        };
        assert(r.line1@ =~= Seq::new(20, |i: int| 0u8));
        assert forall|c: int| 0 <= c < 8 implies r.custom_characters@[c]@ == Seq::new(8, |i: int| 0u8) by {
            assert(r.custom_characters@[c]@ =~= Seq::new(8, |i: int| 0u8));
        }
        r
    }

    /// Whether the LCD is enabled.
    pub fn is_enabled(&self) -> (r: bool)
        ensures
            r == (self.configuration != 0),
    {
        self.configuration != 0
    }

    /// The bytes of line 1 to 4, or `None` for another number.
    pub fn get_line(&self, line: usize) -> (r: Option<&[u8; 20]>)
        ensures
            r is Some <==> 1 <= line <= 4,
            r matches Some(b) ==> b@ == line_bytes(*self, line as int),
    {
        if line == 1 {
            Some(&self.line1)
        } else if line == 2 {
            Some(&self.line2)
        } else if line == 3 {
            Some(&self.line3)
        } else if line == 4 {
            Some(&self.line4)
        } else {
            None
        }
    }

    fn store_line(&mut self, line: usize, bytes: [u8; 20])
        requires
            1 <= line <= 4,
        ensures
            line_bytes(*final(self), line as int) == bytes@,
            same_except_line(*old(self), *final(self), line as int),
            final(self).row_refresh_flags == old(self).row_refresh_flags,
    {
        if line == 1 {
            self.line1 = bytes;
        } else if line == 2 {
            self.line2 = bytes;
        } else if line == 3 {
            self.line3 = bytes;
        } else {
            self.line4 = bytes;
        }
    }

    /// Write text to line 1 to 4: the line holds the text's UTF-8 bytes
    /// followed by zeros, and the line's refresh flag is set.
    pub fn set_line_text(&mut self, line: usize, text: &str) -> (r: Result<()>)
        ensures
            !(1 <= line <= 4) ==> (r matches Err(PoKeysError::Parameter(m)) && m@ == "Invalid line number"@),
            1 <= line <= 4 && text.spec_bytes().len() > 20 ==> (r matches Err(PoKeysError::Parameter(m))
                && m@ == "Text too long for LCD line"@),
            r is Ok <==> 1 <= line <= 4 && text.spec_bytes().len() <= 20,
            r is Ok ==> {
                &&& line_bytes(*final(self), line as int) == pad_zeros(text.spec_bytes(), 20)
                &&& same_except_line(*old(self), *final(self), line as int)
                &&& final(self).row_refresh_flags == old(self).row_refresh_flags | (1u8 << ((line - 1) as u8))
            },
            r is Err ==> *final(self) == *old(self),
    {
        proof {
            reveal_strlit("Invalid line number");
            reveal_strlit("Text too long for LCD line");
        }
        if line < 1 || line > 4 {
            return Err(PoKeysError::Parameter(string_of("Invalid line number")));
        }
        let text_bytes = text.as_bytes();
        if text_bytes.len() > 20 {
            return Err(PoKeysError::Parameter(string_of("Text too long for LCD line")));
        }
        let bytes: [u8; 20] = padded_array(text_bytes);
        self.store_line(line, bytes);
        let shift: u8 = (line - 1) as u8;
        self.row_refresh_flags = self.row_refresh_flags | (1u8 << shift);
        Ok(())
    }

    /// The buffer of line 1 to 4, to write in place.
    pub fn get_line_mut(&mut self, line: usize) -> (r: Option<&mut [u8; 20]>)
        ensures
            r is Some <==> 1 <= line <= 4,
            !(1 <= line <= 4) ==> *final(self) == *old(self),
            line == 1 ==> (r matches Some(b) && *b == old(self).line1 && *final(self) == (LcdData { line1: *final(b),
                ..*old(self) })),
            line == 2 ==> (r matches Some(b) && *b == old(self).line2 && *final(self) == (LcdData { line2: *final(b),
                ..*old(self) })),
            line == 3 ==> (r matches Some(b) && *b == old(self).line3 && *final(self) == (LcdData { line3: *final(b),
                ..*old(self) })),
            line == 4 ==> (r matches Some(b) && *b == old(self).line4 && *final(self) == (LcdData { line4: *final(b),
                ..*old(self) })),
    {
        if line == 1 {
            Some(&mut self.line1)
        } else if line == 2 {
            Some(&mut self.line2)
        } else if line == 3 {
            Some(&mut self.line3)
        } else if line == 4 {
            Some(&mut self.line4)
        } else {
            None
        }
    }

    /// The text of line 1 to 4: its bytes before the first zero, decoded as
    /// UTF-8.
    pub fn get_line_text(&self, line: usize) -> (r: Result<String>)
        ensures
            line_text_outcome(*self, line as int, r),
    {
        proof {
            reveal_strlit("Invalid line number");
            reveal_strlit("Invalid UTF-8 in LCD text");
        }
        match self.get_line(line) {
            None => Err(PoKeysError::Parameter(string_of("Invalid line number"))),
            Some(buffer) => {
                let bytes = bytes_until_zero(buffer);
                match from_utf8(bytes) {
                    Some(s) => Ok(s),
                    None => Err(PoKeysError::Protocol(string_of("Invalid UTF-8 in LCD text"))),
                }
            },
        }
    }

    /// Clear line 1 to 4.
    pub fn clear_line(&mut self, line: usize) -> (r: Result<()>)
        ensures
            !(1 <= line <= 4) ==> (r matches Err(PoKeysError::Parameter(m)) && m@ == "Invalid line number"@),
            r is Ok <==> 1 <= line <= 4,
            r is Ok ==> {
                &&& line_bytes(*final(self), line as int) == Seq::new(20, |i: int| 0u8)
                &&& same_except_line(*old(self), *final(self), line as int)
                &&& final(self).row_refresh_flags == old(self).row_refresh_flags | (1u8 << ((line - 1) as u8))
            },
            r is Err ==> *final(self) == *old(self),
    {
        proof {
            reveal_strlit("");
        }
        let r = self.set_line_text(line, "");
        proof {
            assert(""@.len() == 0);
            vstd::utf8::encode_utf8_valid_utf8(""@);
            assert(pad_zeros(Seq::<u8>::empty(), 20) =~= Seq::new(20, |i: int| 0u8));
        }
        r
    }

    /// Clear every line and flag all four for refresh.
    pub fn clear_all(&mut self)
        ensures
            forall|l: int| 1 <= l <= 4 ==> line_bytes(*final(self), l) == Seq::new(20, |i: int| 0u8),
            final(self).row_refresh_flags == 0x0F,
            final(self).configuration == old(self).configuration,
            final(self).rows == old(self).rows,
            final(self).columns == old(self).columns,
            final(self).custom_characters == old(self).custom_characters,
    {
        self.line1 = [0u8; 20];
        self.line2 = [0u8; 20];
        self.line3 = [0u8; 20];
        self.line4 = [0u8; 20];
        self.row_refresh_flags = 0x0F;
        assert(self.line1@ =~= Seq::new(20, |i: int| 0u8));
    }

    /// Store the pattern of custom character 0 to 7.
    pub fn set_custom_character(&mut self, char_index: usize, pattern: &[u8; 8]) -> (r: Result<()>)
        ensures
            r is Ok <==> char_index < 8,
            r is Err ==> (r matches Err(PoKeysError::Parameter(m)) && m@ == "Invalid custom character index"@),
            r is Ok ==> final(self).custom_characters@ == old(self).custom_characters@.update(char_index as int, *pattern),
            r is Ok ==> (LcdData { custom_characters: old(self).custom_characters, ..*final(self) }) == *old(self),
            r is Err ==> *final(self) == *old(self),
    {
        proof {
            reveal_strlit("Invalid custom character index");
        }
        if char_index >= 8 {
            return Err(PoKeysError::Parameter(string_of("Invalid custom character index")));
        }
        self.custom_characters[char_index] = *pattern;
        Ok(())
    }

    /// The pattern of custom character 0 to 7.
    pub fn get_custom_character(&self, char_index: usize) -> (r: Result<[u8; 8]>)
        ensures
            r is Ok <==> char_index < 8,
            r is Err ==> (r matches Err(PoKeysError::Parameter(m)) && m@ == "Invalid custom character index"@),
            r matches Ok(p) ==> p == self.custom_characters@[char_index as int],
    {
        proof {
            reveal_strlit("Invalid custom character index");
        }
        if char_index >= 8 {
            return Err(PoKeysError::Parameter(string_of("Invalid custom character index")));
        }
        Ok(self.custom_characters[char_index])
    }
}

impl Default for LcdData {
    fn default() -> (r: Self)
        ensures
            is_blank_lcd(r),
    {
        LcdData::new()
    }
}

/// Reading a line back gives the text that was written to it, for text of at
/// most 20 bytes with no NUL byte.
pub proof fn lemma_line_text_round_trip(before: LcdData, after: LcdData, line: int, text: Seq<char>)
    requires
        1 <= line <= 4,
        vstd::utf8::encode_utf8(text).len() <= 20,
        !vstd::utf8::encode_utf8(text).contains(0u8),
        line_bytes(after, line) == pad_zeros(vstd::utf8::encode_utf8(text), 20),
    ensures
        forall|r: Result<String>| line_text_outcome(after, line, r) ==> (r matches Ok(s) && s@ == text),
{
    let b = vstd::utf8::encode_utf8(text);
    lemma_until_zero_of_padded(b, 20);
    vstd::utf8::encode_utf8_valid_utf8(text);
    vstd::utf8::encode_utf8_decode_utf8(text);
}

/// The bytes before the first zero of a zero-free sequence padded with zeros
/// are the sequence itself.
pub proof fn lemma_until_zero_of_padded(b: Seq<u8>, n: nat)
    requires
        b.len() <= n,
        !b.contains(0u8),
    ensures
        until_zero(pad_zeros(b, n)) == b,
    decreases b.len(),
{
    if b.len() == 0 {
        if n > 0 {
            assert(pad_zeros(b, n)[0] == 0u8);
        } else {
            assert(pad_zeros(b, n) =~= b);
        }
    } else {
        let p = pad_zeros(b, n);
        assert(b[0] != 0u8) by {
            if b[0] == 0u8 {
                assert(b.contains(0u8));
            }
        }
        assert(!b.drop_first().contains(0u8)) by {
            if b.drop_first().contains(0u8) {
                let k = choose|k: int| 0 <= k < b.drop_first().len() && b.drop_first()[k] == 0u8;
                assert(b[k + 1] == 0u8);
            }
        }
        lemma_until_zero_of_padded(b.drop_first(), (n - 1) as nat);
        assert(p.drop_first() =~= pad_zeros(b.drop_first(), (n - 1) as nat));
        assert(b =~= seq![b[0]] + b.drop_first());
    }
}

} // verus!
