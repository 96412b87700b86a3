//! LCD requests of a device (commands `0x70` to `0x77`).

use vstd::prelude::*;
use vstd::string::*;
use crate::device::{DeviceField, PoKeysDevice, Req, packets, plain, lemma_exchange_none, lemma_exchange_step,
    lemma_exchanged_chain, lemma_same_log, lemma_same_base, id_after, lemma_sent_all, lemma_sent_fail, lemma_sent_chain,
    lemma_sent_prefix, lemma_sent_same_base};
use crate::device::link_error;
use crate::error::{PoKeysError, Result};
use crate::lcd::{LcdData, line_bytes, line_text_outcome, same_except_line};
use crate::text::{pad_zeros, push_char, string_of, lines_of, text_lines};
use crate::types::LcdMode;

verus! {

/// The four requests that send line `line`: bytes 0 to 11 in threes with
/// `0x71` to `0x74`.
pub open spec fn lcd_line_reqs(line: u8, b: Seq<u8>) -> Seq<Req> {
    seq![plain(0x71, line, b[0], b[1], b[2]), plain(0x72, line, b[3], b[4], b[5]), plain(0x73, line, b[6], b[7], b[8]),
        plain(0x74, line, b[9], b[10], b[11])]
}

/// A line goes out in four requests, `0x71` to `0x74` in order, each
/// carrying the line number and then three consecutive bytes of the line:
/// request `j` bytes `3j` to `3j + 2`.
pub proof fn lemma_lcd_line_layout(line: u8, b: Seq<u8>)
    requires
        b.len() >= 12,
    ensures
        lcd_line_reqs(line, b).len() == 4,
        forall|j: int| 0 <= j < 4 ==> {
            let q = #[trigger] lcd_line_reqs(line, b)[j];
            &&& q.0 == 0x71 + j
            &&& q.1 == line
            &&& q.2 == b[3 * j]
            &&& q.3 == b[3 * j + 1]
            &&& q.4 == b[3 * j + 2]
            &&& q.5 == Seq::<u8>::empty()
        },
{
    assert forall|j: int| 0 <= j < 4 implies {
        let q = #[trigger] lcd_line_reqs(line, b)[j];
        &&& q.0 == 0x71 + j
        &&& q.1 == line
        &&& q.2 == b[3 * j]
        &&& q.3 == b[3 * j + 1]
        &&& q.4 == b[3 * j + 2]
        &&& q.5 == Seq::<u8>::empty()
    } by {
        if j == 0 {} else if j == 1 {} else if j == 2 {} else {}
    }
}

/// The requests that send lines `1` to `n` of an LCD, in order.
pub open spec fn lcd_lines_reqs(lcd: LcdData, n: nat) -> Seq<Req>
    decreases n,
{
    if n == 0 { Seq::empty() } else { lcd_lines_reqs(lcd, (n - 1) as nat) + lcd_line_reqs(n as u8, line_bytes(lcd, n as int)) }
}

/// The configuration byte of an LCD mode: 1 for direct, 2 for buffered.
pub open spec fn lcd_mode_byte(mode: LcdMode) -> u8 {
    match mode { LcdMode::Direct => 1, LcdMode::Buffered => 2 }
}

/// The LCD mode numbers: direct mode 1, buffered mode 2.
pub proof fn lemma_lcd_mode_bytes(mode: LcdMode)
    ensures
        mode is Direct ==> lcd_mode_byte(mode) == 1,
        mode is Buffered ==> lcd_mode_byte(mode) == 2,
{
}

/// The characters of `chars` with `new` written from `column`, as far as
/// `limit`: each character replaces the one at its place or, past the end,
/// is appended.
pub open spec fn overwrite(chars: Seq<char>, new: Seq<char>, column: int, limit: int) -> Seq<char>
    decreases new.len(),
{
    if new.len() == 0 {
        chars
    } else {
        let prev = overwrite(chars, new.drop_last(), column, limit);
        let at = column + new.len() - 1;
        if at < limit {
            if at < prev.len() { prev.update(at, new.last()) } else { prev.push(new.last()) }
        } else {
            prev
        }
    }
}

/// The text of an LCD line as `lcd_write_at` starts from: the line's text,
/// or nothing when it does not decode.
pub open spec fn line_text_or_empty(lcd: LcdData, line: int) -> Seq<char> {
    if vstd::utf8::valid_utf8(crate::text::until_zero(line_bytes(lcd, line))) {
        vstd::utf8::decode_utf8(crate::text::until_zero(line_bytes(lcd, line)))
    } else {
        Seq::empty()
    }
}

/// The text that `lcd_write_at` writes: the line's text (none for a line
/// past 4) padded with spaces to `column` bytes, then `text` written from
/// `column` up to the LCD width.
pub open spec fn write_at_text(lcd: LcdData, line: int, column: int, text: Seq<char>) -> Seq<char> {
    let cur = if 1 <= line <= 4 { line_text_or_empty(lcd, line) } else { Seq::empty() };
    let bytes = vstd::utf8::encode_utf8(cur).len() as int;
    let padded = if bytes < column { cur + Seq::new((column - bytes) as nat, |i: int| ' ') } else { cur };
    overwrite(padded, text, column, lcd.columns as int)
}

proof fn lemma_lcd_lines_len(lcd: LcdData, n: nat)
    ensures
        lcd_lines_reqs(lcd, n).len() == 4 * n,
    decreases n,
{
    if n > 0 {
        lemma_lcd_lines_len(lcd, (n - 1) as nat);
    }
}

impl PoKeysDevice {
    /// Send line `line` (1 to 4) of the LCD buffer (see [`lcd_line_reqs`]).
    pub fn send_lcd_line_data(&mut self, line: usize) -> (r: Result<()>)
        ensures
            final(self).same_link(old(self)),
            final(self).same_data(old(self)),
            !(1 <= line <= 4) ==> (r matches Err(PoKeysError::Parameter(m)) && m@ == "Invalid line number"@)
                && final(self).unchanged(old(self)),
            1 <= line <= 4 ==> final(self).sent_in_turn(old(self), lcd_line_reqs(line as u8, line_bytes(old(self).lcd,
                line as int)), r),
            r is Ok ==> 1 <= line <= 4 && final(self).exchanged_all(old(self), packets(lcd_line_reqs(line as u8,
                line_bytes(old(self).lcd, line as int)), old(self).request_id())),
    {
        if line < 1 || line > 4 {
            return Err(PoKeysError::Parameter(string_of("Invalid line number")));
        }
        let b: [u8; 20] = match self.lcd.get_line(line) {
            Some(l) => *l,
            None => [0u8; 20],
        };
        let l = line as u8;
        let ghost start = *self;
        let ghost reqs = lcd_line_reqs(l, b@);
        proof { lemma_exchange_none(&start, reqs); }
        match self.send_request(0x71, l, b[0], b[1], b[2]) {
            Err(e) => {
                proof { lemma_sent_fail(&*self, &start, &start, reqs, 0, Err::<(), PoKeysError>(e)); }
                return Err(e);
            },
            Ok(_) => {},
        }
        let ghost s1 = *self;
        proof { lemma_exchange_step(&s1, &start, &start, reqs, 0); }
        match self.send_request(0x72, l, b[3], b[4], b[5]) {
            Err(e) => {
                proof { lemma_sent_fail(&*self, &s1, &start, reqs, 1, Err::<(), PoKeysError>(e)); }
                return Err(e);
            },
            Ok(_) => {},
        }
        let ghost s2 = *self;
        proof { lemma_exchange_step(&s2, &s1, &start, reqs, 1); }
        match self.send_request(0x73, l, b[6], b[7], b[8]) {
            Err(e) => {
                proof { lemma_sent_fail(&*self, &s2, &start, reqs, 2, Err::<(), PoKeysError>(e)); }
                return Err(e);
            },
            Ok(_) => {},
        }
        let ghost s3 = *self;
        proof { lemma_exchange_step(&s3, &s2, &start, reqs, 2); }
        match self.send_request(0x74, l, b[9], b[10], b[11]) {
            Err(e) => {
                proof { lemma_sent_fail(&*self, &s3, &start, reqs, 3, Err::<(), PoKeysError>(e)); }
                return Err(e);
            },
            Ok(_) => {},
        }
        proof {
            lemma_exchange_step(&*self, &s3, &start, reqs, 3);
            assert(reqs.take(4) =~= reqs);
            lemma_sent_all(&*self, &start, reqs, Ok::<(), PoKeysError>(()));
        }
        Ok(())
    }

    /// Configure the LCD size (at most 4 rows of 20) and mode and send it
    /// (`0x70`); the local state is set before sending.
    pub fn configure_lcd(&mut self, rows: u8, columns: u8, mode: LcdMode) -> (r: Result<()>)
        ensures
            final(self).same_link(old(self)),
            rows > 4 || columns > 20 ==> (r matches Err(PoKeysError::Parameter(m)) && m@ == "LCD size not supported"@)
                && final(self).unchanged(old(self)),
            rows <= 4 && columns <= 20 ==> {
                &&& final(self).tried(old(self), r)
                &&& final(self).lcd == (LcdData { configuration: lcd_mode_byte(mode), rows, columns, ..old(self).lcd })
                &&& final(self).same_data_except(old(self), set![DeviceField::Lcd])
                &&& r is Ok ==> final(self).exchanged(old(self), 0x70, lcd_mode_byte(mode), rows, columns, 0, Seq::empty())
                &&& r is Err ==> final(self).log() == old(self).log()
            },
    {
        if rows > 4 || columns > 20 {
            return Err(PoKeysError::Parameter(string_of("LCD size not supported")));
        }
        self.lcd.configuration = match mode {
            LcdMode::Direct => 1,
            LcdMode::Buffered => 2,
        };
        self.lcd.rows = rows;
        self.lcd.columns = columns;
        self.send_request(0x70, self.lcd.configuration, rows, columns, 0)?;
        Ok(())
    }

    /// Enable the LCD (with 2 rows of 16 in direct mode when it has no
    /// configuration) or disable it, and send the configuration (`0x70`).
    pub fn enable_lcd(&mut self, enable: bool) -> (r: Result<()>)
        ensures
            final(self).tried(old(self), r),
            final(self).same_link(old(self)),
            final(self).same_data_except(old(self), set![DeviceField::Lcd]),
            enable && old(self).lcd.configuration == 0 ==> final(self).lcd == (LcdData { configuration: 1, rows: 2,
                columns: 16, ..old(self).lcd }),
            enable && old(self).lcd.configuration != 0 ==> final(self).lcd == old(self).lcd,
            !enable ==> final(self).lcd == (LcdData { configuration: 0, ..old(self).lcd }),
            r is Ok ==> final(self).exchanged(old(self), 0x70, final(self).lcd.configuration, final(self).lcd.rows,
                final(self).lcd.columns, 0, Seq::empty()),
            r is Err ==> final(self).log() == old(self).log(),
    {
        if enable {
            if self.lcd.configuration == 0 {
                self.lcd.configuration = 1;
                self.lcd.rows = 2;
                self.lcd.columns = 16;
            }
        } else {
            self.lcd.configuration = 0;
        }
        self.send_request(0x70, self.lcd.configuration, self.lcd.rows, self.lcd.columns, 0)?;
        Ok(())
    }

    /// Write text (at most 20 bytes) to LCD line `line` and send the line.
    pub fn lcd_write_line(&mut self, line: usize, text: &str) -> (r: Result<()>)
        ensures
            final(self).same_link(old(self)),
            final(self).same_data_except(old(self), set![DeviceField::Lcd]),
            !(1 <= line <= 4) ==> (r matches Err(PoKeysError::Parameter(m)) && m@ == "Invalid line number"@)
                && final(self).unchanged(old(self)),
            1 <= line <= 4 && text.spec_bytes().len() > 20 ==> (r matches Err(PoKeysError::Parameter(m))
                && m@ == "Text too long for LCD line"@) && final(self).unchanged(old(self)),
            1 <= line <= 4 && text.spec_bytes().len() <= 20 ==> {
                &&& line_bytes(final(self).lcd, line as int) == pad_zeros(text.spec_bytes(), 20)
                &&& same_except_line(old(self).lcd, final(self).lcd, line as int)
                &&& final(self).lcd.row_refresh_flags == old(self).lcd.row_refresh_flags | (1u8 << ((line - 1) as u8))
                &&& r is Ok ==> final(self).exchanged_all(old(self), packets(lcd_line_reqs(line as u8, pad_zeros(
                    text.spec_bytes(), 20)), old(self).request_id()))
                &&& final(self).sent_in_turn(old(self), lcd_line_reqs(line as u8, pad_zeros(text.spec_bytes(), 20)), r)
            },
    {
        self.lcd.set_line_text(line, text)?;
        let ghost mid = *self;
        let r = self.send_lcd_line_data(line);
        proof {
            if 1 <= line <= 4 {
                lemma_sent_same_base(&*self, &mid, old(self), lcd_line_reqs(line as u8, line_bytes(mid.lcd, line as int)), r);
            }
            if r is Ok {
                lemma_same_base(&*self, &mid, old(self), packets(lcd_line_reqs(line as u8, line_bytes(mid.lcd,
                    line as int)), mid.request_id()));
            }
        }
        r
    }

    /// The text of LCD line `line` (see [`line_text_outcome`]).
    pub fn lcd_read_line(&self, line: usize) -> (r: Result<String>)
        ensures
            line_text_outcome(self.lcd, line as int, r),
    {
        self.lcd.get_line_text(line)
    }

    /// Clear LCD line `line` and send it.
    pub fn lcd_clear_line(&mut self, line: usize) -> (r: Result<()>)
        ensures
            1 <= line <= 4 ==> final(self).sent_in_turn(old(self), lcd_line_reqs(line as u8, Seq::new(20, |i: int| 0u8)), r),
            final(self).same_link(old(self)),
            final(self).same_data_except(old(self), set![DeviceField::Lcd]),
            !(1 <= line <= 4) ==> (r matches Err(PoKeysError::Parameter(m)) && m@ == "Invalid line number"@)
                && final(self).unchanged(old(self)),
            1 <= line <= 4 ==> {
                &&& line_bytes(final(self).lcd, line as int) == Seq::new(20, |i: int| 0u8)
                &&& same_except_line(old(self).lcd, final(self).lcd, line as int)
                &&& r is Ok ==> final(self).exchanged_all(old(self), packets(lcd_line_reqs(line as u8, Seq::new(20,
                    |i: int| 0u8)), old(self).request_id()))
            },
    {
        self.lcd.clear_line(line)?;
        let ghost mid = *self;
        let r = self.send_lcd_line_data(line);
        proof {
            if 1 <= line <= 4 {
                lemma_sent_same_base(&*self, &mid, old(self), lcd_line_reqs(line as u8, line_bytes(mid.lcd, line as int)), r);
            }
            if r is Ok {
                lemma_same_base(&*self, &mid, old(self), packets(lcd_line_reqs(line as u8, line_bytes(mid.lcd,
                    line as int)), mid.request_id()));
            }
        }
        r
    }

    /// Clear the LCD buffer and send lines 1 to `rows`; a row count above 4
    /// fails at line 5 after the first four are sent.
    pub fn lcd_clear_all(&mut self) -> (r: Result<()>)
        ensures
            final(self).same_link(old(self)),
            final(self).same_data_except(old(self), set![DeviceField::Lcd]),
            forall|l: int| 1 <= l <= 4 ==> line_bytes(final(self).lcd, l) == Seq::new(20, |i: int| 0u8),
            final(self).lcd.row_refresh_flags == 0x0F,
            final(self).lcd.rows == old(self).lcd.rows,
            old(self).lcd.rows <= 4 ==> final(self).sent_in_turn(old(self), blank_lines_reqs(old(self).lcd.rows as nat), r),
            old(self).lcd.rows > 4 ==> refused_after(*final(self), *old(self), blank_lines_reqs(4), r,
                "Invalid line number"@),
            r is Ok ==> old(self).lcd.rows <= 4 && final(self).exchanged_all(old(self), packets(lcd_lines_reqs(
                final(self).lcd, old(self).lcd.rows as nat), old(self).request_id())),
    {
        proof { reveal_strlit("Invalid line number"); }
        self.lcd.clear_all();
        let ghost start = *self;
        let rows = self.lcd.rows;
        let mut line: u8 = 1;
        proof { lemma_exchange_none(&start, lcd_lines_reqs(start.lcd, 0)); assert(lcd_lines_reqs(start.lcd, 0).take(0) =~= lcd_lines_reqs(start.lcd, 0)); }
        while line <= rows
            invariant
                1 <= line,
                line <= 5,
                rows == start.lcd.rows,
                line <= rows + 1,
                start.same_link(old(self)),
                start.same_data_except(old(self), set![DeviceField::Lcd]),
                start.log() == old(self).log(),
                start.request_id() == old(self).request_id(),
                forall|l: int| 1 <= l <= 4 ==> line_bytes(start.lcd, l) == Seq::new(20, |i: int| 0u8),
                start.lcd.row_refresh_flags == 0x0F,
                start.lcd.rows == old(self).lcd.rows,
                self.same_link(&start),
                self.same_data(&start),
                self.exchanged_all(&start, packets(lcd_lines_reqs(start.lcd, (line - 1) as nat), start.request_id())),
                line > 1 ==> start.connected(),
            decreases rows + 1 - line,
        {
            let ghost before = *self;
            let res = self.send_lcd_line_data(line as usize);
            let ghost prev = lcd_lines_reqs(start.lcd, (line - 1) as nat);
            proof { lemma_lcd_lines_len(start.lcd, (line - 1) as nat); }
            if line > 4 {
                proof {
                    lemma_blank_lines(start.lcd, 4);
                    lemma_same_log(&before, &*self, &start, packets(prev, start.request_id()));
                    lemma_same_base(&*self, &start, old(self), packets(prev, start.request_id()));
                }
                return res;
            }
            let ghost one = lcd_line_reqs(line, line_bytes(start.lcd, line as int));
            proof {
                assert(before.lcd == start.lcd);
                assert(one == lcd_line_reqs((line as usize) as u8, line_bytes(before.lcd, (line as usize) as int)));
                assert(prev + one == lcd_lines_reqs(start.lcd, line as nat));
                lemma_sent_chain(&*self, &before, &start, prev, one, res);
            }
            match res {
                Err(e) => {
                    proof {
                        let lim: nat = if rows <= 4 { rows as nat } else { 4 };
                        lemma_lines_reqs_prefix(start.lcd, line as nat, lim);
                        lemma_sent_prefix(&*self, &start, prev + one, lcd_lines_reqs(start.lcd, lim), res);
                        lemma_blank_lines(start.lcd, lim);
                        lemma_sent_same_base(&*self, &start, old(self), blank_lines_reqs(lim), res);
                    }
                    return Err(e);
                },
                Ok(()) => {},
            }
            proof {
                lemma_exchanged_chain(&*self, &before, &start, packets(prev, start.request_id()), packets(one,
                    before.request_id()));
                assert(before.request_id() == id_after(start.request_id(), 4 * ((line - 1) as nat)));
                lemma_packets_concat(prev, one, start.request_id());
            }
            line = line + 1;
        }
        proof {
            lemma_same_base(&*self, &start, old(self), packets(lcd_lines_reqs(start.lcd, rows as nat), start.request_id()));
            lemma_lcd_lines_len(start.lcd, rows as nat);
            lemma_blank_lines(start.lcd, rows as nat);
            lemma_sent_all(&*self, old(self), blank_lines_reqs(rows as nat), Ok::<(), PoKeysError>(()));
        }
        Ok(())
    }
}

/// The requests that send lines `1` to `n` of a blank LCD.
pub open spec fn blank_lines_reqs(n: nat) -> Seq<Req>
    decreases n,
{
    if n == 0 { Seq::empty() } else { blank_lines_reqs((n - 1) as nat) + lcd_line_reqs(n as u8, Seq::new(20, |i: int| 0u8)) }
}

/// An LCD whose first four lines are blank sends them as a blank one does.
proof fn lemma_blank_lines(lcd: LcdData, n: nat)
    requires
        n <= 4,
        forall|l: int| 1 <= l <= 4 ==> line_bytes(lcd, l) == Seq::new(20, |i: int| 0u8),
    ensures
        lcd_lines_reqs(lcd, n) == blank_lines_reqs(n),
    decreases n,
{
    if n > 0 {
        lemma_blank_lines(lcd, (n - 1) as nat);
        assert(line_bytes(lcd, n as int) == Seq::new(20, |i: int| 0u8));
    }
}

/// The requests for lines `1` to `m` begin those for lines `1` to `n`.
proof fn lemma_lines_reqs_prefix(lcd: LcdData, m: nat, n: nat)
    requires
        m <= n,
    ensures
        lcd_lines_reqs(lcd, m).len() <= lcd_lines_reqs(lcd, n).len(),
        lcd_lines_reqs(lcd, m) == lcd_lines_reqs(lcd, n).take(lcd_lines_reqs(lcd, m).len() as int),
    decreases n,
{
    if m < n {
        lemma_lines_reqs_prefix(lcd, m, (n - 1) as nat);
        let a = lcd_lines_reqs(lcd, (n - 1) as nat);
        let k = lcd_lines_reqs(lcd, m).len() as int;
        assert(lcd_lines_reqs(lcd, n).take(k) =~= a.take(k));
    } else {
        assert(lcd_lines_reqs(lcd, n).take(lcd_lines_reqs(lcd, n).len() as int) =~= lcd_lines_reqs(lcd, n));
    }
}

/// The packets of two request sequences in a row.
pub proof fn lemma_packets_concat(a: Seq<Req>, b: Seq<Req>, id: u8)
    ensures
        packets(a, id) + packets(b, id_after(id, a.len())) =~= packets(a + b, id),
{
    assert forall|j: int| 0 <= j < b.len() implies #[trigger] id_after(id_after(id, a.len()), (j + 1) as nat) == id_after(id,
        (a.len() + j + 1) as nat) by {
        let x = id as int + a.len();
        vstd::arithmetic::div_mod::lemma_add_mod_noop(x, j + 1, 256);
        vstd::arithmetic::div_mod::lemma_mod_twice(x, 256);
        vstd::arithmetic::div_mod::lemma_mod_twice(j + 1, 256);
        vstd::arithmetic::div_mod::lemma_add_mod_noop(x % 256, j + 1, 256);
    }
}

/// The requests of an LCD update over lines `1` to `n`: each line whose
/// refresh flag is set is sent.
pub open spec fn lcd_update_reqs(lcd: LcdData, n: nat) -> Seq<Req>
    decreases n,
{
    if n == 0 {
        Seq::empty()
    } else {
        let prev = lcd_update_reqs(lcd, (n - 1) as nat);
        if (lcd.row_refresh_flags >> ((n - 1) as u8)) & 1 == 1 {
            prev + lcd_line_reqs(n as u8, line_bytes(lcd, n as int))
        } else {
            prev
        }
    }
}

fn chars_of(s: &str) -> (r: Vec<char>)
    ensures
        r@ == s@,
{
    let n = s.unicode_len();
    let mut out: Vec<char> = Vec::new();
    let mut i: usize = 0;
    while i < n
        invariant
            i <= n,
            n == s@.len(),
            out@ == s@.take(i as int),
        decreases n - i,
    {
        out.push(s.get_char(i));
        assert(out@ =~= s@.take(i + 1));
        i = i + 1;
    }
    assert(out@ =~= s@);
    out
}

fn string_of_chars(chars: &Vec<char>) -> (r: String)
    ensures
        r@ == chars@,
{
    let mut out = String::new();
    let mut i: usize = 0;
    while i < chars.len()
        invariant
            i <= chars@.len(),
            out@ == chars@.take(i as int),
        decreases chars@.len() - i,
    {
        push_char(&mut out, chars[i]);
        assert(out@ =~= chars@.take(i + 1));
        i = i + 1;
    }
    assert(out@ =~= chars@);
    out
}

impl PoKeysDevice {
    /// Write text into LCD line `line` from `column` (see [`write_at_text`])
    /// and send the line; the line must be within the configured rows and the
    /// column within the configured width.
    pub fn lcd_write_at(&mut self, line: usize, column: usize, text: &str) -> (r: Result<()>)
        ensures
            final(self).same_link(old(self)),
            final(self).same_data_except(old(self), set![DeviceField::Lcd]),
            (line < 1 || line > old(self).lcd.rows) ==> (r matches Err(PoKeysError::Parameter(m)) && m@
                == "Invalid line number"@) && final(self).unchanged(old(self)),
            1 <= line <= old(self).lcd.rows && column >= old(self).lcd.columns ==> (r matches Err(PoKeysError::Parameter(m))
                && m@ == "Invalid column number"@) && final(self).unchanged(old(self)),
            r is Ok ==> {
                let tb = vstd::utf8::encode_utf8(write_at_text(old(self).lcd, line as int, column as int, text@));
                &&& 1 <= line <= 4 && tb.len() <= 20
                &&& line_bytes(final(self).lcd, line as int) == pad_zeros(tb, 20)
                &&& same_except_line(old(self).lcd, final(self).lcd, line as int)
                &&& final(self).exchanged_all(old(self), packets(lcd_line_reqs(line as u8, pad_zeros(tb, 20)),
                    old(self).request_id()))
            },
    {
        if line < 1 || line > self.lcd.rows as usize {
            return Err(PoKeysError::Parameter(string_of("Invalid line number")));
        }
        if column >= self.lcd.columns as usize {
            return Err(PoKeysError::Parameter(string_of("Invalid column number")));
        }
        let cur: String = match self.lcd.get_line_text(line) {
            Ok(s) => s,
            Err(_) => String::new(),
        };
        let ghost cur0 = cur@;
        assert(cur0 == (if 1 <= line <= 4 { line_text_or_empty(old(self).lcd, line as int) } else { Seq::<char>::empty() }));
        proof {
            if 1 <= line <= 4 {
                let z = crate::text::until_zero(line_bytes(old(self).lcd, line as int));
                crate::text::lemma_until_zero_len(line_bytes(old(self).lcd, line as int));
                if vstd::utf8::valid_utf8(z) {
                    vstd::utf8::decode_utf8_encode_utf8(z);
                }
            }
            assert(vstd::utf8::encode_utf8(cur0).len() <= 20);
        }
        let blen = cur.as_str().len();
        let mut padded = cur;
        if blen < column {
            let k = column - blen;
            let mut j: usize = 0;
            while j < k
                invariant
                    j <= k,
                    padded@ == cur0 + Seq::new(j as nat, |i: int| ' '),
                decreases k - j,
            {
                push_char(&mut padded, ' ');
                assert(padded@ =~= cur0 + Seq::new((j + 1) as nat, |i: int| ' '));
                j = j + 1;
            }
        }
        let ghost base = padded@;
        let mut chars = chars_of(padded.as_str());
        let new_chars = chars_of(text);
        let limit = self.lcd.columns as usize;
        let mut i: usize = 0;
        while i < new_chars.len()
            invariant
                i <= new_chars@.len(),
                column < limit,
                new_chars@ == text@,
                chars@ == overwrite(base, text@.take(i as int), column as int, limit as int),
            decreases new_chars@.len() - i,
        {
            proof { assert(text@.take(i + 1).drop_last() =~= text@.take(i as int)); }
            if i < limit - column {
                let at = column + i;
                if at < chars.len() {
                    chars.set(at, new_chars[i]);
                } else {
                    chars.push(new_chars[i]);
                }
            }
            i = i + 1;
        }
        proof {
            assert(text@.take(text@.len() as int) =~= text@);
            let cur = if 1 <= line <= 4 { line_text_or_empty(old(self).lcd, line as int) } else { Seq::<char>::empty() };
            let bytes = vstd::utf8::encode_utf8(cur).len() as int;
            assert(blen == bytes);
            assert(base == (if bytes < column { cur + Seq::new((column - bytes) as nat, |i: int| ' ') } else { cur }));
            assert(limit == old(self).lcd.columns);
        }
        let new_text = string_of_chars(&chars);
        assert(new_text@ == write_at_text(old(self).lcd, line as int, column as int, text@));
        self.lcd_write_line(line, new_text.as_str())
    }

    /// Store custom character `char_index` (below 8) and send its pattern in
    /// three requests (`0x75` to `0x77`).
    pub fn lcd_set_custom_character(&mut self, char_index: usize, pattern: &[u8; 8]) -> (r: Result<()>)
        ensures
            final(self).same_link(old(self)),
            char_index >= 8 ==> (r matches Err(PoKeysError::Parameter(m)) && m@ == "Invalid custom character index"@)
                && final(self).unchanged(old(self)),
            char_index < 8 ==> {
                &&& final(self).lcd.custom_characters@ == old(self).lcd.custom_characters@.update(char_index as int, *pattern)
                &&& final(self).lcd == (LcdData { custom_characters: final(self).lcd.custom_characters, ..old(self).lcd })
                &&& final(self).same_data_except(old(self), set![DeviceField::Lcd])
                &&& r is Ok ==> final(self).exchanged_all(old(self), packets(seq![plain(0x75, char_index as u8, pattern@[0],
                    pattern@[1], pattern@[2]), plain(0x76, char_index as u8, pattern@[3], pattern@[4], pattern@[5]),
                    plain(0x77, char_index as u8, pattern@[6], pattern@[7], 0)], old(self).request_id()))
                &&& final(self).sent_in_turn(old(self), seq![plain(0x75, char_index as u8, pattern@[0], pattern@[1],
                    pattern@[2]), plain(0x76, char_index as u8, pattern@[3], pattern@[4], pattern@[5]), plain(0x77,
                    char_index as u8, pattern@[6], pattern@[7], 0)], r)
            },
    {
        self.lcd.set_custom_character(char_index, pattern)?;
        let c = char_index as u8;
        let ghost start = *self;
        let ghost reqs: Seq<Req> = seq![plain(0x75, c, pattern@[0], pattern@[1], pattern@[2]), plain(0x76, c, pattern@[3],
            pattern@[4], pattern@[5]), plain(0x77, c, pattern@[6], pattern@[7], 0)];
        proof { lemma_exchange_none(&start, reqs); }
        match self.send_request(0x75, c, pattern[0], pattern[1], pattern[2]) {
            Err(e) => {
                proof {
                    lemma_sent_fail(&*self, &start, &start, reqs, 0, Err::<(), PoKeysError>(e));
                    lemma_sent_same_base(&*self, &start, old(self), reqs, Err::<(), PoKeysError>(e));
                }
                return Err(e);
            },
            Ok(_) => {},
        }
        let ghost s1 = *self;
        proof { lemma_exchange_step(&s1, &start, &start, reqs, 0); }
        match self.send_request(0x76, c, pattern[3], pattern[4], pattern[5]) {
            Err(e) => {
                proof {
                    lemma_sent_fail(&*self, &s1, &start, reqs, 1, Err::<(), PoKeysError>(e));
                    lemma_sent_same_base(&*self, &start, old(self), reqs, Err::<(), PoKeysError>(e));
                }
                return Err(e);
            },
            Ok(_) => {},
        }
        let ghost s2 = *self;
        proof { lemma_exchange_step(&s2, &s1, &start, reqs, 1); }
        match self.send_request(0x77, c, pattern[6], pattern[7], 0) {
            Err(e) => {
                proof {
                    lemma_sent_fail(&*self, &s2, &start, reqs, 2, Err::<(), PoKeysError>(e));
                    lemma_sent_same_base(&*self, &start, old(self), reqs, Err::<(), PoKeysError>(e));
                }
                return Err(e);
            },
            Ok(_) => {},
        }
        proof {
            lemma_exchange_step(&*self, &s2, &start, reqs, 2);
            assert(reqs.take(3) =~= reqs);
            lemma_same_base(&*self, &start, old(self), packets(reqs, start.request_id()));
            lemma_sent_all(&*self, &start, reqs, Ok::<(), PoKeysError>(()));
            lemma_sent_same_base(&*self, &start, old(self), reqs, Ok::<(), PoKeysError>(()));
        }
        Ok(())
    }

    /// Send every LCD line whose refresh flag is set (see
    /// [`lcd_update_reqs`]) and clear the flags; a flagged line past 4 is
    /// refused as an invalid line once the lines before it are sent.
    pub fn lcd_update(&mut self) -> (r: Result<()>)
        requires
            old(self).lcd.rows <= 8,
        ensures
            final(self).same_link(old(self)),
            final(self).same_data_except(old(self), set![DeviceField::Lcd]),
            !high_line_flagged(old(self).lcd) ==> final(self).sent_in_turn(old(self), lcd_update_reqs(old(self).lcd,
                old(self).lcd.rows as nat), r),
            high_line_flagged(old(self).lcd) ==> refused_after(*final(self), *old(self), lcd_update_reqs(old(self).lcd, 4),
                r, "Invalid line number"@),
            r is Ok ==> final(self).lcd == (LcdData { row_refresh_flags: 0, ..old(self).lcd })
                && final(self).exchanged_all(old(self), packets(lcd_update_reqs(old(self).lcd, old(self).lcd.rows as nat),
                old(self).request_id())),
    {
        proof { reveal_strlit("Invalid line number"); }
        let ghost start = *self;
        let rows = self.lcd.rows;
        let mut line: u8 = 1;
        proof {
            lemma_exchange_none(&start, lcd_update_reqs(start.lcd, 0));
            assert(lcd_update_reqs(start.lcd, 0).take(0) =~= lcd_update_reqs(start.lcd, 0));
        }
        while line <= rows
            invariant
                1 <= line <= 9,
                rows <= 8,
                rows == start.lcd.rows,
                line <= rows + 1,
                start == *old(self),
                self.same_link(&start),
                self.same_data(&start),
                self.exchanged_all(&start, packets(lcd_update_reqs(start.lcd, (line - 1) as nat), start.request_id())),
                lcd_update_reqs(start.lcd, (line - 1) as nat).len() > 0 ==> start.connected(),
                forall|l: int| 5 <= l < line ==> !#[trigger] flag_set(start.lcd, l),
            decreases rows + 1 - line,
        {
            let flags = self.lcd.row_refresh_flags;
            let q: u8 = line - 1;
            proof { crate::bits::lemma_mask_bit(flags, q); }
            if (flags & (1u8 << q)) != 0 {
                let ghost before = *self;
                let res = self.send_lcd_line_data(line as usize);
                let ghost prev = lcd_update_reqs(start.lcd, (line - 1) as nat);
                let ghost one = lcd_line_reqs(line, line_bytes(start.lcd, line as int));
                if line > 4 {
                    proof {
                        assert(flag_set(start.lcd, line as int));
                        lemma_update_reqs_same(start.lcd, (line - 1) as nat);
                        assert(high_line_flagged(start.lcd));
                        lemma_same_log(&before, &*self, &start, packets(prev, start.request_id()));
                    }
                    return res;
                }
                proof {
                    assert(before.lcd == start.lcd);
                    assert(one == lcd_line_reqs((line as usize) as u8, line_bytes(before.lcd, (line as usize) as int)));
                    assert(prev + one == lcd_update_reqs(start.lcd, line as nat));
                    lemma_sent_chain(&*self, &before, &start, prev, one, res);
                }
                match res {
                    Err(e) => {
                        proof {
                            lemma_update_reqs_prefix(start.lcd, line as nat, rows as nat);
                            lemma_sent_prefix(&*self, &start, prev + one, lcd_update_reqs(start.lcd, rows as nat), res);
                            if high_line_flagged(start.lcd) {
                                lemma_update_reqs_prefix(start.lcd, line as nat, 4);
                                lemma_sent_prefix(&*self, &start, prev + one, lcd_update_reqs(start.lcd, 4), res);
                            }
                        }
                        return Err(e);
                    },
                    Ok(()) => {
                        proof {
                            lemma_exchanged_chain(&*self, &before, &start, packets(prev, start.request_id()), packets(one,
                                before.request_id()));
                            lemma_packets_concat(prev, one, start.request_id());
                        }
                    },
                }
            }
            line = line + 1;
        }
        let ghost looped = *self;
        self.lcd.row_refresh_flags = 0;
        proof {
            let reqs = packets(lcd_update_reqs(start.lcd, rows as nat), start.request_id());
            assert((line - 1) as nat == rows as nat);
            lemma_same_log(&looped, &*self, &start, reqs);
            lemma_sent_all(&*self, &start, lcd_update_reqs(start.lcd, rows as nat), Ok::<(), PoKeysError>(()));
            assert(!high_line_flagged(start.lcd));
        }
        Ok(())
    }
}

/// Whether LCD line `l` (1 to 8) is flagged for refresh.
pub open spec fn flag_set(lcd: LcdData, l: int) -> bool {
    (lcd.row_refresh_flags >> ((l - 1) as u8)) & 1 == 1
}

/// Whether a line past 4, up to the LCD's row count, is flagged for refresh.
pub open spec fn high_line_flagged(lcd: LcdData) -> bool {
    exists|l: int| 5 <= l <= lcd.rows && #[trigger] flag_set(lcd, l)
}

/// The requests `reqs` were sent and then a parameter was refused with
/// message `msg`; or one of them failed as in [`PoKeysDevice::sent_in_turn`].
pub open spec fn refused_after<T>(after: PoKeysDevice, before: PoKeysDevice, reqs: Seq<Req>, r: Result<T>,
    msg: Seq<char>) -> bool {
    ||| after.exchanged_all(&before, packets(reqs, before.request_id())) && (reqs.len() > 0 ==> before.connected()) && (
    r matches Err(PoKeysError::Parameter(m)) && m@ == msg)
    ||| r is Err && after.sent_in_turn(&before, reqs, r)
}

/// Without a flagged line past 4, the requests of an update over lines `1`
/// to `n` are those over lines `1` to `4`.
proof fn lemma_update_reqs_same(lcd: LcdData, n: nat)
    requires
        n >= 4,
        forall|l: int| 5 <= l <= n ==> !#[trigger] flag_set(lcd, l),
    ensures
        lcd_update_reqs(lcd, n) == lcd_update_reqs(lcd, 4),
    decreases n,
{
    if n > 4 {
        assert(!flag_set(lcd, n as int));
        lemma_update_reqs_same(lcd, (n - 1) as nat);
    }
}

/// The requests of an update over lines `1` to `m` begin those over lines
/// `1` to `n`, for `m <= n`.
proof fn lemma_update_reqs_prefix(lcd: LcdData, m: nat, n: nat)
    requires
        m <= n,
    ensures
        lcd_update_reqs(lcd, m).len() <= lcd_update_reqs(lcd, n).len(),
        lcd_update_reqs(lcd, m) == lcd_update_reqs(lcd, n).take(lcd_update_reqs(lcd, m).len() as int),
    decreases n,
{
    if m < n {
        lemma_update_reqs_prefix(lcd, m, (n - 1) as nat);
        let a = lcd_update_reqs(lcd, (n - 1) as nat);
        let k = lcd_update_reqs(lcd, m).len() as int;
        assert(lcd_update_reqs(lcd, n).take(k) =~= a.take(k));
    } else {
        assert(lcd_update_reqs(lcd, n).take(lcd_update_reqs(lcd, n).len() as int) =~= lcd_update_reqs(lcd, n));
    }
}

/// The requests that show the first `n` lines of a message, line `i` on
/// LCD row `i + 1`.
pub open spec fn message_reqs(tl: Seq<Seq<char>>, n: nat) -> Seq<Req>
    decreases n,
{
    if n == 0 {
        Seq::empty()
    } else {
        message_reqs(tl, (n - 1) as nat) + lcd_line_reqs(n as u8, pad_zeros(vstd::utf8::encode_utf8(tl[n - 1]), 20))
    }
}

/// Whether line `i` of a message is longer than an LCD row.
pub open spec fn long_line(tl: Seq<Seq<char>>, i: int) -> bool {
    vstd::utf8::encode_utf8(tl[i]).len() > 20
}

/// Whether none of the first `n` lines of a message is longer than an LCD
/// row.
pub open spec fn no_long_line(tl: Seq<Seq<char>>, n: int) -> bool {
    forall|i: int| 0 <= i < n ==> !#[trigger] long_line(tl, i)
}

proof fn lemma_message_prefix(tl: Seq<Seq<char>>, c: Seq<Req>, a: nat, b: nat)
    requires
        a <= b,
    ensures
        (c + message_reqs(tl, a)).len() <= (c + message_reqs(tl, b)).len(),
        c + message_reqs(tl, a) == (c + message_reqs(tl, b)).take((c + message_reqs(tl, a)).len() as int),
    decreases b,
{
    if a < b {
        lemma_message_prefix(tl, c, a, (b - 1) as nat);
        let k = (c + message_reqs(tl, a)).len() as int;
        assert((c + message_reqs(tl, b)).take(k) =~= (c + message_reqs(tl, (b - 1) as nat)).take(k));
    } else {
        assert((c + message_reqs(tl, b)).take((c + message_reqs(tl, b)).len() as int) =~= c + message_reqs(tl, b));
    }
}

/// Clear the LCD and show a message, one line of it per LCD row (see
/// [`text_lines`]); each line holds at most 20 bytes.
pub fn lcd_display_message(device: &mut PoKeysDevice, message: &str) -> (r: Result<()>)
    ensures
        final(device).same_link(old(device)),
        final(device).same_data_except(old(device), set![DeviceField::Lcd]),
        r is Ok ==> forall|i: int| 0 <= i < text_lines(message@).len() && i < old(device).lcd.rows ==> line_bytes(
            final(device).lcd, i + 1) == pad_zeros(vstd::utf8::encode_utf8(#[trigger] text_lines(message@)[i]), 20),
        old(device).lcd.rows > 4 ==> refused_after(*final(device), *old(device), blank_lines_reqs(4), r,
            "Invalid line number"@),
        old(device).lcd.rows <= 4 ==> {
            let tl = text_lines(message@);
            let m = if tl.len() < old(device).lcd.rows { tl.len() } else { old(device).lcd.rows as nat };
            let c = blank_lines_reqs(old(device).lcd.rows as nat);
            &&& no_long_line(tl, m as int) ==> final(device).sent_in_turn(old(device), c + message_reqs(tl, m), r)
            &&& forall|j: int| 0 <= j < m && no_long_line(tl, j) && #[trigger] long_line(tl, j) ==> refused_after(
                *final(device), *old(device), c + message_reqs(tl, j as nat), r, "Text too long for LCD line"@)
        },
{
    let ghost s0 = *device;
    let ghost tl = text_lines(message@);
    let ghost c = blank_lines_reqs(s0.lcd.rows as nat);
    let ghost m: nat = if tl.len() < s0.lcd.rows { tl.len() } else { s0.lcd.rows as nat };
    let res = device.lcd_clear_all();
    match res {
        Err(e) => {
            proof {
                if s0.lcd.rows <= 4 {
                    lemma_message_prefix(tl, c, 0, m);
                    assert(c + message_reqs(tl, 0) =~= c);
                    lemma_sent_prefix(&*device, &s0, c, c + message_reqs(tl, m), res);
                    assert forall|j: int| 0 <= j < m && no_long_line(tl, j) && #[trigger] long_line(tl, j) implies
                        refused_after(*device, s0, c + message_reqs(tl, j as nat), res, "Text too long for LCD line"@) by {
                        lemma_message_prefix(tl, c, 0, j as nat);
                        lemma_sent_prefix(&*device, &s0, c, c + message_reqs(tl, j as nat), res);
                    }
                }
            }
            return Err(e);
        },
        Ok(()) => {},
    }
    let lines = lines_of(message);
    let rows = device.lcd.rows as usize;
    let ghost start = *device;
    proof {
        lemma_blank_lines(start.lcd, rows as nat);
        assert(c + message_reqs(tl, 0) =~= c);
    }
    assert(lines@.len() == tl.len()) by {
        assert(lines@.map_values(|l: String| l@).len() == lines@.len());
    }
    let mut i: usize = 0;
    while i < lines.len() && i < rows
        invariant
            i <= lines@.len(),
            lines@.map_values(|l: String| l@) == tl,
            tl == text_lines(message@),
            lines@.len() == tl.len(),
            rows == start.lcd.rows,
            rows <= 4,
            rows == s0.lcd.rows,
            i <= rows,
            m == (if tl.len() < rows { tl.len() } else { rows as nat }),
            c == blank_lines_reqs(rows as nat),
            start.same_link(old(device)),
            start.same_data_except(old(device), set![DeviceField::Lcd]),
            start.lcd.rows == old(device).lcd.rows,
            s0 == *old(device),
            device.same_link(&start),
            device.same_data_except(&start, set![DeviceField::Lcd]),
            device.lcd.rows == start.lcd.rows,
            forall|k: int| 0 <= k < i ==> line_bytes(device.lcd, k + 1) == pad_zeros(vstd::utf8::encode_utf8(
                #[trigger] tl[k]), 20),
            device.exchanged_all(&s0, packets(c + message_reqs(tl, i as nat), s0.request_id())),
            (c + message_reqs(tl, i as nat)).len() > 0 ==> s0.connected(),
            no_long_line(tl, i as int),
        decreases lines@.len() - i,
    {
        let ghost before = *device;
        assert(lines@[i as int]@ == tl[i as int]);
        let ghost one = lcd_line_reqs((i + 1) as u8, pad_zeros(vstd::utf8::encode_utf8(tl[i as int]), 20));
        let w = device.lcd_write_line(i + 1, lines[i].as_str());
        match w {
            Err(e) => {
                proof {
                    if long_line(tl, i as int) {
                        lemma_same_log(&before, &*device, &s0, packets(c + message_reqs(tl, i as nat), s0.request_id()));
                        assert forall|j: int| 0 <= j < m && no_long_line(tl, j) && #[trigger] long_line(tl, j) implies
                            refused_after(*device, s0, c + message_reqs(tl, j as nat), w, "Text too long for LCD line"@) by {
                            if j < i {
                                assert(!long_line(tl, j));
                            } else if j > i {
                                assert(!long_line(tl, i as int));
                            }
                        }
                    } else {
                        assert(c + message_reqs(tl, i as nat) + one == c + message_reqs(tl, (i + 1) as nat));
                        lemma_sent_chain(&*device, &before, &s0, c + message_reqs(tl, i as nat), one, w);
                        if no_long_line(tl, m as int) {
                            lemma_message_prefix(tl, c, (i + 1) as nat, m);
                            lemma_sent_prefix(&*device, &s0, c + message_reqs(tl, (i + 1) as nat), c + message_reqs(tl,
                                m), w);
                        }
                        assert forall|j: int| 0 <= j < m && no_long_line(tl, j) && #[trigger] long_line(tl, j) implies
                            refused_after(*device, s0, c + message_reqs(tl, j as nat), w, "Text too long for LCD line"@) by {
                            if j <= i {
                                assert(!long_line(tl, j));
                            } else {
                                lemma_message_prefix(tl, c, (i + 1) as nat, j as nat);
                                lemma_sent_prefix(&*device, &s0, c + message_reqs(tl, (i + 1) as nat), c + message_reqs(
                                    tl, j as nat), w);
                            }
                        }
                    }
                }
                return Err(e);
            },
            Ok(()) => {},
        }
        proof {
            assert(!long_line(tl, i as int));
            assert(c + message_reqs(tl, i as nat) + one == c + message_reqs(tl, (i + 1) as nat));
            lemma_exchanged_chain(&*device, &before, &s0, packets(c + message_reqs(tl, i as nat), s0.request_id()),
                packets(one, before.request_id()));
            lemma_packets_concat(c + message_reqs(tl, i as nat), one, s0.request_id());
            assert forall|k: int| 0 <= k < i + 1 implies line_bytes(device.lcd, k + 1) == pad_zeros(vstd::utf8::encode_utf8(
                #[trigger] tl[k]), 20) by {
                if k < i {
                    assert(line_bytes(device.lcd, k + 1) == line_bytes(before.lcd, k + 1));
                }
            }
        }
        i = i + 1;
    }
    proof {
        assert(i as nat == m);
        lemma_sent_all(&*device, &s0, c + message_reqs(tl, m), Ok::<(), PoKeysError>(()));
    }
    Ok(())
}

/// The outcome of showing two lines after clearing an LCD of at most four
/// rows: the blank lines are sent, then each line in turn, and a line of
/// more than 20 bytes is refused once the requests before it are sent.
pub open spec fn two_lines_outcome<T>(after: PoKeysDevice, before: PoKeysDevice, b1: Seq<u8>, b2: Seq<u8>, r: Result<T>)
    -> bool {
    let c = blank_lines_reqs(before.lcd.rows as nat);
    let l1 = lcd_line_reqs(1, pad_zeros(b1, 20));
    let l2 = lcd_line_reqs(2, pad_zeros(b2, 20));
    if b1.len() > 20 {
        refused_after(after, before, c, r, "Text too long for LCD line"@)
    } else if b2.len() > 20 {
        refused_after(after, before, c + l1, r, "Text too long for LCD line"@)
    } else {
        after.sent_in_turn(&before, c + l1 + l2, r)
    }
}

/// Clear the LCD and show two lines of text.
pub fn lcd_display_two_lines(device: &mut PoKeysDevice, line1: &str, line2: &str) -> (r: Result<()>)
    ensures
        final(device).same_link(old(device)),
        final(device).same_data_except(old(device), set![DeviceField::Lcd]),
        old(device).lcd.rows > 4 ==> refused_after(*final(device), *old(device), blank_lines_reqs(4), r,
            "Invalid line number"@),
        old(device).lcd.rows <= 4 ==> two_lines_outcome(*final(device), *old(device), line1.spec_bytes(),
            line2.spec_bytes(), r),
        r is Ok ==> line_bytes(final(device).lcd, 1) == pad_zeros(line1.spec_bytes(), 20) && line_bytes(final(device).lcd,
            2) == pad_zeros(line2.spec_bytes(), 20) && line_bytes(final(device).lcd, 3) == Seq::new(20, |i: int| 0u8)
            && line_bytes(final(device).lcd, 4) == Seq::new(20, |i: int| 0u8),
{
    let ghost start = *device;
    let ghost rows = start.lcd.rows as nat;
    let ghost c = blank_lines_reqs(rows);
    let ghost l1 = lcd_line_reqs(1, pad_zeros(line1.spec_bytes(), 20));
    let ghost l2 = lcd_line_reqs(2, pad_zeros(line2.spec_bytes(), 20));
    let res = device.lcd_clear_all();
    match res {
        Err(e) => {
            proof {
                if rows <= 4 {
                    if line1.spec_bytes().len() <= 20 {
                        if line2.spec_bytes().len() > 20 {
                            assert((c + l1).take(c.len() as int) =~= c);
                            lemma_sent_prefix(&*device, &start, c, c + l1, res);
                        } else {
                            assert((c + l1 + l2).take(c.len() as int) =~= c);
                            lemma_sent_prefix(&*device, &start, c, c + l1 + l2, res);
                        }
                    }
                }
            }
            return Err(e);
        },
        Ok(()) => {},
    }
    let ghost s1 = *device;
    proof {
        lemma_blank_lines(s1.lcd, rows);
    }
    let w1 = device.lcd_write_line(1, line1);
    match w1 {
        Err(e) => {
            proof {
                if line1.spec_bytes().len() > 20 {
                    lemma_same_log(&s1, &*device, &start, packets(c, start.request_id()));
                } else {
                    lemma_sent_chain(&*device, &s1, &start, c, l1, w1);
                    if line2.spec_bytes().len() <= 20 {
                        assert((c + l1 + l2).take((c + l1).len() as int) =~= c + l1);
                        lemma_sent_prefix(&*device, &start, c + l1, c + l1 + l2, w1);
                    }
                }
            }
            return Err(e);
        },
        Ok(()) => {},
    }
    let ghost s2 = *device;
    proof {
        lemma_exchanged_chain(&s2, &s1, &start, packets(c, start.request_id()), packets(l1, s1.request_id()));
        lemma_packets_concat(c, l1, start.request_id());
    }
    let w2 = device.lcd_write_line(2, line2);
    match w2 {
        Err(e) => {
            proof {
                if line2.spec_bytes().len() > 20 {
                    lemma_same_log(&s2, &*device, &start, packets(c + l1, start.request_id()));
                } else {
                    lemma_sent_chain(&*device, &s2, &start, c + l1, l2, w2);
                }
            }
            return Err(e);
        },
        Ok(()) => {},
    }
    proof {
        lemma_exchanged_chain(&*device, &s2, &start, packets(c + l1, start.request_id()), packets(l2, s2.request_id()));
        lemma_packets_concat(c + l1, l2, start.request_id());
        lemma_sent_all(&*device, &start, c + l1 + l2, Ok::<(), PoKeysError>(()));
    }
    Ok(())
}

} // verus!
