//! Decimal and hexadecimal rendering of integers into strings.
//!
//! Messages in this library are assembled from string literals and numbers;
//! these helpers append the rendering of a number to a `String` and state the
//! exact characters appended.

use vstd::prelude::*;
use vstd::string::*;

verus! {

/// The character of a decimal digit (`d < 10`).
pub open spec fn digit_char(d: nat) -> char {
    if d == 0 { '0' }
    else if d == 1 { '1' }
    else if d == 2 { '2' }
    else if d == 3 { '3' }
    else if d == 4 { '4' }
    else if d == 5 { '5' }
    else if d == 6 { '6' }
    else if d == 7 { '7' }
    else if d == 8 { '8' }
    else { '9' }
}

/// The character of an upper-case hexadecimal digit (`d < 16`).
pub open spec fn hex_char(d: nat) -> char {
    if d < 10 { digit_char(d) }
    else if d == 10 { 'A' }
    else if d == 11 { 'B' }
    else if d == 12 { 'C' }
    else if d == 13 { 'D' }
    else if d == 14 { 'E' }
    else { 'F' }
}

/// The decimal rendering of a natural number, without leading zeros.
pub open spec fn dec(n: nat) -> Seq<char>
    decreases n,
{
    if n < 10 {
        seq![digit_char(n)]
    } else {
        dec(n / 10).push(digit_char(n % 10))
    }
}

/// The decimal rendering of an integer, with a leading `-` when negative.
pub open spec fn dec_signed(n: int) -> Seq<char> {
    if n < 0 {
        seq!['-'] + dec((-n) as nat)
    } else {
        dec(n as nat)
    }
}

/// Two upper-case hexadecimal digits of a byte (`{:02X}`).
pub open spec fn hex2(b: u8) -> Seq<char> {
    seq![hex_char((b / 16) as nat), hex_char((b % 16) as nat)]
}

fn digit_str(d: u64) -> (r: &'static str)
    requires
        d < 16,
    ensures
        r@ == seq![hex_char(d as nat)],
{
    proof {
        reveal_strlit("0");
        reveal_strlit("1");
        reveal_strlit("2");
        reveal_strlit("3");
        reveal_strlit("4");
        reveal_strlit("5");
        reveal_strlit("6");
        reveal_strlit("7");
        reveal_strlit("8");
        reveal_strlit("9");
        reveal_strlit("A");
        reveal_strlit("B");
        reveal_strlit("C");
        reveal_strlit("D");
        reveal_strlit("E");
        reveal_strlit("F");
    }
    if d == 0 { "0" }
    else if d == 1 { "1" }
    else if d == 2 { "2" }
    else if d == 3 { "3" }
    else if d == 4 { "4" }
    else if d == 5 { "5" }
    else if d == 6 { "6" }
    else if d == 7 { "7" }
    else if d == 8 { "8" }
    else if d == 9 { "9" }
    else if d == 10 { "A" }
    else if d == 11 { "B" }
    else if d == 12 { "C" }
    else if d == 13 { "D" }
    else if d == 14 { "E" }
    else { "F" }
}

/// Append the decimal rendering of `n`.
pub fn push_dec(s: &mut String, n: u64)
    ensures
        final(s)@ == old(s)@ + dec(n as nat),
    decreases n,
{
    if n >= 10 {
        push_dec(s, n / 10);
    }
    let d = digit_str(n % 10);
    s.append(d);
    assert(final(s)@ =~= old(s)@ + dec(n as nat));
}

/// Append the decimal rendering of a signed number.
pub fn push_dec_signed(s: &mut String, n: i64)
    ensures
        final(s)@ == old(s)@ + dec_signed(n as int),
{
    if n < 0 {
        proof { reveal_strlit("-"); }
        s.append("-");
        let m: u64 = if n == i64::MIN { 9223372036854775808u64 } else { (-n) as u64 };
        push_dec(s, m);
        assert(final(s)@ =~= old(s)@ + dec_signed(n as int));
    } else {
        push_dec(s, n as u64);
    }
}

/// Append two upper-case hexadecimal digits of a byte.
pub fn push_hex2(s: &mut String, b: u8)
    ensures
        final(s)@ == old(s)@ + hex2(b),
{
    let hi = digit_str((b / 16) as u64);
    let lo = digit_str((b % 16) as u64);
    s.append(hi);
    s.append(lo);
    assert(final(s)@ =~= old(s)@ + hex2(b));
}

/// A fresh string holding the characters of a literal or slice.
pub fn string_of(t: &str) -> (r: String)
    ensures
        r@ == t@,
{
    String::from_str(t)
}

/// `s` followed by zeros up to length `n`.
pub open spec fn pad_zeros(s: Seq<u8>, n: nat) -> Seq<u8> {
    s + Seq::new((n - s.len()) as nat, |i: int| 0u8)
}

/// A fixed-size array holding `bytes` followed by zeros.
pub fn padded_array<const N: usize>(bytes: &[u8]) -> (r: [u8; N])
    requires
        bytes@.len() <= N,
    ensures
        r@ == pad_zeros(bytes@, N as nat),
{
    let mut r = [0u8; N];
    let mut i: usize = 0;
    while i < bytes.len()
        invariant
            bytes@.len() <= N,
            i <= bytes@.len(),
            r@.len() == N,
            forall|k: int| 0 <= k < i ==> r@[k] == bytes@[k],
            forall|k: int| i <= k < N ==> r@[k] == 0u8,
        decreases bytes.len() - i,
    {
        r[i] = bytes[i];
        i = i + 1;
    }
    assert(r@ =~= pad_zeros(bytes@, N as nat));
    r
}

/// The bytes before the first zero byte (all of them when there is none).
pub open spec fn until_zero(s: Seq<u8>) -> Seq<u8>
    decreases s.len(),
{
    if s.len() == 0 {
        s
    } else if s[0] == 0 {
        Seq::empty()
    } else {
        seq![s[0]] + until_zero(s.drop_first())
    }
}

/// The bytes before the first zero are no more than the bytes.
pub proof fn lemma_until_zero_len(s: Seq<u8>)
    ensures
        until_zero(s).len() <= s.len(),
    decreases s.len(),
{
    if s.len() > 0 && s[0] != 0 {
        lemma_until_zero_len(s.drop_first());
    }
}

/// The bytes left after dropping all trailing zero bytes.
pub open spec fn trim_trailing_zeros(s: Seq<u8>) -> Seq<u8>
    decreases s.len(),
{
    if s.len() > 0 && s.last() == 0 {
        trim_trailing_zeros(s.drop_last())
    } else {
        s
    }
}

/// Copy the bytes before the first zero byte.
pub fn bytes_until_zero(s: &[u8]) -> (r: Vec<u8>)
    ensures
        r@ == until_zero(s@),
{
    let mut r: Vec<u8> = Vec::new();
    let mut i: usize = 0;
    assert(s@.skip(0) =~= s@);
    assert(r@ + until_zero(s@.skip(0)) =~= until_zero(s@));
    while i < s.len()
        invariant
            i <= s.len(),
            r@ + until_zero(s@.skip(i as int)) == until_zero(s@),
            forall|k: int| 0 <= k < i ==> s@[k] != 0,
        decreases s.len() - i,
    {
        if s[i] == 0 {
            assert(until_zero(s@.skip(i as int)) == Seq::<u8>::empty());
            assert(r@ =~= r@ + Seq::<u8>::empty());
            return r;
        }
        let ghost prev = r@;
        r.push(s[i]);
        assert(s@.skip(i as int).drop_first() =~= s@.skip(i + 1));
        assert(until_zero(s@.skip(i as int)) == seq![s[i as int]] + until_zero(s@.skip(i + 1)));
        assert(r@ + until_zero(s@.skip(i + 1)) =~= prev + (seq![s[i as int]] + until_zero(s@.skip(i + 1))));
        i = i + 1;
    }
    assert(s@.skip(i as int) =~= Seq::<u8>::empty());
    assert(r@ =~= r@ + until_zero(s@.skip(i as int)));
    r
}

proof fn lemma_trim_prefix(s: Seq<u8>, n: int)
    requires
        0 <= n <= s.len(),
        forall|k: int| n <= k < s.len() ==> s[k] == 0,
    ensures
        trim_trailing_zeros(s) == trim_trailing_zeros(s.take(n)),
    decreases s.len(),
{
    if s.len() > n {
        assert(s.last() == 0);
        assert(s.drop_last().take(n) =~= s.take(n));
        lemma_trim_prefix(s.drop_last(), n);
    } else {
        assert(s.take(n) =~= s);
    }
}

/// Copy the bytes left after dropping all trailing zero bytes.
pub fn bytes_trim_trailing_zeros(s: &[u8]) -> (r: Vec<u8>)
    ensures
        r@ == trim_trailing_zeros(s@),
{
    let mut end: usize = s.len();
    while end > 0 && s[end - 1] == 0
        invariant
            end <= s.len(),
            forall|k: int| end <= k < s.len() ==> s@[k] == 0,
        decreases end,
    {
        end = end - 1;
    }
    let mut r: Vec<u8> = Vec::new();
    let mut i: usize = 0;
    while i < end
        invariant
            i <= end <= s.len(),
            r@ == s@.take(i as int),
        decreases end - i,
    {
        r.push(s[i]);
        assert(r@ =~= s@.take(i + 1));
        i = i + 1;
    }
    proof {
        lemma_trim_prefix(s@, end as int);
        let t = s@.take(end as int);
        if t.len() > 0 {
            assert(t.last() != 0);
        }
    }
    r
}

/// The characters left after dropping all trailing NUL characters.
pub open spec fn trim_trailing_nul(s: Seq<char>) -> Seq<char>
    decreases s.len(),
{
    if s.len() > 0 && s.last() == '\0' {
        trim_trailing_nul(s.drop_last())
    } else {
        s
    }
}

proof fn lemma_trim_nul_prefix(s: Seq<char>, n: int)
    requires
        0 <= n <= s.len(),
        forall|k: int| n <= k < s.len() ==> s[k] == '\0',
    ensures
        trim_trailing_nul(s) == trim_trailing_nul(s.take(n)),
    decreases s.len(),
{
    if s.len() > n {
        assert(s.drop_last().take(n) =~= s.take(n));
        lemma_trim_nul_prefix(s.drop_last(), n);
    } else {
        assert(s.take(n) =~= s);
    }
}

/// A copy of `s` without its trailing NUL characters.
pub fn trim_end_nul(s: &str) -> (r: String)
    ensures
        r@ == trim_trailing_nul(s@),
{
    let mut end: usize = s.unicode_len();
    while end > 0 && s.get_char(end - 1) == '\0'
        invariant
            end <= s@.len(),
            forall|k: int| end <= k < s@.len() ==> s@[k] == '\0',
        decreases end,
    {
        end = end - 1;
    }
    let t = s.substring_char(0, end);
    proof {
        lemma_trim_nul_prefix(s@, end as int);
        assert(t@ =~= s@.take(end as int));
        if end > 0 {
            assert(t@.last() != '\0');
        }
    }
    String::from_str(t)
}

/// Name for the text that `String::from_utf8_lossy` makes of a byte sequence.
pub uninterp spec fn utf8_lossy(bytes: Seq<u8>) -> Seq<char>;

/// Append one character to a string.
///
/// Calls `String::push`. Trusted: the string's characters gain `c` at the
/// end.
#[verifier::external_body]
pub(crate) fn push_char(s: &mut String, c: char)
    ensures
        final(s)@ == old(s)@.push(c),
{
    s.push(c)
}

/// The index of the first `'\n'` of a text, or its length when it has none.
pub open spec fn first_newline(text: Seq<char>) -> nat
    decreases text.len(),
{
    if text.len() == 0 || text[0] == '\n' {
        0
    } else {
        1 + first_newline(text.skip(1))
    }
}

/// The lines of a text: the pieces between `'\n'` characters, each without
/// a `'\r'` just before its `'\n'`. A final `'\n'` ends the last line rather
/// than starting an empty one, and an empty text has no lines.
pub open spec fn text_lines(text: Seq<char>) -> Seq<Seq<char>>
    decreases text.len(),
{
    if text.len() == 0 {
        Seq::empty()
    } else if first_newline(text) >= text.len() {
        seq![text]
    } else {
        let piece = text.take(first_newline(text) as int);
        let line = if piece.len() > 0 && piece.last() == '\r' { piece.drop_last() } else { piece };
        seq![line] + text_lines(text.skip(first_newline(text) + 1int))
    }
}

/// The lines of a text, without their line endings.
///
/// Calls `str::lines`. Trusted: the result is the split that `text_lines`
/// states, as std documents it (line endings `\n` or `\r\n`, the final one
/// optional).
#[verifier::external_body]
pub(crate) fn lines_of(text: &str) -> (r: Vec<String>)
    ensures
        r@.map_values(|l: String| l@) == text_lines(text@),
{
    text.lines().map(|l| l.to_string()).collect()
}

/// Decode bytes as UTF-8, replacing invalid sequences by U+FFFD.
///
/// Calls `String::from_utf8_lossy`. Trusted: the result is the named lossy
/// decoding of the bytes, and on valid UTF-8 it is the exact decoding.
#[verifier::external_body]
pub(crate) fn from_utf8_lossy(bytes: &[u8]) -> (r: String)
    ensures
        r@ == utf8_lossy(bytes@),
        vstd::utf8::valid_utf8(bytes@) ==> r@ == vstd::utf8::decode_utf8(bytes@),
{
    String::from_utf8_lossy(bytes).into_owned()
}

/// Decode bytes as UTF-8, or fail on invalid input.
///
/// Calls `String::from_utf8`. Trusted: it succeeds exactly on valid UTF-8 and
/// then yields the decoded characters.
#[verifier::external_body]
pub(crate) fn from_utf8(bytes: Vec<u8>) -> (r: Option<String>)
    ensures
        r is Some <==> vstd::utf8::valid_utf8(bytes@),
        r matches Some(s) ==> s@ == vstd::utf8::decode_utf8(bytes@),
{
    String::from_utf8(bytes).ok()
}


/// The characters of each string of a sequence.
pub open spec fn texts(v: Seq<String>) -> Seq<Seq<char>> {
    v.map_values(|s: String| s@)
}

/// Whether `s` begins with `p`.
pub open spec fn has_prefix(s: Seq<char>, p: Seq<char>) -> bool {
    p.len() <= s.len() && s.take(p.len() as int) == p
}

/// Whether `s` ends with `p`.
pub open spec fn has_suffix(s: Seq<char>, p: Seq<char>) -> bool {
    p.len() <= s.len() && s.skip(s.len() - p.len()) == p
}

/// Whether `s` holds `p` at position `at`.
pub open spec fn matches_at(s: Seq<char>, p: Seq<char>, at: int) -> bool {
    0 <= at && at + p.len() <= s.len() && s.subrange(at, at + p.len()) == p
}

/// Whether `p` occurs somewhere in `s`.
pub open spec fn contains_seq(s: Seq<char>, p: Seq<char>) -> bool {
    exists|at: int| matches_at(s, p, at)
}

pub(crate) fn matches_at_exec(s: &str, p: &str, at: usize) -> (r: bool)
    requires
        at + p@.len() <= s@.len(),
    ensures
        r == matches_at(s@, p@, at as int),
{
    let n = p.unicode_len();
    let total = s.unicode_len();
    let mut i: usize = 0;
    while i < n
        invariant
            n == p@.len(),
            total == s@.len(),
            at + n <= s@.len(),
            i <= n,
            forall|k: int| 0 <= k < i ==> s@[at + k] == p@[k],
        decreases n - i,
    {
        if s.get_char(at + i) != p.get_char(i) {
            proof {
                assert(s@.subrange(at as int, at + n)[i as int] != p@[i as int]);
            }
            return false;
        }
        i = i + 1;
    }
    assert(s@.subrange(at as int, at + n) =~= p@);
    true
}

/// Whether `s` begins with `p`.
pub fn starts_with(s: &str, p: &str) -> (r: bool)
    ensures
        r == has_prefix(s@, p@),
{
    if p.unicode_len() > s.unicode_len() {
        return false;
    }
    let r = matches_at_exec(s, p, 0);
    assert(s@.subrange(0, p@.len() as int) =~= s@.take(p@.len() as int));
    r
}

/// Whether `s` ends with `p`.
pub fn ends_with(s: &str, p: &str) -> (r: bool)
    ensures
        r == has_suffix(s@, p@),
{
    let n = s.unicode_len();
    let m = p.unicode_len();
    if m > n {
        return false;
    }
    let r = matches_at_exec(s, p, n - m);
    assert(s@.subrange((n - m) as int, n as int) =~= s@.skip((n - m) as int));
    r
}

/// Whether `p` occurs in `s`.
pub fn contains_str(s: &str, p: &str) -> (r: bool)
    ensures
        r == contains_seq(s@, p@),
{
    let n = s.unicode_len();
    let m = p.unicode_len();
    if m > n {
        return false;
    }
    let limit = n - m;
    let mut at: usize = 0;
    loop
        invariant
            n == s@.len(),
            m == p@.len(),
            m <= n,
            limit == n - m,
            at <= limit,
            forall|k: int| 0 <= k < at ==> !matches_at(s@, p@, k),
        ensures
            forall|k: int| 0 <= k <= limit ==> !matches_at(s@, p@, k),
        decreases limit - at,
    {
        if matches_at_exec(s, p, at) {
            return true;
        }
        if at == limit {
            break;
        }
        at = at + 1;
    }
    assert forall|k: int| !matches_at(s@, p@, k) by {
        if 0 <= k && k + m <= n {
            assert(k <= limit);
        }
    }
    false
}

/// Whether two strings hold the same characters.
pub fn str_equal(a: &str, b: &str) -> (r: bool)
    ensures
        r == (a@ == b@),
{
    if a.unicode_len() != b.unicode_len() {
        return false;
    }
    let r = matches_at_exec(a, b, 0);
    assert(r == (a@ == b@)) by {
        assert(a@.subrange(0, b@.len() as int) =~= a@);
    }
    r
}

/// The characters of `s` from position `from` to `to`, as a new string.
pub fn substring(s: &str, from: usize, to: usize) -> (r: String)
    requires
        from <= to <= s@.len(),
    ensures
        r@ == s@.subrange(from as int, to as int),
{
    String::from_str(s.substring_char(from, to))
}

/// Whether the characters are all ASCII digits.
pub open spec fn all_digits(s: Seq<char>) -> bool {
    forall|i: int| 0 <= i < s.len() ==> '0' <= #[trigger] s[i] <= '9'
}

/// The value of a string of decimal digits.
pub open spec fn digits_value(s: Seq<char>) -> nat
    decreases s.len(),
{
    if s.len() == 0 {
        0
    } else {
        digits_value(s.drop_last()) * 10 + (s.last() as u32 - '0' as u32) as nat
    }
}

/// The `u32` a string denotes: an optional `+`, then one or more decimal
/// digits whose value fits in 32 bits.
pub open spec fn parse_u32_spec(s: Seq<char>) -> Option<u32> {
    let t = if s.len() > 0 && s[0] == '+' { s.drop_first() } else { s };
    if t.len() > 0 && all_digits(t) && digits_value(t) <= u32::MAX {
        Some(digits_value(t) as u32)
    } else {
        None
    }
}

pub proof fn lemma_digits_value_grows(t: Seq<char>, i: int)
    requires
        0 <= i <= t.len(),
        all_digits(t),
    ensures
        digits_value(t) >= digits_value(t.take(i)),
    decreases t.len() - i,
{
    if i < t.len() {
        lemma_digits_value_grows(t, i + 1);
        assert(t.take(i + 1).drop_last() =~= t.take(i));
        assert('0' <= t[i] <= '9');
    } else {
        assert(t.take(i) =~= t);
    }
}

/// Parse an unsigned 32-bit decimal number, as `str::parse::<u32>` does.
pub fn parse_u32(s: &str) -> (r: Option<u32>)
    ensures
        r == parse_u32_spec(s@),
{
    let n = s.unicode_len();
    let start: usize = if n > 0 && s.get_char(0) == '+' { 1 } else { 0 };
    let ghost t = if s@.len() > 0 && s@[0] == '+' { s@.drop_first() } else { s@ };
    if start == n {
        return None;
    }
    let mut v: u64 = 0;
    let mut i: usize = start;
    while i < n
        invariant
            n == s@.len(),
            start <= i <= n,
            t == s@.skip(start as int),
            t == (if s@.len() > 0 && s@[0] == '+' { s@.drop_first() } else { s@ }),
            all_digits(s@.subrange(start as int, i as int)),
            v == digits_value(s@.subrange(start as int, i as int)),
            v <= u32::MAX,
        decreases n - i,
    {
        let c = s.get_char(i);
        if c < '0' || c > '9' {
            proof {
                assert(t[i - start] == c);
                assert(!('0' <= t[i - start] <= '9'));
                assert(!all_digits(t));
            }
            return None;
        }
        let d = (c as u32 - '0' as u32) as u64;
        proof {
            assert(s@.subrange(start as int, i + 1).drop_last() =~= s@.subrange(start as int, i as int));
        }
        v = v * 10 + d;
        proof {
            let p = s@.subrange(start as int, i + 1);
            assert(p.last() == c);
            assert(v == digits_value(p));
            assert forall|k: int| 0 <= k < p.len() implies '0' <= #[trigger] p[k] <= '9' by {
                if k < p.len() - 1 {
                    assert(p[k] == s@.subrange(start as int, i as int)[k]);
                }
            }
        }
        if v > 0xFFFF_FFFF {
            proof {
                let p = s@.subrange(start as int, i + 1);
                assert(p =~= t.take(i + 1 - start));
                if all_digits(t) {
                    lemma_digits_value_grows(t, i + 1 - start);
                }
            }
            return None;
        }
        i = i + 1;
    }
    assert(s@.subrange(start as int, n as int) =~= t);
    Some(v as u32)
}


} // verus!
