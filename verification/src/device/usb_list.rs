//! The PoKeys devices of a macOS USB listing: the XML property list that
//! `system_profiler SPUSBDataType -xml` prints, read line by line.
//!
//! A line `<key>vendor_id</key>` followed by the PoKeys vendor ID (7619, or
//! `0x1dc3`) opens a device. The next 48 lines, up to the next vendor key,
//! give its product ID, serial number and location. Lines are compared with
//! surrounding white space removed.

use vstd::prelude::*;
use vstd::string::*;
use crate::text::{
    contains_seq, contains_str, from_utf8_lossy, lines_of, matches_at, matches_at_exec, parse_u32, parse_u32_spec,
    string_of, substring, text_lines, texts, utf8_lossy,
};

verus! {

/// A USB device found by enumeration.
#[derive(Debug, Clone)]
pub struct UsbDeviceInfo {
    pub vendor_id: u16,
    pub product_id: u16,
    pub serial_number: Option<String>,
    pub path: String,
}

/// The characters of an optional string.
pub open spec fn opt_text(s: Option<String>) -> Option<Seq<char>> {
    match s {
        Some(t) => Some(t@),
        None => None,
    }
}

/// A device as plain values: vendor ID, product ID, serial number, path.
pub open spec fn usb_view(d: UsbDeviceInfo) -> (u16, u16, Option<Seq<char>>, Seq<char>) {
    (d.vendor_id, d.product_id, opt_text(d.serial_number), d.path@)
}

/// The devices of a sequence as plain values.
pub open spec fn usb_views(v: Seq<UsbDeviceInfo>) -> Seq<(u16, u16, Option<Seq<char>>, Seq<char>)> {
    v.map_values(|d: UsbDeviceInfo| usb_view(d))
}

/// The Unicode white space characters.
pub open spec fn is_white_space(c: char) -> bool {
    ('\u{9}' <= c && c <= '\u{d}') || c == ' ' || c == '\u{85}' || c == '\u{a0}' || c == '\u{1680}' || ('\u{2000}'
        <= c && c <= '\u{200a}') || c == '\u{2028}' || c == '\u{2029}' || c == '\u{202f}' || c == '\u{205f}' || c
        == '\u{3000}'
}

/// The text without its leading white space.
pub open spec fn strip_leading(s: Seq<char>) -> Seq<char>
    decreases s.len(),
{
    if s.len() > 0 && is_white_space(s[0]) {
        strip_leading(s.drop_first())
    } else {
        s
    }
}

/// The text without its trailing white space.
pub open spec fn strip_trailing(s: Seq<char>) -> Seq<char>
    decreases s.len(),
{
    if s.len() > 0 && is_white_space(s.last()) {
        strip_trailing(s.drop_last())
    } else {
        s
    }
}

/// The text without leading and trailing white space.
pub open spec fn trimmed(s: Seq<char>) -> Seq<char> {
    strip_trailing(strip_leading(s))
}

/// Each line without leading and trailing white space.
pub open spec fn trim_all(lines: Seq<Seq<char>>) -> Seq<Seq<char>> {
    lines.map_values(|l: Seq<char>| trimmed(l))
}

/// The first position from `k` on where `p` occurs in `s`.
pub open spec fn find_from(s: Seq<char>, p: Seq<char>, k: int) -> Option<int>
    decreases s.len() + 1 - k,
{
    if k < 0 || k + p.len() > s.len() {
        None
    } else if matches_at(s, p, k) {
        Some(k)
    } else {
        find_from(s, p, k + 1)
    }
}

/// The text between the first `open` and the first `close` of a line, where
/// the line has both.
pub open spec fn between(line: Seq<char>, open: Seq<char>, close: Seq<char>) -> Option<Seq<char>> {
    match (find_from(line, open, 0), find_from(line, close, 0)) {
        (Some(a), Some(b)) => Some(line.subrange(a + open.len(), b)),
        _ => None,
    }
}

/// Whether the text between `open` and `close` can be cut out: where the
/// line has both, the first `close` does not begin before the end of the
/// first `open`.
pub open spec fn cut_ok(line: Seq<char>, open: Seq<char>, close: Seq<char>) -> bool {
    match (find_from(line, open, 0), find_from(line, close, 0)) {
        (Some(a), Some(b)) => a + open.len() <= b,
        _ => true,
    }
}

/// Whether line `j` holds `key` and a line follows it.
pub open spec fn keyed(tl: Seq<Seq<char>>, j: int, key: Seq<char>) -> bool {
    contains_seq(tl[j], key) && j + 1 < tl.len()
}

/// The product ID after line `j`: the `<integer>` of the next line where
/// line `j` is the product ID key and it holds a `u16`, else `pid`.
pub open spec fn pid_step(tl: Seq<Seq<char>>, j: int, pid: u16) -> u16 {
    if keyed(tl, j, "<key>product_id</key>"@) {
        match between(tl[j + 1], "<integer>"@, "</integer>"@) {
            Some(v) => match parse_u32_spec(v) {
                Some(x) => if x <= 65535 { x as u16 } else { pid },
                None => pid,
            },
            None => pid,
        }
    } else {
        pid
    }
}

/// The `<string>` of the line after line `j`, where line `j` holds `key`.
pub open spec fn string_after(tl: Seq<Seq<char>>, j: int, key: Seq<char>) -> Option<Seq<char>> {
    if keyed(tl, j, key) {
        between(tl[j + 1], "<string>"@, "</string>"@)
    } else {
        None
    }
}

/// Product ID, serial number and location after line `j`.
pub open spec fn fields_step(tl: Seq<Seq<char>>, j: int, acc: (u16, Option<Seq<char>>, Seq<char>)) -> (
    u16,
    Option<Seq<char>>,
    Seq<char>,
) {
    (
        pid_step(tl, j, acc.0),
        match string_after(tl, j, "<key>serial_num</key>"@) {
            Some(v) => Some(v),
            None => acc.1,
        },
        match string_after(tl, j, "<key>location_id</key>"@) {
            Some(v) => v,
            None => acc.2,
        },
    )
}

/// Whether every value of line `j` that is read can be cut out.
pub open spec fn step_ok(tl: Seq<Seq<char>>, j: int) -> bool {
    &&& keyed(tl, j, "<key>product_id</key>"@) ==> cut_ok(tl[j + 1], "<integer>"@, "</integer>"@)
    &&& keyed(tl, j, "<key>serial_num</key>"@) ==> cut_ok(tl[j + 1], "<string>"@, "</string>"@)
    &&& keyed(tl, j, "<key>location_id</key>"@) ==> cut_ok(tl[j + 1], "<string>"@, "</string>"@)
}

/// Whether line `j` of the device opened at line `i` ends its search: the
/// next vendor key, past the line after the vendor ID.
pub open spec fn ends_block(tl: Seq<Seq<char>>, i: int, j: int) -> bool {
    contains_seq(tl[j], "<key>vendor_id</key>"@) && j > i + 2
}

/// The fields of the device opened at line `i`, read from line `j` to
/// before line `end`.
pub open spec fn block(tl: Seq<Seq<char>>, i: int, j: int, end: int, acc: (u16, Option<Seq<char>>, Seq<char>)) -> (
    u16,
    Option<Seq<char>>,
    Seq<char>,
)
    decreases end - j,
{
    if j >= end || j < 0 || j >= tl.len() {
        acc
    } else if ends_block(tl, i, j) {
        fields_step(tl, j, acc)
    } else {
        block(tl, i, j + 1, end, fields_step(tl, j, acc))
    }
}

/// Whether every value read for the device opened at line `i`, from line
/// `j` to before line `end`, can be cut out.
pub open spec fn block_ok(tl: Seq<Seq<char>>, i: int, j: int, end: int) -> bool
    decreases end - j,
{
    if j >= end || j < 0 || j >= tl.len() {
        true
    } else {
        step_ok(tl, j) && (ends_block(tl, i, j) || block_ok(tl, i, j + 1, end))
    }
}

/// Whether line `i` opens a PoKeys device.
pub open spec fn opens_device(tl: Seq<Seq<char>>, i: int) -> bool {
    keyed(tl, i, "<key>vendor_id</key>"@) && (contains_seq(tl[i + 1], "<integer>7619</integer>"@) || contains_seq(
        tl[i + 1],
        "<string>0x1dc3</string>"@,
    ))
}

/// The line before which the search of the device opened at line `i` stops.
pub open spec fn block_end(tl: Seq<Seq<char>>, i: int) -> int {
    if i + 50 < tl.len() { i + 50 } else { tl.len() as int }
}

/// No product ID, serial number or location yet.
pub open spec fn no_fields() -> (u16, Option<Seq<char>>, Seq<char>) {
    (0u16, None, Seq::empty())
}

/// The device opened at line `i`.
pub open spec fn device_at(tl: Seq<Seq<char>>, i: int) -> (u16, u16, Option<Seq<char>>, Seq<char>) {
    let f = block(tl, i, i + 2, block_end(tl, i), no_fields());
    (0x1DC3u16, f.0, f.1, "macos_usb_"@ + f.2)
}

/// The PoKeys devices opened at line `i` or later.
pub open spec fn pokeys_devices(tl: Seq<Seq<char>>, i: int) -> Seq<(u16, u16, Option<Seq<char>>, Seq<char>)>
    decreases tl.len() - i,
{
    if i < 0 || i >= tl.len() {
        Seq::empty()
    } else {
        (if opens_device(tl, i) { seq![device_at(tl, i)] } else { Seq::empty() }) + pokeys_devices(tl, i + 1)
    }
}

/// Whether every value read for the devices opened at line `i` or later can
/// be cut out.
pub open spec fn listing_ok(tl: Seq<Seq<char>>, i: int) -> bool
    decreases tl.len() - i,
{
    if i < 0 || i >= tl.len() {
        true
    } else {
        (opens_device(tl, i) ==> block_ok(tl, i, i + 2, block_end(tl, i))) && listing_ok(tl, i + 1)
    }
}

/// Whether a character is Unicode white space.
pub fn is_space(c: char) -> (r: bool)
    ensures
        r == is_white_space(c),
{
    ('\u{9}' <= c && c <= '\u{d}') || c == ' ' || c == '\u{85}' || c == '\u{a0}' || c == '\u{1680}' || ('\u{2000}'
        <= c && c <= '\u{200a}') || c == '\u{2028}' || c == '\u{2029}' || c == '\u{202f}' || c == '\u{205f}' || c
        == '\u{3000}'
}

/// The text without leading and trailing white space.
pub fn trim(s: &str) -> (r: String)
    ensures
        r@ == trimmed(s@),
{
    let n = s.unicode_len();
    let mut a: usize = 0;
    assert(s@.skip(0) =~= s@);
    while a < n && is_space(s.get_char(a))
        invariant
            n == s@.len(),
            a <= n,
            strip_leading(s@) == strip_leading(s@.skip(a as int)),
        decreases n - a,
    {
        assert(s@.skip(a as int).drop_first() =~= s@.skip(a + 1));
        a = a + 1;
    }
    assert(strip_leading(s@) == s@.skip(a as int)) by {
        if a < n {
            assert(s@.skip(a as int)[0] == s@[a as int]);
        }
    }
    let mut b: usize = n;
    assert(s@.skip(a as int) =~= s@.subrange(a as int, n as int));
    while b > a && is_space(s.get_char(b - 1))
        invariant
            n == s@.len(),
            a <= b <= n,
            strip_trailing(s@.subrange(a as int, n as int)) == strip_trailing(s@.subrange(a as int, b as int)),
        decreases b,
    {
        assert(s@.subrange(a as int, b as int).drop_last() =~= s@.subrange(a as int, b - 1));
        b = b - 1;
    }
    assert(strip_trailing(s@.subrange(a as int, b as int)) == s@.subrange(a as int, b as int)) by {
        if b > a {
            assert(s@.subrange(a as int, b as int).last() == s@[b - 1]);
        }
    }
    substring(s, a, b)
}

/// The first position where `p` occurs in `s`.
pub fn find_str(s: &str, p: &str) -> (r: Option<usize>)
    ensures
        match r {
            Some(k) => find_from(s@, p@, 0) == Some(k as int),
            None => find_from(s@, p@, 0) is None,
        },
{
    let n = s.unicode_len();
    let m = p.unicode_len();
    if m > n {
        return None;
    }
    if m == 0 {
        assert(matches_at(s@, p@, 0)) by {
            assert(s@.subrange(0, 0) =~= p@);
        }
        return Some(0);
    }
    let mut at: usize = 0;
    while at <= n - m
        invariant
            n == s@.len(),
            m == p@.len(),
            1 <= m <= n,
            at <= n - m + 1,
            find_from(s@, p@, 0) == find_from(s@, p@, at as int),
        decreases n + 1 - at,
    {
        if matches_at_exec(s, p, at) {
            return Some(at);
        }
        at = at + 1;
    }
    None
}

/// The text between the first `open` and the first `close` of a line:
/// `None` where it cannot be cut out, `Some(None)` where the line lacks one
/// of them.
fn cut_between(line: &str, open: &str, close: &str) -> (r: Option<Option<String>>)
    ensures
        r is None <==> !cut_ok(line@, open@, close@),
        r matches Some(v) ==> opt_text(v) == between(line@, open@, close@),
{
    match find_str(line, open) {
        None => Some(None),
        Some(a) => match find_str(line, close) {
            None => Some(None),
            Some(b) => {
                proof {
                    lemma_find_from_matches(line@, open@, 0);
                    lemma_find_from_matches(line@, close@, 0);
                }
                let m = open.unicode_len();
                let n = line.unicode_len();
                assert(a + m <= n);
                if a + m <= b {
                    Some(Some(substring(line, a + m, b)))
                } else {
                    None
                }
            },
        },
    }
}

proof fn lemma_find_from_matches(s: Seq<char>, p: Seq<char>, k: int)
    ensures
        find_from(s, p, k) matches Some(a) ==> matches_at(s, p, a) && a + p.len() <= s.len(),
    decreases s.len() + 1 - k,
{
    if !(k < 0 || k + p.len() > s.len()) && !matches_at(s, p, k) {
        lemma_find_from_matches(s, p, k + 1);
    }
}

/// Read a value of the line after line `j` into `slot` where line `j` holds
/// `key`: `false` where the value cannot be cut out.
fn read_string_after(t: &Vec<String>, j: usize, key: &str, slot: &mut Option<String>) -> (ok: bool)
    requires
        j < t@.len(),
    ensures
        ok == (keyed(texts(t@), j as int, key@) ==> cut_ok(texts(t@)[j + 1], "<string>"@, "</string>"@)),
        ok ==> opt_text(*final(slot)) == match string_after(texts(t@), j as int, key@) {
            Some(v) => Some(v),
            None => opt_text(*old(slot)),
        },
{
    let n = t.len();
    if contains_str(t[j].as_str(), key) && j + 1 < n {
        match cut_between(t[j + 1].as_str(), "<string>", "</string>") {
            None => false,
            Some(None) => true,
            Some(Some(v)) => {
                *slot = Some(v);
                true
            },
        }
    } else {
        true
    }
}

/// Read the fields of the device opened at line `i`, from line `i + 2` to
/// before line `end`: `None` where a value read cannot be cut out.
fn scan_block(t: &Vec<String>, i: usize, end: usize) -> (r: Option<(u16, Option<String>, String)>)
    requires
        end <= t@.len(),
        i < t@.len(),
    ensures
        r is None <==> !block_ok(texts(t@), i as int, i + 2, end as int),
        r matches Some(f) ==> block(texts(t@), i as int, i + 2, end as int, no_fields()) == (
            f.0,
            opt_text(f.1),
            f.2@,
        ),
{
    let ghost tl = texts(t@);
    let n = t.len();
    let mut pid: u16 = 0;
    let mut serial: Option<String> = None;
    let mut location: Option<String> = None;
    let mut j: usize = if n - i >= 2 { i + 2 } else { n };
    let ghost init = no_fields();
    assert(opt_text(location) is None);
    while j < end
        invariant
            n == t@.len(),
            end <= n,
            i < n,
            i <= j,
            j < end ==> i + 2 <= j,
            tl == texts(t@),
            init == no_fields(),
            block(tl, i as int, i + 2, end as int, init) == block(
                tl,
                i as int,
                j as int,
                end as int,
                (pid, opt_text(serial), match opt_text(location) { Some(v) => v, None => Seq::empty() }),
            ),
            block_ok(tl, i as int, i + 2, end as int) == block_ok(tl, i as int, j as int, end as int),
        decreases end - j,
    {
        let line = t[j].as_str();
        assert(line@ == tl[j as int]);
        let ghost acc = (pid, opt_text(serial), match opt_text(location) { Some(v) => v, None => Seq::empty() });
        if contains_str(line, "<key>product_id</key>") && j + 1 < n {
            match cut_between(t[j + 1].as_str(), "<integer>", "</integer>") {
                None => {
                    return None;
                },
                Some(None) => {},
                Some(Some(v)) => {
                    match parse_u32(v.as_str()) {
                        Some(x) => {
                            if x <= 65535 {
                                pid = x as u16;
                            }
                        },
                        None => {},
                    }
                },
            }
        }
        let ghost old_location = opt_text(location);
        if !read_string_after(t, j, "<key>serial_num</key>", &mut serial) {
            return None;
        }
        if !read_string_after(t, j, "<key>location_id</key>", &mut location) {
            return None;
        }
        assert((pid, opt_text(serial), match opt_text(location) { Some(v) => v, None => Seq::empty() }) == fields_step(
            tl,
            j as int,
            acc,
        ));
        if contains_str(line, "<key>vendor_id</key>") && j - i > 2 {
            assert(ends_block(tl, i as int, j as int));
            assert(block(tl, i as int, j as int, end as int, acc) == fields_step(tl, j as int, acc));
            let ghost loc_view = match opt_text(location) { Some(v) => v, None => Seq::empty() };
            let loc = match location {
                Some(v) => v,
                None => String::new(),
            };
            assert(loc@ == loc_view);
            return Some((pid, serial, loc));
        }
        j = j + 1;
    }
    let loc = match location {
        Some(v) => v,
        None => String::new(),
    };
    Some((pid, serial, loc))
}

/// The PoKeys devices of a USB listing given as lines: `None` where a value
/// read cannot be cut out of its line.
pub fn pokeys_usb_devices(lines: &Vec<String>) -> (r: Option<Vec<UsbDeviceInfo>>)
    ensures
        r is Some <==> listing_ok(trim_all(texts(lines@)), 0),
        r matches Some(v) ==> usb_views(v@) == pokeys_devices(trim_all(texts(lines@)), 0),
{
    let n = lines.len();
    let mut t: Vec<String> = Vec::new();
    let mut k: usize = 0;
    while k < n
        invariant
            n == lines@.len(),
            k <= n,
            t@.len() == k,
            forall|q: int| 0 <= q < k ==> #[trigger] texts(t@)[q] == trimmed(lines@[q]@),
        decreases n - k,
    {
        let line = trim(lines[k].as_str());
        let ghost old_t = t@;
        t.push(line);
        assert forall|q: int| 0 <= q < k + 1 implies #[trigger] texts(t@)[q] == trimmed(lines@[q]@) by {
            if q < k {
                assert(t@[q] == old_t[q]);
                assert(texts(old_t)[q] == old_t[q]@);
            }
        }
        k = k + 1;
    }
    assert(texts(t@) =~= trim_all(texts(lines@)));
    let ghost tl = texts(t@);
    let mut out: Vec<UsbDeviceInfo> = Vec::new();
    let mut i: usize = 0;
    assert(usb_views(out@) =~= Seq::<(u16, u16, Option<Seq<char>>, Seq<char>)>::empty());
    while i < n
        invariant
            n == t@.len(),
            i <= n,
            tl == texts(t@),
            tl == trim_all(texts(lines@)),
            usb_views(out@) + pokeys_devices(tl, i as int) == pokeys_devices(tl, 0),
            listing_ok(tl, 0) == listing_ok(tl, i as int),
        decreases n - i,
    {
        let ghost before = out@;
        let line = t[i].as_str();
        assert(line@ == tl[i as int]);
        if contains_str(line, "<key>vendor_id</key>") && i + 1 < n {
            let next = t[i + 1].as_str();
            assert(next@ == tl[i + 1]);
            if contains_str(next, "<integer>7619</integer>") || contains_str(next, "<string>0x1dc3</string>") {
                let end = if n - i > 50 { i + 50 } else { n };
                assert(end == block_end(tl, i as int));
                assert(opens_device(tl, i as int));
                match scan_block(&t, i, end) {
                    None => {
                        assert(!listing_ok(tl, i as int));
                        return None;
                    },
                    Some((pid, serial, location)) => {
                        let mut path = string_of("macos_usb_");
                        path.append(location.as_str());
                        let d = UsbDeviceInfo { vendor_id: 0x1DC3, product_id: pid, serial_number: serial, path };
                        assert(usb_view(d) == device_at(tl, i as int));
                        out.push(d);
                        assert(usb_views(out@) =~= usb_views(before).push(device_at(tl, i as int)));
                    },
                }
            }
        }
        proof {
            if !opens_device(tl, i as int) {
                assert(out@ == before);
            }
            assert(usb_views(out@) + pokeys_devices(tl, i + 1) =~= usb_views(before) + pokeys_devices(tl, i as int));
        }
        i = i + 1;
    }
    assert(usb_views(out@) =~= usb_views(out@) + pokeys_devices(tl, n as int));
    Some(out)
}

/// The PoKeys devices of the USB listing that `system_profiler` printed,
/// read as UTF-8 with invalid sequences replaced and split into lines:
/// `None` where a value read cannot be cut out of its line.
pub fn pokeys_usb_devices_in_profiler_output(stdout: &[u8]) -> (r: Option<Vec<UsbDeviceInfo>>)
    ensures
        r is Some <==> listing_ok(trim_all(text_lines(utf8_lossy(stdout@))), 0),
        r matches Some(v) ==> usb_views(v@) == pokeys_devices(trim_all(text_lines(utf8_lossy(stdout@))), 0),
{
    let text = from_utf8_lossy(stdout);
    let lines = lines_of(text.as_str());
    assert(texts(lines@) =~= text_lines(utf8_lossy(stdout@)));
    pokeys_usb_devices(&lines)
}

} // verus!
