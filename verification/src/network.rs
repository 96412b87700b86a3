//! Network device configuration, IPv4 address arithmetic and the parsing of
//! discovery replies.

use vstd::prelude::*;
use vstd::string::*;
use crate::error::{PoKeysError, Result};
use crate::text::{
    all_digits, dec, digits_value, parse_u32, parse_u32_spec, push_dec, string_of, substring,
};
use crate::types::{NetworkDeviceInfo, NetworkDeviceSummary};

verus! {

/// Network device configuration.
#[derive(Debug, Clone, Copy)]
pub struct NetworkDeviceConfig {
    pub device_info: NetworkDeviceInfo,
}

impl Default for NetworkDeviceConfig {
    fn default() -> (r: Self)
        ensures
            r.device_info.subnet_mask@ == seq![255u8, 255, 255, 0],
            r.device_info.tcp_timeout == 1000,
            r.device_info.additional_network_options == 0xA0,
            r.device_info.dhcp == 0,
    {
        NetworkDeviceConfig::new()
    }
}

/// Whether a bit of weight `w` is set in `b`.
pub open spec fn option_bit(b: u8, w: u8) -> bool {
    (b / w) % 2 == 1
}

impl NetworkDeviceConfig {
    /// A fixed-address configuration: no addresses, mask 255.255.255.0, TCP
    /// timeout 1000 ms, options 0xA0, DHCP off.
    pub fn new() -> (r: Self)
        ensures
            r.device_info.ip_address_current@ == seq![0u8, 0, 0, 0],
            r.device_info.ip_address_setup@ == seq![0u8, 0, 0, 0],
            r.device_info.subnet_mask@ == seq![255u8, 255, 255, 0],
            r.device_info.gateway_ip@ == seq![0u8, 0, 0, 0],
            r.device_info.tcp_timeout == 1000,
            r.device_info.additional_network_options == 0xA0,
            r.device_info.dhcp == 0,
    {
        let r = NetworkDeviceConfig {
            device_info: NetworkDeviceInfo {
                ip_address_current: [0u8, 0, 0, 0],
                ip_address_setup: [0u8, 0, 0, 0],
                subnet_mask: [255u8, 255, 255, 0],
                gateway_ip: [0u8, 0, 0, 0],
                tcp_timeout: 1000,
                additional_network_options: 0xA0,
                dhcp: 0,
            },
        };
        assert(r.device_info.ip_address_current@ =~= seq![0u8, 0, 0, 0]);
        assert(r.device_info.ip_address_setup@ =~= seq![0u8, 0, 0, 0]);
        assert(r.device_info.subnet_mask@ =~= seq![255u8, 255, 255, 0]);
        assert(r.device_info.gateway_ip@ =~= seq![0u8, 0, 0, 0]);
        r
    }

    /// Set the fixed IP address.
    pub fn set_ip_address(&mut self, ip: [u8; 4])
        ensures
            final(self).device_info == (NetworkDeviceInfo { ip_address_setup: ip, ..old(self).device_info }),
    {
        self.device_info.ip_address_setup = ip;
    }

    /// Set the subnet mask.
    pub fn set_subnet_mask(&mut self, mask: [u8; 4])
        ensures
            final(self).device_info == (NetworkDeviceInfo { subnet_mask: mask, ..old(self).device_info }),
    {
        self.device_info.subnet_mask = mask;
    }

    /// Set the default gateway.
    pub fn set_default_gateway(&mut self, gateway: [u8; 4])
        ensures
            final(self).device_info == (NetworkDeviceInfo { gateway_ip: gateway, ..old(self).device_info }),
    {
        self.device_info.gateway_ip = gateway;
    }

    /// Enable (1) or disable (0) DHCP.
    pub fn set_dhcp(&mut self, enable: bool)
        ensures
            final(self).device_info == (NetworkDeviceInfo { dhcp: if enable { 1u8 } else { 0u8 }, ..old(self).device_info }),
    {
        self.device_info.dhcp = if enable { 1 } else { 0 };
    }

    /// Set the TCP timeout in milliseconds.
    pub fn set_tcp_timeout(&mut self, timeout_ms: u16)
        ensures
            final(self).device_info == (NetworkDeviceInfo { tcp_timeout: timeout_ms, ..old(self).device_info }),
    {
        self.device_info.tcp_timeout = timeout_ms;
    }

    /// Set the options byte: 0xA0 with bit 0 for disabled discovery, bit 1
    /// for disabled auto-configuration and bit 2 for disabled UDP
    /// configuration.
    pub fn set_network_options(&mut self, disable_discovery: bool, disable_auto_config: bool, disable_udp_config: bool)
        ensures
            final(self).device_info == (NetworkDeviceInfo {
                additional_network_options: (0xA0 + (if disable_discovery { 1int } else { 0 })
                    + (if disable_auto_config { 2int } else { 0 }) + (if disable_udp_config { 4int } else { 0 })) as u8,
                ..old(self).device_info
            }),
    {
        let a: u8 = if disable_discovery { 1 } else { 0 };
        let b: u8 = if disable_auto_config { 2 } else { 0 };
        let c: u8 = if disable_udp_config { 4 } else { 0 };
        self.device_info.additional_network_options = 0xA0 + a + b + c;
    }
}

/// `a.b.c.d` in decimal.
pub open spec fn ip_text(ip: Seq<u8>) -> Seq<char> {
    dec(ip[0] as nat) + seq!['.'] + dec(ip[1] as nat) + seq!['.'] + dec(ip[2] as nat) + seq!['.'] + dec(ip[3] as nat)
}

/// An IP address as dotted decimal text.
pub fn ip_to_string(ip: [u8; 4]) -> (r: String)
    ensures
        r@ == ip_text(ip@),
{
    let mut s = String::new();
    push_dec(&mut s, ip[0] as u64);
    s.append(".");
    push_dec(&mut s, ip[1] as u64);
    s.append(".");
    push_dec(&mut s, ip[2] as u64);
    s.append(".");
    push_dec(&mut s, ip[3] as u64);
    proof {
        reveal_strlit(".");
    }
    assert(s@ =~= ip_text(ip@));
    s
}

/// The parts of a text between dots.
pub open spec fn split_dots(s: Seq<char>) -> Seq<Seq<char>>
    decreases s.len(),
{
    if s.len() == 0 {
        seq![Seq::empty()]
    } else {
        let parts = split_dots(s.drop_last());
        if s.last() == '.' {
            parts.push(Seq::empty())
        } else {
            parts.update(parts.len() - 1, parts.last().push(s.last()))
        }
    }
}

proof fn lemma_split_dots_nonempty(s: Seq<char>)
    ensures
        split_dots(s).len() >= 1,
    decreases s.len(),
{
    if s.len() > 0 {
        lemma_split_dots_nonempty(s.drop_last());
    }
}

/// The `u8` a text denotes: a `u32` that is at most 255.
pub open spec fn parse_u8_spec(s: Seq<char>) -> Option<u8> {
    match parse_u32_spec(s) {
        Some(v) => if v <= 255 { Some(v as u8) } else { None },
        None => None,
    }
}

/// The bytes of a dotted address, when it has four parts that each parse.
pub open spec fn ip_of_text(s: Seq<char>) -> Option<Seq<u8>> {
    let parts = split_dots(s);
    if parts.len() == 4 && parse_u8_spec(parts[0]) is Some && parse_u8_spec(parts[1]) is Some
        && parse_u8_spec(parts[2]) is Some && parse_u8_spec(parts[3]) is Some {
        Some(seq![parse_u8_spec(parts[0])->0, parse_u8_spec(parts[1])->0, parse_u8_spec(parts[2])->0,
            parse_u8_spec(parts[3])->0])
    } else {
        None
    }
}

/// What `string_to_ip` answers for a text.
pub open spec fn string_to_ip_outcome(s: Seq<char>, r: Result<[u8; 4]>) -> bool {
    if split_dots(s).len() != 4 {
        r matches Err(PoKeysError::Parameter(m)) && m@ == "Invalid IP address format"@
    } else {
        match ip_of_text(s) {
            Some(ip) => r matches Ok(a) && a@ == ip,
            None => r matches Err(PoKeysError::Parameter(m)) && m@ == "Invalid IP address octet"@,
        }
    }
}

fn split_on_dots(s: &str) -> (r: Vec<String>)
    ensures
        r@.map_values(|p: String| p@) == split_dots(s@),
{
    let n = s.unicode_len();
    let mut parts: Vec<String> = Vec::new();
    let mut start: usize = 0;
    let mut i: usize = 0;
    assert(s@.take(0) =~= Seq::<char>::empty());
    assert(parts@.map_values(|p: String| p@).push(s@.subrange(0, 0)) =~= seq![Seq::<char>::empty()]);
    while i < n
        invariant
            n == s@.len(),
            start <= i <= n,
            parts@.map_values(|p: String| p@).push(s@.subrange(start as int, i as int)) == split_dots(s@.take(i as int)),
        decreases n - i,
    {
        let c = s.get_char(i);
        let ghost prev = parts@.map_values(|p: String| p@);
        proof {
            assert(s@.take(i + 1).drop_last() =~= s@.take(i as int));
            assert(s@.take(i + 1).last() == c);
        }
        if c == '.' {
            let part = substring(s, start, i);
            let ghost old_parts = parts@;
            parts.push(part);
            assert(parts@ =~= old_parts.push(part));
            assert(parts@.map_values(|p: String| p@) =~= prev.push(s@.subrange(start as int, i as int)));
            start = i + 1;
            assert(s@.subrange(start as int, i + 1) =~= Seq::<char>::empty());
        } else {
            assert(s@.subrange(start as int, i + 1) =~= s@.subrange(start as int, i as int).push(c));
        }
        i = i + 1;
    }
    let part = substring(s, start, n);
    let ghost old_parts = parts@;
    parts.push(part);
    assert(parts@ =~= old_parts.push(part));
    assert(s@.take(n as int) =~= s@);
    assert(parts@.map_values(|p: String| p@) =~= split_dots(s@));
    parts
}

fn parse_u8(s: &str) -> (r: Option<u8>)
    ensures
        r == parse_u8_spec(s@),
{
    match parse_u32(s) {
        Some(v) => if v <= 255 { Some(v as u8) } else { None },
        None => None,
    }
}

/// Parse a dotted IPv4 address: four parts, each a number up to 255.
pub fn string_to_ip(ip_str: &str) -> (r: Result<[u8; 4]>)
    ensures
        string_to_ip_outcome(ip_str@, r),
{
    proof {
        reveal_strlit("Invalid IP address format");
        reveal_strlit("Invalid IP address octet");
    }
    let parts = split_on_dots(ip_str);
    if parts.len() != 4 {
        return Err(PoKeysError::Parameter(string_of("Invalid IP address format")));
    }
    let ghost ps = parts@.map_values(|p: String| p@);
    assert(ps[0] == parts@[0]@ && ps[1] == parts@[1]@ && ps[2] == parts@[2]@ && ps[3] == parts@[3]@);
    let a = parse_u8(parts[0].as_str());
    let b = parse_u8(parts[1].as_str());
    let c = parse_u8(parts[2].as_str());
    let d = parse_u8(parts[3].as_str());
    match (a, b, c, d) {
        (Some(a), Some(b), Some(c), Some(d)) => {
            let ip = [a, b, c, d];
            assert(ip@ =~= seq![a, b, c, d]);
            Ok(ip)
        },
        _ => Err(PoKeysError::Parameter(string_of("Invalid IP address octet"))),
    }
}

/// Whether two addresses agree on every bit of the mask.
pub open spec fn in_same_subnet(ip1: Seq<u8>, ip2: Seq<u8>, mask: Seq<u8>) -> bool {
    forall|i: int| 0 <= i < 4 ==> #[trigger] (ip1[i] & mask[i]) == ip2[i] & mask[i]
}

/// Whether two addresses are in the same subnet.
pub fn same_subnet(ip1: [u8; 4], ip2: [u8; 4], subnet_mask: [u8; 4]) -> (r: bool)
    ensures
        r == in_same_subnet(ip1@, ip2@, subnet_mask@),
{
    let mut i: usize = 0;
    while i < 4
        invariant
            i <= 4,
            forall|k: int| 0 <= k < i ==> #[trigger] (ip1@[k] & subnet_mask@[k]) == ip2@[k] & subnet_mask@[k],
        decreases 4 - i,
    {
        if (ip1[i] & subnet_mask[i]) != (ip2[i] & subnet_mask[i]) {
            return false;
        }
        i = i + 1;
    }
    true
}

/// The network address of an address under a mask.
pub open spec fn network_of(ip: Seq<u8>, mask: Seq<u8>) -> Seq<u8> {
    seq![ip[0] & mask[0], ip[1] & mask[1], ip[2] & mask[2], ip[3] & mask[3]]
}

/// The broadcast address of an address under a mask.
pub open spec fn broadcast_of(ip: Seq<u8>, mask: Seq<u8>) -> Seq<u8> {
    seq![ip[0] | !mask[0], ip[1] | !mask[1], ip[2] | !mask[2], ip[3] | !mask[3]]
}

/// The network address: the address with the bits outside the mask cleared.
pub fn network_address(ip: [u8; 4], subnet_mask: [u8; 4]) -> (r: [u8; 4])
    ensures
        r@ == network_of(ip@, subnet_mask@),
{
    let r = [ip[0] & subnet_mask[0], ip[1] & subnet_mask[1], ip[2] & subnet_mask[2], ip[3] & subnet_mask[3]];
    assert(r@ =~= network_of(ip@, subnet_mask@));
    r
}

/// The broadcast address: the address with the bits outside the mask set.
pub fn broadcast_address(ip: [u8; 4], subnet_mask: [u8; 4]) -> (r: [u8; 4])
    ensures
        r@ == broadcast_of(ip@, subnet_mask@),
{
    let r = [ip[0] | !subnet_mask[0], ip[1] | !subnet_mask[1], ip[2] | !subnet_mask[2], ip[3] | !subnet_mask[3]];
    assert(r@ =~= broadcast_of(ip@, subnet_mask@));
    r
}

/// Two addresses are in the same subnet exactly when their network addresses
/// are equal.
pub proof fn lemma_same_subnet_network(ip1: [u8; 4], ip2: [u8; 4], mask: [u8; 4])
    ensures
        in_same_subnet(ip1@, ip2@, mask@) <==> network_of(ip1@, mask@) == network_of(ip2@, mask@),
{
    if network_of(ip1@, mask@) == network_of(ip2@, mask@) {
        assert forall|i: int| 0 <= i < 4 implies #[trigger] (ip1@[i] & mask@[i]) == ip2@[i] & mask@[i] by {
            assert(network_of(ip1@, mask@)[i] == network_of(ip2@, mask@)[i]);
        }
    }
    if in_same_subnet(ip1@, ip2@, mask@) {
        assert((ip1@[0] & mask@[0]) == ip2@[0] & mask@[0]);
        assert((ip1@[1] & mask@[1]) == ip2@[1] & mask@[1]);
        assert((ip1@[2] & mask@[2]) == ip2@[2] & mask@[2]);
        assert((ip1@[3] & mask@[3]) == ip2@[3] & mask@[3]);
        assert(network_of(ip1@, mask@) =~= network_of(ip2@, mask@));
    }
}

proof fn lemma_digit_char_code(k: nat)
    requires
        k < 10,
    ensures
        crate::text::digit_char(k) as u32 == 48 + k,
        '0' <= crate::text::digit_char(k) <= '9',
{
}

/// The decimal rendering of a number holds no dot, is all digits, has no
/// leading `+`, and denotes the number.
pub proof fn lemma_dec_digits(n: nat)
    ensures
        all_digits(dec(n)),
        digits_value(dec(n)) == n,
        dec(n).len() >= 1,
        !dec(n).contains('.'),
        dec(n)[0] != '+',
    decreases n,
{
    assert('0' as u32 == 48);
    if n < 10 {
        lemma_digit_char_code(n);
        assert(dec(n).drop_last() =~= Seq::<char>::empty());
        assert(dec(n).last() == crate::text::digit_char(n));
        assert(digits_value(dec(n)) == digits_value(dec(n).drop_last()) * 10
            + (dec(n).last() as u32 - '0' as u32) as nat);
        assert(!dec(n).contains('.')) by {
            if dec(n).contains('.') {
                let k = choose|k: int| 0 <= k < dec(n).len() && dec(n)[k] == '.';
                assert(k == 0);
            }
        }
    } else {
        lemma_digit_char_code(n % 10);
        lemma_dec_digits(n / 10);
        let d = dec(n / 10);
        assert(dec(n) == d.push(crate::text::digit_char(n % 10)));
        assert(dec(n).drop_last() =~= d);
        assert(dec(n).last() == crate::text::digit_char(n % 10));
        assert(digits_value(dec(n)) == digits_value(d) * 10 + (dec(n).last() as u32 - '0' as u32) as nat);
        assert(dec(n)[0] == d[0]);
        assert forall|i: int| 0 <= i < dec(n).len() implies '0' <= #[trigger] dec(n)[i] <= '9' by {
            if i < d.len() {
                assert(dec(n)[i] == d[i]);
            }
        }
        assert(!dec(n).contains('.')) by {
            if dec(n).contains('.') {
                let k = choose|k: int| 0 <= k < dec(n).len() && dec(n)[k] == '.';
                if k < d.len() {
                    assert(d[k] == '.');
                }
            }
        }
    }
}

proof fn lemma_split_append_part(s: Seq<char>, t: Seq<char>)
    requires
        !t.contains('.'),
    ensures
        split_dots(s + t) == split_dots(s).update(split_dots(s).len() - 1, split_dots(s).last() + t),
    decreases t.len(),
{
    lemma_split_dots_nonempty(s);
    if t.len() == 0 {
        assert(s + t =~= s);
        assert(split_dots(s).last() + t =~= split_dots(s).last());
        assert(split_dots(s).update(split_dots(s).len() - 1, split_dots(s).last()) =~= split_dots(s));
    } else {
        assert(!t.drop_last().contains('.')) by {
            if t.drop_last().contains('.') {
                let k = choose|k: int| 0 <= k < t.drop_last().len() && t.drop_last()[k] == '.';
                assert(t[k] == '.');
            }
        }
        assert(t.last() != '.') by {
            assert(t[t.len() - 1] == t.last());
        }
        lemma_split_append_part(s, t.drop_last());
        assert((s + t).drop_last() =~= s + t.drop_last());
        assert((s + t).last() == t.last());
        lemma_split_dots_nonempty(s + t.drop_last());
        let q = split_dots(s);
        let p = split_dots(s + t.drop_last());
        assert(p.len() == q.len());
        assert(p.last() == q.last() + t.drop_last());
        assert((q.last() + t.drop_last()).push(t.last()) =~= q.last() + t);
        assert(split_dots(s + t) =~= split_dots(s).update(split_dots(s).len() - 1, split_dots(s).last() + t));
    }
}

proof fn lemma_split_dot(s: Seq<char>)
    ensures
        split_dots(s + seq!['.']) == split_dots(s).push(Seq::empty()),
{
    assert((s + seq!['.']).drop_last() =~= s);
}

/// Reading back the text of an address gives the address: `string_to_ip`
/// of what `ip_to_string` printed returns the address.
pub proof fn lemma_ip_round_trip(ip: [u8; 4])
    ensures
        ip_of_text(ip_text(ip@)) == Some(ip@),
        forall|r: Result<[u8; 4]>| #[trigger] string_to_ip_outcome(ip_text(ip@), r) ==> (r matches Ok(a) && a@ == ip@),
{
    let a = dec(ip@[0] as nat);
    let b = dec(ip@[1] as nat);
    let c = dec(ip@[2] as nat);
    let d = dec(ip@[3] as nat);
    lemma_dec_digits(ip@[0] as nat);
    lemma_dec_digits(ip@[1] as nat);
    lemma_dec_digits(ip@[2] as nat);
    lemma_dec_digits(ip@[3] as nat);
    let e: Seq<char> = Seq::empty();
    lemma_split_append_part(e, a);
    assert(split_dots(e) =~= seq![e]);
    assert(e + a =~= a);
    assert(split_dots(a) =~= seq![a]);
    lemma_split_dot(a);
    let s1 = a + seq!['.'];
    lemma_split_append_part(s1, b);
    let s2 = s1 + b;
    assert(split_dots(s2) =~= seq![a, b]);
    lemma_split_dot(s2);
    let s3 = s2 + seq!['.'];
    lemma_split_append_part(s3, c);
    let s4 = s3 + c;
    assert(split_dots(s4) =~= seq![a, b, c]);
    lemma_split_dot(s4);
    let s5 = s4 + seq!['.'];
    lemma_split_append_part(s5, d);
    let s6 = s5 + d;
    assert(split_dots(s6) =~= seq![a, b, c, d]);
    assert(s6 =~= ip_text(ip@));
    assert(parse_u8_spec(a) == Some(ip@[0]));
    assert(parse_u8_spec(b) == Some(ip@[1]));
    assert(parse_u8_spec(c) == Some(ip@[2]));
    assert(parse_u8_spec(d) == Some(ip@[3]));
    assert(seq![ip@[0], ip@[1], ip@[2], ip@[3]] =~= ip@);
}

/// The device record that a discovery reply describes: a 14-byte reply of an
/// older device or a 19-byte reply of a series-58 device, sent from an IPv4
/// address. Bytes 3 and 4 carry the firmware version (major, minor); byte 4
/// also stands for the revision.
pub open spec fn discovery_summary(data: Seq<u8>) -> NetworkDeviceSummary {
    if data.len() == 14 {
        NetworkDeviceSummary {
            serial_number: ((data[1] as u32) * 256 + data[2] as u32) as u32,
            ip_address: [data[5], data[6], data[7], data[8]],
            host_ip: [data[10], data[11], data[12], data[13]],
            firmware_version_major: data[3],
            firmware_version_minor: data[4],
            firmware_revision: data[4],
            user_id: data[0],
            dhcp: data[9],
            hw_type: 0,
            use_udp: 1,
        }
    } else {
        NetworkDeviceSummary {
            serial_number: ((data[17] as u32) * 0x1000000 + (data[16] as u32) * 0x10000 + (data[15] as u32) * 0x100
                + data[14] as u32) as u32,
            ip_address: [data[5], data[6], data[7], data[8]],
            host_ip: [data[10], data[11], data[12], data[13]],
            firmware_version_major: data[3],
            firmware_version_minor: data[4],
            firmware_revision: data[4],
            user_id: data[0],
            dhcp: data[9],
            hw_type: data[18],
            use_udp: 1,
        }
    }
}

/// What a discovery reply says of a device: the user ID in byte 0, the
/// device's address in bytes 5 to 8 (byte 5 first), the DHCP flag in byte 9
/// and the host's address in bytes 10 to 13; the serial number of an older
/// device (14 bytes) big-endian in bytes 1 and 2, of a series-58 device
/// (19 bytes) little-endian in bytes 14 to 17 with the hardware type in byte
/// 18.
pub proof fn lemma_discovery_fields(data: Seq<u8>)
    requires
        data.len() == 14 || data.len() == 19,
    ensures
        discovery_summary(data).user_id == data[0],
        discovery_summary(data).ip_address@ == seq![data[5], data[6], data[7], data[8]],
        discovery_summary(data).dhcp == data[9],
        discovery_summary(data).host_ip@ == seq![data[10], data[11], data[12], data[13]],
        data.len() == 14 ==> discovery_summary(data).serial_number == 256 * (data[1] as int) + data[2] as int
            && discovery_summary(data).hw_type == 0,
        data.len() == 19 ==> discovery_summary(data).serial_number == data[14] as int + 256 * (data[15] as int) + 65536
            * (data[16] as int) + 16777216 * (data[17] as int) && discovery_summary(data).hw_type == data[18],
{
    assert(discovery_summary(data).ip_address@ =~= seq![data[5], data[6], data[7], data[8]]);
    assert(discovery_summary(data).host_ip@ =~= seq![data[10], data[11], data[12], data[13]]);
}

/// Parse a discovery reply; `sender_ipv4` is the sender's IPv4 address, or
/// `None` when the reply came from another kind of address.
pub fn parse_discovery_response(data: &[u8], sender_ipv4: Option<[u8; 4]>) -> (r: Option<NetworkDeviceSummary>)
    ensures
        r is Some <==> (data@.len() == 14 || data@.len() == 19) && sender_ipv4 is Some,
        r matches Some(d) ==> {
            let e = discovery_summary(data@);
            &&& d.serial_number == e.serial_number
            &&& d.ip_address@ == e.ip_address@
            &&& d.host_ip@ == e.host_ip@
            &&& d.firmware_version_major == e.firmware_version_major
            &&& d.firmware_version_minor == e.firmware_version_minor
            &&& d.firmware_revision == e.firmware_revision
            &&& d.user_id == e.user_id
            &&& d.dhcp == e.dhcp
            &&& d.hw_type == e.hw_type
            &&& d.use_udp == e.use_udp
        },
{
    if data.len() != 14 && data.len() != 19 {
        return None;
    }
    if sender_ipv4.is_none() {
        return None;
    }
    let device_ip = [data[5], data[6], data[7], data[8]];
    let host_ip = [data[10], data[11], data[12], data[13]];
    if data.len() == 14 {
        let hi = data[1] as u32;
        let lo = data[2] as u32;
        assert((hi << 8u32) | lo == hi * 256 + lo) by (bit_vector)
            requires
                hi < 256,
                lo < 256,
        ;
        Some(NetworkDeviceSummary {
            serial_number: (hi << 8u32) | lo,
            ip_address: device_ip,
            host_ip,
            firmware_version_major: data[3],
            firmware_version_minor: data[4],
            firmware_revision: data[4],
            user_id: data[0],
            dhcp: data[9],
            hw_type: 0,
            use_udp: 1,
        })
    } else {
        let b0 = data[14] as u32;
        let b1 = data[15] as u32;
        let b2 = data[16] as u32;
        let b3 = data[17] as u32;
        assert((b3 << 24u32) | (b2 << 16u32) | (b1 << 8u32) | b0 == b3 * 0x1000000 + b2 * 0x10000 + b1 * 0x100 + b0)
            by (bit_vector)
            requires
                b0 < 256,
                b1 < 256,
                b2 < 256,
                b3 < 256,
        ;
        Some(NetworkDeviceSummary {
            serial_number: (b3 << 24u32) | (b2 << 16u32) | (b1 << 8u32) | b0,
            ip_address: device_ip,
            host_ip,
            firmware_version_major: data[3],
            firmware_version_minor: data[4],
            firmware_revision: data[4],
            user_id: data[0],
            dhcp: data[9],
            hw_type: data[18],
            use_udp: 1,
        })
    }
}

/// The PoKeys discovery packet: empty, as any UDP packet on port 20055
/// makes a device answer.
pub fn create_discovery_packet() -> (r: Vec<u8>)
    ensures
        r@ == Seq::<u8>::empty(),
{
    Vec::new()
}

/// The first device of a discovery list with the given serial number.
pub fn find_serial(devices: Vec<NetworkDeviceSummary>, serial_number: u32) -> (r: Option<NetworkDeviceSummary>)
    ensures
        r matches Some(d) ==> d.serial_number == serial_number && devices@.contains(d),
        r is None ==> forall|i: int| 0 <= i < devices@.len() ==> devices@[i].serial_number != serial_number,
{
    let n = devices.len();
    let mut i: usize = 0;
    while i < n
        invariant
            n == devices@.len(),
            i <= n,
            forall|k: int| 0 <= k < i ==> devices@[k].serial_number != serial_number,
        decreases n - i,
    {
        if devices[i].serial_number == serial_number {
            return Some(devices[i]);
        }
        i = i + 1;
    }
    None
}

/// No two devices of a list share a serial number.
pub open spec fn serials_distinct(devices: Seq<NetworkDeviceSummary>) -> bool {
    forall|i: int, j: int| 0 <= i < j < devices.len() ==> devices[i].serial_number != devices[j].serial_number
}

/// Whether a list has a device with the given serial number.
pub open spec fn has_serial(devices: Seq<NetworkDeviceSummary>, serial_number: u32) -> bool {
    exists|i: int| 0 <= i < devices.len() && devices[i].serial_number == serial_number
}

/// Collect a discovery answer: the device is appended unless one with its
/// serial number was already found, so that each device is listed once.
pub fn add_discovered(devices: &mut Vec<NetworkDeviceSummary>, device: NetworkDeviceSummary) -> (added: bool)
    ensures
        added == !has_serial(old(devices)@, device.serial_number),
        added ==> final(devices)@ == old(devices)@.push(device),
        !added ==> final(devices)@ == old(devices)@,
        serials_distinct(old(devices)@) ==> serials_distinct(final(devices)@),
{
    let n = devices.len();
    let mut i: usize = 0;
    while i < n
        invariant
            n == devices@.len(),
            devices@ == old(devices)@,
            i <= n,
            forall|k: int| 0 <= k < i ==> devices@[k].serial_number != device.serial_number,
        decreases n - i,
    {
        if devices[i].serial_number == device.serial_number {
            return false;
        }
        i = i + 1;
    }
    devices.push(device);
    true
}

} // verus!
