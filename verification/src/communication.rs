//! Request and response packets of the PoKeys protocol, and the retry loops
//! that exchange them over a USB HID or network interface.

use vstd::prelude::*;
use vstd::string::*;
use std::time::Duration;
use crate::error::{PoKeysError, Result};
use crate::text::string_of;
use crate::types::{
    DeviceConnectionType, duration_from_millis, millis, CHECKSUM_LENGTH, REQUEST_BUFFER_SIZE,
    REQUEST_HEADER, RESPONSE_BUFFER_SIZE, RESPONSE_HEADER,
};

verus! {

/// The sum of a sequence of bytes.
pub open spec fn byte_sum(s: Seq<u8>) -> nat
    decreases s.len(),
{
    if s.len() == 0 {
        0
    } else {
        byte_sum(s.drop_last()) + s.last() as nat
    }
}

/// The protocol checksum: the sum, modulo 256, of the first seven bytes (of
/// all bytes when there are fewer).
pub open spec fn checksum_of(s: Seq<u8>) -> u8 {
    let n: int = if s.len() < 7 { s.len() as int } else { 7 };
    (byte_sum(s.take(n)) % 256) as u8
}

/// The request ID that follows `id`, wrapping from 255 to 0.
pub open spec fn next_id(id: u8) -> u8 {
    if id == 255 { 0 } else { (id + 1) as u8 }
}

/// The first seven bytes of a request: header, type, four parameters and ID.
pub open spec fn request_head(t: u8, p1: u8, p2: u8, p3: u8, p4: u8, id: u8) -> Seq<u8> {
    seq![0xBBu8, t, p1, p2, p3, p4, id]
}

/// A full request packet carrying `payload` from byte 8 on: head, checksum,
/// payload, zeros up to the packet size.
pub open spec fn request_packet(t: u8, p1: u8, p2: u8, p3: u8, p4: u8, id: u8, payload: Seq<u8>) -> Seq<u8> {
    let head = request_head(t, p1, p2, p3, p4, id);
    head + seq![checksum_of(head)] + payload + Seq::new((60 - payload.len()) as nat, |i: int| 0u8)
}

/// The part of a payload that fits in a request: at most 56 bytes.
pub open spec fn payload_part(data: Seq<u8>) -> Seq<u8> {
    if data.len() <= 56 { data } else { data.take(56) }
}

/// A response that the protocol accepts for request `id`: at least eight
/// bytes, the response header, the request's ID and a matching checksum.
pub open spec fn response_valid(r: Seq<u8>, id: u8) -> bool {
    &&& r.len() >= 8
    &&& r[0] == 0xAAu8
    &&& r[6] == id
    &&& r[7] == checksum_of(r)
}

/// What `validate_response` returns for a response and an expected ID.
pub open spec fn validation_outcome(r: Seq<u8>, id: u8, res: Result<()>) -> bool {
    if r.len() < 8 {
        res matches Err(PoKeysError::Protocol(m)) && m@ == "Response too short"@
    } else if r[0] != 0xAAu8 {
        res matches Err(PoKeysError::Protocol(m)) && m@ == "Invalid response header"@
    } else if r[6] != id {
        res matches Err(PoKeysError::Protocol(m)) && m@ == "Request ID mismatch"@
    } else if r[7] != checksum_of(r) {
        res matches Err(PoKeysError::InvalidChecksum)
    } else {
        res is Ok
    }
}

/// The request ID after `k` steps of [`next_id`] from a fresh protocol
/// state, whose last request ID is 0: what the `k`-th call of
/// `get_next_request_id` (or the `k`-th prepared request) gets.
pub open spec fn id_from_fresh(k: nat) -> u8
    decreases k,
{
    if k == 0 {
        0
    } else {
        next_id(id_from_fresh((k - 1) as nat))
    }
}

/// From a fresh protocol state the `k`-th request ID is `k` modulo 256: the
/// first is 1, the 255th 255, the 256th 0 and the 257th 1 again.
pub proof fn lemma_id_from_fresh(k: nat)
    ensures
        id_from_fresh(k) == (k % 256) as u8,
    decreases k,
{
    if k > 0 {
        lemma_id_from_fresh((k - 1) as nat);
        assert(((k - 1) as nat % 256 == 255 ==> k % 256 == 0) && ((k - 1) as nat % 256 != 255 ==> k % 256
            == (k - 1) as nat % 256 + 1)) by (nonlinear_arith)
            requires
                k > 0,
        ;
    }
}

/// The layout of a request packet: header `0xBB`, the type, the four
/// parameters and the request ID in bytes 0 to 6; in byte 7 the sum of those
/// seven bytes modulo 256; the payload from byte 8 on; zeros after it, up to
/// 68 bytes.
pub proof fn lemma_request_packet_layout(t: u8, p1: u8, p2: u8, p3: u8, p4: u8, id: u8, payload: Seq<u8>)
    requires
        payload.len() <= 60,
    ensures
        request_packet(t, p1, p2, p3, p4, id, payload).len() == 68,
        request_packet(t, p1, p2, p3, p4, id, payload)[0] == 0xBB,
        request_packet(t, p1, p2, p3, p4, id, payload)[1] == t,
        request_packet(t, p1, p2, p3, p4, id, payload)[2] == p1,
        request_packet(t, p1, p2, p3, p4, id, payload)[3] == p2,
        request_packet(t, p1, p2, p3, p4, id, payload)[4] == p3,
        request_packet(t, p1, p2, p3, p4, id, payload)[5] == p4,
        request_packet(t, p1, p2, p3, p4, id, payload)[6] == id,
        request_packet(t, p1, p2, p3, p4, id, payload)[7] == ((0xBB + t + p1 + p2 + p3 + p4 + id) % 256) as u8,
        forall|k: int| 0 <= k < payload.len() ==> #[trigger] request_packet(t, p1, p2, p3, p4, id, payload)[8 + k]
            == payload[k],
        forall|k: int| 8 + payload.len() <= k < 68 ==> #[trigger] request_packet(t, p1, p2, p3, p4, id, payload)[k]
            == 0,
{
    let head = request_head(t, p1, p2, p3, p4, id);
    assert(head.take(7) =~= head);
    reveal_with_fuel(byte_sum, 8);
    assert(head.drop_last() =~= seq![0xBBu8, t, p1, p2, p3, p4]);
    assert(head.drop_last().drop_last() =~= seq![0xBBu8, t, p1, p2, p3]);
    assert(head.drop_last().drop_last().drop_last() =~= seq![0xBBu8, t, p1, p2]);
    assert(seq![0xBBu8, t, p1, p2].drop_last() =~= seq![0xBBu8, t, p1]);
    assert(seq![0xBBu8, t, p1].drop_last() =~= seq![0xBBu8, t]);
    assert(seq![0xBBu8, t].drop_last() =~= seq![0xBBu8]);
    assert(seq![0xBBu8].drop_last() =~= Seq::<u8>::empty());
}

/// A USB HID packet: a zero report ID and the first 64 bytes of the request.
pub open spec fn hid_packet(request: Seq<u8>) -> Seq<u8> {
    seq![0u8] + request.take(64)
}

/// A response is valid for request `id` when it has at least eight bytes,
/// starts with `0xAA`, carries `id` in byte 6 and in byte 7 the sum of bytes
/// 0 to 6 modulo 256; and the USB HID packet of a request is report ID 0
/// followed by its first 64 bytes.
pub proof fn lemma_response_and_hid_bytes(r: Seq<u8>, id: u8, request: Seq<u8>)
    requires
        request.len() >= 64,
    ensures
        response_valid(r, id) <==> (r.len() >= 8 && r[0] == 0xAA && r[6] == id && r[7] == ((r[0] + r[1] + r[2] + r[3]
            + r[4] + r[5] + r[6]) % 256) as u8),
        hid_packet(request).len() == 65,
        hid_packet(request)[0] == 0,
        forall|k: int| 0 <= k < 64 ==> #[trigger] hid_packet(request)[k + 1] == request[k],
{
    if r.len() >= 8 {
        reveal_with_fuel(byte_sum, 8);
        let t = r.take(7);
        assert(t.drop_last() =~= r.take(6));
        assert(r.take(6).drop_last() =~= r.take(5));
        assert(r.take(5).drop_last() =~= r.take(4));
        assert(r.take(4).drop_last() =~= r.take(3));
        assert(r.take(3).drop_last() =~= r.take(2));
        assert(r.take(2).drop_last() =~= r.take(1));
        assert(r.take(1).drop_last() =~= r.take(0));
    }
}

/// Communication protocol state: the last request ID and the retry settings.
pub struct Protocol {
    request_id: u8,
    send_retries: u32,
    socket_timeout: Duration,
}

impl Protocol {
    /// The ID of the last request prepared (0 before the first).
    pub closed spec fn last_request_id(&self) -> u8 {
        self.request_id
    }

    /// How many times a request is sent before giving up.
    pub closed spec fn retries(&self) -> u32 {
        self.send_retries
    }

    /// How long a network receive waits.
    pub closed spec fn timeout(&self) -> Duration {
        self.socket_timeout
    }

    /// A protocol state with request ID 0, three send retries and a one
    /// second socket timeout.
    pub fn new() -> (r: Self)
        ensures
            r.last_request_id() == 0,
            r.retries() == 3,
            r.timeout() == duration_from_millis(1000),
    {
        Protocol { request_id: 0, send_retries: 3, socket_timeout: millis(1000) }
    }

    /// Set the send-retry count and the socket receive timeout. The read-retry
    /// count is accepted and not used.
    pub fn set_retries_and_timeout(&mut self, send_retries: u32, read_retries: u32, timeout: Duration)
        ensures
            final(self).retries() == send_retries,
            final(self).timeout() == timeout,
            final(self).last_request_id() == old(self).last_request_id(),
    {
        self.send_retries = send_retries;
        self.socket_timeout = timeout;
    }

    /// The socket receive timeout.
    pub fn socket_timeout(&self) -> (r: Duration)
        ensures
            r == self.timeout(),
    {
        self.socket_timeout
    }

    /// The send-retry count.
    pub fn send_retries(&self) -> (r: u32)
        ensures
            r == self.retries(),
    {
        self.send_retries
    }

    /// The checksum of a packet: the wrapping sum of its first seven bytes.
    pub fn calculate_checksum(data: &[u8]) -> (r: u8)
        ensures
            r == checksum_of(data@),
    {
        let n: usize = if data.len() < CHECKSUM_LENGTH { data.len() } else { CHECKSUM_LENGTH };
        let mut acc: u8 = 0;
        let mut i: usize = 0;
        while i < n
            invariant
                n <= data@.len(),
                n == (if data@.len() < 7 { data@.len() as int } else { 7 }),
                i <= n,
                acc == byte_sum(data@.take(i as int)) % 256,
            decreases n - i,
        {
            proof {
                assert(data@.take(i + 1).drop_last() =~= data@.take(i as int));
                vstd::arithmetic::div_mod::lemma_add_mod_noop(
                    byte_sum(data@.take(i as int)) as int,
                    data@[i as int] as int,
                    256,
                );
            }
            acc = acc.wrapping_add(data[i]);
            i = i + 1;
        }
        acc
    }

    /// Prepare a request packet: header `0xBB`, the request type, four
    /// parameters, the next request ID, the checksum, and zeros. The packet is
    /// not printed here; `display` is left to the caller.
    pub fn prepare_request(
        &mut self,
        request_type: u8,
        param1: u8,
        param2: u8,
        param3: u8,
        param4: u8,
        display: Option<bool>,
    ) -> (r: [u8; REQUEST_BUFFER_SIZE])
        ensures
            final(self).last_request_id() == next_id(old(self).last_request_id()),
            final(self).retries() == old(self).retries(),
            final(self).timeout() == old(self).timeout(),
            r@ == request_packet(request_type, param1, param2, param3, param4,
                final(self).last_request_id(), Seq::empty()),
    {
        let id = self.next_request_id();
        let mut request = [0u8; REQUEST_BUFFER_SIZE];
        assert(forall|k: int| 0 <= k < 68 ==> request@[k] == 0u8);
        request[0] = REQUEST_HEADER;
        request[1] = request_type;
        request[2] = param1;
        request[3] = param2;
        request[4] = param3;
        request[5] = param4;
        request[6] = id;
        let ghost head = request_head(request_type, param1, param2, param3, param4, id);
        assert(request@.take(7) =~= head);
        let c = Self::calculate_checksum(&request);
        request[7] = c;
        proof {
            assert(request@.take(7) =~= head);
            assert(head.take(7) =~= head);
            assert(c == checksum_of(head));
            let pk = request_packet(request_type, param1, param2, param3, param4, id, Seq::empty());
            assert(pk.len() == 68);
            assert forall|k: int| 0 <= k < 68 implies request@[k] == pk[k] by {
                if k < 7 {
                    assert(request@[k] == request@.take(7)[k]);
                }
            }
            assert(request@ =~= request_packet(request_type, param1, param2, param3, param4, id, Seq::empty()));
        }
        request
    }

    /// Check a response packet against the ID of its request.
    pub fn validate_response(&self, response: &[u8], expected_request_id: u8) -> (r: Result<()>)
        ensures
            validation_outcome(response@, expected_request_id, r),
            r is Ok <==> response_valid(response@, expected_request_id),
    {
        proof {
            reveal_strlit("Response too short");
            reveal_strlit("Invalid response header");
            reveal_strlit("Request ID mismatch");
        }
        if response.len() < 8 {
            return Err(PoKeysError::Protocol(string_of("Response too short")));
        }
        if response[0] != RESPONSE_HEADER {
            return Err(PoKeysError::Protocol(string_of("Invalid response header")));
        }
        if response[6] != expected_request_id {
            return Err(PoKeysError::Protocol(string_of("Request ID mismatch")));
        }
        let expected_checksum = Self::calculate_checksum(response);
        if response[7] != expected_checksum {
            return Err(PoKeysError::InvalidChecksum);
        }
        Ok(())
    }

    fn next_request_id(&mut self) -> (r: u8)
        ensures
            r == next_id(old(self).last_request_id()),
            final(self).last_request_id() == r,
            final(self).retries() == old(self).retries(),
            final(self).timeout() == old(self).timeout(),
    {
        self.request_id = self.request_id.wrapping_add(1);
        self.request_id
    }
}

impl Default for Protocol {
    fn default() -> (r: Self)
        ensures
            r.last_request_id() == 0,
            r.retries() == 3,
            r.timeout() == duration_from_millis(1000),
    {
        Protocol::new()
    }
}

/// One call made on a transport and what it gave: a packet written (USB
/// `write`, network `send`) and whether that went through; or a read, with
/// the count it returned (`None` for an error) and the buffer's contents
/// after it. `Read` waits as long as the transport does (USB `read`,
/// network `receive`); `ReadWithin` at most `timeout` (USB `read_timeout`,
/// network `receive_timeout`).
pub enum LinkOp {
    Write { data: Seq<u8>, sent: bool },
    Read { got: Option<usize>, buffer: Seq<u8> },
    ReadWithin { timeout: Duration, got: Option<usize>, buffer: Seq<u8> },
}

/// The count of a transport read, or `None` for an error.
pub open spec fn count_of(r: Result<usize>) -> Option<usize> {
    match r {
        Ok(n) => Some(n),
        Err(_) => None,
    }
}

/// USB HID communication interface, implemented by the transport. `ops` is
/// the history of the calls made on it: each call adds its entry, with what
/// it returned and, for a read, the bytes it left in the buffer. The history
/// is ghost: it exists for the proofs and compiled code never computes it.
/// `ops` has a default only so that transports written outside verified
/// code compile; such a transport is trusted to behave as one that keeps the
/// history these contracts describe.
pub trait UsbHidInterface {
    closed spec fn ops(&self) -> Seq<LinkOp> {
        Seq::empty()
    }

    fn write(&mut self, data: &[u8]) -> (r: Result<usize>)
        ensures
            final(self).ops() == old(self).ops().push(LinkOp::Write { data: data@, sent: r is Ok }),
    ;

    fn read(&mut self, buffer: &mut [u8]) -> (r: Result<usize>)
        ensures
            final(self).ops() == old(self).ops().push(LinkOp::Read { got: count_of(r), buffer: final(buffer)@ }),
    ;

    fn read_timeout(&mut self, buffer: &mut [u8], timeout: Duration) -> (r: Result<usize>)
        ensures
            final(self).ops() == old(self).ops().push(LinkOp::ReadWithin { timeout, got: count_of(r), buffer:
                final(buffer)@ }),
    ;
}

impl<T: UsbHidInterface + ?Sized> UsbHidInterface for Box<T> {
    open spec fn ops(&self) -> Seq<LinkOp> {
        (**self).ops()
    }

    fn write(&mut self, data: &[u8]) -> (r: Result<usize>) {
        (**self).write(data)
    }

    fn read(&mut self, buffer: &mut [u8]) -> (r: Result<usize>) {
        (**self).read(buffer)
    }

    fn read_timeout(&mut self, buffer: &mut [u8], timeout: Duration) -> (r: Result<usize>) {
        (**self).read_timeout(buffer, timeout)
    }
}

/// Network communication interface, implemented by the transport. `ops` is
/// the history of the calls made on it, as for [`UsbHidInterface`]: ghost,
/// with a default only so that transports written outside verified code
/// compile, each such transport being trusted to behave as one that keeps
/// the history these contracts describe.
pub trait NetworkInterface {
    closed spec fn ops(&self) -> Seq<LinkOp> {
        Seq::empty()
    }

    fn send(&mut self, data: &[u8]) -> (r: Result<usize>)
        ensures
            final(self).ops() == old(self).ops().push(LinkOp::Write { data: data@, sent: r is Ok }),
    ;

    fn receive(&mut self, buffer: &mut [u8]) -> (r: Result<usize>)
        ensures
            final(self).ops() == old(self).ops().push(LinkOp::Read { got: count_of(r), buffer: final(buffer)@ }),
    ;

    fn receive_timeout(&mut self, buffer: &mut [u8], timeout: Duration) -> (r: Result<usize>)
        ensures
            final(self).ops() == old(self).ops().push(LinkOp::ReadWithin { timeout, got: count_of(r), buffer:
                final(buffer)@ }),
    ;
}

impl<T: NetworkInterface + ?Sized> NetworkInterface for Box<T> {
    open spec fn ops(&self) -> Seq<LinkOp> {
        (**self).ops()
    }

    fn send(&mut self, data: &[u8]) -> (r: Result<usize>) {
        (**self).send(data)
    }

    fn receive(&mut self, buffer: &mut [u8]) -> (r: Result<usize>) {
        (**self).receive(buffer)
    }

    fn receive_timeout(&mut self, buffer: &mut [u8], timeout: Duration) -> (r: Result<usize>) {
        (**self).receive_timeout(buffer, timeout)
    }
}

/// The USB HID packet of a request: report ID 0, then its first 64 bytes.
pub fn make_hid_packet(request: &[u8; REQUEST_BUFFER_SIZE]) -> (r: [u8; 65])
    ensures
        r@ == hid_packet(request@),
{
    let mut packet = [0u8; 65];
    let mut i: usize = 0;
    while i < 64
        invariant
            i <= 64,
            packet@.len() == 65,
            packet@[0] == 0,
            forall|k: int| 0 <= k < i ==> packet@[k + 1] == request@[k],
        decreases 64 - i,
    {
        packet[i + 1] = request[i];
        i = i + 1;
    }
    assert(packet@ =~= hid_packet(request@));
    packet
}

/// The first 64 bytes of a request, as sent over the network.
pub(crate) fn network_packet(request: &[u8; REQUEST_BUFFER_SIZE]) -> (r: Vec<u8>)
    ensures
        r@ == request@.take(64),
{
    let mut r: Vec<u8> = Vec::new();
    let mut i: usize = 0;
    while i < 64
        invariant
            i <= 64,
            r@ == request@.take(i as int),
        decreases 64 - i,
    {
        r.push(request[i]);
        assert(r@ =~= request@.take(i + 1));
        i = i + 1;
    }
    r
}

/// The number of writes among `ops`.
pub open spec fn write_count(ops: Seq<LinkOp>) -> nat
    decreases ops.len(),
{
    if ops.len() == 0 {
        0
    } else {
        write_count(ops.drop_last()) + if ops.last() is Write { 1nat } else { 0nat }
    }
}

proof fn lemma_write_count_push(ops: Seq<LinkOp>, op: LinkOp)
    ensures
        write_count(ops.push(op)) == write_count(ops) + if op is Write { 1nat } else { 0nat },
{
    assert(ops.push(op).drop_last() =~= ops);
}

/// The calls made on a transport since it had made `before`.
pub open spec fn ops_since(after: Seq<LinkOp>, before: Seq<LinkOp>) -> Seq<LinkOp> {
    after.skip(before.len() as int)
}

/// `after` is `before` followed by more calls.
pub open spec fn ops_extend(after: Seq<LinkOp>, before: Seq<LinkOp>) -> bool {
    after.len() >= before.len() && after.take(before.len() as int) == before
}

/// `op` is the read of a retry loop: a `Read` when `timeout` is `None`, a
/// `ReadWithin` of that timeout otherwise.
pub open spec fn is_read_of(op: LinkOp, timeout: Option<Duration>) -> bool {
    match timeout {
        None => op is Read,
        Some(t) => op matches LinkOp::ReadWithin { timeout: u, .. } && u == t,
    }
}

/// A read that a retry loop takes as the response to request `id`: it
/// returned a count of at least `min` and left a valid response in the
/// buffer.
pub open spec fn accepted(op: LinkOp, min: nat, id: u8) -> bool {
    match op {
        LinkOp::Read { got: Some(n), buffer } => n >= min && response_valid(buffer, id),
        LinkOp::ReadWithin { got: Some(n), buffer, .. } => n >= min && response_valid(buffer, id),
        _ => false,
    }
}

/// The buffer that a read left (the data, for a write).
pub open spec fn op_bytes(op: LinkOp) -> Seq<u8> {
    match op {
        LinkOp::Write { data, .. } => data,
        LinkOp::Read { buffer, .. } => buffer,
        LinkOp::ReadWithin { buffer, .. } => buffer,
    }
}

/// The shape of a retry loop's calls: each is a write of `packet` or the
/// loop's read, the first a write, and no read right after a write that
/// failed.
pub open spec fn loop_calls(ops: Seq<LinkOp>, packet: Seq<u8>, timeout: Option<Duration>) -> bool {
    &&& forall|k: int| 0 <= k < ops.len() ==> (#[trigger] ops[k] matches LinkOp::Write { data, .. } && data == packet)
        || is_read_of(ops[k], timeout)
    &&& ops.len() > 0 ==> ops[0] is Write
    &&& forall|k: int| 0 < k < ops.len() && !(#[trigger] ops[k] is Write) ==> !(ops[k - 1] matches LinkOp::Write {
        sent: false, .. })
}

/// The calls of a retry loop and its result (see [`loop_calls`]): at most
/// `retries` writes. With a response `Some(resp)`, the last call is the
/// first read accepted (see [`accepted`]) and `resp` is its buffer; with
/// none, no read was accepted and exactly `retries` writes were made.
pub closed spec fn attempts(ops: Seq<LinkOp>, packet: Seq<u8>, timeout: Option<Duration>, min: nat, id: u8,
    retries: nat, res: Option<Seq<u8>>) -> bool {
    &&& loop_calls(ops, packet, timeout)
    &&& write_count(ops) <= retries
    &&& match res {
        Some(resp) => ops.len() > 0 && accepted(ops.last(), min, id) && op_bytes(ops.last()) == resp
            && forall|k: int| 0 <= k < ops.len() - 1 ==> !accepted(#[trigger] ops[k], min, id),
        None => write_count(ops) == retries && forall|k: int| 0 <= k < ops.len() ==> !accepted(#[trigger] ops[k],
            min, id),
    }
}

/// The response of a request loop's result, if any.
pub open spec fn reply_of(r: Result<[u8; RESPONSE_BUFFER_SIZE]>) -> Option<Seq<u8>> {
    match r {
        Ok(resp) => Some(resp@),
        Err(_) => None,
    }
}

/// The timeout of the USB polls: 20 ms.
pub open spec fn usb_poll() -> Option<Duration> {
    Some(duration_from_millis(20))
}

proof fn lemma_calls_push(base: Seq<LinkOp>, new: Seq<LinkOp>, op: LinkOp, packet: Seq<u8>,
    timeout: Option<Duration>)
    requires
        loop_calls(new, packet, timeout),
        (op matches LinkOp::Write { data, .. } && data == packet) || is_read_of(op, timeout),
        new.len() == 0 ==> op is Write,
        !(op is Write) ==> !(new.last() matches LinkOp::Write { sent: false, .. }),
    ensures
        loop_calls(new.push(op), packet, timeout),
        (base + new).push(op) == base + new.push(op),
        write_count(new.push(op)) == write_count(new) + if op is Write { 1nat } else { 0nat },
        forall|k: int| 0 <= k < new.len() ==> new.push(op)[k] == new[k],
        new.push(op).last() == op,
        new.push(op).len() == new.len() + 1,
        ops_since(base + new.push(op), base) == new.push(op),
        ops_extend(base + new.push(op), base),
{
    let n = new.push(op);
    assert((base + new).push(op) =~= base + n);
    assert forall|k: int| 0 <= k < n.len() implies (#[trigger] n[k] matches LinkOp::Write { data, .. } && data
        == packet) || is_read_of(n[k], timeout) by {
        if k < new.len() {
            assert(n[k] == new[k]);
        }
    }
    assert forall|k: int| 0 < k < n.len() && !(#[trigger] n[k] is Write) implies !(n[k - 1] matches LinkOp::Write {
        sent: false, .. }) by {
        if k < new.len() {
            assert(n[k] == new[k]);
        }
        assert(n[k - 1] == new[k - 1]);
    }
    if new.len() > 0 {
        assert(n[0] == new[0]);
    }
    lemma_write_count_push(new, op);
    assert((base + n).skip(base.len() as int) =~= n);
    assert((base + n).take(base.len() as int) =~= base);
}

/// The USB packet of data chunk `k`: report ID 0, then the bytes of `data`
/// from `64 * k` on, at most 64, then zeros.
pub open spec fn chunk_packet(data: Seq<u8>, k: int) -> Seq<u8> {
    Seq::new(65, |i: int| if 1 <= i && 64 * k + i - 1 < data.len() { data[64 * k + i - 1] } else { 0u8 })
}

/// The number of 64-byte chunks of `n` bytes.
pub open spec fn chunk_count(n: nat) -> nat {
    (n + 63) / 64
}

/// The packets that a multipart request writes: the request's HID packet,
/// then one packet per 64-byte chunk of `data`.
pub open spec fn multipart_writes(request: Seq<u8>, data: Seq<u8>) -> Seq<Seq<u8>> {
    seq![hid_packet(request)] + Seq::new(chunk_count(data.len()), |k: int| chunk_packet(data, k))
}

/// The calls of a multipart request and its result: the packets of
/// `writes`, in order, each written once the one before went through; if
/// one did not go through, nothing follows and the result is an error. Once
/// all went through, one read of at most `timeout` follows, and the result
/// is `Ok` exactly when that read returned and left a valid response for
/// `id` in the buffer, which is then the response.
pub open spec fn multipart_outcome(done: Seq<LinkOp>, writes: Seq<Seq<u8>>, timeout: Duration, id: u8,
    r: Result<[u8; RESPONSE_BUFFER_SIZE]>) -> bool {
    &&& 1 <= done.len() <= writes.len() + 1
    &&& forall|k: int| 0 <= k < done.len() && k < writes.len() ==> (#[trigger] done[k] matches LinkOp::Write {
        data, sent } && data == writes[k] && (k < done.len() - 1 ==> sent))
    &&& if done.len() <= writes.len() {
        (done.last() matches LinkOp::Write { sent, .. } && !sent) && r is Err
    } else {
        &&& done.last() matches LinkOp::ReadWithin { timeout: t, got, buffer } && t == timeout
            && (r is Ok <==> got is Some && response_valid(buffer, id))
        &&& r matches Ok(resp) ==> resp@ == op_bytes(done.last())
    }
}

/// The USB failure error of the retry loops.
pub open spec fn usb_failure(r: Result<[u8; RESPONSE_BUFFER_SIZE]>) -> bool {
    r matches Err(PoKeysError::Transfer(m)) && m@ == "Failed to send USB request"@
}

/// The network failure error of the retry loops.
pub open spec fn network_failure(r: Result<[u8; RESPONSE_BUFFER_SIZE]>) -> bool {
    r matches Err(PoKeysError::Transfer(m)) && m@ == "Failed to send network request"@
}

/// Communication manager: a protocol state bound to a connection type.
pub struct CommunicationManager {
    protocol: Protocol,
    connection_type: DeviceConnectionType,
}

impl CommunicationManager {
    /// The ID of the last request prepared.
    pub closed spec fn last_request_id(&self) -> u8 {
        self.protocol.last_request_id()
    }

    /// The send-retry count.
    pub closed spec fn retries(&self) -> u32 {
        self.protocol.retries()
    }

    /// The socket receive timeout.
    pub closed spec fn timeout(&self) -> Duration {
        self.protocol.timeout()
    }

    /// The settings other than the request ID are those of `other`.
    pub open spec fn same_settings(&self, other: &CommunicationManager) -> bool {
        self.retries() == other.retries() && self.timeout() == other.timeout()
    }

    /// A manager with a fresh protocol state.
    pub fn new(connection_type: DeviceConnectionType) -> (r: Self)
        ensures
            r.last_request_id() == 0,
            r.retries() == 3,
            r.timeout() == duration_from_millis(1000),
    {
        CommunicationManager { protocol: Protocol::new(), connection_type }
    }

    /// Set the send-retry count and socket timeout; the read-retry count is
    /// not used.
    pub fn set_retries_and_timeout(&mut self, send_retries: u32, read_retries: u32, timeout: Duration)
        ensures
            final(self).retries() == send_retries,
            final(self).timeout() == timeout,
            final(self).last_request_id() == old(self).last_request_id(),
    {
        self.protocol.set_retries_and_timeout(send_retries, read_retries, timeout);
    }

    /// The socket receive timeout.
    pub fn socket_timeout(&self) -> (r: Duration)
        ensures
            r == self.timeout(),
    {
        self.protocol.socket_timeout()
    }

    /// The send-retry count.
    pub fn send_retries(&self) -> (r: u32)
        ensures
            r == self.retries(),
    {
        self.protocol.send_retries()
    }

    /// Advance and return the request ID, for packets built by hand.
    pub fn get_next_request_id(&mut self) -> (r: u8)
        ensures
            r == next_id(old(self).last_request_id()),
            final(self).last_request_id() == r,
            final(self).same_settings(old(self)),
    {
        self.protocol.next_request_id()
    }

    /// Prepare a request whose bytes from 8 on carry up to 56 bytes of
    /// `data`; the rest is zero.
    pub fn prepare_request_with_data(
        &mut self,
        request_type: u8,
        param1: u8,
        param2: u8,
        param3: u8,
        param4: u8,
        data: Option<&[u8]>,
    ) -> (r: [u8; REQUEST_BUFFER_SIZE])
        ensures
            final(self).last_request_id() == next_id(old(self).last_request_id()),
            final(self).same_settings(old(self)),
            r@ == request_packet(request_type, param1, param2, param3, param4,
                final(self).last_request_id(),
                match data { Some(d) => payload_part(d@), None => Seq::empty() }),
    {
        let mut request = self.protocol.prepare_request(request_type, param1, param2, param3, param4, None);
        let ghost id = self.protocol.last_request_id();
        if let Some(payload) = data {
            let n: usize = if payload.len() < 56 { payload.len() } else { 56 };
            let ghost before = request@;
            let mut i: usize = 0;
            while i < n
                invariant
                    n <= payload@.len(),
                    n <= 56,
                    i <= n,
                    request@.len() == 68,
                    before.len() == 68,
                    forall|k: int| 0 <= k < 8 ==> request@[k] == before[k],
                    forall|k: int| 8 + n <= k < 68 ==> request@[k] == before[k],
                    forall|k: int| 0 <= k < i ==> request@[8 + k] == payload@[k],
                decreases n - i,
            {
                request[8 + i] = payload[i];
                i = i + 1;
            }
            let c = Protocol::calculate_checksum(&request);
            proof {
                assert(request@.take(7) =~= before.take(7));
            }
            request[7] = c;
            proof {
                let head = request_head(request_type, param1, param2, param3, param4, id);
                assert(head.take(7) =~= head);
                assert(before.take(7) =~= head);
                assert(payload_part(payload@) =~= payload@.take(n as int));
                assert(before =~= request_packet(request_type, param1, param2, param3, param4, id, Seq::empty()));
                let pk = request_packet(request_type, param1, param2, param3, param4, id, payload_part(payload@));
                assert(pk.len() == 68);
                let pk0 = request_packet(request_type, param1, param2, param3, param4, id, Seq::empty());
                assert forall|k: int| 0 <= k < 68 implies request@[k] == pk[k] by {
                    if k < 7 {
                        assert(request@[k] == request@.take(7)[k]);
                    } else if k == 7 {
                    } else if k < 8 + n {
                        let j = k - 8;
                        assert(request@[8 + j] == payload@[j]);
                        assert(payload_part(payload@)[j] == payload@[j]);
                    } else {
                        assert(before[k] == pk0[k]);
                    }
                }
                assert(request@ =~= request_packet(request_type, param1, param2, param3, param4, id,
                    payload_part(payload@)));
            }
        }
        request
    }

    /// Check a response packet against the ID of its request.
    pub fn validate_response(&self, response: &[u8], expected_request_id: u8) -> (r: Result<()>)
        ensures
            validation_outcome(response@, expected_request_id, r),
            r is Ok <==> response_valid(response@, expected_request_id),
    {
        self.protocol.validate_response(response, expected_request_id)
    }

    /// Send a request over USB HID and wait for its response: up to the
    /// retry count, the packet is written and up to 50 reads of 20 ms are
    /// made; the first read that returns bytes and validates is returned.
    pub fn send_usb_request<T: UsbHidInterface + ?Sized>(
        &mut self,
        interface: &mut T,
        request_type: u8,
        param1: u8,
        param2: u8,
        param3: u8,
        param4: u8,
    ) -> (r: Result<[u8; RESPONSE_BUFFER_SIZE]>)
        ensures
            final(self).last_request_id() == next_id(old(self).last_request_id()),
            final(self).same_settings(old(self)),
            r matches Ok(resp) ==> response_valid(resp@, final(self).last_request_id()),
            r is Err ==> usb_failure(r),
            old(self).retries() == 0 ==> r is Err,
            ops_extend(final(interface).ops(), old(interface).ops()),
            attempts(ops_since(final(interface).ops(), old(interface).ops()), hid_packet(request_packet(request_type,
                param1, param2, param3, param4, final(self).last_request_id(), Seq::empty())), usb_poll(), 1,
                final(self).last_request_id(), old(self).retries() as nat, reply_of(r)),
    {
        let request = self.protocol.prepare_request(request_type, param1, param2, param3, param4, None);
        self.usb_exchange(interface, &request)
    }

    /// The USB retry loop for a prepared request.
    fn usb_exchange<T: UsbHidInterface + ?Sized>(
        &mut self,
        interface: &mut T,
        request: &[u8; REQUEST_BUFFER_SIZE],
    ) -> (r: Result<[u8; RESPONSE_BUFFER_SIZE]>)
        ensures
            final(self).last_request_id() == old(self).last_request_id(),
            final(self).same_settings(old(self)),
            r matches Ok(resp) ==> response_valid(resp@, request@[6]),
            r is Err ==> usb_failure(r),
            old(self).retries() == 0 ==> r is Err,
            ops_extend(final(interface).ops(), old(interface).ops()),
            attempts(ops_since(final(interface).ops(), old(interface).ops()), hid_packet(request@), usb_poll(), 1,
                request@[6], old(self).retries() as nat, reply_of(r)),
    {
        let ghost base = interface.ops();
        let ghost mut new: Seq<LinkOp> = Seq::empty();
        let ghost packet = hid_packet(request@);
        let request_id = request[6];
        let retries_allowed = self.protocol.send_retries;
        let mut retries: u32 = 0;
        while retries < retries_allowed
            invariant
                retries <= retries_allowed,
                retries_allowed == old(self).retries(),
                request_id == request@[6],
                self.last_request_id() == old(self).last_request_id(),
                self.same_settings(old(self)),
                packet == hid_packet(request@),
                interface.ops() == base + new,
                base == old(interface).ops(),
                loop_calls(new, packet, usb_poll()),
                forall|k: int| 0 <= k < new.len() ==> !accepted(#[trigger] new[k], 1, request_id),
                write_count(new) == retries,
            decreases retries_allowed - retries,
        {
            let hid = make_hid_packet(request);
            let written = interface.write(&hid);
            proof {
                let op = LinkOp::Write { data: packet, sent: written is Ok };
                lemma_calls_push(base, new, op, packet, usb_poll());
                new = new.push(op);
            }
            match written {
                Ok(_) => {
                    let mut response = [0u8; RESPONSE_BUFFER_SIZE];
                    let mut wait_count: u32 = 0;
                    while wait_count < 50
                        invariant
                            wait_count <= 50,
                            retries < retries_allowed,
                            retries_allowed == old(self).retries(),
                            request_id == request@[6],
                            self.last_request_id() == old(self).last_request_id(),
                            self.same_settings(old(self)),
                            packet == hid_packet(request@),
                            interface.ops() == base + new,
                            base == old(interface).ops(),
                            loop_calls(new, packet, usb_poll()),
                            forall|k: int| 0 <= k < new.len() ==> !accepted(#[trigger] new[k], 1, request_id),
                            new.len() > 0,
                            !(new.last() matches LinkOp::Write { sent: false, .. }),
                            write_count(new) == retries + 1,
                        decreases 50 - wait_count,
                    {
                        let got = interface.read_timeout(&mut response, millis(20));
                        let ghost op = LinkOp::ReadWithin { timeout: duration_from_millis(20), got: count_of(got),
                            buffer: response@ };
                        proof {
                            lemma_calls_push(base, new, op, packet, usb_poll());
                            new = new.push(op);
                        }
                        match got {
                            Ok(bytes_read) => {
                                if bytes_read > 0 {
                                    match self.protocol.validate_response(&response, request_id) {
                                        Ok(_) => {
                                            return Ok(response);
                                        },
                                        Err(_) => {
                                            break;
                                        },
                                    }
                                } else {
                                    wait_count = wait_count + 1;
                                }
                            },
                            Err(_) => {
                                break;
                            },
                        }
                    }
                },
                Err(_) => {},
            }
            retries = retries + 1;
        }
        proof {
            reveal_strlit("Failed to send USB request");
            assert((base + new).skip(base.len() as int) =~= new);
            assert((base + new).take(base.len() as int) =~= base);
        }
        Err(PoKeysError::Transfer(string_of("Failed to send USB request")))
    }

    /// Send a request over the network and wait for its response: up to the
    /// retry count, the first 64 bytes are sent and one receive with the
    /// socket timeout is made; a response of at least 8 bytes that validates
    /// is returned.
    pub fn send_network_request<T: NetworkInterface + ?Sized>(
        &mut self,
        interface: &mut T,
        request_type: u8,
        param1: u8,
        param2: u8,
        param3: u8,
        param4: u8,
    ) -> (r: Result<[u8; RESPONSE_BUFFER_SIZE]>)
        ensures
            final(self).last_request_id() == next_id(old(self).last_request_id()),
            final(self).same_settings(old(self)),
            r matches Ok(resp) ==> response_valid(resp@, final(self).last_request_id()),
            r is Err ==> network_failure(r),
            old(self).retries() == 0 ==> r is Err,
            ops_extend(final(interface).ops(), old(interface).ops()),
            attempts(ops_since(final(interface).ops(), old(interface).ops()), request_packet(request_type, param1,
                param2, param3, param4, final(self).last_request_id(), Seq::empty()).take(64),
                Some(old(self).timeout()), 8, final(self).last_request_id(), old(self).retries() as nat, reply_of(r)),
    {
        let request = self.protocol.prepare_request(request_type, param1, param2, param3, param4, None);
        let request_id = request[6];
        let packet = network_packet(&request);
        let retries_allowed = self.protocol.send_retries;
        let timeout = self.protocol.socket_timeout;
        let ghost base = interface.ops();
        let ghost mut new: Seq<LinkOp> = Seq::empty();
        let ghost wait = Some(old(self).timeout());
        let mut retries: u32 = 0;
        while retries < retries_allowed
            invariant
                retries <= retries_allowed,
                retries_allowed == old(self).retries(),
                request_id == self.last_request_id(),
                self.last_request_id() == next_id(old(self).last_request_id()),
                self.same_settings(old(self)),
                timeout == old(self).timeout(),
                wait == Some(old(self).timeout()),
                packet@ == request@.take(64),
                request@ == request_packet(request_type, param1, param2, param3, param4, self.last_request_id(),
                    Seq::empty()),
                interface.ops() == base + new,
                base == old(interface).ops(),
                loop_calls(new, packet@, wait),
                forall|k: int| 0 <= k < new.len() ==> !accepted(#[trigger] new[k], 8, request_id),
                write_count(new) == retries,
            decreases retries_allowed - retries,
        {
            let sent = interface.send(packet.as_slice());
            proof {
                let op = LinkOp::Write { data: packet@, sent: sent is Ok };
                lemma_calls_push(base, new, op, packet@, wait);
                new = new.push(op);
            }
            match sent {
                Ok(_) => {
                    let mut response = [0u8; RESPONSE_BUFFER_SIZE];
                    let got = interface.receive_timeout(&mut response, timeout);
                    let ghost op = LinkOp::ReadWithin { timeout, got: count_of(got), buffer: response@ };
                    proof {
                        lemma_calls_push(base, new, op, packet@, wait);
                        new = new.push(op);
                    }
                    match got {
                        Ok(bytes_read) => {
                            if bytes_read >= 8 {
                                match self.protocol.validate_response(&response, request_id) {
                                    Ok(_) => {
                                        return Ok(response);
                                    },
                                    Err(_) => {},
                                }
                            }
                        },
                        Err(_) => {},
                    }
                },
                Err(_) => {},
            }
            retries = retries + 1;
        }
        proof {
            reveal_strlit("Failed to send network request");
            assert((base + new).skip(base.len() as int) =~= new);
            assert((base + new).take(base.len() as int) =~= base);
        }
        Err(PoKeysError::Transfer(string_of("Failed to send network request")))
    }

    /// Send a request over USB HID without waiting for a response; a write
    /// error is passed on.
    pub fn send_request_no_response<T: UsbHidInterface + ?Sized>(
        &mut self,
        interface: &mut T,
        request_type: u8,
        param1: u8,
        param2: u8,
        param3: u8,
        param4: u8,
    ) -> (r: Result<()>)
        ensures
            final(self).last_request_id() == next_id(old(self).last_request_id()),
            final(self).same_settings(old(self)),
            final(interface).ops() == old(interface).ops().push(LinkOp::Write { data: hid_packet(request_packet(
                request_type, param1, param2, param3, param4, final(self).last_request_id(), Seq::empty())), sent:
                r is Ok }),
    {
        let request = self.protocol.prepare_request(request_type, param1, param2, param3, param4, None);
        let hid = make_hid_packet(&request);
        interface.write(&hid)?;
        Ok(())
    }

    /// Send a request followed by its data in 64-byte chunks, then read one
    /// response with the socket timeout and validate it (see
    /// [`multipart_outcome`]).
    pub fn send_multipart_request<T: UsbHidInterface + ?Sized>(
        &mut self,
        interface: &mut T,
        request_type: u8,
        data: &[u8],
    ) -> (r: Result<[u8; RESPONSE_BUFFER_SIZE]>)
        ensures
            final(self).last_request_id() == next_id(old(self).last_request_id()),
            final(self).same_settings(old(self)),
            r matches Ok(resp) ==> response_valid(resp@, final(self).last_request_id()),
            ops_extend(final(interface).ops(), old(interface).ops()),
            multipart_outcome(ops_since(final(interface).ops(), old(interface).ops()), multipart_writes(
                request_packet(request_type, 0, 0, 0, 0, final(self).last_request_id(), Seq::empty()), data@),
                old(self).timeout(), final(self).last_request_id(), r),
    {
        let ghost base = interface.ops();
        let request = self.protocol.prepare_request(request_type, 0, 0, 0, 0, None);
        let request_id = request[6];
        let hid = make_hid_packet(&request);
        let ghost writes = multipart_writes(request@, data@);
        let ghost count = chunk_count(data@.len());
        let first = interface.write(&hid);
        let ghost mut done: Seq<LinkOp> = seq![LinkOp::Write { data: hid@, sent: first is Ok }];
        proof {
            assert(writes[0] == hid@);
            assert(base.push(done[0]) =~= base + done);
            assert((base + done).skip(base.len() as int) =~= done);
            assert((base + done).take(base.len() as int) =~= base);
        }
        first?;
        let mut start: usize = 0;
        let ghost mut j: int = 0;
        while start < data.len()
            invariant
                start <= data.len(),
                start < data.len() ==> start == 64 * j,
                start == data.len() ==> 64 * j >= data.len(),
                j > 0 ==> 64 * (j - 1) < data.len(),
                0 <= j <= count,
                count == chunk_count(data@.len()),
                writes == multipart_writes(request@, data@),
                writes.len() == count + 1,
                request_id == self.last_request_id(),
                request@ == request_packet(request_type, 0, 0, 0, 0, self.last_request_id(), Seq::empty()),
                self.last_request_id() == next_id(old(self).last_request_id()),
                self.same_settings(old(self)),
                base == old(interface).ops(),
                interface.ops() == base + done,
                done.len() == 1 + j,
                forall|k: int| 0 <= k < done.len() ==> #[trigger] done[k] == (LinkOp::Write { data: writes[k], sent: true }),
            decreases data.len() - start,
        {
            let end: usize = if data.len() - start < 64 { data.len() } else { start + 64 };
            let mut chunk = [0u8; 65];
            let mut i: usize = start;
            while i < end
                invariant
                    start <= i <= end,
                    end <= data.len(),
                    end - start <= 64,
                    chunk@.len() == 65,
                    forall|t: int| 1 <= t <= i - start ==> #[trigger] chunk@[t] == data@[start + t - 1],
                    forall|t: int| 0 <= t < 65 && !(1 <= t <= i - start) ==> #[trigger] chunk@[t] == 0u8,
                decreases end - i,
            {
                chunk[i - start + 1] = data[i];
                i = i + 1;
            }
            proof {
                assert(j < count) by (nonlinear_arith)
                    requires
                        start == 64 * j,
                        start < data@.len(),
                        count == (data@.len() + 63) / 64,
                ;
                assert(chunk@ =~= chunk_packet(data@, j));
                assert(writes[1 + j] == chunk_packet(data@, j));
            }
            let sent = interface.write(&chunk);
            proof {
                let op = LinkOp::Write { data: chunk@, sent: sent is Ok };
                assert((base + done).push(op) =~= base + done.push(op));
                assert forall|k: int| 0 <= k < done.len() implies #[trigger] done.push(op)[k] == done[k] by {}
                done = done.push(op);
                j = j + 1;
                assert((base + done).skip(base.len() as int) =~= done);
                assert((base + done).take(base.len() as int) =~= base);
            }
            sent?;
            start = end;
        }
        proof {
            assert(j == count) by (nonlinear_arith)
                requires
                    64 * j >= data@.len(),
                    j > 0 ==> 64 * (j - 1) < data@.len(),
                    j == 0 ==> data@.len() == 0,
                    count == (data@.len() + 63) / 64,
            ;
        }
        let mut response = [0u8; RESPONSE_BUFFER_SIZE];
        let got = interface.read_timeout(&mut response, self.protocol.socket_timeout);
        proof {
            let op = LinkOp::ReadWithin { timeout: old(self).timeout(), got: count_of(got), buffer: response@ };
            assert((base + done).push(op) =~= base + done.push(op));
            assert forall|k: int| 0 <= k < done.len() implies #[trigger] done.push(op)[k] == done[k] by {}
            done = done.push(op);
            assert((base + done).skip(base.len() as int) =~= done);
            assert((base + done).take(base.len() as int) =~= base);
        }
        got?;
        self.protocol.validate_response(&response, request_id)?;
        Ok(response)
    }

    /// Send a prepared request over USB HID with the retry loop of
    /// `send_usb_request`.
    pub fn send_usb_request_raw<T: UsbHidInterface + ?Sized>(
        &mut self,
        interface: &mut T,
        request: &[u8; REQUEST_BUFFER_SIZE],
    ) -> (r: Result<[u8; RESPONSE_BUFFER_SIZE]>)
        ensures
            final(self).last_request_id() == old(self).last_request_id(),
            final(self).same_settings(old(self)),
            r matches Ok(resp) ==> response_valid(resp@, request@[6]),
            r is Err ==> usb_failure(r),
            old(self).retries() == 0 ==> r is Err,
            ops_extend(final(interface).ops(), old(interface).ops()),
            attempts(ops_since(final(interface).ops(), old(interface).ops()), hid_packet(request@), usb_poll(), 1,
                request@[6], old(self).retries() as nat, reply_of(r)),
    {
        self.usb_exchange(interface, request)
    }

    /// Send a prepared request over the network: up to the retry count, the
    /// first 64 bytes are sent and one receive is made; a response that
    /// validates is returned.
    pub fn send_network_request_raw<T: NetworkInterface + ?Sized>(
        &mut self,
        interface: &mut T,
        request: &[u8; REQUEST_BUFFER_SIZE],
    ) -> (r: Result<[u8; RESPONSE_BUFFER_SIZE]>)
        ensures
            final(self).last_request_id() == old(self).last_request_id(),
            final(self).same_settings(old(self)),
            r matches Ok(resp) ==> response_valid(resp@, request@[6]),
            r is Err ==> network_failure(r),
            old(self).retries() == 0 ==> r is Err,
            ops_extend(final(interface).ops(), old(interface).ops()),
            attempts(ops_since(final(interface).ops(), old(interface).ops()), request@.take(64), None, 0, request@[6],
                old(self).retries() as nat, reply_of(r)),
    {
        let request_id = request[6];
        let packet = network_packet(request);
        let retries_allowed = self.protocol.send_retries;
        let ghost base = interface.ops();
        let ghost mut new: Seq<LinkOp> = Seq::empty();
        let mut retries: u32 = 0;
        while retries < retries_allowed
            invariant
                retries <= retries_allowed,
                retries_allowed == old(self).retries(),
                request_id == request@[6],
                self.last_request_id() == old(self).last_request_id(),
                self.same_settings(old(self)),
                packet@ == request@.take(64),
                interface.ops() == base + new,
                base == old(interface).ops(),
                loop_calls(new, packet@, None),
                forall|k: int| 0 <= k < new.len() ==> !accepted(#[trigger] new[k], 0, request_id),
                write_count(new) == retries,
            decreases retries_allowed - retries,
        {
            let sent = interface.send(packet.as_slice());
            proof {
                let op = LinkOp::Write { data: packet@, sent: sent is Ok };
                lemma_calls_push(base, new, op, packet@, None);
                new = new.push(op);
            }
            match sent {
                Ok(_) => {
                    let mut response = [0u8; RESPONSE_BUFFER_SIZE];
                    let got = interface.receive(&mut response);
                    let ghost op = LinkOp::Read { got: count_of(got), buffer: response@ };
                    proof {
                        lemma_calls_push(base, new, op, packet@, None);
                        new = new.push(op);
                    }
                    match got {
                        Ok(_) => {
                            match self.protocol.validate_response(&response, request_id) {
                                Ok(_) => {
                                    return Ok(response);
                                },
                                Err(_) => {},
                            }
                        },
                        Err(_) => {},
                    }
                },
                Err(_) => {},
            }
            retries = retries + 1;
        }
        proof {
            reveal_strlit("Failed to send network request");
            assert((base + new).skip(base.len() as int) =~= new);
            assert((base + new).take(base.len() as int) =~= base);
        }
        Err(PoKeysError::Transfer(string_of("Failed to send network request")))
    }
}

} // verus!
