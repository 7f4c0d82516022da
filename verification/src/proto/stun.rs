//! Minimal STUN binding request / response (RFC 5389) for endpoint discovery: the
//! public `IP:port` a NAT assigns to one local UDP socket, the fact hole punching
//! is built on.
use vstd::prelude::*;
use crate::proto::wire::{be16, be32, push_u16_be, push_u32_be, read_u16_be, read_u32_be, u16_be, u32_be};

verus! {

/// Every STUN message carries this; a response that does not is not ours.
pub const MAGIC_COOKIE: u32 = 0x2112_A442;
pub const BINDING_REQUEST: u16 = 0x0001;
pub const BINDING_SUCCESS: u16 = 0x0101;
pub const ATTR_MAPPED_ADDRESS: u16 = 0x0001;
pub const ATTR_XOR_MAPPED_ADDRESS: u16 = 0x0020;
pub const HEADER_LEN: usize = 20;

/// 96-bit transaction id; responses must echo it.
pub type TxId = [u8; 12];

/// A transport address: IPv4 or IPv6 octets and a port.
#[derive(Debug, Clone, Copy, PartialEq, Eq)]
pub enum StunAddr {
    V4 { ip: [u8; 4], port: u16 },
    V6 { ip: [u8; 16], port: u16 },
}

/// An address as (is IPv6, octets, port).
pub open spec fn addr_view(a: StunAddr) -> (bool, Seq<u8>, u16) {
    match a {
        StunAddr::V4 { ip, port } => (false, ip@, port),
        StunAddr::V6 { ip, port } => (true, ip@, port),
    }
}

/// Byte `k` of the magic cookie, big-endian.
pub open spec fn cookie_byte(k: int) -> u8 {
    if k == 0 {
        0x21
    } else if k == 1 {
        0x12
    } else if k == 2 {
        0xA4
    } else {
        0x42
    }
}

/// Byte `k` of the IPv6 XOR key: the cookie, then the transaction id.
pub open spec fn v6_key(tx: Seq<u8>, k: int) -> u8 {
    if k < 4 { cookie_byte(k) } else { tx[k - 4] }
}

/// The binding request: type, zero attribute length, cookie, transaction id.
pub open spec fn spec_binding_request(tx: Seq<u8>) -> Seq<u8> {
    u16_be(BINDING_REQUEST) + u16_be(0) + u32_be(MAGIC_COOKIE) + tx
}

/// The address an address attribute value carries (family byte 1 = IPv4 needing
/// 8 bytes, 2 = IPv6 needing 20), un-XORed for the XOR form.
pub open spec fn spec_decode_address(v: Seq<u8>, tx: Seq<u8>, xor: bool) -> Option<(bool, Seq<u8>, u16)> {
    if v.len() < 4 {
        None
    } else {
        let raw_port = be16(v, 2) as u16;
        let port = if xor { raw_port ^ 0x2112u16 } else { raw_port };
        if v[1] == 1 {
            if v.len() < 8 {
                None
            } else {
                Some((false, Seq::new(4, |k: int| if xor { v[4 + k] ^ cookie_byte(k) } else { v[4 + k] }), port))
            }
        } else if v[1] == 2 {
            if v.len() < 20 {
                None
            } else {
                Some((true, Seq::new(16, |k: int| if xor { v[4 + k] ^ v6_key(tx, k) } else { v[4 + k] }), port))
            }
        } else {
            None
        }
    }
}

/// Padding after an attribute value of length `l` up to a 4-byte boundary.
pub open spec fn pad4(l: int) -> int {
    (4 - l % 4) % 4
}

/// Walk the attributes from offset `i` up to `end`: the first decodable XOR-MAPPED
/// address wins; otherwise the first decodable MAPPED address seen (`plain`);
/// an attribute overrunning `end` voids the whole response.
pub open spec fn scan_attrs(buf: Seq<u8>, tx: Seq<u8>, i: int, end: int, plain: Option<(bool, Seq<u8>, u16)>) -> Option<
    (bool, Seq<u8>, u16),
>
    decreases end + 4 - i,
{
    if i < 0 || i + 4 > end {
        plain
    } else {
        let t = be16(buf, i);
        let l = be16(buf, i + 2);
        let ve = i + 4 + l;
        proof {
            assert(l >= 0 && pad4(l) >= 0);
        }
        if ve > end {
            None
        } else {
            let value = buf.subrange(i + 4, ve);
            if t == ATTR_XOR_MAPPED_ADDRESS && spec_decode_address(value, tx, true) is Some {
                spec_decode_address(value, tx, true)
            } else {
                let p = if t == ATTR_MAPPED_ADDRESS && plain is None {
                    spec_decode_address(value, tx, false)
                } else {
                    plain
                };
                scan_attrs(buf, tx, ve + pad4(l), end, p)
            }
        }
    }
}

/// Our public endpoint from a binding success response echoing `tx`; `None` for any
/// other message: wrong type, cookie or transaction, truncated, or no address.
pub open spec fn spec_parse_binding_response(tx: Seq<u8>, buf: Seq<u8>) -> Option<(bool, Seq<u8>, u16)> {
    if buf.len() < HEADER_LEN || be16(buf, 0) != BINDING_SUCCESS || be32(buf, 4) != MAGIC_COOKIE
        || buf.subrange(8, 20) != tx || buf.len() < HEADER_LEN + be16(buf, 2) {
        None
    } else {
        scan_attrs(buf, tx, HEADER_LEN as int, HEADER_LEN + be16(buf, 2), None)
    }
}

/// Encode a binding request (no attributes: only the reflexive address is wanted).
pub fn binding_request(tx: &TxId) -> (r: Vec<u8>)
    ensures
        r@ == spec_binding_request(tx@),
{
    let mut out: Vec<u8> = Vec::with_capacity(HEADER_LEN);
    push_u16_be(&mut out, BINDING_REQUEST);
    push_u16_be(&mut out, 0);
    push_u32_be(&mut out, MAGIC_COOKIE);
    let ghost head = out@;
    let mut i: usize = 0;
    while i < 12
        invariant
            i <= 12,
            tx@.len() == 12,
            out@ == head + tx@.subrange(0, i as int),
        decreases 12 - i,
    {
        out.push(tx[i]);
        i += 1;
        assert(out@ =~= head + tx@.subrange(0, i as int));
    }
    assert(tx@.subrange(0, 12) =~= tx@);
    out
}

fn cookie_at(k: usize) -> (r: u8)
    requires
        k < 4,
    ensures
        r == cookie_byte(k as int),
{
    if k == 0 {
        0x21
    } else if k == 1 {
        0x12
    } else if k == 2 {
        0xA4
    } else {
        0x42
    }
}

/// Decode an address attribute value (see [`spec_decode_address`]).
pub fn decode_address(value: &[u8], tx: &TxId, xor: bool) -> (r: Option<StunAddr>)
    ensures
        match r {
            Some(a) => spec_decode_address(value@, tx@, xor) == Some(addr_view(a)),
            None => spec_decode_address(value@, tx@, xor) is None,
        },
{
    if value.len() < 4 {
        return None;
    }
    let raw_port = read_u16_be(value, 2);
    let port: u16 = if xor { raw_port ^ 0x2112u16 } else { raw_port };
    if value[1] == 1 {
        if value.len() < 8 {
            return None;
        }
        let mut ip = [0u8; 4];
        let mut k: usize = 0;
        while k < 4
            invariant
                k <= 4,
                value@.len() >= 8,
                ip@.len() == 4,
                forall|j: int|
                    0 <= j < k ==> ip@[j] == (if xor { value@[4 + j] ^ cookie_byte(j) } else { value@[4 + j] }),
            decreases 4 - k,
        {
            ip[k] = if xor { value[4 + k] ^ cookie_at(k) } else { value[4 + k] };
            k += 1;
        }
        let ghost want = Seq::new(4, |j: int| if xor { value@[4 + j] ^ cookie_byte(j) } else { value@[4 + j] });
        assert(ip@ =~= want);
        Some(StunAddr::V4 { ip, port })
    } else if value[1] == 2 {
        if value.len() < 20 {
            return None;
        }
        let mut ip = [0u8; 16];
        let mut k: usize = 0;
        while k < 16
            invariant
                k <= 16,
                value@.len() >= 20,
                tx@.len() == 12,
                ip@.len() == 16,
                forall|j: int|
                    0 <= j < k ==> ip@[j] == (if xor { value@[4 + j] ^ v6_key(tx@, j) } else { value@[4 + j] }),
            decreases 16 - k,
        {
            let key: u8 = if k < 4 { cookie_at(k) } else { tx[k - 4] };
            ip[k] = if xor { value[4 + k] ^ key } else { value[4 + k] };
            k += 1;
        }
        let ghost want = Seq::new(16, |j: int| if xor { value@[4 + j] ^ v6_key(tx@, j) } else { value@[4 + j] });
        assert(ip@ =~= want);
        Some(StunAddr::V6 { ip, port })
    } else {
        None
    }
}

/// Extract our public endpoint from a binding success response.
pub fn parse_binding_response(tx: &TxId, buf: &[u8]) -> (r: Option<StunAddr>)
    ensures
        match r {
            Some(a) => spec_parse_binding_response(tx@, buf@) == Some(addr_view(a)),
            None => spec_parse_binding_response(tx@, buf@) is None,
        },
{
    if buf.len() < HEADER_LEN {
        return None;
    }
    if read_u16_be(buf, 0) != BINDING_SUCCESS {
        return None;
    }
    let attrs_len = read_u16_be(buf, 2) as usize;
    if read_u32_be(buf, 4) != MAGIC_COOKIE {
        return None;
    }
    let mut k: usize = 0;
    while k < 12
        invariant
            k <= 12,
            buf@.len() >= 20,
            tx@.len() == 12,
            forall|j: int| 0 <= j < k ==> buf@[8 + j] == tx@[j],
        decreases 12 - k,
    {
        if buf[8 + k] != tx[k] {
            assert(buf@.subrange(8, 20)[k as int] != tx@[k as int]);
            return None;
        }
        k += 1;
    }
    assert(buf@.subrange(8, 20) =~= tx@);
    if buf.len() - HEADER_LEN < attrs_len {
        return None;
    }
    let end = HEADER_LEN + attrs_len;
    let mut i: usize = HEADER_LEN;
    let mut plain: Option<StunAddr> = None;
    while i + 4 <= end
        invariant
            HEADER_LEN <= i <= end + 3,
            end <= buf@.len(),
            end <= HEADER_LEN + 65535,
            tx@.len() == 12,
            spec_parse_binding_response(tx@, buf@) == scan_attrs(
                buf@,
                tx@,
                i as int,
                end as int,
                match plain {
                    Some(a) => Some(addr_view(a)),
                    None => None,
                },
            ),
        decreases end + 4 - i,
    {
        let attr_type = read_u16_be(buf, i);
        let attr_len = read_u16_be(buf, i + 2) as usize;
        let val_end = i + 4 + attr_len;
        if val_end > end {
            return None;
        }
        let value = vstd::slice::slice_subrange(buf, i + 4, val_end);
        if attr_type == ATTR_XOR_MAPPED_ADDRESS {
            if let Some(a) = decode_address(value, tx, true) {
                return Some(a);
            }
        }
        if attr_type == ATTR_MAPPED_ADDRESS && plain.is_none() {
            plain = decode_address(value, tx, false);
        }
        i = val_end + ((4 - (attr_len % 4)) % 4);
    }
    plain
}

/// Two observations of our own public endpoint from different servers disagree:
/// the NAT maps per destination, and hole punching cannot work.
pub fn is_symmetric_nat(a: StunAddr, b: StunAddr) -> (r: bool)
    ensures
        r == (addr_view(a) != addr_view(b)),
{
    match (a, b) {
        (StunAddr::V4 { ip: x, port: p }, StunAddr::V4 { ip: y, port: q }) => {
            let same = p == q && x[0] == y[0] && x[1] == y[1] && x[2] == y[2] && x[3] == y[3];
            if same {
                assert(x@ =~= y@);
            } else if p == q {
                assert(x@ != y@) by {
                    if x@ == y@ {
                        assert(x@[0] == y@[0] && x@[1] == y@[1] && x@[2] == y@[2] && x@[3] == y@[3]);
                    }
                }
            }
            !same
        },
        (StunAddr::V6 { ip: x, port: p }, StunAddr::V6 { ip: y, port: q }) => {
            let mut same = p == q;
            let mut k: usize = 0;
            while k < 16
                invariant
                    k <= 16,
                    x@.len() == 16,
                    y@.len() == 16,
                    same == (p == q && forall|j: int| 0 <= j < k ==> x@[j] == y@[j]),
                decreases 16 - k,
            {
                same = same && x[k] == y[k];
                k += 1;
            }
            if same {
                assert(x@ =~= y@);
            }
            !same
        },
        _ => true,
    }
}

/// A binding success response for `tx` carrying one attribute of type `attr` with
/// value `value`.
pub open spec fn response_with(tx: Seq<u8>, attr: u16, value: Seq<u8>) -> Seq<u8> {
    u16_be(BINDING_SUCCESS) + u16_be((4 + value.len()) as u16) + u32_be(MAGIC_COOKIE) + tx + u16_be(attr) + u16_be(
        value.len() as u16,
    ) + value
}

proof fn lemma_xor_twice(x: u8, c: u8, p: u16)
    by (bit_vector)
    ensures
        (x ^ c) ^ c == x,
        (p ^ 0x2112u16) ^ 0x2112u16 == p,
{
}

/// The parse of a one-attribute IPv4 response: header fields and the attribute value.
proof fn lemma_one_attribute_response(tx: Seq<u8>, attr: u16, value: Seq<u8>)
    requires
        tx.len() == 12,
        value.len() == 8,
    ensures
        ({
            let buf = response_with(tx, attr, value);
            &&& buf.len() == 32
            &&& be16(buf, 0) == BINDING_SUCCESS
            &&& be16(buf, 2) == 12
            &&& be32(buf, 4) == MAGIC_COOKIE
            &&& buf.subrange(8, 20) == tx
            &&& be16(buf, 20) == attr
            &&& be16(buf, 22) == 8
            &&& buf.subrange(24, 32) == value
        }),
{
    let buf = response_with(tx, attr, value);
    assert(buf.subrange(8, 20) =~= tx);
    assert(buf.subrange(24, 32) =~= value);
}

/// A response whose one address attribute is a plain MAPPED-ADDRESS (as RFC 3489
/// servers send) parses to that address unchanged: IPv4 octets `ip` and `port`.
pub proof fn lemma_mapped_address_is_taken_as_is(tx: Seq<u8>, ip: Seq<u8>, port: u16)
    requires
        tx.len() == 12,
        ip.len() == 4,
    ensures
        spec_parse_binding_response(tx, response_with(tx, ATTR_MAPPED_ADDRESS, seq![0u8, 1u8] + u16_be(port) + ip))
            == Some((false, ip, port)),
{
    let value = seq![0u8, 1u8] + u16_be(port) + ip;
    let buf = response_with(tx, ATTR_MAPPED_ADDRESS, value);
    lemma_one_attribute_response(tx, ATTR_MAPPED_ADDRESS, value);
    let v = buf.subrange(24, 32);
    assert(v == value);
    assert(be16(value, 2) == port);
    assert(Seq::new(4, |k: int| value[4 + k]) =~= ip);
    assert(scan_attrs(buf, tx, 32, 32, spec_decode_address(value, tx, false)) == spec_decode_address(
        value,
        tx,
        false,
    ));
}

/// A response whose one address attribute is an XOR-MAPPED-ADDRESS parses to the
/// address it hides: port XORed with the cookie's top half, octets with the cookie.
pub proof fn lemma_xor_mapped_address_is_unmasked(tx: Seq<u8>, ip: Seq<u8>, port: u16)
    requires
        tx.len() == 12,
        ip.len() == 4,
    ensures
        spec_parse_binding_response(
            tx,
            response_with(
                tx,
                ATTR_XOR_MAPPED_ADDRESS,
                seq![0u8, 1u8] + u16_be(port ^ 0x2112u16) + Seq::new(4, |k: int| ip[k] ^ cookie_byte(k)),
            ),
        ) == Some((false, ip, port)),
{
    let masked = Seq::new(4, |k: int| ip[k] ^ cookie_byte(k));
    let value = seq![0u8, 1u8] + u16_be(port ^ 0x2112u16) + masked;
    let buf = response_with(tx, ATTR_XOR_MAPPED_ADDRESS, value);
    lemma_one_attribute_response(tx, ATTR_XOR_MAPPED_ADDRESS, value);
    lemma_xor_twice(0, 0, port);
    assert(be16(value, 2) == port ^ 0x2112u16);
    assert forall|k: int| 0 <= k < 4 implies value[4 + k] ^ cookie_byte(k) == ip[k] by {
        lemma_xor_twice(ip[k], cookie_byte(k), 0);
    }
    assert(Seq::new(4, |k: int| value[4 + k] ^ cookie_byte(k)) =~= ip);
}

} // verus!
