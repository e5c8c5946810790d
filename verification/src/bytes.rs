//! Big-endian field helpers and IPv4 endpoints.
use vstd::prelude::*;

verus! {

/// A 16-bit value from two big-endian bytes.
pub open spec fn be16(hi: u8, lo: u8) -> u16 {
    ((hi as u16) * 256 + (lo as u16)) as u16
}

/// High byte of a 16-bit value.
pub open spec fn hi8(v: u16) -> u8 {
    (v / 256) as u8
}

/// Low byte of a 16-bit value.
pub open spec fn lo8(v: u16) -> u8 {
    (v % 256) as u8
}

/// A 32-bit value from four big-endian bytes.
pub open spec fn be32(b0: u8, b1: u8, b2: u8, b3: u8) -> u32 {
    ((b0 as u32) * 16777216 + (b1 as u32) * 65536 + (b2 as u32) * 256 + (b3 as u32)) as u32
}

/// The four big-endian bytes of a 32-bit value.
pub open spec fn be32_bytes(v: u32) -> Seq<u8> {
    seq![(v / 16777216) as u8, ((v / 65536) % 256) as u8, ((v / 256) % 256) as u8, (v % 256) as u8]
}

/// Read a big-endian 16-bit value.
pub fn read_be16(hi: u8, lo: u8) -> (r: u16)
    ensures
        r == be16(hi, lo),
{
    (hi as u16) * 256 + (lo as u16)
}

/// Read a big-endian 32-bit value.
pub fn read_be32(b0: u8, b1: u8, b2: u8, b3: u8) -> (r: u32)
    ensures
        r == be32(b0, b1, b2, b3),
{
    (b0 as u32) * 16777216 + (b1 as u32) * 65536 + (b2 as u32) * 256 + (b3 as u32)
}

/// High byte of a 16-bit value.
pub fn high_byte(v: u16) -> (r: u8)
    ensures
        r == hi8(v),
{
    (v / 256) as u8
}

/// Low byte of a 16-bit value.
pub fn low_byte(v: u16) -> (r: u8)
    ensures
        r == lo8(v),
{
    (v % 256) as u8
}

/// Append the four big-endian bytes of `v`.
pub fn push_be32(out: &mut Vec<u8>, v: u32)
    ensures
        final(out)@ == old(out)@ + be32_bytes(v),
{
    out.push((v / 16777216) as u8);
    out.push(((v / 65536) % 256) as u8);
    out.push(((v / 256) % 256) as u8);
    out.push((v % 256) as u8);
    assert(final(out)@ =~= old(out)@ + be32_bytes(v));
}

/// Append the two big-endian bytes of `v`.
pub fn push_be16(out: &mut Vec<u8>, v: u16)
    ensures
        final(out)@ == old(out)@ + seq![hi8(v), lo8(v)],
{
    out.push(high_byte(v));
    out.push(low_byte(v));
    assert(final(out)@ =~= old(out)@ + seq![hi8(v), lo8(v)]);
}

/// Splitting a 16-bit value into bytes and joining them again gives it back.
pub proof fn lemma_be16_roundtrip(v: u16)
    ensures
        be16(hi8(v), lo8(v)) == v,
{
}

/// Joining two bytes and splitting the result again gives them back.
pub proof fn lemma_be16_split(hi: u8, lo: u8)
    ensures
        hi8(be16(hi, lo)) == hi,
        lo8(be16(hi, lo)) == lo,
{
}

/// Joining the four bytes of a 32-bit value gives it back.
pub proof fn lemma_be32_roundtrip(v: u32)
    ensures
        be32(be32_bytes(v)[0], be32_bytes(v)[1], be32_bytes(v)[2], be32_bytes(v)[3]) == v,
{
}

/// Splitting a 32-bit value joined from four bytes gives the bytes back.
pub proof fn lemma_be32_split(b0: u8, b1: u8, b2: u8, b3: u8)
    ensures
        be32_bytes(be32(b0, b1, b2, b3)) == seq![b0, b1, b2, b3],
{
    let v = be32(b0, b1, b2, b3);
    assert(v as int == b0 as int * 16777216 + b1 as int * 65536 + b2 as int * 256 + b3 as int);
    assert((v / 16777216) as u8 == b0);
    assert(((v / 65536) % 256) as u8 == b1);
    assert(((v / 256) % 256) as u8 == b2);
    assert((v % 256) as u8 == b3);
    assert(be32_bytes(v) =~= seq![b0, b1, b2, b3]);
}

/// An IPv4 UDP endpoint: four address octets and a port.
#[derive(Debug, Clone, Copy, PartialEq, Eq)]
pub struct IpEndpoint {
    pub ip: [u8; 4],
    pub port: u16,
}

impl IpEndpoint {
    /// An endpoint from four octets and a port.
    pub fn new(a: u8, b: u8, c: u8, d: u8, port: u16) -> (r: IpEndpoint)
        ensures
            r.ip@ == seq![a, b, c, d],
            r.port == port,
    {
        IpEndpoint { ip: [a, b, c, d], port }
    }
}

/// Equality of endpoints by address and port.
pub fn endpoint_eq(x: &IpEndpoint, y: &IpEndpoint) -> (r: bool)
    ensures
        r == (x.ip@ == y.ip@ && x.port == y.port),
{
    let r = x.ip[0] == y.ip[0] && x.ip[1] == y.ip[1] && x.ip[2] == y.ip[2] && x.ip[3] == y.ip[3]
        && x.port == y.port;
    proof {
        if x.ip[0] == y.ip[0] && x.ip[1] == y.ip[1] && x.ip[2] == y.ip[2] && x.ip[3] == y.ip[3] {
            assert(x.ip@ =~= y.ip@);
        }
    }
    r
}

} // verus!
