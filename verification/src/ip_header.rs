//! IPv4 header decoding: a pure, stateless codec from raw bytes to an
//! immutable header struct.

use vstd::prelude::*;

verus! {

/// A parsed IPv4 header. All fields are plain values; addresses are held as
/// 32-bit integers in network (big-endian) order.
#[derive(Clone, Copy, PartialEq, Eq, Structural, Debug)]
pub struct IpHeader {
    pub version: u8,
    /// Header length in bytes: the wire IHL field times 4.
    pub ihl: u8,
    pub tos: u8,
    pub total_length: u16,
    pub identification: u16,
    /// The raw 16-bit flags / fragment-offset field.
    pub flags_fragment_offset: u16,
    pub ttl: u8,
    pub protocol: u8,
    pub checksum: u16,
    pub src_ip: u32,
    pub dst_ip: u32,
}

/// Two bytes read as a big-endian 16-bit value.
pub open spec fn be16(hi: u8, lo: u8) -> u16 {
    ((hi as u16) << 8) | (lo as u16)
}

/// Four bytes read as a big-endian 32-bit value.
pub open spec fn be32(b0: u8, b1: u8, b2: u8, b3: u8) -> u32 {
    ((b0 as u32) << 24) | ((b1 as u32) << 16) | ((b2 as u32) << 8) | (b3 as u32)
}

/// The header that `parse_ip_header` extracts from a well-formed prefix.
pub open spec fn spec_ip_header(b: Seq<u8>) -> IpHeader
    recommends
        b.len() >= 20,
{
    IpHeader {
        version: b[0] >> 4,
        ihl: ((b[0] & 0x0f) * 4) as u8,
        tos: b[1],
        total_length: be16(b[2], b[3]),
        identification: be16(b[4], b[5]),
        flags_fragment_offset: be16(b[6], b[7]),
        ttl: b[8],
        protocol: b[9],
        checksum: be16(b[10], b[11]),
        src_ip: be32(b[12], b[13], b[14], b[15]),
        dst_ip: be32(b[16], b[17], b[18], b[19]),
    }
}

/// The more-fragments bit of the flags / fragment-offset field.
pub open spec fn more_fragments(h: IpHeader) -> bool {
    h.flags_fragment_offset & 0x2000 != 0
}

/// The fragment offset in bytes: the low 13 bits of the field are in 8-byte
/// units and are multiplied back out.
pub open spec fn fragment_offset_bytes(h: IpHeader) -> u32 {
    (((h.flags_fragment_offset & 0x1fff) as u32) * 8) as u32
}

/// A packet is unfragmented exactly when the more-fragments bit is clear and
/// the fragment offset is zero.
pub open spec fn is_unfragmented(h: IpHeader) -> bool {
    !more_fragments(h) && fragment_offset_bytes(h) == 0
}

pub proof fn lemma_u8_and_le(x: u8, m: u8)
    ensures
        x & m <= m,
{
    assert(x & m <= m) by (bit_vector);
}

pub proof fn lemma_u16_and_le(x: u16, m: u16)
    ensures
        x & m <= m,
{
    assert(x & m <= m) by (bit_vector);
}

pub proof fn lemma_u8_shr4_le(x: u8)
    ensures
        x >> 4 <= 15,
{
    assert(x >> 4 <= 15) by (bit_vector);
}

fn be16_exec(hi: u8, lo: u8) -> (r: u16)
    ensures
        r == be16(hi, lo),
{
    ((hi as u16) << 8) | (lo as u16)
}

fn be32_exec(b0: u8, b1: u8, b2: u8, b3: u8) -> (r: u32)
    ensures
        r == be32(b0, b1, b2, b3),
{
    ((b0 as u32) << 24) | ((b1 as u32) << 16) | ((b2 as u32) << 8) | (b3 as u32)
}

/// Decodes an IPv4 header from the front of `bytes`. Fails exactly when fewer
/// than 20 bytes are available or the version field is not 4; on success also
/// reports the header length in bytes.
pub fn parse_ip_header(bytes: &[u8]) -> (r: Option<(IpHeader, usize)>)
    ensures
        r is Some <==> bytes@.len() >= 20 && bytes@[0] >> 4 == 4,
        r matches Some((h, len)) ==> h == spec_ip_header(bytes@) && len == h.ihl as usize,
{
    if bytes.len() < 20 {
        return None;
    }
    let b0 = bytes[0];
    if b0 >> 4 != 4 {
        return None;
    }
    proof {
        lemma_u8_and_le(b0, 0x0f);
    }
    let ihl: u8 = (b0 & 0x0f) * 4;
    let h = IpHeader {
        version: b0 >> 4,
        ihl,
        tos: bytes[1],
        total_length: be16_exec(bytes[2], bytes[3]),
        identification: be16_exec(bytes[4], bytes[5]),
        flags_fragment_offset: be16_exec(bytes[6], bytes[7]),
        ttl: bytes[8],
        protocol: bytes[9],
        checksum: be16_exec(bytes[10], bytes[11]),
        src_ip: be32_exec(bytes[12], bytes[13], bytes[14], bytes[15]),
        dst_ip: be32_exec(bytes[16], bytes[17], bytes[18], bytes[19]),
    };
    Some((h, ihl as usize))
}

/// Reports whether the header's more-fragments bit is set.
pub fn header_more_fragments(h: &IpHeader) -> (r: bool)
    ensures
        r == more_fragments(*h),
{
    h.flags_fragment_offset & 0x2000 != 0
}

/// The fragment offset of the header, converted from 8-byte units to bytes.
pub fn header_fragment_offset_bytes(h: &IpHeader) -> (r: u32)
    ensures
        r == fragment_offset_bytes(*h),
{
    proof {
        lemma_u16_and_le(h.flags_fragment_offset, 0x1fff);
    }
    ((h.flags_fragment_offset & 0x1fff) as u32) * 8
}

} // verus!
