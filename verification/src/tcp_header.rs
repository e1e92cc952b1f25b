//! TCP header and option decoding: a pure, stateless codec from raw bytes to
//! an immutable header struct, plus a bounds-honouring scan of the option
//! list for an advertised MSS.

use vstd::prelude::*;
use crate::ip_header::be16;

verus! {

pub const TCP_FIN: u8 = 0x01;
pub const TCP_SYN: u8 = 0x02;
pub const TCP_RST: u8 = 0x04;
pub const TCP_PSH: u8 = 0x08;
pub const TCP_ACK: u8 = 0x10;
pub const TCP_URG: u8 = 0x20;

/// A parsed TCP header. All fields are plain values.
#[derive(Clone, Copy, PartialEq, Eq, Structural, Debug)]
pub struct TcpHeader {
    pub src_port: u16,
    pub dst_port: u16,
    pub seq_num: u32,
    pub ack_num: u32,
    /// Header length in 32-bit words: the high nibble of byte 12.
    pub data_offset: u8,
    pub flags: u8,
    pub window: u16,
    pub checksum: u16,
    pub urgent_ptr: u16,
}

/// Four bytes read as a big-endian 32-bit value (shared with the IPv4 codec).
pub open spec fn spec_tcp_header(b: Seq<u8>) -> TcpHeader
    recommends
        b.len() >= 20,
{
    TcpHeader {
        src_port: be16(b[0], b[1]),
        dst_port: be16(b[2], b[3]),
        seq_num: crate::ip_header::be32(b[4], b[5], b[6], b[7]),
        ack_num: crate::ip_header::be32(b[8], b[9], b[10], b[11]),
        data_offset: b[12] >> 4,
        flags: b[13],
        window: be16(b[14], b[15]),
        checksum: be16(b[16], b[17]),
        urgent_ptr: be16(b[18], b[19]),
    }
}

fn be16_exec(hi: u8, lo: u8) -> (r: u16)
    ensures
        r == be16(hi, lo),
{
    ((hi as u16) << 8) | (lo as u16)
}

fn be32_exec(b0: u8, b1: u8, b2: u8, b3: u8) -> (r: u32)
    ensures
        r == crate::ip_header::be32(b0, b1, b2, b3),
{
    ((b0 as u32) << 24) | ((b1 as u32) << 16) | ((b2 as u32) << 8) | (b3 as u32)
}

/// Decodes a TCP header from the front of `bytes`. Fails exactly when fewer
/// than 20 bytes are available; on success also reports the header length in
/// bytes, four times the data-offset field.
pub fn parse_tcp_header(bytes: &[u8]) -> (r: Option<(TcpHeader, usize)>)
    ensures
        r is Some <==> bytes@.len() >= 20,
        r matches Some((h, len)) ==> h == spec_tcp_header(bytes@) && len == h.data_offset as usize
            * 4,
{
    if bytes.len() < 20 {
        return None;
    }
    let data_offset = bytes[12] >> 4;
    let h = TcpHeader {
        src_port: be16_exec(bytes[0], bytes[1]),
        dst_port: be16_exec(bytes[2], bytes[3]),
        seq_num: be32_exec(bytes[4], bytes[5], bytes[6], bytes[7]),
        ack_num: be32_exec(bytes[8], bytes[9], bytes[10], bytes[11]),
        data_offset,
        flags: bytes[13],
        window: be16_exec(bytes[14], bytes[15]),
        checksum: be16_exec(bytes[16], bytes[17]),
        urgent_ptr: be16_exec(bytes[18], bytes[19]),
    };
    proof {
        crate::ip_header::lemma_u8_shr4_le(bytes@[12]);
    }
    Some((h, (data_offset as usize) * 4))
}

/// The MSS value that a kind-length scan of a TCP option list yields: kind 0
/// ends the list, kind 1 is a single-byte no-op, kind 2 with length 4 carries
/// the MSS, and any other kind consumes its declared length. A length that is
/// below 2 or runs past the end of the list terminates the scan.
pub open spec fn spec_mss_from_options(b: Seq<u8>) -> Option<u16>
    decreases b.len(),
{
    if b.len() == 0 {
        None
    } else if b[0] == 0 {
        None
    } else if b[0] == 1 {
        spec_mss_from_options(b.skip(1))
    } else if b.len() < 2 {
        None
    } else if b[1] < 2 || b[1] > b.len() {
        None
    } else if b[0] == 2 {
        if b[1] == 4 {
            Some(be16(b[2], b[3]))
        } else {
            None
        }
    } else {
        spec_mss_from_options(b.skip(b[1] as int))
    }
}

/// Scans a TCP option list for an MSS option, honouring the kind-length
/// encoding and never reading past the supplied slice; malformed length
/// fields terminate the scan.
pub fn parse_tcp_options(bytes: &[u8]) -> (r: Option<u16>)
    ensures
        r == spec_mss_from_options(bytes@),
{
    let n = bytes.len();
    let mut idx: usize = 0;
    proof {
        assert(bytes@.skip(0) =~= bytes@);
    }
    loop
        invariant
            idx <= n,
            n == bytes@.len(),
            spec_mss_from_options(bytes@) == spec_mss_from_options(bytes@.skip(idx as int)),
        decreases n - idx,
    {
        let ghost s = bytes@.skip(idx as int);
        if idx >= n {
            return None;
        }
        assert(s[0] == bytes@[idx as int]);
        let kind = bytes[idx];
        if kind == 0 {
            return None;
        }
        if kind == 1 {
            proof {
                assert(s.skip(1) =~= bytes@.skip(idx as int + 1));
            }
            idx += 1;
            continue;
        }
        if idx + 1 >= n {
            assert(s.len() < 2);
            return None;
        }
        assert(s[1] == bytes@[idx as int + 1]);
        let olen = bytes[idx + 1];
        if olen < 2 || (olen as usize) > n - idx {
            return None;
        }
        if kind == 2 {
            if olen == 4 {
                assert(s[2] == bytes@[idx as int + 2] && s[3] == bytes@[idx as int + 3]);
                return Some(be16_exec(bytes[idx + 2], bytes[idx + 3]));
            } else {
                return None;
            }
        }
        proof {
            assert(s.skip(olen as int) =~= bytes@.skip(idx as int + olen as int));
        }
        idx += olen as usize;
    }
}

} // verus!
