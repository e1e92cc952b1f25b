//! Per-frame summary parsing for the capture display: the addresses, ports
//! and a protocol label of one raw frame. Malformed frames are skipped, never
//! an error.

use vstd::prelude::*;
use vstd::string::StringExecFns;
use crate::ip_header::be16;
use crate::ip_header::be32;
use crate::ip_header::lemma_u8_and_le;

verus! {

/// The eight 16-bit groups of an IPv6 address.
#[derive(Clone, Copy, PartialEq, Eq, Structural, Debug)]
pub struct Ipv6Segments {
    pub s0: u16,
    pub s1: u16,
    pub s2: u16,
    pub s3: u16,
    pub s4: u16,
    pub s5: u16,
    pub s6: u16,
    pub s7: u16,
}

/// A network address as plain values.
#[derive(Clone, Copy, PartialEq, Eq, Structural, Debug)]
pub enum IpAddrValue {
    V4(u32),
    V6(Ipv6Segments),
}

/// The character for one decimal digit.
pub open spec fn dec_digit(d: int) -> char {
    if d == 0 {
        '0'
    } else if d == 1 {
        '1'
    } else if d == 2 {
        '2'
    } else if d == 3 {
        '3'
    } else if d == 4 {
        '4'
    } else if d == 5 {
        '5'
    } else if d == 6 {
        '6'
    } else if d == 7 {
        '7'
    } else if d == 8 {
        '8'
    } else {
        '9'
    }
}

/// The decimal digits of a nonnegative number, most significant first.
pub open spec fn spec_dec(n: int) -> Seq<char>
    decreases n,
{
    if n < 0 {
        Seq::empty()
    } else if n < 10 {
        seq![dec_digit(n)]
    } else {
        spec_dec(n / 10).push(dec_digit(n % 10))
    }
}

fn dec_digit_str(d: u8) -> (r: &'static str)
    requires
        d < 10,
    ensures
        r@ == seq![dec_digit(d as int)],
{
    proof {
        reveal_strlit("0");
        reveal_strlit("1");
        reveal_strlit("2");
        reveal_strlit("3");
        reveal_strlit("4");
        reveal_strlit("5");
        reveal_strlit("6");
        reveal_strlit("7");
        reveal_strlit("8");
        reveal_strlit("9");
    }
    let r = match d {
        0 => "0",
        1 => "1",
        2 => "2",
        3 => "3",
        4 => "4",
        5 => "5",
        6 => "6",
        7 => "7",
        8 => "8",
        _ => "9",
    };
    proof {
        assert(r@ =~= seq![dec_digit(d as int)]);
    }
    r
}

/// The decimal text of a byte value.
pub fn u8_decimal(n: u8) -> (r: String)
    ensures
        r@ == spec_dec(n as int),
{
    if n < 10 {
        let mut s = String::new();
        s.append(dec_digit_str(n));
        proof {
            assert(s@ =~= spec_dec(n as int));
        }
        s
    } else if n < 100 {
        let mut s = String::new();
        s.append(dec_digit_str(n / 10));
        s.append(dec_digit_str(n % 10));
        proof {
            assert(spec_dec(n as int) == spec_dec(n as int / 10).push(dec_digit(n as int % 10)));
            assert(s@ =~= spec_dec(n as int));
        }
        s
    } else {
        let mut s = String::new();
        s.append(dec_digit_str(n / 100));
        s.append(dec_digit_str((n / 10) % 10));
        s.append(dec_digit_str(n % 10));
        proof {
            assert((n as int / 10) / 10 == n as int / 100) by (nonlinear_arith);
            assert(spec_dec(n as int) == spec_dec(n as int / 10).push(dec_digit(n as int % 10)));
            assert(spec_dec(n as int / 10) == spec_dec(n as int / 100).push(
                dec_digit((n as int / 10) % 10),
            ));
            assert(s@ =~= spec_dec(n as int));
        }
        s
    }
}

/// The ICMP type byte a frame carries: directly after the fixed IPv6 header,
/// or after the IPv4 header length; zero when the frame is too short.
pub open spec fn spec_icmp_type(b: Seq<u8>, is_ipv6: bool) -> u8 {
    if is_ipv6 {
        if b.len() > 40 {
            b[40]
        } else {
            0
        }
    } else {
        if b.len() > (b[0] & 0x0f) * 4 {
            b[(b[0] & 0x0f) as int * 4]
        } else {
            0
        }
    }
}

/// The label of an ICMP type.
pub open spec fn spec_icmp_label(t: u8) -> Seq<char> {
    if t == 0 {
        "ICMP echo reply"@
    } else if t == 8 {
        "ICMP echo request"@
    } else if t == 3 {
        "ICMP destination unreachable"@
    } else if t == 11 {
        "ICMP time exceeded"@
    } else {
        "ICMP(Type:"@ + spec_dec(t as int) + ")"@
    }
}

/// Names the ICMP message type of the frame.
pub fn parse_icmp(ip_header: &[u8], is_ipv6: bool) -> (r: String)
    requires
        is_ipv6 || ip_header@.len() >= 1,
    ensures
        r@ == spec_icmp_label(spec_icmp_type(ip_header@, is_ipv6)),
{
    let icmp_type: u8 = if is_ipv6 {
        if ip_header.len() > 40 {
            ip_header[40]
        } else {
            0
        }
    } else {
        proof {
            lemma_u8_and_le(ip_header@[0], 0x0f);
        }
        let ihl = ((ip_header[0] & 0x0f) as usize) * 4;
        if ip_header.len() > ihl {
            ip_header[ihl]
        } else {
            0
        }
    };
    if icmp_type == 0 {
        String::from_str("ICMP echo reply")
    } else if icmp_type == 8 {
        String::from_str("ICMP echo request")
    } else if icmp_type == 3 {
        String::from_str("ICMP destination unreachable")
    } else if icmp_type == 11 {
        String::from_str("ICMP time exceeded")
    } else {
        let mut s = String::from_str("ICMP(Type:");
        let digits = u8_decimal(icmp_type);
        s.append(digits.as_str());
        s.append(")");
        s
    }
}

/// The protocol label of an IPv4 frame.
pub open spec fn spec_v4_label(b: Seq<u8>) -> Seq<char> {
    if b[9] == 1 {
        spec_icmp_label(spec_icmp_type(b, false))
    } else if b[9] == 6 {
        "v4 TCP"@
    } else if b[9] == 17 {
        "v4 UDP"@
    } else {
        "Unknown("@ + spec_dec(b[9] as int) + ")"@
    }
}

/// The protocol label of an IPv6 frame, from its next-header byte.
pub open spec fn spec_v6_label(b: Seq<u8>) -> Seq<char> {
    if b[6] == 58 {
        spec_icmp_label(spec_icmp_type(b, true))
    } else if b[6] == 6 {
        "v6 TCP"@
    } else if b[6] == 17 {
        "v6 UDP"@
    } else {
        "Unknown("@ + spec_dec(b[6] as int) + ")"@
    }
}

fn unknown_label(n: u8) -> (r: String)
    ensures
        r@ == "Unknown("@ + spec_dec(n as int) + ")"@,
{
    let mut s = String::from_str("Unknown(");
    let digits = u8_decimal(n);
    s.append(digits.as_str());
    s.append(")");
    s
}

/// Decodes the addresses, ports and protocol label of an IPv4 frame. Fails
/// on a frame too short for its own header length plus the leading port
/// fields.
pub fn parse_ipv4(ip_header: &[u8]) -> (r: Option<
    (IpAddrValue, IpAddrValue, String, u16, u16),
>)
    ensures
        r is Some <==> ip_header@.len() >= 20 && ip_header@.len() >= (ip_header@[0] & 0x0f) * 4
            + 4,
        r matches Some((s, d, label, sp, dp)) ==> {
            let b = ip_header@;
            s == IpAddrValue::V4(be32(b[12], b[13], b[14], b[15])) && d == IpAddrValue::V4(
                be32(b[16], b[17], b[18], b[19]),
            ) && label@ == spec_v4_label(b) && sp == be16(
                b[(b[0] & 0x0f) as int * 4],
                b[(b[0] & 0x0f) as int * 4 + 1],
            ) && dp == be16(b[(b[0] & 0x0f) as int * 4 + 2], b[(b[0] & 0x0f) as int * 4 + 3])
        },
{
    if ip_header.len() < 20 {
        return None;
    }
    proof {
        lemma_u8_and_le(ip_header@[0], 0x0f);
    }
    let ihl = ((ip_header[0] & 0x0f) as usize) * 4;
    if ip_header.len() < ihl + 4 {
        return None;
    }
    let src = IpAddrValue::V4(
        ((ip_header[12] as u32) << 24) | ((ip_header[13] as u32) << 16) | ((ip_header[14] as u32)
            << 8) | (ip_header[15] as u32),
    );
    let dst = IpAddrValue::V4(
        ((ip_header[16] as u32) << 24) | ((ip_header[17] as u32) << 16) | ((ip_header[18] as u32)
            << 8) | (ip_header[19] as u32),
    );
    let src_port = ((ip_header[ihl] as u16) << 8) | (ip_header[ihl + 1] as u16);
    let dst_port = ((ip_header[ihl + 2] as u16) << 8) | (ip_header[ihl + 3] as u16);
    let protocol = ip_header[9];
    let label = if protocol == 1 {
        parse_icmp(ip_header, false)
    } else if protocol == 6 {
        String::from_str("v4 TCP")
    } else if protocol == 17 {
        String::from_str("v4 UDP")
    } else {
        unknown_label(protocol)
    };
    Some((src, dst, label, src_port, dst_port))
}

/// Decodes the addresses and protocol label of an IPv6 frame. Fails on a
/// frame shorter than the fixed IPv6 header.
pub fn parse_ipv6(ip_header: &[u8]) -> (r: Option<(IpAddrValue, IpAddrValue, String)>)
    ensures
        r is Some <==> ip_header@.len() >= 40,
        r matches Some((s, d, label)) ==> {
            let b = ip_header@;
            s == IpAddrValue::V6(
                Ipv6Segments {
                    s0: be16(b[8], b[9]),
                    s1: be16(b[10], b[11]),
                    s2: be16(b[12], b[13]),
                    s3: be16(b[14], b[15]),
                    s4: be16(b[16], b[17]),
                    s5: be16(b[18], b[19]),
                    s6: be16(b[20], b[21]),
                    s7: be16(b[22], b[23]),
                },
            ) && d == IpAddrValue::V6(
                Ipv6Segments {
                    s0: be16(b[24], b[25]),
                    s1: be16(b[26], b[27]),
                    s2: be16(b[28], b[29]),
                    s3: be16(b[30], b[31]),
                    s4: be16(b[32], b[33]),
                    s5: be16(b[34], b[35]),
                    s6: be16(b[36], b[37]),
                    s7: be16(b[38], b[39]),
                },
            ) && label@ == spec_v6_label(b)
        },
{
    if ip_header.len() < 40 {
        return None;
    }
    let src = IpAddrValue::V6(
        Ipv6Segments {
            s0: be16_exec(ip_header[8], ip_header[9]),
            s1: be16_exec(ip_header[10], ip_header[11]),
            s2: be16_exec(ip_header[12], ip_header[13]),
            s3: be16_exec(ip_header[14], ip_header[15]),
            s4: be16_exec(ip_header[16], ip_header[17]),
            s5: be16_exec(ip_header[18], ip_header[19]),
            s6: be16_exec(ip_header[20], ip_header[21]),
            s7: be16_exec(ip_header[22], ip_header[23]),
        },
    );
    let dst = IpAddrValue::V6(
        Ipv6Segments {
            s0: be16_exec(ip_header[24], ip_header[25]),
            s1: be16_exec(ip_header[26], ip_header[27]),
            s2: be16_exec(ip_header[28], ip_header[29]),
            s3: be16_exec(ip_header[30], ip_header[31]),
            s4: be16_exec(ip_header[32], ip_header[33]),
            s5: be16_exec(ip_header[34], ip_header[35]),
            s6: be16_exec(ip_header[36], ip_header[37]),
            s7: be16_exec(ip_header[38], ip_header[39]),
        },
    );
    let next_header = ip_header[6];
    let label = if next_header == 58 {
        parse_icmp(ip_header, true)
    } else if next_header == 6 {
        String::from_str("v6 TCP")
    } else if next_header == 17 {
        String::from_str("v6 UDP")
    } else {
        unknown_label(next_header)
    };
    Some((src, dst, label))
}

fn be16_exec(hi: u8, lo: u8) -> (r: u16)
    ensures
        r == be16(hi, lo),
{
    ((hi as u16) << 8) | (lo as u16)
}

/// Decodes the display summary of one raw link-layer frame: the Ethernet
/// header is skipped and an IPv4 packet behind it is summarized; anything
/// else is skipped.
pub fn parse_packet(packet: &[u8]) -> (r: Option<(IpAddrValue, IpAddrValue, String, u16, u16)>)
    ensures
        r is Some <==> packet@.len() > 14 && packet@.skip(14)[0] >> 4 == 4 && packet@.skip(
            14,
        ).len() >= 20 && packet@.skip(14).len() >= (packet@.skip(14)[0] & 0x0f) * 4 + 4,
        r matches Some((s, d, label, sp, dp)) ==> {
            let b = packet@.skip(14);
            s == IpAddrValue::V4(be32(b[12], b[13], b[14], b[15])) && d == IpAddrValue::V4(
                be32(b[16], b[17], b[18], b[19]),
            ) && label@ == spec_v4_label(b) && sp == be16(
                b[(b[0] & 0x0f) as int * 4],
                b[(b[0] & 0x0f) as int * 4 + 1],
            ) && dp == be16(b[(b[0] & 0x0f) as int * 4 + 2], b[(b[0] & 0x0f) as int * 4 + 3])
        },
{
    if packet.len() < 15 {
        return None;
    }
    let ip_header = &packet[14..packet.len()];
    proof {
        assert(ip_header@ =~= packet@.skip(14));
    }
    let version = ip_header[0] >> 4;
    if version != 4 {
        return None;
    }
    parse_ipv4(ip_header)
}

} // verus!
