//! Construction of outgoing probe frames: a SYN segment inside an IPv4
//! packet inside an Ethernet frame, as raw bytes ready for a capture handle
//! to send. The built frame decodes back to exactly the headers it was built
//! from.

use vstd::prelude::*;
use crate::ip_header::IpHeader;
use crate::ip_header::be16;
use crate::ip_header::be32;
use crate::ip_header::spec_ip_header;
use crate::tcp_header::TcpHeader;
use crate::tcp_header::spec_tcp_header;
use crate::tcp_header::TCP_SYN;
use crate::byte_ops::append_bytes;

verus! {

/// The largest payload a built frame can carry: the IPv4 total length is 16
/// bits and covers both fixed headers.
pub const MAX_PROBE_PAYLOAD: usize = 65495;

pub proof fn lemma_be16_split(x: u16)
    ensures
        be16((x >> 8) as u8, (x & 0xff) as u8) == x,
{
    assert((((x >> 8) as u8 as u16) << 8) | ((x & 0xff) as u8 as u16) == x) by (bit_vector);
}

pub proof fn lemma_be32_split(x: u32)
    ensures
        be32(
            (x >> 24) as u8,
            ((x >> 16) & 0xff) as u8,
            ((x >> 8) & 0xff) as u8,
            (x & 0xff) as u8,
        ) == x,
{
    assert((((x >> 24) as u8 as u32) << 24) | ((((x >> 16) & 0xff) as u8 as u32) << 16) | ((((x
        >> 8) & 0xff) as u8 as u32) << 8) | ((x & 0xff) as u8 as u32) == x) by (bit_vector);
}

/// Builds one SYN probe frame: Ethernet header (broadcast or zero
/// destination, zero source, IPv4 ethertype), IPv4 header without options,
/// TCP header without options carrying only the SYN flag and a 64240-byte
/// window, then the payload. Checksums are left zero for the sending layer.
pub fn build_syn_frame(
    src_ip: u32,
    dst_ip: u32,
    src_port: u16,
    dst_port: u16,
    ttl: u8,
    broadcast: bool,
    payload: &[u8],
) -> (r: Vec<u8>)
    requires
        payload@.len() <= MAX_PROBE_PAYLOAD,
    ensures
        r@.len() == 54 + payload@.len(),
        forall|i: int|
            0 <= i < 6 ==> r@[i] == (if broadcast {
                0xffu8
            } else {
                0u8
            }),
        forall|i: int| 6 <= i < 12 ==> r@[i] == 0u8,
        r@[12] == 0x08u8 && r@[13] == 0x00u8,
        spec_ip_header(r@.skip(14)) == (IpHeader {
            version: 4,
            ihl: 20,
            tos: 0,
            total_length: (40 + payload@.len()) as u16,
            identification: 0,
            flags_fragment_offset: 0,
            ttl,
            protocol: 6,
            checksum: 0,
            src_ip,
            dst_ip,
        }),
        spec_tcp_header(r@.skip(34)) == (TcpHeader {
            src_port,
            dst_port,
            seq_num: 0,
            ack_num: 0,
            data_offset: 5,
            flags: TCP_SYN,
            window: 64240,
            checksum: 0,
            urgent_ptr: 0,
        }),
        r@.skip(54) == payload@,
{
    let mac_byte: u8 = if broadcast {
        0xff
    } else {
        0x00
    };
    let total_length: u16 = 40 + (payload.len() as u16);
    let mut frame: Vec<u8> = vec![
        mac_byte,
        mac_byte,
        mac_byte,
        mac_byte,
        mac_byte,
        mac_byte,
        0x00,
        0x00,
        0x00,
        0x00,
        0x00,
        0x00,
        0x08,
        0x00,
        0x45,
        0x00,
        (total_length >> 8) as u8,
        (total_length & 0xff) as u8,
        0x00,
        0x00,
        0x00,
        0x00,
        ttl,
        0x06,
        0x00,
        0x00,
        (src_ip >> 24) as u8,
        ((src_ip >> 16) & 0xff) as u8,
        ((src_ip >> 8) & 0xff) as u8,
        (src_ip & 0xff) as u8,
        (dst_ip >> 24) as u8,
        ((dst_ip >> 16) & 0xff) as u8,
        ((dst_ip >> 8) & 0xff) as u8,
        (dst_ip & 0xff) as u8,
        (src_port >> 8) as u8,
        (src_port & 0xff) as u8,
        (dst_port >> 8) as u8,
        (dst_port & 0xff) as u8,
        0x00,
        0x00,
        0x00,
        0x00,
        0x00,
        0x00,
        0x00,
        0x00,
        0x50,
        TCP_SYN,
        0xfa,
        0xf0,
        0x00,
        0x00,
        0x00,
        0x00,
    ];
    let ghost header = frame@;
    append_bytes(&mut frame, payload);
    proof {
        assert(header.len() == 54);
        lemma_be16_split(total_length);
        lemma_be16_split(src_port);
        lemma_be16_split(dst_port);
        lemma_be32_split(src_ip);
        lemma_be32_split(dst_ip);
        assert(frame@.skip(54) =~= payload@);
        assert((((0xfau8) as u16) << 8) | ((0xf0u8) as u16) == 64240) by (bit_vector);
        assert(0x45u8 >> 4 == 4) by (bit_vector);
        assert((0x45u8 & 0x0f) == 5) by (bit_vector);
        assert(0x50u8 >> 4 == 5) by (bit_vector);
        assert((((0x00u8) as u16) << 8) | ((0x00u8) as u16) == 0) by (bit_vector);
        assert((((0x00u8) as u32) << 24) | (((0x00u8) as u32) << 16) | (((0x00u8) as u32) << 8) | (
        (0x00u8) as u32) == 0) by (bit_vector);
        assert(spec_ip_header(frame@.skip(14)) == (IpHeader {
            version: 4,
            ihl: 20,
            tos: 0,
            total_length: (40 + payload@.len()) as u16,
            identification: 0,
            flags_fragment_offset: 0,
            ttl,
            protocol: 6,
            checksum: 0,
            src_ip,
            dst_ip,
        }));
        assert(spec_tcp_header(frame@.skip(34)) == (TcpHeader {
            src_port,
            dst_port,
            seq_num: 0,
            ack_num: 0,
            data_offset: 5,
            flags: TCP_SYN,
            window: 64240,
            checksum: 0,
            urgent_ptr: 0,
        }));
    }
    frame
}

/// The configuration of an outgoing probe run. Durations are in
/// milliseconds; addresses are plain 32-bit values.
pub struct SendPacketSettings {
    pub src_ip: u32,
    pub dst_ip: u32,
    pub src_port: u16,
    pub dst_port: u16,
    pub packet_size: usize,
    pub packet_count: usize,
    pub interval_ms: u64,
    pub timeout_ms: u64,
    pub payload: Vec<u8>,
}

impl SendPacketSettings {
    /// The stock probe configuration: a thousand 1000-byte zero-filled
    /// packets, one per millisecond, between two fixed test addresses.
    pub fn default() -> (r: SendPacketSettings)
        ensures
            r.src_ip == 0x01010101u32,
            r.dst_ip == 0x03030303u32,
            r.src_port == 50000,
            r.dst_port == 50000,
            r.packet_size == 1000,
            r.packet_count == 1000,
            r.interval_ms == 1,
            r.timeout_ms == 10000,
            r.payload@.len() == 1000,
            forall|i: int| 0 <= i < 1000 ==> r.payload@[i] == 0u8,
    {
        SendPacketSettings {
            src_ip: 0x01010101,
            dst_ip: 0x03030303,
            src_port: 50000,
            dst_port: 50000,
            packet_size: 1000,
            packet_count: 1000,
            interval_ms: 1,
            timeout_ms: 10000,
            payload: vec![0u8; 1000],
        }
    }

    pub fn set_src_ip(&mut self, src_ip: u32)
        ensures
            *final(self) == (SendPacketSettings { src_ip, ..*old(self) }),
    {
        self.src_ip = src_ip;
    }

    pub fn set_dst_ip(&mut self, dst_ip: u32)
        ensures
            *final(self) == (SendPacketSettings { dst_ip, ..*old(self) }),
    {
        self.dst_ip = dst_ip;
    }

    pub fn set_src_port(&mut self, src_port: u16)
        ensures
            *final(self) == (SendPacketSettings { src_port, ..*old(self) }),
    {
        self.src_port = src_port;
    }

    pub fn set_dst_port(&mut self, dst_port: u16)
        ensures
            *final(self) == (SendPacketSettings { dst_port, ..*old(self) }),
    {
        self.dst_port = dst_port;
    }

    pub fn set_packet_size(&mut self, packet_size: usize)
        ensures
            *final(self) == (SendPacketSettings { packet_size, ..*old(self) }),
    {
        self.packet_size = packet_size;
    }

    pub fn set_packet_count(&mut self, packet_count: usize)
        ensures
            *final(self) == (SendPacketSettings { packet_count, ..*old(self) }),
    {
        self.packet_count = packet_count;
    }

    pub fn set_interval(&mut self, interval_ms: u64)
        ensures
            *final(self) == (SendPacketSettings { interval_ms, ..*old(self) }),
    {
        self.interval_ms = interval_ms;
    }

    pub fn set_timeout(&mut self, timeout_ms: u64)
        ensures
            *final(self) == (SendPacketSettings { timeout_ms, ..*old(self) }),
    {
        self.timeout_ms = timeout_ms;
    }

    pub fn set_payload(&mut self, payload: Vec<u8>)
        ensures
            final(self).payload == payload,
            final(self).src_ip == old(self).src_ip,
            final(self).dst_ip == old(self).dst_ip,
            final(self).src_port == old(self).src_port,
            final(self).dst_port == old(self).dst_port,
            final(self).packet_size == old(self).packet_size,
            final(self).packet_count == old(self).packet_count,
            final(self).interval_ms == old(self).interval_ms,
            final(self).timeout_ms == old(self).timeout_ms,
    {
        self.payload = payload;
    }

    pub fn get_src_ip(&self) -> (r: u32)
        ensures
            r == self.src_ip,
    {
        self.src_ip
    }

    /// The probe frame this configuration sends: a zero-MAC SYN frame with
    /// this configuration's endpoints and payload.
    pub fn build_frame(&self) -> (r: Vec<u8>)
        requires
            self.payload@.len() <= MAX_PROBE_PAYLOAD,
        ensures
            r@.len() == 54 + self.payload@.len(),
            spec_ip_header(r@.skip(14)) == (IpHeader {
                version: 4,
                ihl: 20,
                tos: 0,
                total_length: (40 + self.payload@.len()) as u16,
                identification: 0,
                flags_fragment_offset: 0,
                ttl: 0,
                protocol: 6,
                checksum: 0,
                src_ip: self.src_ip,
                dst_ip: self.dst_ip,
            }),
            spec_tcp_header(r@.skip(34)) == (TcpHeader {
                src_port: self.src_port,
                dst_port: self.dst_port,
                seq_num: 0,
                ack_num: 0,
                data_offset: 5,
                flags: TCP_SYN,
                window: 64240,
                checksum: 0,
                urgent_ptr: 0,
            }),
            r@.skip(54) == self.payload@,
    {
        build_syn_frame(
            self.src_ip,
            self.dst_ip,
            self.src_port,
            self.dst_port,
            0,
            false,
            self.payload.as_slice(),
        )
    }
}

} // verus!
