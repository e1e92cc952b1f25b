//! The per-frame pipeline: strip the link header, decode the IPv4 header,
//! reassemble fragments, decode the TCP header, drive the flow table, and
//! classify the application protocol, producing at most one analyzed record
//! per frame. Reassembly cleanup and the flow-table sweep run on a fixed
//! packet-count cadence.

use vstd::prelude::*;
use crate::ip_header::IpHeader;
use crate::ip_header::spec_ip_header;
use crate::ip_header::parse_ip_header;
use crate::tcp_header::TcpHeader;
use crate::tcp_header::spec_tcp_header;
use crate::tcp_header::parse_tcp_header;
use crate::tcp_stream::TcpState;
use crate::stream_table::TcpStreamTable;
use crate::stream_table::TcpStreamKey;
use crate::stream_table::DispatchResult;
use crate::stream_table::dispatch_spec;
use crate::stream_table::sweep_pred;
use crate::stream_table::table_wf;
use crate::tcp_stream::StreamModel;
use crate::ip_reassembly::IpReassembler;
use crate::ip_reassembly::FragKey;
use crate::ip_reassembly::FragSetModel;
use crate::ip_reassembly::process_spec;
use crate::ip_reassembly::cleanup_pred;
use crate::ip_reassembly::reasm_wf;
use crate::ip_reassembly::REASSEMBLY_TIMEOUT_SECS;
use crate::protocol_identifier::ApplicationProtocol;
use crate::protocol_identifier::spec_identify;
use crate::protocol_identifier::identify_protocol;
use crate::byte_ops::subrange_vec;

verus! {

/// Seconds a stream may sit idle before the sweep reclaims it.
pub const STREAM_RETENTION_SECS: u64 = 300;

/// Cleanup and sweep run once every this many processed frames.
pub const MAINTENANCE_INTERVAL_PACKETS: u64 = 100;

/// Bytes of link-layer header stripped from every frame.
pub const ETH_HEADER_SIZE: usize = 14;

/// What the base64 crate's standard engine returns for these bytes: a pure
/// function of the input alone.
pub uninterp spec fn base64_of(b: Seq<u8>) -> Seq<char>;

/// Relies on base64's `Engine::encode` with the STANDARD engine: the padded
/// encoding is a function of the input bytes alone, four characters for
/// every started group of three bytes.
#[verifier::external_body]
fn encode_base64(bytes: &[u8]) -> (r: String)
    requires
        bytes@.len() <= 0x3fff_ffff,
    ensures
        r@ == base64_of(bytes@),
        r@.len() == 4 * ((bytes@.len() + 2) / 3),
{
    base64::Engine::encode(&base64::engine::general_purpose::STANDARD, bytes)
}

/// One analyzed frame, ready for display or persistence.
pub struct AnalyzedRecord {
    pub timestamp: u64,
    pub src_ip: u32,
    pub dst_ip: u32,
    pub src_port: u16,
    pub dst_port: u16,
    pub ip_version: u8,
    pub ip_header_len: u8,
    pub total_length: u16,
    pub ttl: u8,
    pub flags_fragment_offset: u16,
    pub seq_num: u32,
    pub ack_num: u32,
    pub window: u16,
    pub tcp_flags: u8,
    pub data_offset: u8,
    pub payload_len: usize,
    pub is_from_client: bool,
    pub state: TcpState,
    pub app_protocol: ApplicationProtocol,
    /// The raw payload, base64-encoded; present only when the pipeline's
    /// payload policy is on.
    pub payload_base64: Option<String>,
}

/// The mathematical value of an analyzed record.
pub struct RecordModel {
    pub timestamp: u64,
    pub src_ip: u32,
    pub dst_ip: u32,
    pub src_port: u16,
    pub dst_port: u16,
    pub ip_version: u8,
    pub ip_header_len: u8,
    pub total_length: u16,
    pub ttl: u8,
    pub flags_fragment_offset: u16,
    pub seq_num: u32,
    pub ack_num: u32,
    pub window: u16,
    pub tcp_flags: u8,
    pub data_offset: u8,
    pub payload_len: usize,
    pub is_from_client: bool,
    pub state: TcpState,
    pub app_protocol: ApplicationProtocol,
    pub payload_base64: Option<Seq<char>>,
}

impl View for AnalyzedRecord {
    type V = RecordModel;

    open spec fn view(&self) -> RecordModel {
        RecordModel {
            timestamp: self.timestamp,
            src_ip: self.src_ip,
            dst_ip: self.dst_ip,
            src_port: self.src_port,
            dst_port: self.dst_port,
            ip_version: self.ip_version,
            ip_header_len: self.ip_header_len,
            total_length: self.total_length,
            ttl: self.ttl,
            flags_fragment_offset: self.flags_fragment_offset,
            seq_num: self.seq_num,
            ack_num: self.ack_num,
            window: self.window,
            tcp_flags: self.tcp_flags,
            data_offset: self.data_offset,
            payload_len: self.payload_len,
            is_from_client: self.is_from_client,
            state: self.state,
            app_protocol: self.app_protocol,
            payload_base64: match self.payload_base64 {
                Some(s) => Some(s@),
                None => None,
            },
        }
    }
}

/// The record the pipeline emits for a dispatched segment.
pub open spec fn record_of(
    h: IpHeader,
    th: TcpHeader,
    payload: Seq<u8>,
    dr: DispatchResult,
    now: u64,
    include_payload: bool,
) -> RecordModel {
    RecordModel {
        timestamp: now,
        src_ip: h.src_ip,
        dst_ip: h.dst_ip,
        src_port: th.src_port,
        dst_port: th.dst_port,
        ip_version: h.version,
        ip_header_len: h.ihl,
        total_length: h.total_length,
        ttl: h.ttl,
        flags_fragment_offset: h.flags_fragment_offset,
        seq_num: th.seq_num,
        ack_num: th.ack_num,
        window: th.window,
        tcp_flags: th.flags,
        data_offset: th.data_offset,
        payload_len: payload.len() as usize,
        is_from_client: dr.is_from_client,
        state: dr.state,
        app_protocol: spec_identify(th.src_port, th.dst_port, payload),
        payload_base64: if include_payload {
            Some(base64_of(payload))
        } else {
            None
        },
    }
}

/// What analyzing one frame does to the reassembler and the flow table, and
/// the record it yields: each failed stage (frame too short, not IPv4, a
/// malformed length, a non-TCP protocol, an incomplete fragment set, an
/// unknown flow without a SYN) drops the frame and yields nothing.
pub open spec fn spec_frame_analysis(
    reasm: Seq<(FragKey, FragSetModel)>,
    table: Seq<(TcpStreamKey, StreamModel)>,
    frame: Seq<u8>,
    now: u64,
    include_payload: bool,
) -> (Seq<(FragKey, FragSetModel)>, Seq<(TcpStreamKey, StreamModel)>, Option<RecordModel>) {
    if frame.len() <= ETH_HEADER_SIZE {
        (reasm, table, None)
    } else {
        let ip_data = frame.skip(ETH_HEADER_SIZE as int);
        if !(ip_data.len() >= 20 && ip_data[0] >> 4 == 4) {
            (reasm, table, None)
        } else {
            let h = spec_ip_header(ip_data);
            if !(20 <= h.ihl && h.ihl as int <= h.total_length as int && h.total_length as int
                <= ip_data.len()) {
                (reasm, table, None)
            } else {
                let payload = ip_data.subrange(h.ihl as int, h.total_length as int);
                let step = process_spec(reasm, h, payload, now);
                match step.1 {
                    None => (step.0, table, None),
                    Some(datagram) => {
                        if h.protocol != 6 || datagram.len() < 20 {
                            (step.0, table, None)
                        } else {
                            let th = spec_tcp_header(datagram);
                            let tlen = th.data_offset as int * 4;
                            if tlen < 20 || tlen > datagram.len() {
                                (step.0, table, None)
                            } else {
                                let options = datagram.subrange(20, tlen);
                                let tcp_payload = datagram.subrange(tlen, datagram.len() as int);
                                if tcp_payload.len() > 0xffff {
                                    (step.0, table, None)
                                } else {
                                    let fwd = TcpStreamKey {
                                        ip_a: h.src_ip,
                                        port_a: th.src_port,
                                        ip_b: h.dst_ip,
                                        port_b: th.dst_port,
                                    };
                                    let dstep = dispatch_spec(
                                        table,
                                        fwd,
                                        th.seq_num,
                                        th.ack_num,
                                        th.flags,
                                        options,
                                        tcp_payload,
                                        th.window,
                                        now,
                                    );
                                    match dstep.1 {
                                        None => (step.0, dstep.0, None),
                                        Some(dr) => (
                                            step.0,
                                            dstep.0,
                                            Some(
                                                record_of(
                                                    h,
                                                    th,
                                                    tcp_payload,
                                                    dr,
                                                    now,
                                                    include_payload,
                                                ),
                                            ),
                                        ),
                                    }
                                }
                            }
                        }
                    },
                }
            }
        }
    }
}

/// True when the record fields equal the model's, character for character
/// for the encoded payload.
pub open spec fn record_matches(r: AnalyzedRecord, m: RecordModel) -> bool {
    r@ == m
}

/// The analysis orchestrator: owns the reassembler and the flow table and
/// feeds them one frame at a time.
pub struct PacketPipeline {
    pub reassembler: IpReassembler,
    pub streams: TcpStreamTable,
    pub packets_seen: u64,
    /// Whether emitted records carry the base64-encoded payload.
    pub include_payload: bool,
}

pub open spec fn pipeline_wf(p: PacketPipeline) -> bool {
    reasm_wf(p.reassembler@) && table_wf(p.streams@)
}

impl PacketPipeline {
    /// A fresh pipeline with the default timeouts.
    pub fn new(include_payload: bool) -> (r: PacketPipeline)
        ensures
            pipeline_wf(r),
            r.reassembler@ =~= Seq::<(FragKey, FragSetModel)>::empty(),
            r.streams@ =~= Seq::<(TcpStreamKey, StreamModel)>::empty(),
            r.packets_seen == 0,
            r.include_payload == include_payload,
            r.reassembler.timeout_secs == REASSEMBLY_TIMEOUT_SECS,
            r.streams.retention_secs == STREAM_RETENTION_SECS,
    {
        PacketPipeline {
            reassembler: IpReassembler::new(REASSEMBLY_TIMEOUT_SECS),
            streams: TcpStreamTable::new(STREAM_RETENTION_SECS),
            packets_seen: 0,
            include_payload,
        }
    }

    /// Analyzes one raw link-layer frame, returning at most one record, and
    /// runs cleanup and the idle sweep on the maintenance cadence.
    pub fn process(&mut self, frame: &[u8], now: u64) -> (r: Option<AnalyzedRecord>)
        requires
            pipeline_wf(*old(self)),
        ensures
            pipeline_wf(*final(self)),
            final(self).packets_seen == vstd::wrapping::u64_specs::wrapping_add(
                old(self).packets_seen,
                1,
            ),
            final(self).include_payload == old(self).include_payload,
            final(self).reassembler.timeout_secs == old(self).reassembler.timeout_secs,
            final(self).streams.retention_secs == old(self).streams.retention_secs,
            ({
                let step = spec_frame_analysis(
                    old(self).reassembler@,
                    old(self).streams@,
                    frame@,
                    now,
                    old(self).include_payload,
                );
                let maintain = final(self).packets_seen % MAINTENANCE_INTERVAL_PACKETS == 0;
                (final(self).reassembler@ == if maintain {
                    step.0.filter(cleanup_pred(now, old(self).reassembler.timeout_secs))
                } else {
                    step.0
                }) && (final(self).streams@ == if maintain {
                    step.1.filter(sweep_pred(now, old(self).streams.retention_secs))
                } else {
                    step.1
                }) && (match r {
                    Some(rec) => step.2 matches Some(m) && record_matches(rec, m),
                    None => step.2 is None,
                })
            }),
    {
        let ghost old_reasm = self.reassembler@;
        let ghost old_table = self.streams@;
        let ghost step = spec_frame_analysis(
            old_reasm,
            old_table,
            frame@,
            now,
            self.include_payload,
        );
        self.packets_seen = self.packets_seen.wrapping_add(1);
        let record = self.analyze_frame(frame, now);
        proof {
            assert(self.reassembler@ == step.0);
            assert(self.streams@ == step.1);
        }
        if self.packets_seen % MAINTENANCE_INTERVAL_PACKETS == 0 {
            self.reassembler.cleanup(now);
            self.streams.sweep(now);
        }
        record
    }

    /// The analysis of one frame without the maintenance cadence.
    fn analyze_frame(&mut self, frame: &[u8], now: u64) -> (r: Option<AnalyzedRecord>)
        requires
            pipeline_wf(*old(self)),
        ensures
            pipeline_wf(*final(self)),
            final(self).packets_seen == old(self).packets_seen,
            final(self).include_payload == old(self).include_payload,
            final(self).reassembler.timeout_secs == old(self).reassembler.timeout_secs,
            final(self).streams.retention_secs == old(self).streams.retention_secs,
            ({
                let step = spec_frame_analysis(
                    old(self).reassembler@,
                    old(self).streams@,
                    frame@,
                    now,
                    old(self).include_payload,
                );
                final(self).reassembler@ == step.0 && final(self).streams@ == step.1 && (match r {
                    Some(rec) => step.2 matches Some(m) && record_matches(rec, m),
                    None => step.2 is None,
                })
            }),
    {
        if frame.len() <= ETH_HEADER_SIZE {
            return None;
        }
        let ip_data = &frame[ETH_HEADER_SIZE..frame.len()];
        proof {
            assert(ip_data@ =~= frame@.skip(ETH_HEADER_SIZE as int));
        }
        let parsed = parse_ip_header(ip_data);
        if parsed.is_none() {
            return None;
        }
        let (h, ihl) = parsed.unwrap();
        let payload = match extract_ip_payload(ip_data, &h) {
            Some(p) => p,
            None => {
                return None;
            },
        };
        let reassembled = self.reassembler.process_fragment(&h, payload.as_slice(), now);
        let datagram = match reassembled {
            Some(d) => d,
            None => {
                return None;
            },
        };
        if h.protocol != 6 {
            return None;
        }
        let tparsed = parse_tcp_header(datagram.as_slice());
        if tparsed.is_none() {
            return None;
        }
        let (th, tlen) = tparsed.unwrap();
        if tlen < 20 || tlen > datagram.len() {
            return None;
        }
        let options = subrange_vec(datagram.as_slice(), 20, tlen);
        let tcp_payload = subrange_vec(datagram.as_slice(), tlen, datagram.len());
        if tcp_payload.len() > 0xffff {
            return None;
        }
        let dr = match self.streams.dispatch(
            &h,
            &th,
            options.as_slice(),
            tcp_payload.as_slice(),
            now,
        ) {
            Some(dr) => dr,
            None => {
                return None;
            },
        };
        let app_protocol = identify_protocol(th.src_port, th.dst_port, tcp_payload.as_slice());
        let payload_base64 = if self.include_payload {
            Some(encode_base64(tcp_payload.as_slice()))
        } else {
            None
        };
        Some(
            AnalyzedRecord {
                timestamp: now,
                src_ip: h.src_ip,
                dst_ip: h.dst_ip,
                src_port: th.src_port,
                dst_port: th.dst_port,
                ip_version: h.version,
                ip_header_len: h.ihl,
                total_length: h.total_length,
                ttl: h.ttl,
                flags_fragment_offset: h.flags_fragment_offset,
                seq_num: th.seq_num,
                ack_num: th.ack_num,
                window: th.window,
                tcp_flags: th.flags,
                data_offset: th.data_offset,
                payload_len: tcp_payload.len(),
                is_from_client: dr.is_from_client,
                state: dr.state,
                app_protocol,
                payload_base64,
            },
        )
    }
}

/// The bytes an IPv4 header says it carries onward: the declared total
/// length minus the header. For every accepted header the returned length is
/// exactly `total_length` minus the reported header length.
pub fn extract_ip_payload(ip_data: &[u8], h: &IpHeader) -> (r: Option<Vec<u8>>)
    ensures
        r is Some <==> 20 <= h.ihl && h.ihl as int <= h.total_length as int && h.total_length
            as int <= ip_data@.len(),
        r matches Some(v) ==> v@ == ip_data@.subrange(h.ihl as int, h.total_length as int)
            && v@.len() == h.total_length - h.ihl,
{
    if h.ihl < 20 {
        return None;
    }
    if (h.ihl as u16) > h.total_length {
        return None;
    }
    if (h.total_length as usize) > ip_data.len() {
        return None;
    }
    Some(subrange_vec(ip_data, h.ihl as usize, h.total_length as usize))
}

/// Ports whose application data the persistence policy treats as
/// cleartext.
pub fn is_cleartext_port(port: u16) -> (r: bool)
    ensures
        r == (port == 80 || port == 21 || port == 23 || port == 25 || port == 110 || port == 143),
{
    port == 80 || port == 21 || port == 23 || port == 25 || port == 110 || port == 143
}

} // verus!
