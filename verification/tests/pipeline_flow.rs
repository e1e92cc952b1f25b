use packet_analysis::frame_builder::build_syn_frame;
use packet_analysis::pipeline::PacketPipeline;
use packet_analysis::protocol_identifier::ApplicationProtocol;
use packet_analysis::tcp_stream::TcpState;

const A: u32 = 0x0a000001;
const B: u32 = 0x0a000002;

#[test]
fn a_syn_frame_produces_a_record() {
    let mut p = PacketPipeline::new(true);
    let frame = build_syn_frame(A, B, 4321, 80, 64, false, b"abc");
    let rec = p.process(&frame, 7).expect("a record");
    assert_eq!(rec.timestamp, 7);
    assert_eq!(rec.src_ip, A);
    assert_eq!(rec.dst_ip, B);
    assert_eq!(rec.src_port, 4321);
    assert_eq!(rec.dst_port, 80);
    assert_eq!(rec.ip_version, 4);
    assert_eq!(rec.ip_header_len, 20);
    assert_eq!(rec.total_length, 43);
    assert_eq!(rec.tcp_flags, 0x02);
    assert_eq!(rec.payload_len, 3);
    assert!(rec.is_from_client);
    assert_eq!(rec.state, TcpState::SynSent);
    assert_eq!(rec.app_protocol, ApplicationProtocol::HTTP);
    // the payload travels base64-encoded when the policy is on
    assert_eq!(rec.payload_base64.as_deref(), Some("YWJj"));
}

#[test]
fn payload_policy_off_withholds_the_payload() {
    let mut p = PacketPipeline::new(false);
    let frame = build_syn_frame(A, B, 4321, 80, 64, false, b"abc");
    let rec = p.process(&frame, 7).expect("a record");
    assert!(rec.payload_base64.is_none());
}

#[test]
fn short_and_foreign_frames_yield_nothing() {
    let mut p = PacketPipeline::new(true);
    assert!(p.process(&[0u8; 14], 0).is_none());
    assert!(p.process(&[0u8; 5], 0).is_none());
    // an IPv6 version nibble behind the Ethernet header
    let mut v6 = vec![0u8; 14];
    v6.extend_from_slice(&[0x60; 40]);
    assert!(p.process(&v6, 0).is_none());
}

#[test]
fn unknown_flow_without_syn_yields_nothing() {
    let mut p = PacketPipeline::new(true);
    let mut frame = build_syn_frame(A, B, 4321, 80, 64, false, b"abc");
    // clear the SYN flag: byte 13 of the TCP header
    frame[34 + 13] = 0;
    assert!(p.process(&frame, 0).is_none());
}

#[test]
fn a_full_conversation_flows_through_the_pipeline() {
    let mut p = PacketPipeline::new(true);
    let syn = build_syn_frame(A, B, 4321, 80, 64, false, b"");
    let r = p.process(&syn, 0).unwrap();
    assert_eq!(r.state, TcpState::SynSent);
    let syn_ack = {
        let mut f = build_syn_frame(B, A, 80, 4321, 64, false, b"");
        f[34 + 13] = 0x12; // SYN|ACK
        f[34 + 8] = 0;
        f
    };
    let r = p.process(&syn_ack, 1).unwrap();
    assert!(!r.is_from_client);
    assert_eq!(r.state, TcpState::Established);
}

#[test]
fn fragmented_segments_reassemble_before_tcp_parsing() {
    let mut p = PacketPipeline::new(true);
    // one 24-byte TCP segment (20-byte header and 4 payload bytes), split in
    // two IP fragments of 16 and 8 bytes
    let whole = build_syn_frame(A, B, 4321, 80, 64, false, b"WXYZ");
    let segment = whole[34..].to_vec();
    assert_eq!(segment.len(), 24);

    let mut frag1 = vec![0u8; 14];
    frag1.extend_from_slice(&[
        0x45, 0, 0, 36, 0, 9, 0x20, 0, 64, 6, 0, 0, 10, 0, 0, 1, 10, 0, 0, 2,
    ]);
    frag1.extend_from_slice(&segment[..16]);
    assert!(p.process(&frag1, 0).is_none());

    let mut frag2 = vec![0u8; 14];
    frag2.extend_from_slice(&[
        0x45, 0, 0, 28, 0, 9, 0x00, 2, 64, 6, 0, 0, 10, 0, 0, 1, 10, 0, 0, 2,
    ]);
    frag2.extend_from_slice(&segment[16..]);
    let rec = p.process(&frag2, 1).expect("reassembled record");
    assert_eq!(rec.src_port, 4321);
    assert_eq!(rec.dst_port, 80);
    assert_eq!(rec.payload_len, 4);
    assert_eq!(rec.state, TcpState::SynSent);
}

#[test]
fn frame_counter_advances() {
    let mut p = PacketPipeline::new(false);
    assert_eq!(p.packets_seen, 0);
    p.process(&[0u8; 3], 0);
    p.process(&[0u8; 3], 0);
    assert_eq!(p.packets_seen, 2);
}

#[test]
fn maintenance_runs_on_the_packet_cadence() {
    let mut p = PacketPipeline::new(false);
    // one lone fragment opens a set that never completes
    let mut frag = vec![0u8; 14];
    frag.extend_from_slice(&[
        0x45, 0, 0, 28, 0, 9, 0x20, 0, 64, 6, 0, 0, 10, 0, 0, 1, 10, 0, 0, 2,
    ]);
    frag.extend_from_slice(&[0u8; 8]);
    assert!(p.process(&frag, 0).is_none());
    assert_eq!(p.reassembler.len(), 1);
    // and one idle stream sits in the table
    let syn = build_syn_frame(A, B, 4321, 80, 64, false, b"");
    p.process(&syn, 0).unwrap();
    assert_eq!(p.streams.len(), 1);
    // short frames up to the ninety-ninth packet: nothing is purged even
    // though both timeouts have long passed
    for _ in 0..97 {
        p.process(&[0u8; 3], 1000);
    }
    assert_eq!(p.packets_seen, 99);
    assert_eq!(p.reassembler.len(), 1);
    assert_eq!(p.streams.len(), 1);
    // the hundredth packet runs cleanup and the sweep
    p.process(&[0u8; 3], 1000);
    assert_eq!(p.packets_seen, 100);
    assert_eq!(p.reassembler.len(), 0);
    assert_eq!(p.streams.len(), 0);
}
