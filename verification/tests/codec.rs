use packet_analysis::ip_header::parse_ip_header;
use packet_analysis::tcp_header::{parse_tcp_header, parse_tcp_options};
use packet_analysis::pipeline::extract_ip_payload;
use packet_analysis::frame_builder::{build_syn_frame, SendPacketSettings};

fn sample_ip_header_bytes() -> Vec<u8> {
    // version 4, IHL 5, total length 60, ident 0x1234, flags/offset 0x2001,
    // TTL 64, protocol 6, checksum 0xBEEF, 10.0.0.1 -> 192.168.1.2
    vec![
        0x45, 0x07, 0x00, 0x3c, 0x12, 0x34, 0x20, 0x01, 0x40, 0x06, 0xbe, 0xef, 10, 0, 0, 1, 192,
        168, 1, 2,
    ]
}

#[test]
fn ip_header_fields_decode() {
    let bytes = sample_ip_header_bytes();
    let (h, len) = parse_ip_header(&bytes).expect("valid header");
    assert_eq!(len, 20);
    assert_eq!(h.version, 4);
    assert_eq!(h.ihl, 20);
    assert_eq!(h.tos, 0x07);
    assert_eq!(h.total_length, 60);
    assert_eq!(h.identification, 0x1234);
    assert_eq!(h.flags_fragment_offset, 0x2001);
    assert_eq!(h.ttl, 64);
    assert_eq!(h.protocol, 6);
    assert_eq!(h.checksum, 0xbeef);
    assert_eq!(h.src_ip, 0x0a000001);
    assert_eq!(h.dst_ip, 0xc0a80102);
}

#[test]
fn ip_header_rejects_short_input() {
    assert!(parse_ip_header(&[0x45; 19]).is_none());
}

#[test]
fn ip_header_rejects_other_versions() {
    let mut bytes = sample_ip_header_bytes();
    bytes[0] = 0x65; // version 6
    assert!(parse_ip_header(&bytes).is_none());
}

#[test]
fn tcp_header_fields_decode() {
    let bytes: Vec<u8> = vec![
        0x00, 0x50, 0xc3, 0x50, // ports 80 -> 50000
        0x00, 0x00, 0x00, 0x64, // seq 100
        0x00, 0x00, 0x00, 0xc8, // ack 200
        0x60, 0x12, // data offset 6, flags SYN|ACK
        0xfa, 0xf0, // window 64240
        0xab, 0xcd, // checksum
        0x00, 0x07, // urgent pointer
        0x02, 0x04, 0x05, 0xb4, // MSS option
    ];
    let (h, len) = parse_tcp_header(&bytes).expect("valid header");
    assert_eq!(len, 24);
    assert_eq!(h.src_port, 80);
    assert_eq!(h.dst_port, 50000);
    assert_eq!(h.seq_num, 100);
    assert_eq!(h.ack_num, 200);
    assert_eq!(h.data_offset, 6);
    assert_eq!(h.flags, 0x12);
    assert_eq!(h.window, 64240);
    assert_eq!(h.checksum, 0xabcd);
    assert_eq!(h.urgent_ptr, 7);
}

#[test]
fn tcp_header_rejects_short_input() {
    assert!(parse_tcp_header(&[0u8; 19]).is_none());
}

#[test]
fn tcp_options_find_mss() {
    assert_eq!(parse_tcp_options(&[0x02, 0x04, 0x05, 0xb4]), Some(1460));
    // no-ops before the MSS option
    assert_eq!(parse_tcp_options(&[0x01, 0x01, 0x02, 0x04, 0x23, 0x28]), Some(9000));
    // another option is skipped by its declared length
    assert_eq!(parse_tcp_options(&[0x03, 0x03, 0x07, 0x02, 0x04, 0x00, 0x40]), Some(64));
}

#[test]
fn tcp_options_end_of_list_stops_scan() {
    assert_eq!(parse_tcp_options(&[0x00, 0x02, 0x04, 0x05, 0xb4]), None);
}

#[test]
fn tcp_options_malformed_length_stops_scan() {
    // declared length runs past the slice
    assert_eq!(parse_tcp_options(&[0x03, 0x0a, 0x00]), None);
    // declared length below the minimum
    assert_eq!(parse_tcp_options(&[0x03, 0x01, 0x02, 0x04, 0x05, 0xb4]), None);
    // empty list
    assert_eq!(parse_tcp_options(&[]), None);
}

#[test]
fn ip_payload_length_is_total_minus_header() {
    // total length 32: a 20-byte header carrying 12 payload bytes
    let mut bytes = sample_ip_header_bytes();
    bytes[2] = 0;
    bytes[3] = 32;
    bytes.extend_from_slice(&[9u8; 20]);
    let (h, _) = parse_ip_header(&bytes).unwrap();
    let payload = extract_ip_payload(&bytes, &h).expect("lengths consistent");
    assert_eq!(payload.len(), (h.total_length - h.ihl as u16) as usize);
    assert_eq!(payload, vec![9u8; 12]);
}

#[test]
fn ip_payload_rejects_inconsistent_lengths() {
    let bytes = sample_ip_header_bytes(); // claims total length 60, only 20 bytes present
    let (h, _) = parse_ip_header(&bytes).unwrap();
    assert!(extract_ip_payload(&bytes, &h).is_none());
}

#[test]
fn built_syn_frame_decodes_back() {
    let payload = b"probe".to_vec();
    let frame = build_syn_frame(0x0a000001, 0xc0a80102, 4321, 80, 64, true, &payload);
    assert_eq!(frame.len(), 54 + 5);
    assert_eq!(&frame[0..6], &[0xff; 6]);
    assert_eq!(&frame[6..12], &[0x00; 6]);
    assert_eq!(&frame[12..14], &[0x08, 0x00]);
    let (ih, ilen) = parse_ip_header(&frame[14..]).expect("valid ip header");
    assert_eq!(ilen, 20);
    assert_eq!(ih.version, 4);
    assert_eq!(ih.total_length, 45);
    assert_eq!(ih.ttl, 64);
    assert_eq!(ih.protocol, 6);
    assert_eq!(ih.src_ip, 0x0a000001);
    assert_eq!(ih.dst_ip, 0xc0a80102);
    let (th, tlen) = parse_tcp_header(&frame[34..]).expect("valid tcp header");
    assert_eq!(tlen, 20);
    assert_eq!(th.src_port, 4321);
    assert_eq!(th.dst_port, 80);
    assert_eq!(th.flags, 0x02);
    assert_eq!(th.window, 64240);
    assert_eq!(&frame[54..], b"probe");
}

#[test]
fn default_send_settings() {
    let s = SendPacketSettings::default();
    assert_eq!(s.src_ip, 0x01010101);
    assert_eq!(s.dst_ip, 0x03030303);
    assert_eq!(s.src_port, 50000);
    assert_eq!(s.dst_port, 50000);
    assert_eq!(s.packet_size, 1000);
    assert_eq!(s.packet_count, 1000);
    assert_eq!(s.interval_ms, 1);
    assert_eq!(s.timeout_ms, 10000);
    assert_eq!(s.payload, vec![0u8; 1000]);
    let frame = s.build_frame();
    assert_eq!(frame.len(), 1054);
}

#[test]
fn send_settings_setters() {
    let mut s = SendPacketSettings::default();
    s.set_src_ip(0x7f000001);
    s.set_dst_ip(0x7f000002);
    s.set_src_port(1);
    s.set_dst_port(2);
    s.set_packet_size(10);
    s.set_packet_count(3);
    s.set_interval(5);
    s.set_timeout(100);
    s.set_payload(vec![1, 2, 3]);
    assert_eq!(s.get_src_ip(), 0x7f000001);
    assert_eq!(s.dst_ip, 0x7f000002);
    assert_eq!(s.src_port, 1);
    assert_eq!(s.dst_port, 2);
    assert_eq!(s.packet_size, 10);
    assert_eq!(s.packet_count, 3);
    assert_eq!(s.interval_ms, 5);
    assert_eq!(s.timeout_ms, 100);
    assert_eq!(s.payload, vec![1, 2, 3]);
}
