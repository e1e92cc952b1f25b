use packet_analysis::ip_header::IpHeader;
use packet_analysis::tcp_header::TcpHeader;
use packet_analysis::tcp_stream::{TcpState, TcpStream};
use packet_analysis::stream_table::TcpStreamTable;

const FIN: u8 = 0x01;
const SYN: u8 = 0x02;
const ACK: u8 = 0x10;

fn ip(src: u32, dst: u32) -> IpHeader {
    IpHeader {
        version: 4,
        ihl: 20,
        tos: 0,
        total_length: 40,
        identification: 0,
        flags_fragment_offset: 0,
        ttl: 64,
        protocol: 6,
        checksum: 0,
        src_ip: src,
        dst_ip: dst,
    }
}

fn tcp(sp: u16, dp: u16, seq: u32, ack: u32, flags: u8) -> TcpHeader {
    TcpHeader {
        src_port: sp,
        dst_port: dp,
        seq_num: seq,
        ack_num: ack,
        data_offset: 5,
        flags,
        window: 64240,
        checksum: 0,
        urgent_ptr: 0,
    }
}

const A: u32 = 0x0a000001;
const B: u32 = 0x0a000002;

#[test]
fn handshake_and_teardown_walk_the_state_machine() {
    let mut table = TcpStreamTable::new(300);
    // SYN from the client
    let r = table.dispatch(&ip(A, B), &tcp(1234, 80, 100, 0, SYN), &[], &[], 0).unwrap();
    assert!(r.is_from_client);
    assert_eq!(r.state, TcpState::SynSent);
    // SYN+ACK from the server
    let r = table.dispatch(&ip(B, A), &tcp(80, 1234, 300, 101, SYN | ACK), &[], &[], 1).unwrap();
    assert!(!r.is_from_client);
    assert_eq!(r.state, TcpState::Established);
    // final ACK of the handshake
    let r = table.dispatch(&ip(A, B), &tcp(1234, 80, 101, 301, ACK), &[], &[], 2).unwrap();
    assert_eq!(r.state, TcpState::Established);
    // FIN from the client
    let r = table.dispatch(&ip(A, B), &tcp(1234, 80, 101, 301, FIN | ACK), &[], &[], 3).unwrap();
    assert_eq!(r.state, TcpState::FinWait1);
    // FIN+ACK from the server
    let r = table.dispatch(&ip(B, A), &tcp(80, 1234, 301, 102, FIN | ACK), &[], &[], 4).unwrap();
    assert_eq!(r.state, TcpState::FinWait2);
    // last ACK from the client
    let r = table.dispatch(&ip(A, B), &tcp(1234, 80, 102, 302, ACK), &[], &[], 5).unwrap();
    assert_eq!(r.state, TcpState::TimeWait);
    assert_eq!(table.len(), 1);
    // 120 simulated seconds of silence later, the next update closes and
    // removes the stream
    let r = table.dispatch(&ip(A, B), &tcp(1234, 80, 102, 302, ACK), &[], &[], 126).unwrap();
    assert_eq!(r.state, TcpState::Closed);
    assert_eq!(table.len(), 0);
}

#[test]
fn both_directions_resolve_to_one_stream() {
    let mut table = TcpStreamTable::new(300);
    let r = table.dispatch(&ip(A, B), &tcp(1234, 80, 100, 0, SYN), &[], &[], 0).unwrap();
    assert!(r.is_from_client);
    assert_eq!(table.len(), 1);
    // the reverse direction hits the same entry, not a second one
    let r = table.dispatch(&ip(B, A), &tcp(80, 1234, 300, 101, SYN | ACK), &[], &[], 1).unwrap();
    assert!(!r.is_from_client);
    assert_eq!(table.len(), 1);
    let r = table.dispatch(&ip(A, B), &tcp(1234, 80, 101, 301, ACK), &[], &[], 2).unwrap();
    assert!(r.is_from_client);
    assert_eq!(table.len(), 1);
}

#[test]
fn unsolicited_non_syn_packets_are_ignored() {
    let mut table = TcpStreamTable::new(300);
    assert!(table.dispatch(&ip(A, B), &tcp(1234, 80, 100, 0, ACK), &[], &[], 0).is_none());
    assert!(table.dispatch(&ip(A, B), &tcp(1234, 80, 100, 0, 0), b"data", &[], 0).is_none());
    assert_eq!(table.len(), 0);
}

#[test]
fn syn_options_set_the_mss() {
    let mut table = TcpStreamTable::new(300);
    let mss_1400 = [0x02u8, 0x04, 0x05, 0x78];
    table.dispatch(&ip(A, B), &tcp(1234, 80, 100, 0, SYN), &mss_1400, &[], 0).unwrap();
    assert_eq!(table.entries[0].1.client_mss, 1400);
    assert_eq!(table.entries[0].1.server_mss, 1460);
    let mss_9000 = [0x02u8, 0x04, 0x23, 0x28];
    table.dispatch(&ip(B, A), &tcp(80, 1234, 300, 101, SYN | ACK), &mss_9000, &[], 1).unwrap();
    assert_eq!(table.entries[0].1.server_mss, 9000);
}

#[test]
fn in_order_segments_are_buffered() {
    let mut s = TcpStream::new(1000, 0);
    // the SYN consumed sequence number 1000, so data starts at 1001
    s.update(true, 1001, 0, 0, b"hello", 500, 1);
    assert_eq!(s.client_data, b"hello".to_vec());
    assert_eq!(s.client_next_seq, 1006);
    s.update(true, 1006, 0, 0, b" world", 500, 2);
    assert_eq!(s.client_data, b"hello world".to_vec());
    assert_eq!(s.client_window, 500);
}

#[test]
fn out_of_order_segment_is_not_buffered() {
    let mut s = TcpStream::new(1000, 0);
    s.update(true, 1001, 0, 0, b"hello", 500, 1);
    assert_eq!(s.client_data, b"hello".to_vec());
    // a gap: this segment drives nothing into the buffer
    s.update(true, 5000, 0, 0, b"JUNK", 500, 2);
    assert_eq!(s.client_data, b"hello".to_vec());
    assert_eq!(s.client_next_seq, 1006);
    // the next in-order segment still appends correctly
    s.update(true, 1006, 0, 0, b" world", 500, 3);
    assert_eq!(s.client_data, b"hello world".to_vec());
}

#[test]
fn server_bytes_go_to_the_server_buffer() {
    let mut s = TcpStream::new(1000, 0);
    s.update(false, 2000, 0, SYN | ACK, b"", 600, 1);
    s.update(false, 2001, 0, 0, b"reply", 600, 2);
    assert_eq!(s.server_data, b"reply".to_vec());
    assert_eq!(s.client_data, Vec::<u8>::new());
    assert_eq!(s.server_window, 600);
}

#[test]
fn sequence_numbers_wrap_around() {
    let mut s = TcpStream::new(u32::MAX, 0);
    // the SYN consumed the last sequence number, so data starts at 0
    assert_eq!(s.client_next_seq, 0);
    s.update(true, 0, 0, 0, b"ab", 500, 1);
    assert_eq!(s.client_data, b"ab".to_vec());
    assert_eq!(s.client_next_seq, 2);
}

#[test]
fn idle_established_stream_is_swept() {
    let mut table = TcpStreamTable::new(300);
    table.dispatch(&ip(A, B), &tcp(1234, 80, 100, 0, SYN), &[], &[], 0).unwrap();
    table.dispatch(&ip(B, A), &tcp(80, 1234, 300, 101, SYN | ACK), &[], &[], 10).unwrap();
    assert_eq!(table.len(), 1);
    // not yet past the retention timeout
    table.sweep(310);
    assert_eq!(table.len(), 1);
    // idle for longer than the retention timeout while still Established
    table.sweep(311);
    assert_eq!(table.len(), 0);
}

#[test]
fn sweep_closes_expired_time_wait_streams() {
    let mut table = TcpStreamTable::new(300);
    table.dispatch(&ip(A, B), &tcp(1234, 80, 100, 0, SYN), &[], &[], 0).unwrap();
    table.dispatch(&ip(B, A), &tcp(80, 1234, 300, 101, SYN | ACK), &[], &[], 0).unwrap();
    table.dispatch(&ip(A, B), &tcp(1234, 80, 101, 301, FIN | ACK), &[], &[], 0).unwrap();
    table.dispatch(&ip(B, A), &tcp(80, 1234, 301, 102, FIN | ACK), &[], &[], 0).unwrap();
    let r = table.dispatch(&ip(A, B), &tcp(1234, 80, 102, 302, ACK), &[], &[], 0).unwrap();
    assert_eq!(r.state, TcpState::TimeWait);
    table.sweep(119);
    assert_eq!(table.len(), 1);
    table.sweep(120);
    assert_eq!(table.len(), 0);
}
