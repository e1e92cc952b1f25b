use packet_analysis::app_state::{App, CurrentScreen, PACKET_RING_CAPACITY};
use packet_analysis::capture_control::{capture_poll_decision, should_continue_capture, CaptureDecision};
use packet_analysis::packet_parser::{parse_icmp, parse_ipv4, parse_packet, u8_decimal, IpAddrValue};
use packet_analysis::sql::build_insert_statement;
use packet_analysis::ui_info::parse_packet_info;

#[test]
fn toggle_requires_a_selected_device() {
    let mut app = App::new();
    assert!(!app.toggle_capture());
    assert!(!app.is_capturing);
    assert!(app.message.is_some());
    app.selected_device = Some("eth0".to_string());
    assert!(app.toggle_capture());
    assert!(app.is_capturing);
    assert!(app.message.is_none());
    assert!(app.toggle_capture());
    assert!(!app.is_capturing);
}

#[test]
fn packet_ring_is_bounded() {
    let mut app = App::new();
    for i in 0..(PACKET_RING_CAPACITY + 5) {
        app.add_captured_packet(format!("packet {}", i));
    }
    assert_eq!(app.captured_packets.len(), PACKET_RING_CAPACITY);
    assert_eq!(app.packet_count, PACKET_RING_CAPACITY + 5);
    // the oldest entries fell out the front
    assert_eq!(app.captured_packets[0].0, 6);
    assert_eq!(app.captured_packets[0].1, "packet 5");
}

#[test]
fn device_cursor_wraps_both_ways() {
    let mut app = App::new();
    app.next_device();
    assert_eq!(app.selected_device_index, 0);
    app.available_devices = vec!["a".to_string(), "b".to_string(), "c".to_string()];
    app.next_device();
    assert_eq!(app.selected_device_index, 1);
    app.next_device();
    app.next_device();
    assert_eq!(app.selected_device_index, 0);
    app.previous_device();
    assert_eq!(app.selected_device_index, 2);
    app.previous_device();
    assert_eq!(app.selected_device_index, 1);
}

#[test]
fn selecting_a_new_device_stops_capture() {
    let mut app = App::new();
    app.available_devices = vec!["eth0".to_string(), "wlan0".to_string()];
    app.select_current_device();
    assert_eq!(app.selected_device.as_deref(), Some("eth0"));
    assert!(app.device_changed);
    assert_eq!(app.message.as_deref(), Some("デバイス eth0 を選択しました"));
    app.device_changed = false;
    app.is_capturing = true;
    app.selected_device_index = 1;
    app.select_current_device();
    assert_eq!(app.selected_device.as_deref(), Some("wlan0"));
    assert!(!app.is_capturing);
    assert!(app.device_changed);
    // re-selecting the same device changes nothing
    app.device_changed = false;
    app.select_current_device();
    assert!(!app.device_changed);
}

#[test]
fn reset_takes_the_scan_result() {
    let mut app = App::new();
    app.packet_count = 9;
    app.add_captured_packet("x".to_string());
    app.reset(Some(vec!["eth0".to_string()]));
    assert_eq!(app.current_screen, CurrentScreen::Main);
    assert_eq!(app.available_devices, vec!["eth0".to_string()]);
    assert_eq!(app.packet_count, 0);
    assert!(app.captured_packets.is_empty());
    assert!(app.message.is_none());
    app.reset(None);
    assert!(app.available_devices.is_empty());
    assert_eq!(app.message.as_deref(), Some("ネットワークデバイスのスキャンに失敗しました。"));
}

#[test]
fn poll_decisions_follow_the_shared_state() {
    let eth0 = "eth0".to_string();
    let wlan0 = "wlan0".to_string();
    assert_eq!(capture_poll_decision(false, false, Some(&eth0), Some(&eth0)), CaptureDecision::Pause);
    assert_eq!(capture_poll_decision(true, false, None, None), CaptureDecision::Wait);
    assert_eq!(
        capture_poll_decision(true, false, Some(&eth0), None),
        CaptureDecision::Start("eth0".to_string())
    );
    assert_eq!(capture_poll_decision(true, false, Some(&eth0), Some(&eth0)), CaptureDecision::Wait);
    assert_eq!(
        capture_poll_decision(true, true, Some(&eth0), Some(&eth0)),
        CaptureDecision::Start("eth0".to_string())
    );
    assert_eq!(
        capture_poll_decision(true, false, Some(&wlan0), Some(&eth0)),
        CaptureDecision::Start("wlan0".to_string())
    );
}

#[test]
fn the_read_loop_stops_when_state_changes() {
    let eth0 = "eth0".to_string();
    let wlan0 = "wlan0".to_string();
    assert!(should_continue_capture(true, Some(&eth0), &eth0));
    assert!(!should_continue_capture(false, Some(&eth0), &eth0));
    assert!(!should_continue_capture(true, Some(&wlan0), &eth0));
    assert!(!should_continue_capture(true, None, &eth0));
}

#[test]
fn summary_lines_split_into_columns() {
    let (si, sp, di, dp, proto) = parse_packet_info("10.0.0.1:80 > 192.168.1.2:51000 v4 TCP");
    assert_eq!(si, "10.0.0.1");
    assert_eq!(sp, "80");
    assert_eq!(di, "192.168.1.2");
    assert_eq!(dp, "51000");
    assert_eq!(proto, "TCP");
}

#[test]
fn malformed_summary_lines_fall_back() {
    let (si, sp, di, dp, proto) = parse_packet_info("nonsense");
    assert_eq!(si, "Unknown");
    assert_eq!(sp, "0");
    assert_eq!(di, "Unknown");
    assert_eq!(dp, "0");
    assert_eq!(proto, "Unknown");
}

#[test]
fn decimal_text_of_bytes() {
    assert_eq!(u8_decimal(0), "0");
    assert_eq!(u8_decimal(7), "7");
    assert_eq!(u8_decimal(42), "42");
    assert_eq!(u8_decimal(100), "100");
    assert_eq!(u8_decimal(255), "255");
}

#[test]
fn frame_summaries_decode() {
    // 14 Ethernet bytes, then an IPv4 TCP packet 10.0.0.1:80 -> 10.0.0.2:51000
    let mut frame = vec![0u8; 14];
    frame.extend_from_slice(&[
        0x45, 0, 0, 40, 0, 0, 0, 0, 64, 6, 0, 0, 10, 0, 0, 1, 10, 0, 0, 2,
    ]);
    frame.extend_from_slice(&[0x00, 0x50, 0xc7, 0x38]); // ports 80 and 51000
    frame.extend_from_slice(&[0u8; 16]);
    let (src, dst, label, sp, dp) = parse_packet(&frame).expect("summary");
    assert_eq!(src, IpAddrValue::V4(0x0a000001));
    assert_eq!(dst, IpAddrValue::V4(0x0a000002));
    assert_eq!(label, "v4 TCP");
    assert_eq!(sp, 80);
    assert_eq!(dp, 51000);
    assert!(parse_packet(&[0u8; 10]).is_none());
}

#[test]
fn icmp_types_are_named() {
    // ICMP echo request behind a 20-byte IPv4 header
    let mut bytes = vec![0x45, 0, 0, 28, 0, 0, 0, 0, 64, 1, 0, 0, 10, 0, 0, 1, 10, 0, 0, 2];
    bytes.push(8);
    assert_eq!(parse_icmp(&bytes, false), "ICMP echo request");
    bytes[20] = 0;
    assert_eq!(parse_icmp(&bytes, false), "ICMP echo reply");
    bytes[20] = 3;
    assert_eq!(parse_icmp(&bytes, false), "ICMP destination unreachable");
    bytes[20] = 11;
    assert_eq!(parse_icmp(&bytes, false), "ICMP time exceeded");
    bytes[20] = 42;
    assert_eq!(parse_icmp(&bytes, false), "ICMP(Type:42)");
    // the ICMP variant of a summary goes through parse_ipv4 as well
    bytes.extend_from_slice(&[0u8; 3]);
    let r = parse_ipv4(&bytes).expect("icmp summary");
    assert_eq!(r.2, "ICMP(Type:42)");
}

#[test]
fn insert_statements_are_parameterized() {
    let cols = vec!["arrival_time", "protocol", "payload"];
    let stmt = build_insert_statement("packet_log", &cols, 3);
    assert_eq!(stmt, "INSERT INTO packet_log (arrival_time, protocol, payload) VALUES (?, ?, ?)");
    let one = build_insert_statement("t", &vec!["c"], 1);
    assert_eq!(one, "INSERT INTO t (c) VALUES (?)");
    let none = build_insert_statement("t", &vec![], 0);
    assert_eq!(none, "INSERT INTO t () VALUES ()");
}
