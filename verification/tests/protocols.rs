use packet_analysis::protocol_identifier::{identify_protocol, ApplicationProtocol};

#[test]
fn well_known_port_wins_over_content() {
    assert_eq!(identify_protocol(80, 51000, b"irrelevant"), ApplicationProtocol::HTTP);
}

#[test]
fn ssh_banner_is_recognized() {
    assert_eq!(identify_protocol(51000, 51000, b"SSH-2.0-OpenSSH"), ApplicationProtocol::SSH);
}

#[test]
fn unknown_payload_is_unknown() {
    assert_eq!(identify_protocol(51000, 51000, b"randombytes"), ApplicationProtocol::Unknown);
}

#[test]
fn port_table_matches_either_side() {
    assert_eq!(identify_protocol(51000, 443, b""), ApplicationProtocol::HTTPS);
    assert_eq!(identify_protocol(3306, 51000, b""), ApplicationProtocol::MySQL);
    assert_eq!(identify_protocol(51000, 6379, b""), ApplicationProtocol::Redis);
    assert_eq!(identify_protocol(22, 51000, b""), ApplicationProtocol::SSH);
    assert_eq!(identify_protocol(51000, 9200, b""), ApplicationProtocol::Elasticsearch);
}

#[test]
fn banners_classify_without_port_hits() {
    assert_eq!(identify_protocol(51000, 51000, b"HTTP/1.1 200 OK"), ApplicationProtocol::HTTP);
    assert_eq!(identify_protocol(51000, 51000, b"GET / HTTP/1.1"), ApplicationProtocol::HTTP);
    assert_eq!(identify_protocol(51000, 51000, b"POST /x"), ApplicationProtocol::HTTP);
    assert_eq!(
        identify_protocol(51000, 51000, b"220 welcome to my FTP server"),
        ApplicationProtocol::FTP
    );
    assert_eq!(identify_protocol(51000, 51000, b"EHLO mail"), ApplicationProtocol::SMTP);
    assert_eq!(identify_protocol(51000, 51000, b"HELO mail"), ApplicationProtocol::SMTP);
    assert_eq!(identify_protocol(51000, 51000, b"+OK ready"), ApplicationProtocol::POP3);
    assert_eq!(identify_protocol(51000, 51000, b"* OK IMAP4"), ApplicationProtocol::IMAP);
}

#[test]
fn a_220_banner_without_ftp_is_unknown() {
    assert_eq!(identify_protocol(51000, 51000, b"220 hello there"), ApplicationProtocol::Unknown);
}

#[test]
fn classification_is_deterministic() {
    let a = identify_protocol(51000, 51000, b"SSH-2.0-OpenSSH");
    let b = identify_protocol(51000, 51000, b"SSH-2.0-OpenSSH");
    assert_eq!(a, b);
}

#[test]
fn guess_protocol_known_port() {
    assert_eq!(packet_analysis::protocol_utils::guess_protocol(22), "SSH(推定)");
    assert_eq!(packet_analysis::protocol_utils::guess_protocol(9418), "Git(推定)");
    assert_eq!(packet_analysis::protocol_utils::guess_protocol(27017), "MongoDB(推定)");
}

#[test]
fn guess_protocol_unknown_port() {
    assert_eq!(packet_analysis::protocol_utils::guess_protocol(4), "Unknown");
}

#[test]
fn compact_table_guess_protocol() {
    assert_eq!(packet_analysis::port_to_protocol::guess_protocol(19132), "Minecraft(推定)");
    assert_eq!(packet_analysis::port_to_protocol::guess_protocol(80), "HTTP(推定)");
    assert_eq!(packet_analysis::port_to_protocol::guess_protocol(4), "Unknown");
}

#[test]
fn port_maps_hold_their_entries() {
    let big = packet_analysis::protocol_utils::create_port_protocol_map();
    assert_eq!(big.len(), 72);
    assert!(big.contains(&(53, "DNS")));
    assert!(big.contains(&(11211, "Memcached")));
    let small = packet_analysis::port_to_protocol::create_port_protocol_map();
    assert_eq!(small.len(), 14);
    assert!(small.contains(&(5432, "PostgreSQL")));
}
