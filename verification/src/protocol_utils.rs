//! The display table mapping well-known ports to protocol names, and the
//! inference of a protocol name from a port number.

use vstd::prelude::*;
use vstd::string::StringExecFns;

verus! {

/// The name this table knows the port under, if any.
pub open spec fn spec_port_name(port: u16) -> Option<Seq<char>> {
    if port == 20 {
        Some("FTP-DATA"@)
    } else if port == 21 {
        Some("FTP"@)
    } else if port == 22 {
        Some("SSH"@)
    } else if port == 23 {
        Some("Telnet"@)
    } else if port == 25 {
        Some("SMTP"@)
    } else if port == 43 {
        Some("WHOIS"@)
    } else if port == 53 {
        Some("DNS"@)
    } else if port == 67 {
        Some("DHCP"@)
    } else if port == 68 {
        Some("DHCP"@)
    } else if port == 69 {
        Some("TFTP"@)
    } else if port == 80 {
        Some("HTTP"@)
    } else if port == 88 {
        Some("Kerberos"@)
    } else if port == 110 {
        Some("POP3"@)
    } else if port == 123 {
        Some("NTP"@)
    } else if port == 137 {
        Some("NetBIOS Name Service"@)
    } else if port == 138 {
        Some("NetBIOS Datagram Service"@)
    } else if port == 139 {
        Some("NetBIOS Session Service"@)
    } else if port == 143 {
        Some("IMAP"@)
    } else if port == 161 {
        Some("SNMP"@)
    } else if port == 162 {
        Some("SNMP Trap"@)
    } else if port == 179 {
        Some("BGP"@)
    } else if port == 194 {
        Some("IRC"@)
    } else if port == 389 {
        Some("LDAP"@)
    } else if port == 427 {
        Some("SLP"@)
    } else if port == 443 {
        Some("HTTPS"@)
    } else if port == 445 {
        Some("Microsoft-DS (SMB)"@)
    } else if port == 465 {
        Some("SMTPS"@)
    } else if port == 514 {
        Some("Syslog"@)
    } else if port == 548 {
        Some("AFP"@)
    } else if port == 587 {
        Some("SMTP (submission)"@)
    } else if port == 631 {
        Some("IPP"@)
    } else if port == 636 {
        Some("LDAPS"@)
    } else if port == 873 {
        Some("rsync"@)
    } else if port == 989 {
        Some("FTPS (data)"@)
    } else if port == 990 {
        Some("FTPS (control)"@)
    } else if port == 993 {
        Some("IMAPS"@)
    } else if port == 995 {
        Some("POP3S"@)
    } else if port == 1080 {
        Some("SOCKS Proxy"@)
    } else if port == 1194 {
        Some("OpenVPN"@)
    } else if port == 1433 {
        Some("Microsoft SQL Server"@)
    } else if port == 1521 {
        Some("Oracle"@)
    } else if port == 1723 {
        Some("PPTP"@)
    } else if port == 1812 {
        Some("RADIUS"@)
    } else if port == 2049 {
        Some("NFS"@)
    } else if port == 2222 {
        Some("SSH"@)
    } else if port == 3306 {
        Some("MySQL"@)
    } else if port == 3389 {
        Some("RDP"@)
    } else if port == 3690 {
        Some("SVN"@)
    } else if port == 4369 {
        Some("Erlang Port Mapper Daemon"@)
    } else if port == 5060 {
        Some("SIP"@)
    } else if port == 5061 {
        Some("SIP (TLS)"@)
    } else if port == 5222 {
        Some("XMPP"@)
    } else if port == 5353 {
        Some("mDNS"@)
    } else if port == 5432 {
        Some("PostgreSQL"@)
    } else if port == 5671 {
        Some("AMQP (TLS)"@)
    } else if port == 5672 {
        Some("AMQP"@)
    } else if port == 5900 {
        Some("VNC"@)
    } else if port == 6379 {
        Some("Redis"@)
    } else if port == 6667 {
        Some("IRC"@)
    } else if port == 8000 {
        Some("Alternative HTTP"@)
    } else if port == 8080 {
        Some("HTTP"@)
    } else if port == 8086 {
        Some("InfluxDB"@)
    } else if port == 8443 {
        Some("HTTPS"@)
    } else if port == 9000 {
        Some("Prometheus"@)
    } else if port == 9092 {
        Some("Kafka"@)
    } else if port == 9200 {
        Some("Elasticsearch"@)
    } else if port == 9418 {
        Some("Git"@)
    } else if port == 11211 {
        Some("Memcached"@)
    } else if port == 19132 {
        Some("Minecraft"@)
    } else if port == 19133 {
        Some("Minecraft"@)
    } else if port == 25565 {
        Some("Minecraft"@)
    } else if port == 27017 {
        Some("MongoDB"@)
    } else {
        None
    }
}

/// Builds the port-to-protocol-name table.
#[verifier::rlimit(100)]
pub fn create_port_protocol_map() -> (map: Vec<(u16, &'static str)>)
    ensures
        forall|i: int|
            0 <= i < map@.len() ==> spec_port_name((#[trigger] map@[i]).0) == Some(map@[i].1@),
        forall|p: u16|
            #[trigger] spec_port_name(p) is Some ==> exists|i: int|
                0 <= i < map@.len() && (#[trigger] map@[i]).0 == p,
{
    let map: Vec<(u16, &'static str)> = vec![
        (20, "FTP-DATA"),
        (21, "FTP"),
        (22, "SSH"),
        (23, "Telnet"),
        (25, "SMTP"),
        (43, "WHOIS"),
        (53, "DNS"),
        (67, "DHCP"),
        (68, "DHCP"),
        (69, "TFTP"),
        (80, "HTTP"),
        (88, "Kerberos"),
        (110, "POP3"),
        (123, "NTP"),
        (137, "NetBIOS Name Service"),
        (138, "NetBIOS Datagram Service"),
        (139, "NetBIOS Session Service"),
        (143, "IMAP"),
        (161, "SNMP"),
        (162, "SNMP Trap"),
        (179, "BGP"),
        (194, "IRC"),
        (389, "LDAP"),
        (427, "SLP"),
        (443, "HTTPS"),
        (445, "Microsoft-DS (SMB)"),
        (465, "SMTPS"),
        (514, "Syslog"),
        (548, "AFP"),
        (587, "SMTP (submission)"),
        (631, "IPP"),
        (636, "LDAPS"),
        (873, "rsync"),
        (989, "FTPS (data)"),
        (990, "FTPS (control)"),
        (993, "IMAPS"),
        (995, "POP3S"),
        (1080, "SOCKS Proxy"),
        (1194, "OpenVPN"),
        (1433, "Microsoft SQL Server"),
        (1521, "Oracle"),
        (1723, "PPTP"),
        (1812, "RADIUS"),
        (2049, "NFS"),
        (2222, "SSH"),
        (3306, "MySQL"),
        (3389, "RDP"),
        (3690, "SVN"),
        (4369, "Erlang Port Mapper Daemon"),
        (5060, "SIP"),
        (5061, "SIP (TLS)"),
        (5222, "XMPP"),
        (5353, "mDNS"),
        (5432, "PostgreSQL"),
        (5671, "AMQP (TLS)"),
        (5672, "AMQP"),
        (5900, "VNC"),
        (6379, "Redis"),
        (6667, "IRC"),
        (8000, "Alternative HTTP"),
        (8080, "HTTP"),
        (8086, "InfluxDB"),
        (8443, "HTTPS"),
        (9000, "Prometheus"),
        (9092, "Kafka"),
        (9200, "Elasticsearch"),
        (9418, "Git"),
        (11211, "Memcached"),
        (19132, "Minecraft"),
        (19133, "Minecraft"),
        (25565, "Minecraft"),
        (27017, "MongoDB"),
    ];
    proof {
        assert(map@[0].0 == 20 && map@[0].1@ == "FTP-DATA"@);
        assert(map@[1].0 == 21 && map@[1].1@ == "FTP"@);
        assert(map@[2].0 == 22 && map@[2].1@ == "SSH"@);
        assert(map@[3].0 == 23 && map@[3].1@ == "Telnet"@);
        assert(map@[4].0 == 25 && map@[4].1@ == "SMTP"@);
        assert(map@[5].0 == 43 && map@[5].1@ == "WHOIS"@);
        assert(map@[6].0 == 53 && map@[6].1@ == "DNS"@);
        assert(map@[7].0 == 67 && map@[7].1@ == "DHCP"@);
        assert(map@[8].0 == 68 && map@[8].1@ == "DHCP"@);
        assert(map@[9].0 == 69 && map@[9].1@ == "TFTP"@);
        assert(map@[10].0 == 80 && map@[10].1@ == "HTTP"@);
        assert(map@[11].0 == 88 && map@[11].1@ == "Kerberos"@);
        assert(map@[12].0 == 110 && map@[12].1@ == "POP3"@);
        assert(map@[13].0 == 123 && map@[13].1@ == "NTP"@);
        assert(map@[14].0 == 137 && map@[14].1@ == "NetBIOS Name Service"@);
        assert(map@[15].0 == 138 && map@[15].1@ == "NetBIOS Datagram Service"@);
        assert(map@[16].0 == 139 && map@[16].1@ == "NetBIOS Session Service"@);
        assert(map@[17].0 == 143 && map@[17].1@ == "IMAP"@);
        assert(map@[18].0 == 161 && map@[18].1@ == "SNMP"@);
        assert(map@[19].0 == 162 && map@[19].1@ == "SNMP Trap"@);
        assert(map@[20].0 == 179 && map@[20].1@ == "BGP"@);
        assert(map@[21].0 == 194 && map@[21].1@ == "IRC"@);
        assert(map@[22].0 == 389 && map@[22].1@ == "LDAP"@);
        assert(map@[23].0 == 427 && map@[23].1@ == "SLP"@);
        assert(map@[24].0 == 443 && map@[24].1@ == "HTTPS"@);
        assert(map@[25].0 == 445 && map@[25].1@ == "Microsoft-DS (SMB)"@);
        assert(map@[26].0 == 465 && map@[26].1@ == "SMTPS"@);
        assert(map@[27].0 == 514 && map@[27].1@ == "Syslog"@);
        assert(map@[28].0 == 548 && map@[28].1@ == "AFP"@);
        assert(map@[29].0 == 587 && map@[29].1@ == "SMTP (submission)"@);
        assert(map@[30].0 == 631 && map@[30].1@ == "IPP"@);
        assert(map@[31].0 == 636 && map@[31].1@ == "LDAPS"@);
        assert(map@[32].0 == 873 && map@[32].1@ == "rsync"@);
        assert(map@[33].0 == 989 && map@[33].1@ == "FTPS (data)"@);
        assert(map@[34].0 == 990 && map@[34].1@ == "FTPS (control)"@);
        assert(map@[35].0 == 993 && map@[35].1@ == "IMAPS"@);
        assert(map@[36].0 == 995 && map@[36].1@ == "POP3S"@);
        assert(map@[37].0 == 1080 && map@[37].1@ == "SOCKS Proxy"@);
        assert(map@[38].0 == 1194 && map@[38].1@ == "OpenVPN"@);
        assert(map@[39].0 == 1433 && map@[39].1@ == "Microsoft SQL Server"@);
        assert(map@[40].0 == 1521 && map@[40].1@ == "Oracle"@);
        assert(map@[41].0 == 1723 && map@[41].1@ == "PPTP"@);
        assert(map@[42].0 == 1812 && map@[42].1@ == "RADIUS"@);
        assert(map@[43].0 == 2049 && map@[43].1@ == "NFS"@);
        assert(map@[44].0 == 2222 && map@[44].1@ == "SSH"@);
        assert(map@[45].0 == 3306 && map@[45].1@ == "MySQL"@);
        assert(map@[46].0 == 3389 && map@[46].1@ == "RDP"@);
        assert(map@[47].0 == 3690 && map@[47].1@ == "SVN"@);
        assert(map@[48].0 == 4369 && map@[48].1@ == "Erlang Port Mapper Daemon"@);
        assert(map@[49].0 == 5060 && map@[49].1@ == "SIP"@);
        assert(map@[50].0 == 5061 && map@[50].1@ == "SIP (TLS)"@);
        assert(map@[51].0 == 5222 && map@[51].1@ == "XMPP"@);
        assert(map@[52].0 == 5353 && map@[52].1@ == "mDNS"@);
        assert(map@[53].0 == 5432 && map@[53].1@ == "PostgreSQL"@);
        assert(map@[54].0 == 5671 && map@[54].1@ == "AMQP (TLS)"@);
        assert(map@[55].0 == 5672 && map@[55].1@ == "AMQP"@);
        assert(map@[56].0 == 5900 && map@[56].1@ == "VNC"@);
        assert(map@[57].0 == 6379 && map@[57].1@ == "Redis"@);
        assert(map@[58].0 == 6667 && map@[58].1@ == "IRC"@);
        assert(map@[59].0 == 8000 && map@[59].1@ == "Alternative HTTP"@);
        assert(map@[60].0 == 8080 && map@[60].1@ == "HTTP"@);
        assert(map@[61].0 == 8086 && map@[61].1@ == "InfluxDB"@);
        assert(map@[62].0 == 8443 && map@[62].1@ == "HTTPS"@);
        assert(map@[63].0 == 9000 && map@[63].1@ == "Prometheus"@);
        assert(map@[64].0 == 9092 && map@[64].1@ == "Kafka"@);
        assert(map@[65].0 == 9200 && map@[65].1@ == "Elasticsearch"@);
        assert(map@[66].0 == 9418 && map@[66].1@ == "Git"@);
        assert(map@[67].0 == 11211 && map@[67].1@ == "Memcached"@);
        assert(map@[68].0 == 19132 && map@[68].1@ == "Minecraft"@);
        assert(map@[69].0 == 19133 && map@[69].1@ == "Minecraft"@);
        assert(map@[70].0 == 25565 && map@[70].1@ == "Minecraft"@);
        assert(map@[71].0 == 27017 && map@[71].1@ == "MongoDB"@);
    }
    map
}

/// The table's name for the port, marked as an inference, or "Unknown".
pub fn guess_protocol(port: u16) -> (r: String)
    ensures
        match spec_port_name(port) {
            Some(n) => r@ == n + "(推定)"@,
            None => r@ == "Unknown"@,
        },
{
    let map = create_port_protocol_map();
    let n = map.len();
    let mut i: usize = 0;
    while i < n
        invariant
            i <= n,
            n == map@.len(),
            forall|j: int| 0 <= j < i ==> (#[trigger] map@[j]).0 != port,
            forall|j: int|
                0 <= j < map@.len() ==> spec_port_name((#[trigger] map@[j]).0) == Some(
                    map@[j].1@,
                ),
            forall|p: u16|
                #[trigger] spec_port_name(p) is Some ==> exists|j: int|
                    0 <= j < map@.len() && (#[trigger] map@[j]).0 == p,
        decreases n - i,
    {
        if map[i].0 == port {
            let name = map[i].1;
            let mut s = String::from_str(name);
            s.append("(推定)");
            return s;
        }
        i += 1;
    }
    proof {
        if spec_port_name(port) is Some {
            let w = choose|j: int| 0 <= j < map@.len() && (#[trigger] map@[j]).0 == port;
            assert(false);
        }
    }
    String::from_str("Unknown")
}

} // verus!
