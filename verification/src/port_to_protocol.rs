//! A compact port-to-protocol-name table and the inference of a protocol
//! name from a port number.

use vstd::prelude::*;
use vstd::string::StringExecFns;

verus! {

/// The name this table knows the port under, if any.
pub open spec fn spec_port_name(port: u16) -> Option<Seq<char>> {
    if port == 22 {
        Some("SSH"@)
    } else if port == 80 {
        Some("HTTP"@)
    } else if port == 443 {
        Some("HTTPS"@)
    } else if port == 21 {
        Some("FTP"@)
    } else if port == 25 {
        Some("SMTP"@)
    } else if port == 53 {
        Some("DNS"@)
    } else if port == 110 {
        Some("POP3"@)
    } else if port == 143 {
        Some("IMAP"@)
    } else if port == 3306 {
        Some("MySQL"@)
    } else if port == 5432 {
        Some("PostgreSQL"@)
    } else if port == 2222 {
        Some("SSH"@)
    } else if port == 8080 {
        Some("HTTP"@)
    } else if port == 8443 {
        Some("HTTPS"@)
    } else if port == 19132 {
        Some("Minecraft"@)
    } else {
        None
    }
}

/// Builds the port-to-protocol-name table.
pub fn create_port_protocol_map() -> (map: Vec<(u16, &'static str)>)
    ensures
        forall|i: int|
            0 <= i < map@.len() ==> spec_port_name((#[trigger] map@[i]).0) == Some(map@[i].1@),
        forall|p: u16|
            #[trigger] spec_port_name(p) is Some ==> exists|i: int|
                0 <= i < map@.len() && (#[trigger] map@[i]).0 == p,
{
    let mut map: Vec<(u16, &'static str)> = Vec::new();
    map.push((22, "SSH"));
    map.push((80, "HTTP"));
    map.push((443, "HTTPS"));
    map.push((21, "FTP"));
    map.push((25, "SMTP"));
    map.push((53, "DNS"));
    map.push((110, "POP3"));
    map.push((143, "IMAP"));
    map.push((3306, "MySQL"));
    map.push((5432, "PostgreSQL"));
    map.push((2222, "SSH"));
    map.push((8080, "HTTP"));
    map.push((8443, "HTTPS"));
    map.push((19132, "Minecraft"));
    proof {
        assert(map@[0].0 == 22 && map@[0].1@ == "SSH"@);
        assert(map@[1].0 == 80 && map@[1].1@ == "HTTP"@);
        assert(map@[2].0 == 443 && map@[2].1@ == "HTTPS"@);
        assert(map@[3].0 == 21 && map@[3].1@ == "FTP"@);
        assert(map@[4].0 == 25 && map@[4].1@ == "SMTP"@);
        assert(map@[5].0 == 53 && map@[5].1@ == "DNS"@);
        assert(map@[6].0 == 110 && map@[6].1@ == "POP3"@);
        assert(map@[7].0 == 143 && map@[7].1@ == "IMAP"@);
        assert(map@[8].0 == 3306 && map@[8].1@ == "MySQL"@);
        assert(map@[9].0 == 5432 && map@[9].1@ == "PostgreSQL"@);
        assert(map@[10].0 == 2222 && map@[10].1@ == "SSH"@);
        assert(map@[11].0 == 8080 && map@[11].1@ == "HTTP"@);
        assert(map@[12].0 == 8443 && map@[12].1@ == "HTTPS"@);
        assert(map@[13].0 == 19132 && map@[13].1@ == "Minecraft"@);
    }
    map
}

/// The table's name for the port, marked as an inference, or "Unknown".
pub fn guess_protocol(port: u16) -> (r: String)
    ensures
        match spec_port_name(port) {
            Some(n) => r@ == n + "(推定)"@,
            None => r@ == "Unknown"@,
        },
{
    let map = create_port_protocol_map();
    let n = map.len();
    let mut i: usize = 0;
    while i < n
        invariant
            i <= n,
            n == map@.len(),
            forall|j: int| 0 <= j < i ==> (#[trigger] map@[j]).0 != port,
            forall|j: int|
                0 <= j < map@.len() ==> spec_port_name((#[trigger] map@[j]).0) == Some(
                    map@[j].1@,
                ),
            forall|p: u16|
                #[trigger] spec_port_name(p) is Some ==> exists|j: int|
                    0 <= j < map@.len() && (#[trigger] map@[j]).0 == p,
        decreases n - i,
    {
        if map[i].0 == port {
            let name = map[i].1;
            let mut s = String::from_str(name);
            s.append("(推定)");
            return s;
        }
        i += 1;
    }
    proof {
        if spec_port_name(port) is Some {
            let w = choose|j: int| 0 <= j < map@.len() && (#[trigger] map@[j]).0 == port;
            assert(false);
        }
    }
    String::from_str("Unknown")
}

} // verus!
