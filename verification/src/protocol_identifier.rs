//! Application-protocol classification from the port pair and, failing that,
//! from well-known text banners at the front of the payload. Pure and
//! stateless: a fixed `(src_port, dst_port, payload)` always yields the same
//! answer.

use vstd::prelude::*;

verus! {

#[derive(Clone, Copy, PartialEq, Eq, Structural, Debug)]
pub enum ApplicationProtocol {
    HTTP,
    HTTPS,
    FTP,
    SSH,
    Telnet,
    SMTP,
    POP3,
    IMAP,
    DNS,
    MySQL,
    PostgreSQL,
    MongoDB,
    Redis,
    MSSQLServer,
    AMQP,
    Elasticsearch,
    SNMP,
    LDAP,
    Unknown,
}

/// True when `b` begins with the ASCII bytes of "HTTP/".
pub open spec fn sig_http_version(b: Seq<u8>) -> bool {
    b.len() >= 5 && b[0] == 72 && b[1] == 84 && b[2] == 84 && b[3] == 80 && b[4] == 47
}

/// True when `b` begins with the ASCII bytes of "GET " or "POST ".
pub open spec fn sig_http_method(b: Seq<u8>) -> bool {
    (b.len() >= 4 && b[0] == 71 && b[1] == 69 && b[2] == 84 && b[3] == 32) || (b.len() >= 5 && b[0]
        == 80 && b[1] == 79 && b[2] == 83 && b[3] == 84 && b[4] == 32)
}

/// True when `b` begins with the ASCII bytes of "SSH-".
pub open spec fn sig_ssh(b: Seq<u8>) -> bool {
    b.len() >= 4 && b[0] == 83 && b[1] == 83 && b[2] == 72 && b[3] == 45
}

/// True when `b` begins with the ASCII bytes of "220".
pub open spec fn sig_220(b: Seq<u8>) -> bool {
    b.len() >= 3 && b[0] == 50 && b[1] == 50 && b[2] == 48
}

/// True when the ASCII bytes of "FTP" occur anywhere in `b`.
pub open spec fn contains_ftp(b: Seq<u8>) -> bool {
    exists|i: int| 0 <= i && i + 3 <= b.len() && (#[trigger] b[i]) == 70 && b[i + 1] == 84 && b[i + 2] == 80
}

/// True when `b` begins with the ASCII bytes of "EHLO" or "HELO".
pub open spec fn sig_smtp(b: Seq<u8>) -> bool {
    b.len() >= 4 && ((b[0] == 69 && b[1] == 72) || (b[0] == 72 && b[1] == 69)) && b[2] == 76 && b[3]
        == 79
}

/// True when `b` begins with the ASCII bytes of "+OK".
pub open spec fn sig_pop3(b: Seq<u8>) -> bool {
    b.len() >= 3 && b[0] == 43 && b[1] == 79 && b[2] == 75
}

/// True when `b` begins with the ASCII bytes of "* OK".
pub open spec fn sig_imap(b: Seq<u8>) -> bool {
    b.len() >= 4 && b[0] == 42 && b[1] == 32 && b[2] == 79 && b[3] == 75
}

/// True when either port of the pair equals `p`.
pub open spec fn port_is(src: u16, dst: u16, p: u16) -> bool {
    src == p || dst == p
}

/// The classification that `identify_protocol` returns: well-known ports are
/// tested first in a fixed order, then the payload signatures, then Unknown.
pub open spec fn spec_identify(src: u16, dst: u16, b: Seq<u8>) -> ApplicationProtocol {
    if port_is(src, dst, 80) || port_is(src, dst, 8080) {
        ApplicationProtocol::HTTP
    } else if port_is(src, dst, 443) || port_is(src, dst, 8443) {
        ApplicationProtocol::HTTPS
    } else if port_is(src, dst, 21) {
        ApplicationProtocol::FTP
    } else if port_is(src, dst, 22) {
        ApplicationProtocol::SSH
    } else if port_is(src, dst, 23) {
        ApplicationProtocol::Telnet
    } else if port_is(src, dst, 25) {
        ApplicationProtocol::SMTP
    } else if port_is(src, dst, 110) {
        ApplicationProtocol::POP3
    } else if port_is(src, dst, 143) {
        ApplicationProtocol::IMAP
    } else if port_is(src, dst, 53) {
        ApplicationProtocol::DNS
    } else if port_is(src, dst, 3306) {
        ApplicationProtocol::MySQL
    } else if port_is(src, dst, 5432) {
        ApplicationProtocol::PostgreSQL
    } else if port_is(src, dst, 27017) {
        ApplicationProtocol::MongoDB
    } else if port_is(src, dst, 6379) {
        ApplicationProtocol::Redis
    } else if port_is(src, dst, 1433) {
        ApplicationProtocol::MSSQLServer
    } else if port_is(src, dst, 5672) {
        ApplicationProtocol::AMQP
    } else if port_is(src, dst, 9200) {
        ApplicationProtocol::Elasticsearch
    } else if port_is(src, dst, 161) {
        ApplicationProtocol::SNMP
    } else if port_is(src, dst, 389) {
        ApplicationProtocol::LDAP
    } else if sig_http_version(b) || sig_http_method(b) {
        ApplicationProtocol::HTTP
    } else if sig_ssh(b) {
        ApplicationProtocol::SSH
    } else if sig_220(b) && contains_ftp(b) {
        ApplicationProtocol::FTP
    } else if sig_smtp(b) {
        ApplicationProtocol::SMTP
    } else if sig_pop3(b) {
        ApplicationProtocol::POP3
    } else if sig_imap(b) {
        ApplicationProtocol::IMAP
    } else {
        ApplicationProtocol::Unknown
    }
}

fn payload_contains_ftp(b: &[u8]) -> (r: bool)
    ensures
        r == contains_ftp(b@),
{
    if b.len() < 3 {
        assert(!contains_ftp(b@));
        return false;
    }
    let n = b.len();
    let mut i: usize = 0;
    while i <= n - 3
        invariant
            3 <= n,
            n == b@.len(),
            i <= n - 2,
            forall|j: int|
                0 <= j < i ==> !((#[trigger] b@[j]) == 70 && b@[j + 1] == 84 && b@[j + 2] == 80),
        decreases n - i,
    {
        if b[i] == 70 && b[i + 1] == 84 && b[i + 2] == 80 {
            assert(contains_ftp(b@));
            return true;
        }
        i += 1;
    }
    proof {
        assert(!contains_ftp(b@)) by {
            if contains_ftp(b@) {
                let w = choose|j: int|
                    0 <= j && j + 3 <= b@.len() && (#[trigger] b@[j]) == 70 && b@[j + 1] == 84
                        && b@[j + 2] == 80;
                assert(w < i);
                assert(false);
            }
        };
    }
    return false;
}

/// Classifies the application protocol of a segment: an exact well-known-port
/// match on either side wins, then a payload-signature match, then Unknown.
pub fn identify_protocol(src_port: u16, dst_port: u16, payload: &[u8]) -> (r: ApplicationProtocol)
    ensures
        r == spec_identify(src_port, dst_port, payload@),
{
    if src_port == 80 || dst_port == 80 || src_port == 8080 || dst_port == 8080 {
        return ApplicationProtocol::HTTP;
    }
    if src_port == 443 || dst_port == 443 || src_port == 8443 || dst_port == 8443 {
        return ApplicationProtocol::HTTPS;
    }
    if src_port == 21 || dst_port == 21 {
        return ApplicationProtocol::FTP;
    }
    if src_port == 22 || dst_port == 22 {
        return ApplicationProtocol::SSH;
    }
    if src_port == 23 || dst_port == 23 {
        return ApplicationProtocol::Telnet;
    }
    if src_port == 25 || dst_port == 25 {
        return ApplicationProtocol::SMTP;
    }
    if src_port == 110 || dst_port == 110 {
        return ApplicationProtocol::POP3;
    }
    if src_port == 143 || dst_port == 143 {
        return ApplicationProtocol::IMAP;
    }
    if src_port == 53 || dst_port == 53 {
        return ApplicationProtocol::DNS;
    }
    if src_port == 3306 || dst_port == 3306 {
        return ApplicationProtocol::MySQL;
    }
    if src_port == 5432 || dst_port == 5432 {
        return ApplicationProtocol::PostgreSQL;
    }
    if src_port == 27017 || dst_port == 27017 {
        return ApplicationProtocol::MongoDB;
    }
    if src_port == 6379 || dst_port == 6379 {
        return ApplicationProtocol::Redis;
    }
    if src_port == 1433 || dst_port == 1433 {
        return ApplicationProtocol::MSSQLServer;
    }
    if src_port == 5672 || dst_port == 5672 {
        return ApplicationProtocol::AMQP;
    }
    if src_port == 9200 || dst_port == 9200 {
        return ApplicationProtocol::Elasticsearch;
    }
    if src_port == 161 || dst_port == 161 {
        return ApplicationProtocol::SNMP;
    }
    if src_port == 389 || dst_port == 389 {
        return ApplicationProtocol::LDAP;
    }
    let b = payload;
    if b.len() >= 5 && b[0] == 72 && b[1] == 84 && b[2] == 84 && b[3] == 80 && b[4] == 47 {
        return ApplicationProtocol::HTTP;
    }
    if b.len() >= 4 && b[0] == 71 && b[1] == 69 && b[2] == 84 && b[3] == 32 {
        return ApplicationProtocol::HTTP;
    }
    if b.len() >= 5 && b[0] == 80 && b[1] == 79 && b[2] == 83 && b[3] == 84 && b[4] == 32 {
        return ApplicationProtocol::HTTP;
    }
    if b.len() >= 4 && b[0] == 83 && b[1] == 83 && b[2] == 72 && b[3] == 45 {
        return ApplicationProtocol::SSH;
    }
    if b.len() >= 3 && b[0] == 50 && b[1] == 50 && b[2] == 48 {
        if payload_contains_ftp(b) {
            return ApplicationProtocol::FTP;
        }
    }
    if b.len() >= 4 && ((b[0] == 69 && b[1] == 72) || (b[0] == 72 && b[1] == 69)) && b[2] == 76
        && b[3] == 79 {
        return ApplicationProtocol::SMTP;
    }
    if b.len() >= 3 && b[0] == 43 && b[1] == 79 && b[2] == 75 {
        return ApplicationProtocol::POP3;
    }
    if b.len() >= 4 && b[0] == 42 && b[1] == 32 && b[2] == 79 && b[3] == 75 {
        return ApplicationProtocol::IMAP;
    }
    ApplicationProtocol::Unknown
}

} // verus!
