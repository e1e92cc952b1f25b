//! Splitting a captured-packet summary line back into its display columns:
//! source address and port, destination address and port, and the protocol
//! label. A line that does not carry the separator falls back to
//! placeholder columns.

use vstd::prelude::*;
use vstd::string::StringExecFns;
use vstd::string::StrSliceExecFns;

verus! {

/// The first position where the three characters appear in a row.
pub open spec fn find_sep3(s: Seq<char>, c0: char, c1: char, c2: char) -> Option<int>
    decreases s.len(),
{
    if s.len() < 3 {
        None
    } else if s[0] == c0 && s[1] == c1 && s[2] == c2 {
        Some(0int)
    } else {
        match find_sep3(s.skip(1), c0, c1, c2) {
            None => None,
            Some(i) => Some(i + 1),
        }
    }
}

/// The first position of the character.
pub open spec fn find_ch(s: Seq<char>, c: char) -> Option<int>
    decreases s.len(),
{
    if s.len() == 0 {
        None
    } else if s[0] == c {
        Some(0int)
    } else {
        match find_ch(s.skip(1), c) {
            None => None,
            Some(i) => Some(i + 1),
        }
    }
}

/// The last position of the character.
pub open spec fn rfind_ch(s: Seq<char>, c: char) -> Option<int>
    decreases s.len(),
{
    if s.len() == 0 {
        None
    } else if s.last() == c {
        Some(s.len() - 1)
    } else {
        rfind_ch(s.drop_last(), c)
    }
}

/// The two halves of an "address:port" column: the text before the first
/// colon and the text after it, or the whole text with a zero port when no
/// colon is there.
pub open spec fn spec_endpoint_columns(part: Seq<char>) -> (Seq<char>, Seq<char>) {
    match find_ch(part, ':') {
        Some(j) => (part.subrange(0, j), part.subrange(j + 1, part.len() as int)),
        None => (part, "0"@),
    }
}

fn find_sep3_exec(s: &str, c0: char, c1: char, c2: char) -> (r: Option<usize>)
    ensures
        match r {
            None => find_sep3(s@, c0, c1, c2) is None,
            Some(i) => find_sep3(s@, c0, c1, c2) == Some(i as int),
        },
{
    let n = s.unicode_len();
    let ghost v = s@;
    let mut i: usize = 0;
    proof {
        assert(v.skip(0) =~= v);
    }
    loop
        invariant
            i <= n,
            n == v.len(),
            v == s@,
            find_sep3(v, c0, c1, c2) == shift_find(find_sep3(v.skip(i as int), c0, c1, c2), i as int),
        decreases n - i,
    {
        if n < 3 || i > n - 3 {
            assert(v.skip(i as int).len() < 3);
            return None;
        }
        let ghost sub = v.skip(i as int);
        assert(sub[0] == v[i as int] && sub[1] == v[i as int + 1] && sub[2] == v[i as int + 2]);
        if s.get_char(i) == c0 && s.get_char(i + 1) == c1 && s.get_char(i + 2) == c2 {
            return Some(i);
        }
        proof {
            assert(sub.skip(1) =~= v.skip(i as int + 1));
        }
        i += 1;
    }
}

fn find_ch_exec(s: &str, c: char) -> (r: Option<usize>)
    ensures
        match r {
            None => find_ch(s@, c) is None,
            Some(i) => find_ch(s@, c) == Some(i as int),
        },
{
    let n = s.unicode_len();
    let ghost v = s@;
    let mut i: usize = 0;
    proof {
        assert(v.skip(0) =~= v);
    }
    loop
        invariant
            i <= n,
            n == v.len(),
            v == s@,
            find_ch(v, c) == shift_find(find_ch(v.skip(i as int), c), i as int),
        decreases n - i,
    {
        if i >= n {
            return None;
        }
        let ghost sub = v.skip(i as int);
        assert(sub[0] == v[i as int]);
        if s.get_char(i) == c {
            return Some(i);
        }
        proof {
            assert(sub.skip(1) =~= v.skip(i as int + 1));
        }
        i += 1;
    }
}

fn rfind_ch_exec(s: &str, c: char) -> (r: Option<usize>)
    ensures
        match r {
            None => rfind_ch(s@, c) is None,
            Some(i) => rfind_ch(s@, c) == Some(i as int),
        },
{
    let n = s.unicode_len();
    let ghost v = s@;
    let mut i: usize = n;
    proof {
        assert(v.take(n as int) =~= v);
    }
    loop
        invariant
            i <= n,
            n == v.len(),
            v == s@,
            rfind_ch(v, c) == rfind_ch(v.take(i as int), c),
        decreases i,
    {
        if i == 0 {
            return None;
        }
        let ghost sub = v.take(i as int);
        assert(sub.last() == v[i as int - 1]);
        if s.get_char(i - 1) == c {
            return Some(i - 1);
        }
        proof {
            assert(sub.drop_last() =~= v.take(i as int - 1));
        }
        i -= 1;
    }
}

pub proof fn lemma_find_sep3_props(s: Seq<char>, c0: char, c1: char, c2: char)
    ensures
        find_sep3(s, c0, c1, c2) matches Some(i) ==> 0 <= i && i + 3 <= s.len() && s[i] == c0
            && s[i + 1] == c1 && s[i + 2] == c2,
    decreases s.len(),
{
    if s.len() >= 3 && !(s[0] == c0 && s[1] == c1 && s[2] == c2) {
        lemma_find_sep3_props(s.skip(1), c0, c1, c2);
        match find_sep3(s, c0, c1, c2) {
            Some(i) => {
                assert(s.skip(1)[i - 1] == s[i] && s.skip(1)[i] == s[i + 1]);
                assert(s.skip(1)[i + 1] == s[i + 2]);
            },
            None => {},
        }
    }
}

pub proof fn lemma_find_ch_props(s: Seq<char>, c: char)
    ensures
        find_ch(s, c) matches Some(i) ==> 0 <= i < s.len() && s[i] == c,
    decreases s.len(),
{
    if s.len() > 0 && s[0] != c {
        lemma_find_ch_props(s.skip(1), c);
        match find_ch(s, c) {
            Some(i) => {
                assert(s.skip(1)[i - 1] == s[i]);
            },
            None => {},
        }
    }
}

pub proof fn lemma_rfind_ch_props(s: Seq<char>, c: char)
    ensures
        rfind_ch(s, c) matches Some(i) ==> 0 <= i < s.len() && s[i] == c,
    decreases s.len(),
{
    if s.len() > 0 && s.last() != c {
        lemma_rfind_ch_props(s.drop_last(), c);
        match rfind_ch(s, c) {
            Some(i) => {
                assert(s.drop_last()[i] == s[i]);
            },
            None => {},
        }
    }
}

/// Shifts a found position by `i`.
pub open spec fn shift_find(r: Option<int>, i: int) -> Option<int> {
    match r {
        None => None,
        Some(j) => Some(j + i),
    }
}

/// Splits one summary line of the form "address:port > address:port label"
/// into its five display columns. A line without the " > " separator yields
/// the placeholder columns; an endpoint without a colon keeps its whole text
/// as the address with a zero port; the label is the text after the last
/// space of the right half, or that whole half when it has no space.
pub fn parse_packet_info(packet: &str) -> (r: (String, String, String, String, String))
    ensures
        ({
            let v = packet@;
            match find_sep3(v, ' ', '>', ' ') {
                None => r.0@ == "Unknown"@ && r.1@ == "0"@ && r.2@ == "Unknown"@ && r.3@ == "0"@
                    && r.4@ == "Unknown"@,
                Some(i) => {
                    let left = v.subrange(0, i);
                    let rest = v.subrange(i + 3, v.len() as int);
                    let src = spec_endpoint_columns(left);
                    let dst_part = match find_ch(rest, ' ') {
                        Some(k) => rest.subrange(0, k),
                        None => rest,
                    };
                    let label = match rfind_ch(rest, ' ') {
                        Some(m) => rest.subrange(m + 1, rest.len() as int),
                        None => rest,
                    };
                    let dst = spec_endpoint_columns(dst_part);
                    r.0@ == src.0 && r.1@ == src.1 && r.2@ == dst.0 && r.3@ == dst.1 && r.4@
                        == label
                },
            }
        }),
{
    let n = packet.unicode_len();
    let sep = find_sep3_exec(packet, ' ', '>', ' ');
    match sep {
        None => (
            String::from_str("Unknown"),
            String::from_str("0"),
            String::from_str("Unknown"),
            String::from_str("0"),
            String::from_str("Unknown"),
        ),
        Some(i) => {
            proof {
                lemma_find_sep3_props(packet@, ' ', '>', ' ');
            }
            let left = packet.substring_char(0, i);
            let rest = packet.substring_char(i + 3, n);
            let rest_n = rest.unicode_len();
            let (src_ip, src_port) = endpoint_columns(left);
            proof {
                lemma_find_ch_props(rest@, ' ');
                lemma_rfind_ch_props(rest@, ' ');
            }
            let dst_part = match find_ch_exec(rest, ' ') {
                Some(k) => rest.substring_char(0, k),
                None => rest,
            };
            let label = match rfind_ch_exec(rest, ' ') {
                Some(m) => rest.substring_char(m + 1, rest_n),
                None => rest,
            };
            let (dst_ip, dst_port) = endpoint_columns(dst_part);
            (src_ip, src_port, dst_ip, dst_port, label.to_owned())
        },
    }
}

fn endpoint_columns(part: &str) -> (r: (String, String))
    ensures
        r.0@ == spec_endpoint_columns(part@).0,
        r.1@ == spec_endpoint_columns(part@).1,
{
    let part_n = part.unicode_len();
    proof {
        lemma_find_ch_props(part@, ':');
    }
    match find_ch_exec(part, ':') {
        Some(j) => (
            part.substring_char(0, j).to_owned(),
            part.substring_char(j + 1, part_n).to_owned(),
        ),
        None => (part.to_owned(), String::from_str("0")),
    }
}

} // verus!
