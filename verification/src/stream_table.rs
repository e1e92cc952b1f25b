//! The flow table: maps a canonicalized stream key to its tracked stream.
//! The table is keyed by whichever direction was seen first; a lookup that
//! matches the stored key is "forward", one that matches the swapped key is
//! "reverse", and no connection is ever stored under both directions.

use vstd::prelude::*;
use crate::ip_header::IpHeader;
use crate::tcp_header::TcpHeader;
use crate::tcp_header::TCP_SYN;
use crate::tcp_header::parse_tcp_options;
use crate::tcp_header::spec_mss_from_options;
use crate::tcp_stream::TcpStream;
use crate::tcp_stream::TcpState;
use crate::tcp_stream::StreamModel;
use crate::tcp_stream::stream_new;
use crate::tcp_stream::stream_update;
use crate::tcp_stream::TIME_WAIT_TIMEOUT_SECS;

verus! {

/// The canonical 4-tuple identifying one connection.
#[derive(Clone, Copy, PartialEq, Eq, Structural, Hash, Debug)]
pub struct TcpStreamKey {
    pub ip_a: u32,
    pub port_a: u16,
    pub ip_b: u32,
    pub port_b: u16,
}

/// The same connection seen from the other direction.
pub open spec fn swapped(k: TcpStreamKey) -> TcpStreamKey {
    TcpStreamKey { ip_a: k.ip_b, port_a: k.port_b, ip_b: k.ip_a, port_b: k.port_a }
}

/// True when the entry stores the connection that `k` identifies, in either
/// direction.
pub open spec fn entry_matches(e: (TcpStreamKey, StreamModel), k: TcpStreamKey) -> bool {
    e.0 == k || e.0 == swapped(k)
}

/// The first entry storing the connection of `k`, with the direction of the
/// match: true when `k` equals the stored key, false when it is the reverse.
pub open spec fn lookup_index(t: Seq<(TcpStreamKey, StreamModel)>, k: TcpStreamKey) -> Option<
    (int, bool),
>
    decreases t.len(),
{
    if t.len() == 0 {
        None
    } else if t[0].0 == k {
        Some((0int, true))
    } else if t[0].0 == swapped(k) {
        Some((0int, false))
    } else {
        match lookup_index(t.skip(1), k) {
            None => None,
            Some((i, fwd)) => Some((i + 1, fwd)),
        }
    }
}

pub proof fn lemma_lookup_props(t: Seq<(TcpStreamKey, StreamModel)>, k: TcpStreamKey)
    ensures
        lookup_index(t, k) is None ==> forall|i: int|
            0 <= i < t.len() ==> !entry_matches(#[trigger] t[i], k),
        lookup_index(t, k) matches Some((i, fwd)) ==> 0 <= i < t.len() && (fwd ==> t[i].0 == k) && (
        !fwd ==> t[i].0 == swapped(k)) && forall|j: int|
            0 <= j < i ==> !entry_matches(#[trigger] t[j], k),
    decreases t.len(),
{
    if t.len() > 0 {
        lemma_lookup_props(t.skip(1), k);
        match lookup_index(t, k) {
            None => {
                assert forall|i: int| 0 <= i < t.len() implies !entry_matches(
                    #[trigger] t[i],
                    k,
                ) by {
                    if i > 0 {
                        assert(t.skip(1)[i - 1] == t[i]);
                    }
                }
            },
            Some((i0, fwd)) => {
                if t[0].0 != k && t[0].0 != swapped(k) {
                    assert(t.skip(1)[i0 - 1] == t[i0]);
                    assert forall|j: int| 0 <= j < i0 implies !entry_matches(
                        #[trigger] t[j],
                        k,
                    ) by {
                        if j > 0 {
                            assert(t.skip(1)[j - 1] == t[j]);
                        }
                    }
                }
            },
        }
    }
}

/// One connection resolves to the same table entry whichever direction the
/// packet travels: a query for the swapped key finds the same index, with the
/// direction flag inverted (unless the key is its own swap).
pub proof fn lemma_lookup_symmetric(t: Seq<(TcpStreamKey, StreamModel)>, k: TcpStreamKey)
    ensures
        lookup_index(t, k) is Some <==> lookup_index(t, swapped(k)) is Some,
        lookup_index(t, k) matches Some((i, fwd)) ==> lookup_index(t, swapped(k)) matches Some(
            (j, g),
        ) && j == i && (k == swapped(k) || g == !fwd),
    decreases t.len(),
{
    if t.len() > 0 {
        lemma_lookup_symmetric(t.skip(1), k);
    }
}

/// What dispatching one segment reports back to the pipeline.
#[derive(Clone, Copy, PartialEq, Eq, Structural, Debug)]
pub struct DispatchResult {
    pub is_from_client: bool,
    pub state: TcpState,
}

/// The table after dispatching one segment, with the report. An unknown flow
/// is entered only on a SYN (anything else is ignored, which bounds memory
/// against scan traffic); a reverse-direction SYN announces the server MSS;
/// and an entry whose stream reaches Closed is dropped at once.
pub open spec fn dispatch_spec(
    t: Seq<(TcpStreamKey, StreamModel)>,
    fwd: TcpStreamKey,
    seq: u32,
    ack: u32,
    flags: u8,
    options: Seq<u8>,
    payload: Seq<u8>,
    window: u16,
    now: u64,
) -> (Seq<(TcpStreamKey, StreamModel)>, Option<DispatchResult>) {
    match lookup_index(t, fwd) {
        None => {
            if flags & TCP_SYN != 0 {
                let s0 = stream_new(seq, 0);
                let s1 = match spec_mss_from_options(options) {
                    Some(m) => StreamModel { client_mss: m, ..s0 },
                    None => s0,
                };
                let s2 = stream_update(s1, true, seq, ack, flags, payload, window, now);
                let r = Some(DispatchResult { is_from_client: true, state: s2.state });
                if s2.state == TcpState::Closed {
                    (t, r)
                } else {
                    (t.push((fwd, s2)), r)
                }
            } else {
                (t, None)
            }
        },
        Some((i, is_fwd)) => {
            let s0 = t[i].1;
            let s1 = if flags & TCP_SYN != 0 && !is_fwd {
                match spec_mss_from_options(options) {
                    Some(m) => StreamModel { server_mss: m, ..s0 },
                    None => s0,
                }
            } else {
                s0
            };
            let s2 = stream_update(s1, is_fwd, seq, ack, flags, payload, window, now);
            let r = Some(DispatchResult { is_from_client: is_fwd, state: s2.state });
            if s2.state == TcpState::Closed {
                (t.remove(i), r)
            } else {
                (t.update(i, (t[i].0, s2)), r)
            }
        },
    }
}

/// True when a sweep at time `now` keeps the entry: it is dropped once idle
/// for longer than the retention timeout, or once its TimeWait wait has run
/// out.
pub open spec fn sweep_keeps(e: (TcpStreamKey, StreamModel), now: u64, retention: u64) -> bool {
    !(now > e.1.last_activity + retention) && !(e.1.state == TcpState::TimeWait && now
        >= e.1.last_activity + TIME_WAIT_TIMEOUT_SECS)
}

/// The table of live streams, keyed by whichever direction was seen first.
pub struct TcpStreamTable {
    pub entries: Vec<(TcpStreamKey, TcpStream)>,
    pub retention_secs: u64,
}

impl View for TcpStreamTable {
    type V = Seq<(TcpStreamKey, StreamModel)>;

    open spec fn view(&self) -> Seq<(TcpStreamKey, StreamModel)> {
        self.entries@.map_values(|e: (TcpStreamKey, TcpStream)| (e.0, e.1@))
    }
}

/// No connection appears twice, under either direction of its key.
pub open spec fn table_wf(t: Seq<(TcpStreamKey, StreamModel)>) -> bool {
    forall|i: int, j: int|
        0 <= i < j < t.len() ==> (#[trigger] t[i]).0 != (#[trigger] t[j]).0 && t[i].0 != swapped(
            t[j].0,
        )
}

impl TcpStreamTable {
    /// An empty table with the given idle-retention timeout in seconds.
    pub fn new(retention_secs: u64) -> (r: TcpStreamTable)
        ensures
            r@ =~= Seq::<(TcpStreamKey, StreamModel)>::empty(),
            r.retention_secs == retention_secs,
            table_wf(r@),
    {
        TcpStreamTable { entries: Vec::new(), retention_secs }
    }

    /// The number of live streams.
    pub fn len(&self) -> (r: usize)
        ensures
            r == self@.len(),
    {
        self.entries.len()
    }

    /// Finds the entry for `k`, matched in either direction.
    fn find(&self, k: TcpStreamKey) -> (r: Option<(usize, bool)>)
        ensures
            match r {
                None => lookup_index(self@, k) is None,
                Some((i, fwd)) => lookup_index(self@, k) == Some((i as int, fwd)),
            },
    {
        let ghost v = self@;
        let n = self.entries.len();
        let mut i: usize = 0;
        proof {
            assert(v.skip(0) =~= v);
        }
        loop
            invariant
                i <= n,
                n == v.len(),
                v == self@,
                self@.len() == self.entries@.len(),
                lookup_index(v, k) == shift_match(lookup_index(v.skip(i as int), k), i as int),
            decreases n - i,
        {
            if i >= n {
                return None;
            }
            let ghost s = v.skip(i as int);
            assert(s[0] == v[i as int]);
            let e = &self.entries[i];
            let ek = e.0;
            if ek.ip_a == k.ip_a && ek.port_a == k.port_a && ek.ip_b == k.ip_b && ek.port_b
                == k.port_b {
                return Some((i, true));
            }
            if ek.ip_a == k.ip_b && ek.port_a == k.port_b && ek.ip_b == k.ip_a && ek.port_b
                == k.port_a {
                assert(ek == swapped(k));
                return Some((i, false));
            }
            proof {
                assert(s.skip(1) =~= v.skip(i as int + 1));
            }
            i += 1;
        }
    }

    /// Looks the segment's flow up (creating it on a SYN), updates the
    /// stream, and drops it if it closed, exactly as `dispatch_spec`
    /// describes.
    pub fn dispatch(
        &mut self,
        ip: &IpHeader,
        tcp: &TcpHeader,
        options: &[u8],
        payload: &[u8],
        now: u64,
    ) -> (r: Option<DispatchResult>)
        requires
            payload@.len() <= 0xffff,
            table_wf(old(self)@),
        ensures
            (final(self)@, r) == dispatch_spec(
                old(self)@,
                TcpStreamKey {
                    ip_a: ip.src_ip,
                    port_a: tcp.src_port,
                    ip_b: ip.dst_ip,
                    port_b: tcp.dst_port,
                },
                tcp.seq_num,
                tcp.ack_num,
                tcp.flags,
                options@,
                payload@,
                tcp.window,
                now,
            ),
            table_wf(final(self)@),
            final(self).retention_secs == old(self).retention_secs,
    {
        let fwd = TcpStreamKey {
            ip_a: ip.src_ip,
            port_a: tcp.src_port,
            ip_b: ip.dst_ip,
            port_b: tcp.dst_port,
        };
        let found = self.find(fwd);
        proof {
            lemma_lookup_props(self@, fwd);
        }
        match found {
            None => {
                if tcp.flags & TCP_SYN != 0 {
                    let mut s = TcpStream::new(tcp.seq_num, 0);
                    if let Some(m) = parse_tcp_options(options) {
                        s.set_mss(true, m);
                    }
                    s.update(
                        true,
                        tcp.seq_num,
                        tcp.ack_num,
                        tcp.flags,
                        payload,
                        tcp.window,
                        now,
                    );
                    let st = s.state;
                    let r = Some(DispatchResult { is_from_client: true, state: st });
                    if st == TcpState::Closed {
                        r
                    } else {
                        let ghost oldv = self@;
                        self.entries.push((fwd, s));
                        proof {
                            assert(self@ =~= oldv.push((fwd, s@)));
                        }
                        r
                    }
                } else {
                    None
                }
            },
            Some((i, is_fwd)) => {
                let ghost oldv = self@;
                let (k, mut s) = self.entries.remove(i);
                if tcp.flags & TCP_SYN != 0 && !is_fwd {
                    if let Some(m) = parse_tcp_options(options) {
                        s.set_mss(false, m);
                    }
                }
                s.update(
                    is_fwd,
                    tcp.seq_num,
                    tcp.ack_num,
                    tcp.flags,
                    payload,
                    tcp.window,
                    now,
                );
                let st = s.state;
                let r = Some(DispatchResult { is_from_client: is_fwd, state: st });
                if st == TcpState::Closed {
                    proof {
                        assert(self@ =~= oldv.remove(i as int));
                        lemma_wf_remove(oldv, i as int);
                    }
                    r
                } else {
                    self.entries.insert(i, (k, s));
                    proof {
                        assert(self@ =~= oldv.update(i as int, (oldv[i as int].0, s@)));
                        lemma_wf_update(oldv, i as int, s@);
                    }
                    r
                }
            },
        }
    }

    /// Removes every entry that a sweep at `now` no longer keeps: streams
    /// idle past the retention timeout, and TimeWait streams whose wait has
    /// run out.
    pub fn sweep(&mut self, now: u64)
        requires
            table_wf(old(self)@),
        ensures
            final(self)@ == old(self)@.filter(sweep_pred(now, old(self).retention_secs)),
            table_wf(final(self)@),
            final(self).retention_secs == old(self).retention_secs,
    {
        let ghost oldv = self@;
        let ghost pred = sweep_pred(now, self.retention_secs);
        let mut i: usize = 0;
        let ghost mut j: int = 0;
        proof {
            reveal(Seq::filter);
            assert(oldv.take(0).filter(pred) =~= Seq::<(TcpStreamKey, StreamModel)>::empty());
            assert(oldv.take(0).filter(pred) + oldv.skip(0) =~= oldv);
        }
        while i < self.entries.len()
            invariant
                0 <= j <= oldv.len(),
                i == oldv.take(j).filter(pred).len(),
                self@ == oldv.take(j).filter(pred) + oldv.skip(j),
                self@.len() == self.entries@.len(),
                i <= self@.len(),
                self.retention_secs == old(self).retention_secs,
                pred == sweep_pred(now, old(self).retention_secs),
            decreases oldv.len() - j,
        {
            proof {
                reveal(Seq::filter);
                assert(oldv.skip(j)[0] == oldv[j]);
                assert(self@[i as int] == oldv[j]);
                assert(oldv.take(j + 1) =~= oldv.take(j).push(oldv[j]));
                assert(oldv.take(j + 1).drop_last() =~= oldv.take(j));
            }
            let e = &self.entries[i];
            let expired_idle = now > e.1.last_activity && now - e.1.last_activity
                > self.retention_secs;
            let expired_wait = e.1.state == TcpState::TimeWait && now >= e.1.last_activity && now
                - e.1.last_activity >= TIME_WAIT_TIMEOUT_SECS;
            let ghost v_before = self@;
            if expired_idle || expired_wait {
                assert(!pred(oldv[j]));
                self.entries.remove(i);
                proof {
                    reveal(Seq::filter);
                    assert(self@ =~= v_before.remove(i as int));
                    assert(self@ =~= oldv.take(j + 1).filter(pred) + oldv.skip(j + 1));
                }
            } else {
                assert(pred(oldv[j]));
                i += 1;
                proof {
                    reveal(Seq::filter);
                    assert(oldv.take(j + 1).filter(pred) =~= oldv.take(j).filter(pred).push(
                        oldv[j],
                    ));
                    assert(self@ =~= oldv.take(j + 1).filter(pred) + oldv.skip(j + 1));
                }
            }
            proof {
                j = j + 1;
            }
        }
        proof {
            reveal(Seq::filter);
            assert(oldv.skip(j).len() == oldv.len() - j);
            assert(j == oldv.len());
            assert(oldv.take(oldv.len() as int) =~= oldv);
            assert(oldv.skip(oldv.len() as int) =~= Seq::<(TcpStreamKey, StreamModel)>::empty());
            assert(self@ =~= oldv.filter(pred));
            lemma_wf_filter(oldv, pred);
        }
    }
}

/// After a sweep nothing stale survives: every entry of the swept table is
/// within both timeouts, so a stream idle past the retention timeout, in any
/// state, is gone.
pub proof fn lemma_sweep_removes_idle(t: Seq<(TcpStreamKey, StreamModel)>, now: u64, retention: u64)
    ensures
        forall|j: int|
            0 <= j < t.filter(sweep_pred(now, retention)).len() ==> sweep_keeps(
                #[trigger] t.filter(sweep_pred(now, retention))[j],
                now,
                retention,
            ),
{
    assert forall|j: int| 0 <= j < t.filter(sweep_pred(now, retention)).len() implies sweep_keeps(
        #[trigger] t.filter(sweep_pred(now, retention))[j],
        now,
        retention,
    ) by {
        t.lemma_filter_pred(sweep_pred(now, retention), j);
    }
}

/// The sweep predicate at time `now` with the given retention timeout.
pub open spec fn sweep_pred(now: u64, retention: u64) -> spec_fn((TcpStreamKey, StreamModel)) -> bool {
    |e: (TcpStreamKey, StreamModel)| sweep_keeps(e, now, retention)
}

/// Shifts a lookup result by `i` positions.
pub open spec fn shift_match(r: Option<(int, bool)>, i: int) -> Option<(int, bool)> {
    match r {
        None => None,
        Some((j, fwd)) => Some((j + i, fwd)),
    }
}

proof fn lemma_wf_remove(t: Seq<(TcpStreamKey, StreamModel)>, i: int)
    requires
        table_wf(t),
        0 <= i < t.len(),
    ensures
        table_wf(t.remove(i)),
{
    assert forall|a: int, b: int| 0 <= a < b < t.remove(i).len() implies (#[trigger] t.remove(i)[a]).0
        != (#[trigger] t.remove(i)[b]).0 && t.remove(i)[a].0 != swapped(t.remove(i)[b].0) by {
        let a0 = if a < i {
            a
        } else {
            a + 1
        };
        let b0 = if b < i {
            b
        } else {
            b + 1
        };
        assert(t.remove(i)[a] == t[a0]);
        assert(t.remove(i)[b] == t[b0]);
    }
}

proof fn lemma_wf_update(t: Seq<(TcpStreamKey, StreamModel)>, i: int, s: StreamModel)
    requires
        table_wf(t),
        0 <= i < t.len(),
    ensures
        table_wf(t.update(i, (t[i].0, s))),
{
    let u = t.update(i, (t[i].0, s));
    assert forall|a: int, b: int| 0 <= a < b < u.len() implies (#[trigger] u[a]).0 != (
    #[trigger] u[b]).0 && u[a].0 != swapped(u[b].0) by {
        assert(u[a].0 == t[a].0);
        assert(u[b].0 == t[b].0);
    }
}

proof fn lemma_filter_from(
    t: Seq<(TcpStreamKey, StreamModel)>,
    pred: spec_fn((TcpStreamKey, StreamModel)) -> bool,
    a: int,
)
    requires
        0 <= a < t.filter(pred).len(),
    ensures
        exists|w: int| 0 <= w < t.len() && t[w] == #[trigger] t.filter(pred)[a],
    decreases t.len(),
{
    reveal(Seq::filter);
    if t.len() > 0 {
        let f = t.filter(pred);
        let fd = t.drop_last().filter(pred);
        if pred(t.last()) && a == f.len() - 1 {
            assert(t[t.len() - 1] == f[a]);
        } else {
            lemma_filter_from(t.drop_last(), pred, a);
            let w = choose|w: int| 0 <= w < t.drop_last().len() && t.drop_last()[w] == fd[a];
            assert(t[w] == f[a]);
        }
    }
}

proof fn lemma_wf_filter(
    t: Seq<(TcpStreamKey, StreamModel)>,
    pred: spec_fn((TcpStreamKey, StreamModel)) -> bool,
)
    requires
        table_wf(t),
    ensures
        table_wf(t.filter(pred)),
    decreases t.len(),
{
    reveal(Seq::filter);
    if t.len() > 0 {
        lemma_wf_filter(t.drop_last(), pred);
        let f = t.filter(pred);
        let fd = t.drop_last().filter(pred);
        if pred(t.last()) {
            assert(f == fd.push(t.last()));
            assert forall|a: int, b: int| 0 <= a < b < f.len() implies (#[trigger] f[a]).0 != (
            #[trigger] f[b]).0 && f[a].0 != swapped(f[b].0) by {
                if b < f.len() - 1 {
                    assert(f[a] == fd[a] && f[b] == fd[b]);
                } else {
                    assert(f[b] == t.last());
                    assert(f[a] == fd[a]);
                    lemma_filter_from(t.drop_last(), pred, a);
                    let w = choose|w: int|
                        0 <= w < t.drop_last().len() && t.drop_last()[w] == fd[a];
                    assert(t[w] == fd[a]);
                    assert(t.last() == t[t.len() - 1]);
                }
            }
        }
    }
}

} // verus!
