//! Per-flow TCP stream tracking: a simplified, conformant state machine,
//! direction-aware sequence counters, and strict in-order reconstruction of
//! each direction's byte stream.

use vstd::prelude::*;
use crate::tcp_header::TCP_FIN;
use crate::tcp_header::TCP_SYN;
use crate::tcp_header::TCP_ACK;
use crate::byte_ops::append_bytes;

verus! {

#[derive(Clone, Copy, PartialEq, Eq, Structural, Debug)]
pub enum TcpState {
    Listen,
    SynSent,
    SynReceived,
    Established,
    FinWait1,
    FinWait2,
    CloseWait,
    Closing,
    LastAck,
    TimeWait,
    Closed,
}

/// Seconds a stream may sit in TimeWait before it counts as Closed.
pub const TIME_WAIT_TIMEOUT_SECS: u64 = 120;

/// The MSS assumed for a direction that never announced one.
pub const DEFAULT_MSS: u16 = 1460;

/// 32-bit sequence-number addition: wrap-around is valid, never an error.
pub open spec fn seq32_add(x: u32, y: u32) -> u32 {
    vstd::wrapping::u32_specs::wrapping_add(x, y)
}

/// The transition table of the state machine: the observed flag byte either
/// moves the current state along one edge or leaves it unchanged. The
/// TimeWait timeout edge is handled separately, by elapsed time.
pub open spec fn next_state(s: TcpState, flags: u8) -> TcpState {
    let fin = flags & TCP_FIN != 0;
    let syn = flags & TCP_SYN != 0;
    let ack = flags & TCP_ACK != 0;
    match s {
        TcpState::Listen => if syn {
            TcpState::SynReceived
        } else {
            s
        },
        TcpState::SynSent => if syn && ack {
            TcpState::Established
        } else {
            s
        },
        TcpState::SynReceived => if ack {
            TcpState::Established
        } else {
            s
        },
        TcpState::Established => if fin {
            TcpState::FinWait1
        } else {
            s
        },
        TcpState::FinWait1 => if fin {
            TcpState::FinWait2
        } else {
            s
        },
        TcpState::FinWait2 => if ack {
            TcpState::TimeWait
        } else {
            s
        },
        TcpState::CloseWait => if fin {
            TcpState::LastAck
        } else {
            s
        },
        TcpState::LastAck => if ack {
            TcpState::Closed
        } else {
            s
        },
        TcpState::TimeWait => s,
        TcpState::Closing => s,
        TcpState::Closed => s,
    }
}

/// The mathematical state of one tracked stream.
pub struct StreamModel {
    pub state: TcpState,
    pub client_isn: u32,
    pub server_isn: u32,
    pub client_next_seq: u32,
    pub server_next_seq: u32,
    pub client_data: Seq<u8>,
    pub server_data: Seq<u8>,
    pub last_activity: u64,
    pub client_window: u16,
    pub server_window: u16,
    pub client_mss: u16,
    pub server_mss: u16,
    pub client_cwnd: u32,
    pub server_cwnd: u32,
}

/// One tracked TCP connection.
pub struct TcpStream {
    pub state: TcpState,
    pub client_isn: u32,
    pub server_isn: u32,
    pub client_next_seq: u32,
    pub server_next_seq: u32,
    pub client_data: Vec<u8>,
    pub server_data: Vec<u8>,
    pub last_activity: u64,
    pub client_window: u16,
    pub server_window: u16,
    pub client_mss: u16,
    pub server_mss: u16,
    pub client_cwnd: u32,
    pub server_cwnd: u32,
}

impl View for TcpStream {
    type V = StreamModel;

    open spec fn view(&self) -> StreamModel {
        StreamModel {
            state: self.state,
            client_isn: self.client_isn,
            server_isn: self.server_isn,
            client_next_seq: self.client_next_seq,
            server_next_seq: self.server_next_seq,
            client_data: self.client_data@,
            server_data: self.server_data@,
            last_activity: self.last_activity,
            client_window: self.client_window,
            server_window: self.server_window,
            client_mss: self.client_mss,
            server_mss: self.server_mss,
            client_cwnd: self.client_cwnd,
            server_cwnd: self.server_cwnd,
        }
    }
}

/// The stream state that `TcpStream::new` builds.
pub open spec fn stream_new(client_seq: u32, server_seq: u32) -> StreamModel {
    StreamModel {
        state: TcpState::SynSent,
        client_isn: client_seq,
        server_isn: server_seq,
        client_next_seq: seq32_add(client_seq, 1),
        server_next_seq: seq32_add(server_seq, 1),
        client_data: Seq::empty(),
        server_data: Seq::empty(),
        last_activity: 0,
        client_window: 0,
        server_window: 0,
        client_mss: DEFAULT_MSS,
        server_mss: DEFAULT_MSS,
        client_cwnd: DEFAULT_MSS as u32,
        server_cwnd: DEFAULT_MSS as u32,
    }
}

/// What one observed segment does to a stream.
///
/// A stream that has sat in TimeWait for the TimeWait timeout closes and the
/// segment is not processed further. Otherwise: the activity timestamp is
/// refreshed; a SYN records the sender's initial sequence number; a payload
/// whose sequence number equals the sender's next-expected counter is
/// appended to that direction's buffer and advances the counter (any other
/// sequence number leaves the buffer alone); an ACK moves the opposite
/// direction's next-expected counter to the acknowledgment number; the
/// advertised window of the sending direction is recorded; and the flag byte
/// drives the transition table.
pub open spec fn stream_update(
    s: StreamModel,
    is_from_client: bool,
    seq: u32,
    ack: u32,
    flags: u8,
    payload: Seq<u8>,
    window: u16,
    now: u64,
) -> StreamModel
    recommends
        payload.len() <= 0xffff,
{
    if s.state == TcpState::TimeWait && now >= s.last_activity + TIME_WAIT_TIMEOUT_SECS {
        StreamModel { state: TcpState::Closed, last_activity: now, ..s }
    } else {
        let syn = flags & TCP_SYN != 0;
        let ackf = flags & TCP_ACK != 0;
        let s1 = if syn {
            if is_from_client {
                StreamModel { client_isn: seq, client_next_seq: seq32_add(seq, 1), ..s }
            } else {
                StreamModel { server_isn: seq, server_next_seq: seq32_add(seq, 1), ..s }
            }
        } else {
            s
        };
        let s2 = if is_from_client {
            if seq == s1.client_next_seq {
                StreamModel {
                    client_data: s1.client_data + payload,
                    client_next_seq: seq32_add(s1.client_next_seq, payload.len() as u32),
                    ..s1
                }
            } else {
                s1
            }
        } else {
            if seq == s1.server_next_seq {
                StreamModel {
                    server_data: s1.server_data + payload,
                    server_next_seq: seq32_add(s1.server_next_seq, payload.len() as u32),
                    ..s1
                }
            } else {
                s1
            }
        };
        let s3 = if ackf {
            if is_from_client {
                StreamModel { server_next_seq: ack, ..s2 }
            } else {
                StreamModel { client_next_seq: ack, ..s2 }
            }
        } else {
            s2
        };
        let s4 = if is_from_client {
            StreamModel { client_window: window, ..s3 }
        } else {
            StreamModel { server_window: window, ..s3 }
        };
        StreamModel { state: next_state(s.state, flags), last_activity: now, ..s4 }
    }
}

impl TcpStream {
    /// A fresh stream entry for a flow just established by a SYN, holding the
    /// two initial sequence numbers.
    pub fn new(client_seq: u32, server_seq: u32) -> (r: TcpStream)
        ensures
            r@ == stream_new(client_seq, server_seq),
    {
        TcpStream {
            state: TcpState::SynSent,
            client_isn: client_seq,
            server_isn: server_seq,
            client_next_seq: client_seq.wrapping_add(1),
            server_next_seq: server_seq.wrapping_add(1),
            client_data: Vec::new(),
            server_data: Vec::new(),
            last_activity: 0,
            client_window: 0,
            server_window: 0,
            client_mss: DEFAULT_MSS,
            server_mss: DEFAULT_MSS,
            client_cwnd: DEFAULT_MSS as u32,
            server_cwnd: DEFAULT_MSS as u32,
        }
    }

    /// Records the MSS a direction announced in its SYN options.
    pub fn set_mss(&mut self, is_client: bool, mss: u16)
        ensures
            is_client ==> final(self)@ == (StreamModel { client_mss: mss, ..old(self)@ }),
            !is_client ==> final(self)@ == (StreamModel { server_mss: mss, ..old(self)@ }),
    {
        if is_client {
            self.client_mss = mss;
        } else {
            self.server_mss = mss;
        }
    }

    /// Applies one observed segment to the stream, exactly as
    /// `stream_update` describes.
    pub fn update(
        &mut self,
        is_from_client: bool,
        seq: u32,
        ack: u32,
        flags: u8,
        payload: &[u8],
        window: u16,
        now: u64,
    )
        requires
            payload@.len() <= 0xffff,
        ensures
            final(self)@ == stream_update(
                old(self)@,
                is_from_client,
                seq,
                ack,
                flags,
                payload@,
                window,
                now,
            ),
    {
        if self.state == TcpState::TimeWait && now >= self.last_activity
            && now - self.last_activity >= TIME_WAIT_TIMEOUT_SECS {
            self.state = TcpState::Closed;
            self.last_activity = now;
            return ;
        }
        let old_state = self.state;
        let syn = flags & TCP_SYN != 0;
        let ackf = flags & TCP_ACK != 0;
        if syn {
            if is_from_client {
                self.client_isn = seq;
                self.client_next_seq = seq.wrapping_add(1);
            } else {
                self.server_isn = seq;
                self.server_next_seq = seq.wrapping_add(1);
            }
        }
        if is_from_client {
            if seq == self.client_next_seq {
                append_bytes(&mut self.client_data, payload);
                self.client_next_seq = self.client_next_seq.wrapping_add(payload.len() as u32);
            }
        } else {
            if seq == self.server_next_seq {
                append_bytes(&mut self.server_data, payload);
                self.server_next_seq = self.server_next_seq.wrapping_add(payload.len() as u32);
            }
        }
        if ackf {
            if is_from_client {
                self.server_next_seq = ack;
            } else {
                self.client_next_seq = ack;
            }
        }
        if is_from_client {
            self.client_window = window;
        } else {
            self.server_window = window;
        }
        self.state = next_state_exec(old_state, flags);
        self.last_activity = now;
    }
}

/// The transition table as executable code.
pub fn next_state_exec(s: TcpState, flags: u8) -> (r: TcpState)
    ensures
        r == next_state(s, flags),
{
    let fin = flags & TCP_FIN != 0;
    let syn = flags & TCP_SYN != 0;
    let ack = flags & TCP_ACK != 0;
    match s {
        TcpState::Listen => if syn {
            TcpState::SynReceived
        } else {
            s
        },
        TcpState::SynSent => if syn && ack {
            TcpState::Established
        } else {
            s
        },
        TcpState::SynReceived => if ack {
            TcpState::Established
        } else {
            s
        },
        TcpState::Established => if fin {
            TcpState::FinWait1
        } else {
            s
        },
        TcpState::FinWait1 => if fin {
            TcpState::FinWait2
        } else {
            s
        },
        TcpState::FinWait2 => if ack {
            TcpState::TimeWait
        } else {
            s
        },
        TcpState::CloseWait => if fin {
            TcpState::LastAck
        } else {
            s
        },
        TcpState::LastAck => if ack {
            TcpState::Closed
        } else {
            s
        },
        TcpState::TimeWait => s,
        TcpState::Closing => s,
        TcpState::Closed => s,
    }
}

/// A segment whose sequence number is not the expected one is accepted for
/// state-machine purposes but never appended to either buffer: the bytes
/// reconstructed so far are left exactly as they were.
pub proof fn lemma_out_of_order_not_buffered(
    s: StreamModel,
    is_from_client: bool,
    seq: u32,
    ack: u32,
    flags: u8,
    payload: Seq<u8>,
    window: u16,
    now: u64,
)
    requires
        flags & TCP_SYN == 0,
        is_from_client ==> seq != s.client_next_seq,
        !is_from_client ==> seq != s.server_next_seq,
    ensures
        stream_update(s, is_from_client, seq, ack, flags, payload, window, now).client_data
            == s.client_data,
        stream_update(s, is_from_client, seq, ack, flags, payload, window, now).server_data
            == s.server_data,
{
}

/// A segment whose sequence number equals the sender's next-expected counter
/// appends its payload to that direction's buffer and leaves the opposite
/// buffer alone.
pub proof fn lemma_in_order_appended(
    s: StreamModel,
    is_from_client: bool,
    seq: u32,
    ack: u32,
    flags: u8,
    payload: Seq<u8>,
    window: u16,
    now: u64,
)
    requires
        !(s.state == TcpState::TimeWait && now >= s.last_activity + TIME_WAIT_TIMEOUT_SECS),
        flags & TCP_SYN == 0,
        is_from_client ==> seq == s.client_next_seq,
        !is_from_client ==> seq == s.server_next_seq,
    ensures
        is_from_client ==> stream_update(s, is_from_client, seq, ack, flags, payload, window, now)
            .client_data == s.client_data + payload,
        is_from_client ==> stream_update(s, is_from_client, seq, ack, flags, payload, window, now)
            .server_data == s.server_data,
        !is_from_client ==> stream_update(s, is_from_client, seq, ack, flags, payload, window, now)
            .server_data == s.server_data + payload,
        !is_from_client ==> stream_update(s, is_from_client, seq, ack, flags, payload, window, now)
            .client_data == s.client_data,
{
}

} // verus!
