//! Plain value types shared by the receive pipeline, and the saturating
//! arithmetic used by its counters.

use vstd::prelude::*;

verus! {

/// Saturating addition on `usize`, the arithmetic of the window counters.
pub open spec fn sat_add_usize(a: usize, b: usize) -> usize {
    if a + b > usize::MAX {
        usize::MAX
    } else {
        (a + b) as usize
    }
}

/// Saturating addition on `u64`, the arithmetic of the statistics counters.
pub open spec fn sat_add_u64(a: u64, b: u64) -> u64 {
    if a + b > u64::MAX {
        u64::MAX
    } else {
        (a + b) as u64
    }
}

/// Below its saturation point the byte/packet crediting is exact: after a
/// successful receive the counters grow by exactly what was received, and
/// a failed receive credits nothing.
pub proof fn lemma_sat_add_u64_exact(a: u64, b: u64)
    requires
        a + b <= u64::MAX,
    ensures
        sat_add_u64(a, b) == a + b,
{
}

/// The window counters share the same exactness below saturation.
pub proof fn lemma_sat_add_usize_exact(a: usize, b: usize)
    requires
        a + b <= usize::MAX,
    ensures
        sat_add_usize(a, b) == a + b,
{
}

/// A UDP socket address reduced to the values the pipeline reads: a host
/// address and a port.  The delayed path of the limiter reports the
/// unspecified address (all zeroes).
#[derive(Clone, Copy, Debug, PartialEq, Eq, Structural)]
pub struct SockAddr {
    pub ip: u32,
    pub port: u16,
}

impl SockAddr {
    /// The placeholder source address reported by a rate-delayed receive.
    pub fn unspecified() -> (r: SockAddr)
        ensures
            r == (SockAddr { ip: 0, port: 0 }),
    {
        SockAddr { ip: 0, port: 0 }
    }
}

/// An I/O failure surfaced by an endpoint, reduced to a numeric kind.
/// The limiter propagates it verbatim and never retries.
#[derive(Clone, Copy, Debug, PartialEq, Eq, Structural)]
pub struct RecvError {
    pub kind: u32,
}

/// The outcome of one poll of a receive operation.
///
/// `Ready` carries the operation's result; `Pending` means no progress was
/// possible (kernel not ready, or the rate window is exhausted and the
/// caller must wait for the armed deadline); `Failed` propagates an
/// endpoint error.
#[derive(Debug, PartialEq, Eq)]
pub enum UdpPoll<T, E> {
    Ready(T),
    Pending,
    Failed(E),
}

/// One mutable receive buffer of a batched (scatter/gather) receive.
#[derive(Debug)]
pub struct RecvBuf {
    pub buf: Vec<u8>,
}

/// The post-receive header of one slot of a batched receive: the number of
/// bytes the endpoint wrote into the matching buffer.
#[derive(Clone, Copy, Debug, PartialEq, Eq, Structural)]
pub struct RecvHdr {
    pub len: usize,
}

/// A packet slot exposed to a datagram copy engine: a buffer plus the
/// offset and length of the datagram it holds.
#[derive(Debug)]
pub struct UdpCopyPacket {
    pub buf: Vec<u8>,
    pub offset: usize,
    pub length: usize,
}

/// The error type of the remote-receive adapter: an endpoint failure,
/// carried through unchanged.
#[derive(Clone, Copy, Debug, PartialEq, Eq, Structural)]
pub enum UdpCopyRemoteError {
    RecvFailed(RecvError),
}

} // verus!
