//! The statistics sink fed by the limiter: append-only packet and byte
//! counters, credited after each successful receive and never on a failed
//! one.

use vstd::prelude::*;

use crate::types::sat_add_u64;

verus! {

/// A sink of receive statistics.  The limiter credits each successful
/// receive to the sink it currently holds; the sink is replaceable
/// mid-flow (see `LimitedUdpRecv::reset_stats`).  Counters saturate at the
/// top of their range instead of wrapping.
pub trait LimitedRecvStats: Sized {
    /// Packets received so far.
    spec fn recv_packets(&self) -> u64;

    /// Bytes received so far.
    spec fn recv_bytes(&self) -> u64;

    /// Credit one received packet.
    fn add_recv_packet(&mut self)
        ensures
            final(self).recv_packets() == sat_add_u64(old(self).recv_packets(), 1),
            final(self).recv_bytes() == old(self).recv_bytes(),
    ;

    /// Credit `count` received packets.
    fn add_recv_packets(&mut self, count: usize)
        ensures
            final(self).recv_packets() == sat_add_u64(old(self).recv_packets(), count as u64),
            final(self).recv_bytes() == old(self).recv_bytes(),
    ;

    /// Credit `size` received bytes.
    fn add_recv_bytes(&mut self, size: usize)
        ensures
            final(self).recv_bytes() == sat_add_u64(old(self).recv_bytes(), size as u64),
            final(self).recv_packets() == old(self).recv_packets(),
    ;
}

/// A plain in-process statistics sink: two saturating counters.
#[derive(Clone, Copy, Debug, PartialEq, Eq, Structural)]
pub struct CounterRecvStats {
    pub packets: u64,
    pub bytes: u64,
}

impl CounterRecvStats {
    /// A sink with both counters at zero.
    pub fn new() -> (r: CounterRecvStats)
        ensures
            r == (CounterRecvStats { packets: 0, bytes: 0 }),
    {
        CounterRecvStats { packets: 0, bytes: 0 }
    }
}

impl LimitedRecvStats for CounterRecvStats {
    open spec fn recv_packets(&self) -> u64 {
        self.packets
    }

    open spec fn recv_bytes(&self) -> u64 {
        self.bytes
    }

    fn add_recv_packet(&mut self) {
        self.packets = if self.packets == u64::MAX {
            u64::MAX
        } else {
            self.packets + 1
        };
    }

    fn add_recv_packets(&mut self, count: usize) {
        let count64: u64 = count as u64;
        self.packets = if count64 > u64::MAX - self.packets {
            u64::MAX
        } else {
            self.packets + count64
        };
    }

    fn add_recv_bytes(&mut self, size: usize) {
        let size64: u64 = size as u64;
        self.bytes = if size64 > u64::MAX - self.bytes {
            u64::MAX
        } else {
            self.bytes + size64
        };
    }
}

} // verus!
