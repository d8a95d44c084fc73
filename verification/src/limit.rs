//! Window-based admission control for datagram reception.
//!
//! Time is divided into tumbling windows of `1 << shift_millis`
//! milliseconds, counted from the moment the limiter was started.  Within
//! one window at most `max_packets` datagrams and `max_bytes` bytes are
//! admitted; a zero cap leaves that dimension unconstrained, and
//! `shift_millis == 0` disables gating altogether.

use vstd::prelude::*;

use crate::types::{sat_add_usize, RecvBuf};

verus! {

/// The admission decision for one receive attempt: either proceed now
/// (`Advance(n)` admits up to `n` packets), or retry after the given number
/// of milliseconds, when the next window opens.
#[derive(Debug, PartialEq, Eq, Structural)]
pub enum DatagramLimitResult {
    Advance(usize),
    DelayFor(u64),
}

/// The admission-control state: the static configuration and the running
/// counters of the current window.
#[derive(Clone, Copy, Debug)]
pub struct DatagramLimitInfo {
    /// Window duration exponent: the window is `1 << shift_millis` ms.
    /// Zero disables gating.  At most 12.
    pub shift_millis: u8,
    /// Packets admitted per window; zero means unconstrained.
    pub max_packets: usize,
    /// Bytes admitted per window; zero means unconstrained.
    pub max_bytes: usize,
    /// Index of the current window, measured from the start instant.
    pub time_slice_id: u64,
    /// Packets accounted to the current window.
    pub cur_packets: usize,
    /// Bytes accounted to the current window.
    pub cur_bytes: usize,
}

/// The index of the window that the elapsed time `dur_millis` falls in.
pub open spec fn window_of(dur_millis: u64, shift_millis: u8) -> u64 {
    dur_millis >> (shift_millis as u64)
}

/// The elapsed time at which window `w` ends and window `w + 1` begins,
/// saturating at the top of the counter range.
pub open spec fn next_window_start(w: u64, shift_millis: u8) -> u64 {
    if w >= (u64::MAX >> (shift_millis as u64)) {
        u64::MAX
    } else {
        ((w + 1) as u64) << (shift_millis as u64)
    }
}

/// How long a caller at elapsed time `dur_millis` must wait until the next
/// window opens.
pub open spec fn delay_of(dur_millis: u64, shift_millis: u8) -> u64 {
    (next_window_start(window_of(dur_millis, shift_millis), shift_millis) - dur_millis) as u64
}

/// Whether one more packet of `size` bytes fits in a window that already
/// holds `cur_packets` packets and `cur_bytes` bytes.  A zero cap never
/// constrains.
pub open spec fn admits_one(
    cur_packets: usize,
    cur_bytes: usize,
    max_packets: usize,
    max_bytes: usize,
    size: usize,
) -> bool {
    &&& (max_packets > 0 ==> cur_packets + 1 <= max_packets)
    &&& (max_bytes > 0 ==> cur_bytes + size <= max_bytes)
}

/// The declared lengths of a batch's receive buffers.
pub open spec fn buf_lens(bufs: Seq<RecvBuf>) -> Seq<int> {
    bufs.map_values(|b: RecvBuf| b.buf@.len() as int)
}

/// The sum of the first `n` entries of `lens`.
pub open spec fn sum_prefix(lens: Seq<int>, n: int) -> int
    decreases n,
{
    if n <= 0 {
        0
    } else {
        sum_prefix(lens, n - 1) + lens[n - 1]
    }
}

/// Whether the first `n` packets of a batch with buffer lengths `lens` all
/// fit in a window that already holds `cur_packets` packets and `cur_bytes`
/// bytes.  A zero cap never constrains.
pub open spec fn prefix_admissible(
    cur_packets: usize,
    cur_bytes: usize,
    max_packets: usize,
    max_bytes: usize,
    lens: Seq<int>,
    n: int,
) -> bool {
    &&& (max_packets > 0 ==> cur_packets + n <= max_packets)
    &&& (max_bytes > 0 ==> cur_bytes + sum_prefix(lens, n) <= max_bytes)
}

/// `n` is the number of packets a batch admission pre-admits: the first `n`
/// buffers fit, and either the batch is exhausted or the next buffer would
/// exceed a cap.  Under a well-formed state this pins `n` uniquely (see
/// `lemma_max_admitted_unique`).
pub open spec fn max_admitted(
    cur_packets: usize,
    cur_bytes: usize,
    max_packets: usize,
    max_bytes: usize,
    lens: Seq<int>,
    n: int,
) -> bool {
    &&& 0 <= n <= lens.len()
    &&& prefix_admissible(cur_packets, cur_bytes, max_packets, max_bytes, lens, n)
    &&& (n == lens.len() || !prefix_admissible(
        cur_packets,
        cur_bytes,
        max_packets,
        max_bytes,
        lens,
        n + 1,
    ))
}

/// The state after consulting the clock: entering window `w` resets the
/// running counters, staying in the current window keeps them.
pub open spec fn rolled(l: DatagramLimitInfo, w: u64) -> DatagramLimitInfo {
    if l.time_slice_id == w {
        l
    } else {
        DatagramLimitInfo { time_slice_id: w, cur_packets: 0, cur_bytes: 0, ..l }
    }
}

impl DatagramLimitInfo {
    /// Gating is enabled exactly when the window exponent is non-zero.
    pub open spec fn is_enabled(&self) -> bool {
        self.shift_millis > 0
    }

    /// Well-formedness: the exponent is in range, and after any admission
    /// decision the running counters respect each enabled cap.
    pub open spec fn wf(&self) -> bool {
        &&& self.shift_millis <= 12
        &&& (self.max_packets > 0 ==> self.cur_packets <= self.max_packets)
        &&& (self.max_bytes > 0 ==> self.cur_bytes <= self.max_bytes)
    }

    /// Fresh admission state in window zero with zero counters.
    pub fn new(shift_millis: u8, max_packets: usize, max_bytes: usize) -> (r: DatagramLimitInfo)
        requires
            shift_millis <= 12,
        ensures
            r == (DatagramLimitInfo {
                shift_millis,
                max_packets,
                max_bytes,
                time_slice_id: 0,
                cur_packets: 0,
                cur_bytes: 0,
            }),
            r.wf(),
    {
        DatagramLimitInfo {
            shift_millis,
            max_packets,
            max_bytes,
            time_slice_id: 0,
            cur_packets: 0,
            cur_bytes: 0,
        }
    }

    /// Whether gating is enabled.
    pub fn is_set(&self) -> (r: bool)
        ensures
            r == self.is_enabled(),
    {
        self.shift_millis > 0
    }

    /// The admission decision for a single packet that may fill a buffer of
    /// `buf_size` bytes, at elapsed time `dur_millis`.  Rolls the window
    /// first; admission itself does not account the packet (see
    /// `set_advance`).
    pub fn check_packet(&mut self, dur_millis: u64, buf_size: usize) -> (r: DatagramLimitResult)
        requires
            old(self).wf(),
        ensures
            final(self).wf(),
            final(self).shift_millis == old(self).shift_millis,
            final(self).max_packets == old(self).max_packets,
            final(self).max_bytes == old(self).max_bytes,
            !old(self).is_enabled() ==> *final(self) == *old(self) && r
                == DatagramLimitResult::Advance(1),
            old(self).is_enabled() ==> {
                let base = rolled(*old(self), window_of(dur_millis, old(self).shift_millis));
                &&& *final(self) == base
                &&& r == (if admits_one(
                    base.cur_packets,
                    base.cur_bytes,
                    base.max_packets,
                    base.max_bytes,
                    buf_size,
                ) {
                    DatagramLimitResult::Advance(1)
                } else {
                    DatagramLimitResult::DelayFor(delay_of(dur_millis, old(self).shift_millis))
                })
            },
    {
        if self.shift_millis == 0 {
            return DatagramLimitResult::Advance(1);
        }
        self.roll_window(dur_millis);
        let packet_ok: bool = self.max_packets == 0 || self.cur_packets < self.max_packets;
        let byte_ok: bool = self.max_bytes == 0 || buf_size <= self.max_bytes - self.cur_bytes;
        if packet_ok && byte_ok {
            DatagramLimitResult::Advance(1)
        } else {
            DatagramLimitResult::DelayFor(self.delay_until_next_window(dur_millis))
        }
    }

    /// Enter the window that `dur_millis` falls in, resetting the running
    /// counters when the window changes.
    fn roll_window(&mut self, dur_millis: u64)
        requires
            old(self).wf(),
            old(self).is_enabled(),
        ensures
            *final(self) == rolled(*old(self), window_of(dur_millis, old(self).shift_millis)),
            final(self).wf(),
    {
        let w: u64 = dur_millis >> (self.shift_millis as u64);
        if w != self.time_slice_id {
            self.time_slice_id = w;
            self.cur_packets = 0;
            self.cur_bytes = 0;
        }
    }

    /// Milliseconds from `dur_millis` until the current window closes.
    fn delay_until_next_window(&self, dur_millis: u64) -> (r: u64)
        requires
            self.wf(),
            self.is_enabled(),
            self.time_slice_id == window_of(dur_millis, self.shift_millis),
        ensures
            r == delay_of(dur_millis, self.shift_millis),
    {
        proof {
            lemma_dur_below_next(dur_millis, self.shift_millis);
        }
        let shift: u64 = self.shift_millis as u64;
        let next: u64 = if self.time_slice_id >= (u64::MAX >> shift) {
            u64::MAX
        } else {
            (self.time_slice_id + 1) << shift
        };
        next - dur_millis
    }

    /// The admission decision for a batched receive into the buffers
    /// `bufs`, at elapsed time `dur_millis`: pre-admit the longest prefix
    /// of buffers that fits under both caps.  The kernel may then fill
    /// fewer slots; accounting happens afterwards with the actual counts
    /// (see `set_advance`).
    pub fn check_packets(&mut self, dur_millis: u64, bufs: &Vec<RecvBuf>) -> (r:
        DatagramLimitResult)
        requires
            old(self).wf(),
        ensures
            final(self).wf(),
            final(self).shift_millis == old(self).shift_millis,
            final(self).max_packets == old(self).max_packets,
            final(self).max_bytes == old(self).max_bytes,
            !old(self).is_enabled() ==> *final(self) == *old(self) && r
                == DatagramLimitResult::Advance(bufs@.len() as usize),
            old(self).is_enabled() ==> {
                let base = rolled(*old(self), window_of(dur_millis, old(self).shift_millis));
                let lens = buf_lens(bufs@);
                &&& *final(self) == base
                &&& match r {
                    DatagramLimitResult::Advance(n) => n >= 1 && max_admitted(
                        base.cur_packets,
                        base.cur_bytes,
                        base.max_packets,
                        base.max_bytes,
                        lens,
                        n as int,
                    ),
                    DatagramLimitResult::DelayFor(ms) => max_admitted(
                        base.cur_packets,
                        base.cur_bytes,
                        base.max_packets,
                        base.max_bytes,
                        lens,
                        0,
                    ) && ms == delay_of(dur_millis, old(self).shift_millis),
                }
            },
    {
        if self.shift_millis == 0 {
            return DatagramLimitResult::Advance(bufs.len());
        }
        self.roll_window(dur_millis);
        let ghost lens: Seq<int> = buf_lens(bufs@);
        let max_packets: usize = self.max_packets;
        let max_bytes: usize = self.max_bytes;
        let cur_packets: usize = self.cur_packets;
        let cur_bytes: usize = self.cur_bytes;
        let mut n: usize = 0;
        let mut total: usize = 0;
        let mut blocked: bool = false;
        while !blocked && n < bufs.len()
            invariant
                n <= bufs@.len(),
                lens == buf_lens(bufs@),
                max_packets > 0 ==> cur_packets <= max_packets,
                max_bytes > 0 ==> cur_bytes <= max_bytes,
                prefix_admissible(cur_packets, cur_bytes, max_packets, max_bytes, lens, n as int),
                max_bytes > 0 ==> total == sum_prefix(lens, n as int) && cur_bytes + total
                    <= max_bytes,
                blocked ==> n < bufs@.len() && !prefix_admissible(
                    cur_packets,
                    cur_bytes,
                    max_packets,
                    max_bytes,
                    lens,
                    n as int + 1,
                ),
            decreases bufs@.len() - n + (if blocked {
                0int
            } else {
                1int
            }),
        {
            let size: usize = bufs[n].buf.len();
            assert(lens[n as int] == size as int);
            let packet_ok: bool = max_packets == 0 || n < max_packets - cur_packets;
            let byte_ok: bool = max_bytes == 0 || size <= (max_bytes - cur_bytes) - total;
            if packet_ok && byte_ok {
                if max_bytes > 0 {
                    total = total + size;
                }
                n = n + 1;
            } else {
                blocked = true;
            }
        }
        if n > 0 {
            DatagramLimitResult::Advance(n)
        } else {
            DatagramLimitResult::DelayFor(self.delay_until_next_window(dur_millis))
        }
    }

    /// Account an admitted, completed receive of `packets` packets and
    /// `size` bytes to the current window.  Within an enabled cap the
    /// caller's admission guarantees exactness; an unconstrained counter
    /// saturates.
    pub fn set_advance(&mut self, packets: usize, size: usize)
        requires
            old(self).wf(),
            old(self).max_packets > 0 ==> old(self).cur_packets + packets <= old(
                self,
            ).max_packets,
            old(self).max_bytes > 0 ==> old(self).cur_bytes + size <= old(self).max_bytes,
        ensures
            final(self).wf(),
            *final(self) == (DatagramLimitInfo {
                cur_packets: sat_add_usize(old(self).cur_packets, packets),
                cur_bytes: sat_add_usize(old(self).cur_bytes, size),
                ..*old(self)
            }),
    {
        self.cur_packets = if packets > usize::MAX - self.cur_packets {
            usize::MAX
        } else {
            self.cur_packets + packets
        };
        self.cur_bytes = if size > usize::MAX - self.cur_bytes {
            usize::MAX
        } else {
            self.cur_bytes + size
        };
    }
}

/// The elapsed time never lies beyond the end of its own window: the next
/// window starts no earlier than `dur_millis`, and strictly later whenever
/// the window index is below its saturation point.
pub proof fn lemma_dur_below_next(dur_millis: u64, shift_millis: u8)
    requires
        shift_millis <= 12,
    ensures
        dur_millis <= next_window_start(window_of(dur_millis, shift_millis), shift_millis),
        window_of(dur_millis, shift_millis) < (u64::MAX >> (shift_millis as u64))
            ==> dur_millis < next_window_start(window_of(dur_millis, shift_millis), shift_millis),
{
    let s: u64 = shift_millis as u64;
    assert((dur_millis >> s) < (u64::MAX >> s) ==> dur_millis < ((((dur_millis >> s) + 1) as u64)
        << s)) by (bit_vector)
        requires
            s <= 12,
    ;
}

/// Every receive accounted to window `w` happened at an elapsed time within
/// that window's span: `w << shift_millis <= dur_millis` and `dur_millis`
/// is below the start of window `w + 1`.
pub proof fn lemma_window_span(dur_millis: u64, shift_millis: u8)
    requires
        shift_millis <= 12,
    ensures
        (window_of(dur_millis, shift_millis) << (shift_millis as u64)) <= dur_millis,
        dur_millis < next_window_start(window_of(dur_millis, shift_millis), shift_millis)
            || next_window_start(window_of(dur_millis, shift_millis), shift_millis) == u64::MAX,
{
    let s: u64 = shift_millis as u64;
    assert(((dur_millis >> s) << s) <= dur_millis) by (bit_vector)
        requires
            s <= 12,
    ;
    lemma_dur_below_next(dur_millis, shift_millis);
}

/// Windowed-rate bound: immediately after any admission decision or
/// accounting step, the packets and bytes attributed to the current window
/// respect each enabled cap.  Every operation of this module yields a
/// well-formed state, so the bound holds throughout a run.
pub proof fn lemma_windowed_rate_bound(l: DatagramLimitInfo)
    requires
        l.wf(),
    ensures
        l.max_packets > 0 ==> l.cur_packets <= l.max_packets,
        l.max_bytes > 0 ==> l.cur_bytes <= l.max_bytes,
{
}

/// Window reset: an admission decision that crosses into a new window sees
/// both running counters at zero.
pub proof fn lemma_window_reset(l: DatagramLimitInfo, w: u64)
    requires
        l.time_slice_id != w,
    ensures
        rolled(l, w).cur_packets == 0,
        rolled(l, w).cur_bytes == 0,
{
}

/// With both caps zero the gating axis is disabled: every single-packet
/// admission succeeds, whatever the counters and the packet size.
pub proof fn lemma_unconstrained_always_admits(cur_packets: usize, cur_bytes: usize, size: usize)
    ensures
        admits_one(cur_packets, cur_bytes, 0, 0, size),
{
}

/// With both caps zero every batch prefix is admissible, so the whole
/// batch is pre-admitted.
pub proof fn lemma_unconstrained_admits_batch(
    cur_packets: usize,
    cur_bytes: usize,
    lens: Seq<int>,
)
    ensures
        max_admitted(cur_packets, cur_bytes, 0, 0, lens, lens.len() as int),
{
}

/// A prefix sum of non-negative entries grows with the prefix.
pub proof fn lemma_sum_prefix_mono(lens: Seq<int>, a: int, b: int)
    requires
        forall|i: int| 0 <= i < lens.len() ==> lens[i] >= 0,
        0 <= a <= b <= lens.len(),
    ensures
        sum_prefix(lens, a) <= sum_prefix(lens, b),
    decreases b,
{
    if a < b {
        lemma_sum_prefix_mono(lens, a, b - 1);
    }
}

/// A prefix sum of entries bounded pointwise by another sequence's entries
/// is bounded by that sequence's prefix sum.
pub proof fn lemma_sum_prefix_le(small: Seq<int>, large: Seq<int>, n: int)
    requires
        0 <= n <= small.len(),
        n <= large.len(),
        forall|i: int| 0 <= i < n ==> small[i] <= large[i],
    ensures
        sum_prefix(small, n) <= sum_prefix(large, n),
    decreases n,
{
    if n > 0 {
        lemma_sum_prefix_le(small, large, n - 1);
    }
}

/// Admissibility of batch prefixes is antitone: when a longer prefix fits
/// under the caps, every shorter one does too.
pub proof fn lemma_prefix_admissible_antitone(
    cur_packets: usize,
    cur_bytes: usize,
    max_packets: usize,
    max_bytes: usize,
    lens: Seq<int>,
    a: int,
    b: int,
)
    requires
        forall|i: int| 0 <= i < lens.len() ==> lens[i] >= 0,
        0 <= a <= b <= lens.len(),
        prefix_admissible(cur_packets, cur_bytes, max_packets, max_bytes, lens, b),
    ensures
        prefix_admissible(cur_packets, cur_bytes, max_packets, max_bytes, lens, a),
{
    lemma_sum_prefix_mono(lens, a, b);
}

/// The pre-admitted batch prefix is unique: the walk over the buffers has
/// exactly one stopping point.
pub proof fn lemma_max_admitted_unique(
    cur_packets: usize,
    cur_bytes: usize,
    max_packets: usize,
    max_bytes: usize,
    lens: Seq<int>,
    n1: int,
    n2: int,
)
    requires
        forall|i: int| 0 <= i < lens.len() ==> lens[i] >= 0,
        max_admitted(cur_packets, cur_bytes, max_packets, max_bytes, lens, n1),
        max_admitted(cur_packets, cur_bytes, max_packets, max_bytes, lens, n2),
    ensures
        n1 == n2,
{
    if n1 < n2 {
        lemma_prefix_admissible_antitone(
            cur_packets,
            cur_bytes,
            max_packets,
            max_bytes,
            lens,
            n1 + 1,
            n2,
        );
    }
    if n2 < n1 {
        lemma_prefix_admissible_antitone(
            cur_packets,
            cur_bytes,
            max_packets,
            max_bytes,
            lens,
            n2 + 1,
            n1,
        );
    }
}

/// A batch whose very first buffer already exceeds a cap is pre-admitted
/// nothing at all: the decision is a delay, never `Advance(0)`.
pub proof fn lemma_first_over_cap_delays(
    cur_packets: usize,
    cur_bytes: usize,
    max_packets: usize,
    max_bytes: usize,
    lens: Seq<int>,
    n: int,
)
    requires
        forall|i: int| 0 <= i < lens.len() ==> lens[i] >= 0,
        lens.len() > 0,
        !prefix_admissible(cur_packets, cur_bytes, max_packets, max_bytes, lens, 1),
        max_admitted(cur_packets, cur_bytes, max_packets, max_bytes, lens, n),
    ensures
        n == 0,
{
    if n >= 1 {
        lemma_prefix_admissible_antitone(
            cur_packets,
            cur_bytes,
            max_packets,
            max_bytes,
            lens,
            1,
            n,
        );
    }
}

} // verus!
