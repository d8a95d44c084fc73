//! The UDP receive capability and its rate-limited wrapper.
//!
//! An endpoint is modelled by the sequence of datagrams it will deliver, in
//! arrival order.  Each poll either consumes the front datagram into the
//! caller's buffer, reports no progress, or fails; a rate-limited endpoint
//! may additionally complete with a synthetic zero-byte result when the
//! window is exhausted and the computed delay is zero.  Endpoints that never
//! take that synthetic path are `strict`.

use vstd::prelude::*;

use crate::limit::{
    admits_one, buf_lens, delay_of, lemma_dur_below_next, lemma_prefix_admissible_antitone,
    lemma_sum_prefix_mono, max_admitted, next_window_start, prefix_admissible, rolled, sum_prefix,
    window_of, DatagramLimitInfo, DatagramLimitResult,
};
use crate::stats::LimitedRecvStats;
use crate::types::{sat_add_u64, sat_add_usize, RecvBuf, RecvError, RecvHdr, SockAddr, UdpPoll};

verus! {

/// A datagram as the model sees it: its payload and its source address.
pub struct Dgram {
    pub data: Seq<u8>,
    pub addr: SockAddr,
}

/// The number of payload bytes that land in a buffer: the payload length,
/// truncated to the buffer's capacity (UDP truncation semantics).
pub open spec fn trunc_len(data_len: int, buf_len: int) -> int {
    if data_len <= buf_len {
        data_len
    } else {
        buf_len
    }
}

/// A single receive consumed the front datagram `q_pre[0]`: the queue
/// shrank by one, `n` is the truncated payload length, and the buffer holds
/// the payload's first `n` bytes followed by its own untouched tail.
pub open spec fn recv_consumed(
    q_pre: Seq<Dgram>,
    q_post: Seq<Dgram>,
    buf_pre: Seq<u8>,
    buf_post: Seq<u8>,
    n: usize,
) -> bool {
    &&& q_pre.len() > 0
    &&& q_post == q_pre.skip(1)
    &&& n as int == trunc_len(q_pre[0].data.len() as int, buf_pre.len() as int)
    &&& buf_post == q_pre[0].data.take(n as int) + buf_pre.skip(n as int)
}

/// One filled slot of a batched receive: the header carries the truncated
/// payload length and the buffer holds the payload's prefix.
pub open spec fn slot_filled(d: Dgram, buf_pre: Seq<u8>, buf_post: Seq<u8>, hdr: RecvHdr) -> bool {
    let n = trunc_len(d.data.len() as int, buf_pre.len() as int);
    &&& hdr.len as int == n
    &&& buf_post == d.data.take(n) + buf_pre.skip(n)
}

/// A batched receive consumed the front `count` datagrams, filling the
/// first `count` slots in order and leaving the rest untouched.
pub open spec fn batch_consumed(
    q_pre: Seq<Dgram>,
    q_post: Seq<Dgram>,
    bufs_pre: Seq<RecvBuf>,
    bufs_post: Seq<RecvBuf>,
    meta_pre: Seq<RecvHdr>,
    meta_post: Seq<RecvHdr>,
    count: usize,
) -> bool {
    &&& count as int <= q_pre.len()
    &&& count as int <= bufs_pre.len()
    &&& q_post == q_pre.skip(count as int)
    &&& forall|i: int|
        0 <= i < count as int ==> #[trigger] slot_filled(
            q_pre[i],
            bufs_pre[i].buf@,
            bufs_post[i].buf@,
            meta_post[i],
        )
    &&& forall|i: int|
        count as int <= i < bufs_pre.len() ==> #[trigger] bufs_post[i].buf@ == bufs_pre[i].buf@
            && meta_post[i] == meta_pre[i]
}

/// The UDP receive capability: unconnected, connected, and batched
/// reception, each as one poll driven by the caller with the elapsed time
/// `now_millis` since the endpoint's flow started.  Raw endpoints ignore
/// the time; rate-limited wrappers consult it.
pub trait AsyncUdpRecv: Sized {
    /// The datagrams this endpoint will deliver, in order.
    spec fn dgrams(&self) -> Seq<Dgram>;

    /// The endpoint's own well-formedness; each poll preserves it.
    spec fn inv(&self) -> bool;

    /// Whether every `Ready` result of this endpoint consumes a datagram.
    /// A rate-limited endpoint is not strict: when its window is exhausted
    /// it may complete with a synthetic zero-byte result.
    spec fn strict(&self) -> bool;

    /// Receive one datagram and its source address.
    fn poll_recv_from(&mut self, now_millis: u64, buf: &mut Vec<u8>) -> (r: UdpPoll<
        (usize, SockAddr),
        RecvError,
    >)
        requires
            old(self).inv(),
        ensures
            final(self).inv(),
            final(buf)@.len() == old(buf)@.len(),
            final(self).strict() == old(self).strict(),
            (match r {
                UdpPoll::Ready((n, addr)) => (recv_consumed(
                    old(self).dgrams(),
                    final(self).dgrams(),
                    old(buf)@,
                    final(buf)@,
                    n,
                ) && addr == old(self).dgrams()[0].addr) || (n == 0 && addr == (SockAddr {
                    ip: 0,
                    port: 0,
                }) && final(self).dgrams() == old(self).dgrams() && final(buf)@ == old(buf)@),
                UdpPoll::Pending => final(self).dgrams() == old(self).dgrams() && final(buf)@
                    == old(buf)@,
                UdpPoll::Failed(_) => final(self).dgrams() == old(self).dgrams() && final(buf)@
                    == old(buf)@,
            }),
            old(self).strict() ==> (match r {
                UdpPoll::Ready((n, addr)) => recv_consumed(
                    old(self).dgrams(),
                    final(self).dgrams(),
                    old(buf)@,
                    final(buf)@,
                    n,
                ) && addr == old(self).dgrams()[0].addr,
                _ => true,
            }),
    ;

    /// Receive one datagram on a connected endpoint.
    fn poll_recv(&mut self, now_millis: u64, buf: &mut Vec<u8>) -> (r: UdpPoll<usize, RecvError>)
        requires
            old(self).inv(),
        ensures
            final(self).inv(),
            final(buf)@.len() == old(buf)@.len(),
            final(self).strict() == old(self).strict(),
            (match r {
                UdpPoll::Ready(n) => recv_consumed(
                    old(self).dgrams(),
                    final(self).dgrams(),
                    old(buf)@,
                    final(buf)@,
                    n,
                ) || (n == 0 && final(self).dgrams() == old(self).dgrams() && final(buf)@ == old(buf)@),
                UdpPoll::Pending => final(self).dgrams() == old(self).dgrams() && final(buf)@
                    == old(buf)@,
                UdpPoll::Failed(_) => final(self).dgrams() == old(self).dgrams() && final(buf)@
                    == old(buf)@,
            }),
            old(self).strict() ==> (match r {
                UdpPoll::Ready(n) => recv_consumed(
                    old(self).dgrams(),
                    final(self).dgrams(),
                    old(buf)@,
                    final(buf)@,
                    n,
                ),
                _ => true,
            }),
    ;

    /// Receive up to `max_count` datagrams into the leading slots of
    /// `bufs`, recording each received length in the matching `meta` slot.
    fn poll_batch_recvmsg(
        &mut self,
        now_millis: u64,
        bufs: &mut Vec<RecvBuf>,
        meta: &mut Vec<RecvHdr>,
        max_count: usize,
    ) -> (r: UdpPoll<usize, RecvError>)
        requires
            old(self).inv(),
            1 <= max_count <= old(bufs)@.len(),
            old(meta)@.len() == old(bufs)@.len(),
            sum_prefix(buf_lens(old(bufs)@), old(bufs)@.len() as int) <= usize::MAX,
        ensures
            final(self).inv(),
            final(bufs)@.len() == old(bufs)@.len(),
            final(meta)@.len() == old(meta)@.len(),
            forall|i: int|
                0 <= i < old(bufs)@.len() ==> #[trigger] final(bufs)@[i].buf@.len() == old(bufs)@[i].buf@.len(),
            final(self).strict() == old(self).strict(),
            (match r {
                UdpPoll::Ready(count) => count <= max_count && (batch_consumed(
                    old(self).dgrams(),
                    final(self).dgrams(),
                    old(bufs)@,
                    final(bufs)@,
                    old(meta)@,
                    final(meta)@,
                    count,
                ) || (count == 0 && final(self).dgrams() == old(self).dgrams() && final(bufs)@
                    =~= old(bufs)@ && final(meta)@ == old(meta)@)),
                UdpPoll::Pending => final(self).dgrams() == old(self).dgrams() && final(bufs)@
                    =~= old(bufs)@ && final(meta)@ == old(meta)@,
                UdpPoll::Failed(_) => final(self).dgrams() == old(self).dgrams() && final(bufs)@
                    =~= old(bufs)@ && final(meta)@ == old(meta)@,
            }),
            old(self).strict() ==> (match r {
                UdpPoll::Ready(count) => count >= 1 && batch_consumed(
                    old(self).dgrams(),
                    final(self).dgrams(),
                    old(bufs)@,
                    final(bufs)@,
                    old(meta)@,
                    final(meta)@,
                    count,
                ),
                _ => true,
            }),
    ;
}

/// A datagram held by the in-memory endpoint.
#[derive(Debug)]
pub struct QueuedDgram {
    pub data: Vec<u8>,
    pub addr: SockAddr,
}

/// The model value of a queued datagram.
pub open spec fn dgram_view(d: QueuedDgram) -> Dgram {
    Dgram { data: d.data@, addr: d.addr }
}

/// The model values of a whole queue.
pub open spec fn dgram_views(q: Seq<QueuedDgram>) -> Seq<Dgram> {
    q.map_values(|d: QueuedDgram| dgram_view(d))
}

/// An in-memory endpoint: delivers a queue of datagrams in order.  It is
/// the strict reference implementation of the receive capability and the
/// test double for the limiter.
#[derive(Debug)]
pub struct QueuedUdpRecv {
    pub queue: Vec<QueuedDgram>,
}

impl QueuedUdpRecv {
    /// An endpoint with nothing to deliver.
    pub fn new() -> (r: QueuedUdpRecv)
        ensures
            r.dgrams().len() == 0,
    {
        QueuedUdpRecv { queue: Vec::new() }
    }

    /// Append one datagram to the delivery queue.
    pub fn push_dgram(&mut self, data: Vec<u8>, addr: SockAddr)
        ensures
            final(self).dgrams() == old(self).dgrams().push(Dgram { data: data@, addr }),
    {
        let d = QueuedDgram { data, addr };
        self.queue.push(d);
        proof {
            assert(self.dgrams() =~= old(self).dgrams().push(
                Dgram { data: self.queue@.last().data@, addr },
            ));
        }
    }
}

/// An endpoint whose next poll fails: the test double for I/O error
/// transparency.  It delivers nothing and surfaces the same error on every
/// poll.
#[derive(Debug)]
pub struct FailingUdpRecv {
    pub kind: u32,
}

impl AsyncUdpRecv for FailingUdpRecv {
    open spec fn dgrams(&self) -> Seq<Dgram> {
        Seq::empty()
    }

    open spec fn inv(&self) -> bool {
        true
    }

    open spec fn strict(&self) -> bool {
        true
    }

    fn poll_recv_from(&mut self, now_millis: u64, buf: &mut Vec<u8>) -> (r: UdpPoll<
        (usize, SockAddr),
        RecvError,
    >) {
        UdpPoll::Failed(RecvError { kind: self.kind })
    }

    fn poll_recv(&mut self, now_millis: u64, buf: &mut Vec<u8>) -> (r: UdpPoll<usize, RecvError>) {
        UdpPoll::Failed(RecvError { kind: self.kind })
    }

    fn poll_batch_recvmsg(
        &mut self,
        now_millis: u64,
        bufs: &mut Vec<RecvBuf>,
        meta: &mut Vec<RecvHdr>,
        max_count: usize,
    ) -> (r: UdpPoll<usize, RecvError>) {
        UdpPoll::Failed(RecvError { kind: self.kind })
    }
}

/// Copy as much of `src` as fits into `dst`, returning the number of bytes
/// copied; the tail of `dst` past the copied prefix keeps its old contents.
fn copy_prefix(dst: &mut Vec<u8>, src: &Vec<u8>) -> (n: usize)
    ensures
        final(dst)@.len() == old(dst)@.len(),
        n as int == trunc_len(src@.len() as int, old(dst)@.len() as int),
        final(dst)@ == src@.take(n as int) + old(dst)@.skip(n as int),
{
    let n: usize = if src.len() <= dst.len() {
        src.len()
    } else {
        dst.len()
    };
    let mut i: usize = 0;
    while i < n
        invariant
            i <= n,
            n as int == trunc_len(src@.len() as int, old(dst)@.len() as int),
            n <= src@.len(),
            n <= old(dst)@.len(),
            dst@.len() == old(dst)@.len(),
            dst@ == src@.take(i as int) + old(dst)@.skip(i as int),
        decreases n - i,
    {
        let b: u8 = src[i];
        let slot: &mut u8 = &mut dst[i];
        *slot = b;
        proof {
            assert(dst@ =~= src@.take(i as int + 1) + old(dst)@.skip(i as int + 1));
        }
        i = i + 1;
    }
    proof {
        assert(dst@ =~= src@.take(n as int) + old(dst)@.skip(n as int));
    }
    n
}

impl AsyncUdpRecv for QueuedUdpRecv {
    open spec fn dgrams(&self) -> Seq<Dgram> {
        dgram_views(self.queue@)
    }

    open spec fn inv(&self) -> bool {
        true
    }

    open spec fn strict(&self) -> bool {
        true
    }

    fn poll_recv_from(&mut self, now_millis: u64, buf: &mut Vec<u8>) -> (r: UdpPoll<
        (usize, SockAddr),
        RecvError,
    >) {
        if self.queue.len() == 0 {
            return UdpPoll::Pending;
        }
        let d: QueuedDgram = self.queue.remove(0);
        let n: usize = copy_prefix(buf, &d.data);
        proof {
            assert(self.dgrams() =~= old(self).dgrams().skip(1));
        }
        UdpPoll::Ready((n, d.addr))
    }

    fn poll_recv(&mut self, now_millis: u64, buf: &mut Vec<u8>) -> (r: UdpPoll<usize, RecvError>) {
        if self.queue.len() == 0 {
            return UdpPoll::Pending;
        }
        let d: QueuedDgram = self.queue.remove(0);
        let n: usize = copy_prefix(buf, &d.data);
        proof {
            assert(self.dgrams() =~= old(self).dgrams().skip(1));
        }
        UdpPoll::Ready(n)
    }

    fn poll_batch_recvmsg(
        &mut self,
        now_millis: u64,
        bufs: &mut Vec<RecvBuf>,
        meta: &mut Vec<RecvHdr>,
        max_count: usize,
    ) -> (r: UdpPoll<usize, RecvError>) {
        if self.queue.len() == 0 {
            return UdpPoll::Pending;
        }
        let ghost q_init = self.queue@;
        let ghost bufs_init = bufs@;
        let ghost meta_init = meta@;
        let mut count: usize = 0;
        while count < max_count && self.queue.len() > 0
            invariant
                count <= max_count,
                max_count <= bufs_init.len(),
                meta_init.len() == bufs_init.len(),
                bufs@.len() == bufs_init.len(),
                meta@.len() == meta_init.len(),
                count as int <= q_init.len(),
                self.queue@.len() as int == q_init.len() - count as int,
                forall|j: int|
                    0 <= j < self.queue@.len() ==> #[trigger] self.queue@[j] == q_init[j
                        + count as int],
                forall|i: int|
                    0 <= i < count as int ==> #[trigger] slot_filled(
                        dgram_view(q_init[i]),
                        bufs_init[i].buf@,
                        bufs@[i].buf@,
                        meta@[i],
                    ),
                forall|i: int|
                    count as int <= i < bufs_init.len() ==> #[trigger] bufs@[i].buf@
                        == bufs_init[i].buf@,
                forall|i: int|
                    count as int <= i < meta_init.len() ==> #[trigger] meta@[i] == meta_init[i],
                forall|i: int|
                    0 <= i < bufs_init.len() ==> #[trigger] bufs@[i].buf@.len()
                        == bufs_init[i].buf@.len(),
                count == 0 ==> self.queue@.len() > 0,
            decreases max_count - count,
        {
            let d: QueuedDgram = self.queue.remove(0);
            proof {
                assert(d == q_init[count as int]);
            }
            let slot: &mut RecvBuf = &mut bufs[count];
            let n: usize = copy_prefix(&mut slot.buf, &d.data);
            let hdr: &mut RecvHdr = &mut meta[count];
            *hdr = RecvHdr { len: n };
            proof {
                assert(slot_filled(
                    dgram_view(q_init[count as int]),
                    bufs_init[count as int].buf@,
                    bufs@[count as int].buf@,
                    meta@[count as int],
                ));
            }
            count = count + 1;
        }
        proof {
            assert(forall|i: int|
                0 <= i < q_init.len() ==> #[trigger] dgram_views(q_init)[i] == dgram_view(
                    q_init[i],
                ));
            assert(forall|j: int|
                0 <= j < self.queue@.len() ==> #[trigger] dgram_views(self.queue@)[j]
                    == dgram_view(self.queue@[j]));
            assert(dgram_views(self.queue@) =~= dgram_views(q_init).skip(count as int));
            assert(batch_consumed(
                dgram_views(q_init),
                dgram_views(self.queue@),
                bufs_init,
                bufs@,
                meta_init,
                meta@,
                count,
            ));
        }
        UdpPoll::Ready(count)
    }
}


/// The lengths recorded in a batch's headers.
pub open spec fn hdr_lens(meta: Seq<RecvHdr>) -> Seq<int> {
    meta.map_values(|h: RecvHdr| h.len as int)
}

/// The statistics sink was credited exactly `packets` packets and `bytes`
/// bytes (saturating at the top of the counter range).
pub open spec fn stats_credited<S: LimitedRecvStats>(
    pre: S,
    post: S,
    packets: u64,
    bytes: u64,
) -> bool {
    &&& post.recv_packets() == sat_add_u64(pre.recv_packets(), packets)
    &&& post.recv_bytes() == sat_add_u64(pre.recv_bytes(), bytes)
}

/// The statistics sink was not touched.
pub open spec fn stats_kept<S: LimitedRecvStats>(pre: S, post: S) -> bool {
    &&& post.recv_packets() == pre.recv_packets()
    &&& post.recv_bytes() == pre.recv_bytes()
}

/// A rate-limited wrapper around any receive capability: it re-exposes the
/// same capability surface, gates each receive through a tumbling-window
/// packet/byte budget, accounts every successful receive to the window and
/// to its statistics sink, and arms a wake-up deadline when the budget is
/// exhausted.
#[derive(Debug)]
pub struct LimitedUdpRecv<T, S> {
    /// The wrapped endpoint.
    pub inner: T,
    /// The admission-control state.
    pub limit: DatagramLimitInfo,
    /// The armed wake-up deadline, in milliseconds since the flow started:
    /// when a receive is delayed, the driving loop may sleep until this
    /// elapsed time and then poll again.
    pub delay_until: u64,
    /// The statistics sink credited after each successful receive.
    pub stats: S,
}

impl<T: AsyncUdpRecv, S: LimitedRecvStats> LimitedUdpRecv<T, S> {
    /// Well-formedness of the wrapper: its admission state is well-formed
    /// and the wrapped endpoint satisfies its own invariant.
    pub open spec fn wf(&self) -> bool {
        &&& self.limit.wf()
        &&& self.inner.inv()
    }

    /// The static configuration is unchanged between two states.
    pub open spec fn cfg_kept(pre: Self, post: Self) -> bool {
        &&& post.limit.shift_millis == pre.limit.shift_millis
        &&& post.limit.max_packets == pre.limit.max_packets
        &&& post.limit.max_bytes == pre.limit.max_bytes
        &&& post.inner.strict() == pre.inner.strict()
    }

    /// Nothing observable happened: the endpoint's queue, the window
    /// counters, the armed deadline and the statistics are all unchanged.
    pub open spec fn untouched(pre: Self, post: Self) -> bool {
        &&& post.inner.dgrams() == pre.inner.dgrams()
        &&& post.limit == pre.limit
        &&& post.delay_until == pre.delay_until
        &&& stats_kept(pre.stats, post.stats)
    }

    /// Wrap `inner` with a window of `1 << shift_millis` ms admitting at
    /// most `max_packets` packets and `max_bytes` bytes (zero caps do not
    /// constrain; `shift_millis == 0` disables gating).
    pub fn new(inner: T, shift_millis: u8, max_packets: usize, max_bytes: usize, stats: S) -> (r:
        LimitedUdpRecv<T, S>)
        requires
            shift_millis <= 12,
            inner.inv(),
        ensures
            r.inner == inner,
            r.stats == stats,
            r.delay_until == 0,
            r.limit == (DatagramLimitInfo {
                shift_millis,
                max_packets,
                max_bytes,
                time_slice_id: 0,
                cur_packets: 0,
                cur_bytes: 0,
            }),
            r.wf(),
    {
        LimitedUdpRecv {
            inner,
            limit: DatagramLimitInfo::new(shift_millis, max_packets, max_bytes),
            delay_until: 0,
            stats,
        }
    }

    /// The wrapped endpoint.
    pub fn inner(&self) -> (r: &T)
        ensures
            *r == self.inner,
    {
        &self.inner
    }

    /// Replace the statistics sink: subsequent receives are credited to
    /// `stats`, earlier ones stay with the old sink.
    pub fn reset_stats(&mut self, stats: S)
        ensures
            final(self).stats == stats,
            final(self).inner == old(self).inner,
            final(self).limit == old(self).limit,
            final(self).delay_until == old(self).delay_until,
    {
        self.stats = stats;
    }

    /// Rate-limited single receive with source address.  When gating is
    /// disabled this is a pure pass-through that still credits the sink;
    /// when the window is exhausted the deadline is armed and the result is
    /// `Pending`, or a synthetic `Ready((0, unspecified))` when the
    /// computed delay is already zero.
    pub fn limited_recv_from(&mut self, now_millis: u64, buf: &mut Vec<u8>) -> (r: UdpPoll<
        (usize, SockAddr),
        RecvError,
    >)
        requires
            old(self).wf(),
        ensures
            final(self).wf(),
            final(buf)@.len() == old(buf)@.len(),
            Self::cfg_kept(*old(self), *final(self)),
            !old(self).limit.is_enabled() ==> {
                &&& final(self).limit == old(self).limit
                &&& final(self).delay_until == old(self).delay_until
                &&& (match r {
                    UdpPoll::Ready((n, addr)) => ((recv_consumed(
                        old(self).inner.dgrams(),
                        final(self).inner.dgrams(),
                        old(buf)@,
                        final(buf)@,
                        n,
                    ) && addr == old(self).inner.dgrams()[0].addr) || (n == 0 && addr == (SockAddr {
                        ip: 0,
                        port: 0,
                    }) && final(self).inner.dgrams() == old(self).inner.dgrams() && final(buf)@
                        == old(buf)@)) && stats_credited(
                        old(self).stats,
                        final(self).stats,
                        1,
                        n as u64,
                    ),
                    UdpPoll::Pending => Self::untouched(*old(self), *final(self)) && final(buf)@
                        == old(buf)@,
                    UdpPoll::Failed(_) => Self::untouched(*old(self), *final(self)) && final(buf)@ == old(buf)@,
                })
                &&& (old(self).inner.strict() ==> (match r {
                    UdpPoll::Ready((n, addr)) => recv_consumed(
                        old(self).inner.dgrams(),
                        final(self).inner.dgrams(),
                        old(buf)@,
                        final(buf)@,
                        n,
                    ) && addr == old(self).inner.dgrams()[0].addr,
                    _ => true,
                }))
            },
            old(self).limit.is_enabled() ==> {
                let shift = old(self).limit.shift_millis;
                let base = rolled(old(self).limit, window_of(now_millis, shift));
                if admits_one(
                    base.cur_packets,
                    base.cur_bytes,
                    base.max_packets,
                    base.max_bytes,
                    old(buf)@.len() as usize,
                ) {
                    match r {
                        UdpPoll::Ready((n, addr)) => {
                            &&& ((recv_consumed(
                                old(self).inner.dgrams(),
                                final(self).inner.dgrams(),
                                old(buf)@,
                                final(buf)@,
                                n,
                            ) && addr == old(self).inner.dgrams()[0].addr) || (n == 0 && addr
                                == (SockAddr { ip: 0, port: 0 }) && final(self).inner.dgrams()
                                == old(self).inner.dgrams() && final(buf)@ == old(buf)@))
                            &&& (old(self).inner.strict() ==> recv_consumed(
                                old(self).inner.dgrams(),
                                final(self).inner.dgrams(),
                                old(buf)@,
                                final(buf)@,
                                n,
                            ))
                            &&& final(self).limit == (DatagramLimitInfo {
                                cur_packets: sat_add_usize(base.cur_packets, 1),
                                cur_bytes: sat_add_usize(base.cur_bytes, n),
                                ..base
                            })
                            &&& stats_credited(old(self).stats, final(self).stats, 1, n as u64)
                            &&& final(self).delay_until == old(self).delay_until
                        },
                        UdpPoll::Pending => final(self).limit == base && final(self).delay_until
                            == old(self).delay_until && final(self).inner.dgrams() == old(self).inner.dgrams() && final(buf)@ == old(buf)@ && stats_kept(
                            old(self).stats,
                            final(self).stats,
                        ),
                        UdpPoll::Failed(_) => final(self).limit == base && final(self).delay_until == old(self).delay_until && final(self).inner.dgrams()
                            == old(self).inner.dgrams() && final(buf)@ == old(buf)@ && stats_kept(
                            old(self).stats,
                            final(self).stats,
                        ),
                    }
                } else {
                    &&& final(self).limit == base
                    &&& final(self).inner.dgrams() == old(self).inner.dgrams()
                    &&& final(buf)@ == old(buf)@
                    &&& stats_kept(old(self).stats, final(self).stats)
                    &&& final(self).delay_until == next_window_start(
                        window_of(now_millis, shift),
                        shift,
                    )
                    &&& r == (if delay_of(now_millis, shift) == 0 {
                        UdpPoll::<(usize, SockAddr), RecvError>::Ready(
                            (0usize, SockAddr { ip: 0, port: 0 }),
                        )
                    } else {
                        UdpPoll::<(usize, SockAddr), RecvError>::Pending
                    })
                }
            },
    {
        if self.limit.is_set() {
            match self.limit.check_packet(now_millis, buf.len()) {
                DatagramLimitResult::Advance(_) => {
                    match self.inner.poll_recv_from(now_millis, buf) {
                        UdpPoll::Ready((n, addr)) => {
                            self.limit.set_advance(1, n);
                            self.stats.add_recv_packet();
                            self.stats.add_recv_bytes(n);
                            UdpPoll::Ready((n, addr))
                        },
                        UdpPoll::Pending => UdpPoll::Pending,
                        UdpPoll::Failed(e) => UdpPoll::Failed(e),
                    }
                },
                DatagramLimitResult::DelayFor(ms) => {
                    proof {
                        lemma_dur_below_next(now_millis, self.limit.shift_millis);
                    }
                    self.delay_until = now_millis + ms;
                    if ms == 0 {
                        UdpPoll::Ready((0, SockAddr::unspecified()))
                    } else {
                        UdpPoll::Pending
                    }
                },
            }
        } else {
            match self.inner.poll_recv_from(now_millis, buf) {
                UdpPoll::Ready((n, addr)) => {
                    self.stats.add_recv_packet();
                    self.stats.add_recv_bytes(n);
                    UdpPoll::Ready((n, addr))
                },
                UdpPoll::Pending => UdpPoll::Pending,
                UdpPoll::Failed(e) => UdpPoll::Failed(e),
            }
        }
    }

    /// Rate-limited single receive on a connected endpoint; the same
    /// behaviour as `limited_recv_from` without the source address.
    pub fn limited_recv(&mut self, now_millis: u64, buf: &mut Vec<u8>) -> (r: UdpPoll<
        usize,
        RecvError,
    >)
        requires
            old(self).wf(),
        ensures
            final(self).wf(),
            final(buf)@.len() == old(buf)@.len(),
            Self::cfg_kept(*old(self), *final(self)),
            !old(self).limit.is_enabled() ==> {
                &&& final(self).limit == old(self).limit
                &&& final(self).delay_until == old(self).delay_until
                &&& (match r {
                    UdpPoll::Ready(n) => (recv_consumed(
                        old(self).inner.dgrams(),
                        final(self).inner.dgrams(),
                        old(buf)@,
                        final(buf)@,
                        n,
                    ) || (n == 0 && final(self).inner.dgrams() == old(self).inner.dgrams()
                        && final(buf)@ == old(buf)@)) && stats_credited(
                        old(self).stats,
                        final(self).stats,
                        1,
                        n as u64,
                    ),
                    UdpPoll::Pending => Self::untouched(*old(self), *final(self)) && final(buf)@
                        == old(buf)@,
                    UdpPoll::Failed(_) => Self::untouched(*old(self), *final(self)) && final(buf)@ == old(buf)@,
                })
                &&& (old(self).inner.strict() ==> (match r {
                    UdpPoll::Ready(n) => recv_consumed(
                        old(self).inner.dgrams(),
                        final(self).inner.dgrams(),
                        old(buf)@,
                        final(buf)@,
                        n,
                    ),
                    _ => true,
                }))
            },
            old(self).limit.is_enabled() ==> {
                let shift = old(self).limit.shift_millis;
                let base = rolled(old(self).limit, window_of(now_millis, shift));
                if admits_one(
                    base.cur_packets,
                    base.cur_bytes,
                    base.max_packets,
                    base.max_bytes,
                    old(buf)@.len() as usize,
                ) {
                    match r {
                        UdpPoll::Ready(n) => {
                            &&& (recv_consumed(
                                old(self).inner.dgrams(),
                                final(self).inner.dgrams(),
                                old(buf)@,
                                final(buf)@,
                                n,
                            ) || (n == 0 && final(self).inner.dgrams() == old(self).inner.dgrams()
                                && final(buf)@ == old(buf)@))
                            &&& (old(self).inner.strict() ==> recv_consumed(
                                old(self).inner.dgrams(),
                                final(self).inner.dgrams(),
                                old(buf)@,
                                final(buf)@,
                                n,
                            ))
                            &&& final(self).limit == (DatagramLimitInfo {
                                cur_packets: sat_add_usize(base.cur_packets, 1),
                                cur_bytes: sat_add_usize(base.cur_bytes, n),
                                ..base
                            })
                            &&& stats_credited(old(self).stats, final(self).stats, 1, n as u64)
                            &&& final(self).delay_until == old(self).delay_until
                        },
                        UdpPoll::Pending => final(self).limit == base && final(self).delay_until
                            == old(self).delay_until && final(self).inner.dgrams() == old(self).inner.dgrams() && final(buf)@ == old(buf)@ && stats_kept(
                            old(self).stats,
                            final(self).stats,
                        ),
                        UdpPoll::Failed(_) => final(self).limit == base && final(self).delay_until == old(self).delay_until && final(self).inner.dgrams()
                            == old(self).inner.dgrams() && final(buf)@ == old(buf)@ && stats_kept(
                            old(self).stats,
                            final(self).stats,
                        ),
                    }
                } else {
                    &&& final(self).limit == base
                    &&& final(self).inner.dgrams() == old(self).inner.dgrams()
                    &&& final(buf)@ == old(buf)@
                    &&& stats_kept(old(self).stats, final(self).stats)
                    &&& final(self).delay_until == next_window_start(
                        window_of(now_millis, shift),
                        shift,
                    )
                    &&& r == (if delay_of(now_millis, shift) == 0 {
                        UdpPoll::<usize, RecvError>::Ready(0usize)
                    } else {
                        UdpPoll::<usize, RecvError>::Pending
                    })
                }
            },
    {
        if self.limit.is_set() {
            match self.limit.check_packet(now_millis, buf.len()) {
                DatagramLimitResult::Advance(_) => {
                    match self.inner.poll_recv(now_millis, buf) {
                        UdpPoll::Ready(n) => {
                            self.limit.set_advance(1, n);
                            self.stats.add_recv_packet();
                            self.stats.add_recv_bytes(n);
                            UdpPoll::Ready(n)
                        },
                        UdpPoll::Pending => UdpPoll::Pending,
                        UdpPoll::Failed(e) => UdpPoll::Failed(e),
                    }
                },
                DatagramLimitResult::DelayFor(ms) => {
                    proof {
                        lemma_dur_below_next(now_millis, self.limit.shift_millis);
                    }
                    self.delay_until = now_millis + ms;
                    if ms == 0 {
                        UdpPoll::Ready(0)
                    } else {
                        UdpPoll::Pending
                    }
                },
            }
        } else {
            match self.inner.poll_recv(now_millis, buf) {
                UdpPoll::Ready(n) => {
                    self.stats.add_recv_packet();
                    self.stats.add_recv_bytes(n);
                    UdpPoll::Ready(n)
                },
                UdpPoll::Pending => UdpPoll::Pending,
                UdpPoll::Failed(e) => UdpPoll::Failed(e),
            }
        }
    }

    /// Rate-limited batched receive.  Admission pre-admits the longest
    /// prefix of buffers that fits under both caps; the endpoint may fill
    /// fewer slots, and exactly the filled slots are accounted afterwards,
    /// to the window and to the sink.
    pub fn limited_batch_recvmsg(
        &mut self,
        now_millis: u64,
        bufs: &mut Vec<RecvBuf>,
        meta: &mut Vec<RecvHdr>,
        max_count: usize,
    ) -> (r: UdpPoll<usize, RecvError>)
        requires
            old(self).wf(),
            1 <= max_count <= old(bufs)@.len(),
            old(meta)@.len() == old(bufs)@.len(),
            sum_prefix(buf_lens(old(bufs)@), old(bufs)@.len() as int) <= usize::MAX,
        ensures
            final(self).wf(),
            Self::cfg_kept(*old(self), *final(self)),
            final(bufs)@.len() == old(bufs)@.len(),
            final(meta)@.len() == old(meta)@.len(),
            forall|i: int|
                0 <= i < old(bufs)@.len() ==> #[trigger] final(bufs)@[i].buf@.len()
                    == old(bufs)@[i].buf@.len(),
            (match r {
                UdpPoll::Ready(count) => count <= max_count,
                _ => true,
            }),
            !old(self).limit.is_enabled() ==> {
                &&& final(self).limit == old(self).limit
                &&& final(self).delay_until == old(self).delay_until
                &&& (match r {
                    UdpPoll::Ready(count) => (batch_consumed(
                        old(self).inner.dgrams(),
                        final(self).inner.dgrams(),
                        old(bufs)@,
                        final(bufs)@,
                        old(meta)@,
                        final(meta)@,
                        count,
                    ) || (count == 0 && final(self).inner.dgrams() == old(self).inner.dgrams()
                        && final(bufs)@ =~= old(bufs)@ && final(meta)@ == old(meta)@))
                        && stats_credited(
                        old(self).stats,
                        final(self).stats,
                        count as u64,
                        sum_prefix(hdr_lens(final(meta)@), count as int) as u64,
                    ) && (old(self).inner.strict() ==> count >= 1 && batch_consumed(
                        old(self).inner.dgrams(),
                        final(self).inner.dgrams(),
                        old(bufs)@,
                        final(bufs)@,
                        old(meta)@,
                        final(meta)@,
                        count,
                    )),
                    UdpPoll::Pending => final(self).inner.dgrams() == old(self).inner.dgrams()
                        && final(bufs)@ =~= old(bufs)@ && final(meta)@ == old(meta)@ && stats_kept(
                        old(self).stats,
                        final(self).stats,
                    ),
                    UdpPoll::Failed(_) => final(self).inner.dgrams() == old(self).inner.dgrams()
                        && final(bufs)@ =~= old(bufs)@ && final(meta)@ == old(meta)@ && stats_kept(
                        old(self).stats,
                        final(self).stats,
                    ),
                })
            },
            old(self).limit.is_enabled() ==> {
                let shift = old(self).limit.shift_millis;
                let base = rolled(old(self).limit, window_of(now_millis, shift));
                let lens = buf_lens(old(bufs)@);
                if prefix_admissible(
                    base.cur_packets,
                    base.cur_bytes,
                    base.max_packets,
                    base.max_bytes,
                    lens,
                    1,
                ) {
                    match r {
                        UdpPoll::Ready(count) => {
                            &&& (batch_consumed(
                                old(self).inner.dgrams(),
                                final(self).inner.dgrams(),
                                old(bufs)@,
                                final(bufs)@,
                                old(meta)@,
                                final(meta)@,
                                count,
                            ) || (count == 0 && final(self).inner.dgrams() == old(self).inner.dgrams() && final(bufs)@ =~= old(bufs)@ && final(meta)@
                                == old(meta)@))
                            &&& (old(self).inner.strict() ==> count >= 1 && batch_consumed(
                                old(self).inner.dgrams(),
                                final(self).inner.dgrams(),
                                old(bufs)@,
                                final(bufs)@,
                                old(meta)@,
                                final(meta)@,
                                count,
                            ))
                            &&& (exists|n: int|
                                max_admitted(
                                    base.cur_packets,
                                    base.cur_bytes,
                                    base.max_packets,
                                    base.max_bytes,
                                    lens,
                                    n,
                                ) && count as int <= n)
                            &&& final(self).limit == (DatagramLimitInfo {
                                cur_packets: sat_add_usize(base.cur_packets, count),
                                cur_bytes: sat_add_usize(
                                    base.cur_bytes,
                                    sum_prefix(hdr_lens(final(meta)@), count as int) as usize,
                                ),
                                ..base
                            })
                            &&& stats_credited(
                                old(self).stats,
                                final(self).stats,
                                count as u64,
                                sum_prefix(hdr_lens(final(meta)@), count as int) as u64,
                            )
                            &&& final(self).delay_until == old(self).delay_until
                        },
                        UdpPoll::Pending => final(self).limit == base && final(self).delay_until
                            == old(self).delay_until && final(self).inner.dgrams() == old(self).inner.dgrams() && final(bufs)@ =~= old(bufs)@ && final(meta)@ == old(meta)@ && stats_kept(old(self).stats, final(self).stats),
                        UdpPoll::Failed(_) => final(self).limit == base && final(self).delay_until == old(self).delay_until && final(self).inner.dgrams()
                            == old(self).inner.dgrams() && final(bufs)@ =~= old(bufs)@ && final(meta)@ == old(meta)@ && stats_kept(old(self).stats, final(self).stats),
                    }
                } else {
                    &&& final(self).limit == base
                    &&& final(self).inner.dgrams() == old(self).inner.dgrams()
                    &&& final(bufs)@ =~= old(bufs)@
                    &&& final(meta)@ == old(meta)@
                    &&& stats_kept(old(self).stats, final(self).stats)
                    &&& final(self).delay_until == next_window_start(
                        window_of(now_millis, shift),
                        shift,
                    )
                    &&& r == (if delay_of(now_millis, shift) == 0 {
                        UdpPoll::<usize, RecvError>::Ready(0usize)
                    } else {
                        UdpPoll::<usize, RecvError>::Pending
                    })
                }
            },
    {
        let ghost lens = buf_lens(bufs@);
        proof {
            assert(forall|i: int| 0 <= i < lens.len() ==> #[trigger] lens[i] >= 0);
        }
        if self.limit.is_set() {
            match self.limit.check_packets(now_millis, bufs) {
                DatagramLimitResult::Advance(n) => {
                    proof {
                        let base = rolled(
                            old(self).limit,
                            window_of(now_millis, old(self).limit.shift_millis),
                        );
                        lemma_prefix_admissible_antitone(
                            base.cur_packets,
                            base.cur_bytes,
                            base.max_packets,
                            base.max_bytes,
                            lens,
                            1,
                            n as int,
                        );
                    }
                    let m: usize = if n <= max_count {
                        n
                    } else {
                        max_count
                    };
                    let ghost limit_checked = self.limit;
                    match self.inner.poll_batch_recvmsg(now_millis, bufs, meta, m) {
                        UdpPoll::Ready(count) => {
                            proof {
                                assert forall|i: int|
                                    0 <= i < count as int implies #[trigger] hdr_lens(meta@)[i]
                                    <= lens[i] by {
                                    assert(slot_filled(
                                        old(self).inner.dgrams()[i],
                                        old(bufs)@[i].buf@,
                                        bufs@[i].buf@,
                                        meta@[i],
                                    ));
                                    assert(hdr_lens(meta@)[i] == meta@[i].len as int);
                                    assert(lens[i] == old(bufs)@[i].buf@.len() as int);
                                }
                                lemma_sum_prefix_mono(lens, count as int, n as int);
                                lemma_sum_prefix_mono(lens, n as int, lens.len() as int);
                            }
                            let total: usize = sum_hdr_prefix(meta, count, Ghost(lens));
                            proof {
                                crate::limit::lemma_sum_prefix_le(
                                    hdr_lens(meta@),
                                    lens,
                                    count as int,
                                );
                            }
                            self.limit.set_advance(count, total);
                            self.stats.add_recv_packets(count);
                            self.stats.add_recv_bytes(total);
                            UdpPoll::Ready(count)
                        },
                        UdpPoll::Pending => UdpPoll::Pending,
                        UdpPoll::Failed(e) => UdpPoll::Failed(e),
                    }
                },
                DatagramLimitResult::DelayFor(ms) => {
                    proof {
                        lemma_dur_below_next(now_millis, self.limit.shift_millis);
                    }
                    self.delay_until = now_millis + ms;
                    if ms == 0 {
                        UdpPoll::Ready(0)
                    } else {
                        UdpPoll::Pending
                    }
                },
            }
        } else {
            match self.inner.poll_batch_recvmsg(now_millis, bufs, meta, max_count) {
                UdpPoll::Ready(count) => {
                    proof {
                        assert forall|i: int|
                            0 <= i < count as int implies #[trigger] hdr_lens(meta@)[i]
                            <= lens[i] by {
                            assert(slot_filled(
                                old(self).inner.dgrams()[i],
                                old(bufs)@[i].buf@,
                                bufs@[i].buf@,
                                meta@[i],
                            ));
                            assert(hdr_lens(meta@)[i] == meta@[i].len as int);
                            assert(lens[i] == old(bufs)@[i].buf@.len() as int);
                        }
                        lemma_sum_prefix_mono(lens, count as int, lens.len() as int);
                    }
                    let total: usize = sum_hdr_prefix(meta, count, Ghost(lens));
                    self.stats.add_recv_packets(count);
                    self.stats.add_recv_bytes(total);
                    UdpPoll::Ready(count)
                },
                UdpPoll::Pending => UdpPoll::Pending,
                UdpPoll::Failed(e) => UdpPoll::Failed(e),
            }
        }
    }
}

/// Sum the first `count` recorded lengths of a batch, bounded pointwise by
/// `bound@` whose total fits in `usize`, so the sum cannot overflow.
fn sum_hdr_prefix(meta: &Vec<RecvHdr>, count: usize, bound: Ghost<Seq<int>>) -> (total: usize)
    requires
        count <= meta@.len(),
        count as int <= bound@.len(),
        forall|i: int| 0 <= i < bound@.len() ==> #[trigger] bound@[i] >= 0,
        forall|i: int| 0 <= i < count as int ==> #[trigger] hdr_lens(meta@)[i] <= bound@[i],
        sum_prefix(bound@, bound@.len() as int) <= usize::MAX,
    ensures
        total as int == sum_prefix(hdr_lens(meta@), count as int),
{
    let mut total: usize = 0;
    let mut i: usize = 0;
    while i < count
        invariant
            i <= count,
            count <= meta@.len(),
            count as int <= bound@.len(),
            forall|j: int| 0 <= j < bound@.len() ==> #[trigger] bound@[j] >= 0,
            forall|j: int| 0 <= j < count as int ==> #[trigger] hdr_lens(meta@)[j] <= bound@[j],
            sum_prefix(bound@, bound@.len() as int) <= usize::MAX,
            total as int == sum_prefix(hdr_lens(meta@), i as int),
            total as int <= sum_prefix(bound@, i as int),
        decreases count - i,
    {
        let l: usize = meta[i].len;
        proof {
            assert(hdr_lens(meta@)[i as int] == l as int);
            crate::limit::lemma_sum_prefix_mono(bound@, i as int + 1, bound@.len() as int);
        }
        total = total + l;
        i = i + 1;
    }
    total
}


impl<T: AsyncUdpRecv, S: LimitedRecvStats> AsyncUdpRecv for LimitedUdpRecv<T, S> {
    open spec fn dgrams(&self) -> Seq<Dgram> {
        self.inner.dgrams()
    }

    open spec fn inv(&self) -> bool {
        self.wf()
    }

    open spec fn strict(&self) -> bool {
        !self.limit.is_enabled() && self.inner.strict()
    }

    fn poll_recv_from(&mut self, now_millis: u64, buf: &mut Vec<u8>) -> (r: UdpPoll<
        (usize, SockAddr),
        RecvError,
    >) {
        self.limited_recv_from(now_millis, buf)
    }

    fn poll_recv(&mut self, now_millis: u64, buf: &mut Vec<u8>) -> (r: UdpPoll<usize, RecvError>) {
        self.limited_recv(now_millis, buf)
    }

    fn poll_batch_recvmsg(
        &mut self,
        now_millis: u64,
        bufs: &mut Vec<RecvBuf>,
        meta: &mut Vec<RecvHdr>,
        max_count: usize,
    ) -> (r: UdpPoll<usize, RecvError>) {
        self.limited_batch_recvmsg(now_millis, bufs, meta, max_count)
    }
}

/// No-reorder: every receive step leaves the endpoint's pending datagrams a
/// suffix of what they were, so deliveries come out in arrival order, with
/// at most zero-byte delay results interleaved.
pub proof fn lemma_no_reorder(
    q_pre: Seq<Dgram>,
    q_post: Seq<Dgram>,
    buf_pre: Seq<u8>,
    buf_post: Seq<u8>,
    n: usize,
)
    requires
        recv_consumed(q_pre, q_post, buf_pre, buf_post, n) || q_post == q_pre,
    ensures
        exists|k: int| 0 <= k <= q_pre.len() && q_post == q_pre.skip(k),
{
    if recv_consumed(q_pre, q_post, buf_pre, buf_post, n) {
        assert(q_post == q_pre.skip(1));
    } else {
        assert(q_pre.skip(0) =~= q_pre);
        assert(q_post == q_pre.skip(0));
    }
}

/// The batched form of the no-reorder law: a batch step consumes exactly
/// the front `count` datagrams, in order.
pub proof fn lemma_no_reorder_batch(
    q_pre: Seq<Dgram>,
    q_post: Seq<Dgram>,
    bufs_pre: Seq<RecvBuf>,
    bufs_post: Seq<RecvBuf>,
    meta_pre: Seq<RecvHdr>,
    meta_post: Seq<RecvHdr>,
    count: usize,
)
    requires
        batch_consumed(q_pre, q_post, bufs_pre, bufs_post, meta_pre, meta_post, count),
    ensures
        q_post == q_pre.skip(count as int),
        forall|i: int|
            0 <= i < count as int ==> #[trigger] slot_filled(
                q_pre[i],
                bufs_pre[i].buf@,
                bufs_post[i].buf@,
                meta_post[i],
            ),
{
}

} // verus!
