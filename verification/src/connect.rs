//! The connected-endpoint adapter: a thin shim exposing a receive surface
//! to a datagram copy engine.  A connected socket prepends no framing, so
//! the reported header length is zero and every received datagram starts at
//! offset zero of its packet slot.  The adapter itself never rate-limits;
//! it wraps a limiter when limiting is wanted.

use vstd::prelude::*;

use crate::limit::{buf_lens, sum_prefix};
use crate::recv::{batch_consumed, recv_consumed, slot_filled, trunc_len, AsyncUdpRecv, Dgram};
use crate::types::{RecvBuf, RecvHdr, UdpCopyPacket, UdpCopyRemoteError, UdpPoll};

verus! {

/// The declared buffer lengths of a packet-slot array.
pub open spec fn packet_lens(packets: Seq<UdpCopyPacket>) -> Seq<int> {
    packets.map_values(|p: UdpCopyPacket| p.buf@.len() as int)
}

/// One packet slot after a batched receive: offset zero, the truncated
/// payload length, and the payload's prefix in the buffer.
pub open spec fn packet_slot_filled(d: Dgram, p_pre: UdpCopyPacket, p_post: UdpCopyPacket) -> bool {
    let n = trunc_len(d.data.len() as int, p_pre.buf@.len() as int);
    &&& p_post.offset == 0
    &&& p_post.length as int == n
    &&& p_post.buf@ == d.data.take(n) + p_pre.buf@.skip(n)
}

/// A packet slot was left exactly as it was.
pub open spec fn packet_slot_kept(p_pre: UdpCopyPacket, p_post: UdpCopyPacket) -> bool {
    &&& p_post.buf@ == p_pre.buf@
    &&& p_post.offset == p_pre.offset
    &&& p_post.length == p_pre.length
}

/// The whole packet array was left as it was.
pub open spec fn packets_kept(pk_pre: Seq<UdpCopyPacket>, pk_post: Seq<UdpCopyPacket>) -> bool {
    &&& pk_post.len() == pk_pre.len()
    &&& forall|i: int|
        0 <= i < pk_pre.len() ==> #[trigger] packet_slot_kept(pk_pre[i], pk_post[i])
}

/// A batched receive through the adapter consumed the front `count`
/// datagrams into the first `count` packet slots, in order, and left the
/// remaining slots untouched.
pub open spec fn packets_consumed(
    q_pre: Seq<Dgram>,
    q_post: Seq<Dgram>,
    pk_pre: Seq<UdpCopyPacket>,
    pk_post: Seq<UdpCopyPacket>,
    count: usize,
) -> bool {
    &&& count as int <= q_pre.len()
    &&& count as int <= pk_pre.len()
    &&& q_post == q_pre.skip(count as int)
    &&& forall|i: int|
        0 <= i < count as int ==> #[trigger] packet_slot_filled(q_pre[i], pk_pre[i], pk_post[i])
    &&& forall|i: int|
        count as int <= i < pk_pre.len() ==> #[trigger] packet_slot_kept(pk_pre[i], pk_post[i])
}

/// The remote-receive side of a UDP copy loop over a connected endpoint.
#[derive(Debug)]
pub struct DirectUdpConnectRemoteRecv<T> {
    pub inner: T,
}

impl<T: AsyncUdpRecv> DirectUdpConnectRemoteRecv<T> {
    /// Wrap a receive capability.
    pub fn new(recv: T) -> (r: DirectUdpConnectRemoteRecv<T>)
        ensures
            r.inner == recv,
    {
        DirectUdpConnectRemoteRecv { inner: recv }
    }

    /// A connected endpoint prepends no framing.
    pub fn max_hdr_len(&self) -> (r: usize)
        ensures
            r == 0,
    {
        0
    }

    /// Receive one datagram; the result pairs the header offset (always
    /// zero) with the received length.
    pub fn poll_recv_packet(&mut self, now_millis: u64, buf: &mut Vec<u8>) -> (r: UdpPoll<
        (usize, usize),
        UdpCopyRemoteError,
    >)
        requires
            old(self).inner.inv(),
        ensures
            final(self).inner.inv(),
            final(buf)@.len() == old(buf)@.len(),
            final(self).inner.strict() == old(self).inner.strict(),
            (match r {
                UdpPoll::Ready((off, n)) => off == 0 && (recv_consumed(
                    old(self).inner.dgrams(),
                    final(self).inner.dgrams(),
                    old(buf)@,
                    final(buf)@,
                    n,
                ) || (n == 0 && final(self).inner.dgrams() == old(self).inner.dgrams() && final(buf)@ == old(buf)@)),
                UdpPoll::Pending => final(self).inner.dgrams() == old(self).inner.dgrams()
                    && final(buf)@ == old(buf)@,
                UdpPoll::Failed(_) => final(self).inner.dgrams() == old(self).inner.dgrams()
                    && final(buf)@ == old(buf)@,
            }),
            old(self).inner.strict() ==> (match r {
                UdpPoll::Ready((off, n)) => recv_consumed(
                    old(self).inner.dgrams(),
                    final(self).inner.dgrams(),
                    old(buf)@,
                    final(buf)@,
                    n,
                ),
                _ => true,
            }),
    {
        match self.inner.poll_recv(now_millis, buf) {
            UdpPoll::Ready(n) => UdpPoll::Ready((0, n)),
            UdpPoll::Pending => UdpPoll::Pending,
            UdpPoll::Failed(e) => UdpPoll::Failed(UdpCopyRemoteError::RecvFailed(e)),
        }
    }

    /// Receive a batch of datagrams into the packet slots.  Each filled
    /// slot gets offset zero and the received length; unfilled slots are
    /// left as they were.
    pub fn poll_recv_packets(&mut self, now_millis: u64, packets: &mut Vec<UdpCopyPacket>) -> (r:
        UdpPoll<usize, UdpCopyRemoteError>)
        requires
            old(self).inner.inv(),
            old(packets)@.len() >= 1,
            sum_prefix(packet_lens(old(packets)@), old(packets)@.len() as int) <= usize::MAX,
        ensures
            final(self).inner.inv(),
            final(packets)@.len() == old(packets)@.len(),
            final(self).inner.strict() == old(self).inner.strict(),
            (match r {
                UdpPoll::Ready(count) => count <= old(packets)@.len() && packets_consumed(
                    old(self).inner.dgrams(),
                    final(self).inner.dgrams(),
                    old(packets)@,
                    final(packets)@,
                    count,
                ),
                UdpPoll::Pending => final(self).inner.dgrams() == old(self).inner.dgrams()
                    && packets_kept(old(packets)@, final(packets)@),
                UdpPoll::Failed(_) => final(self).inner.dgrams() == old(self).inner.dgrams()
                    && packets_kept(old(packets)@, final(packets)@),
            }),
            old(self).inner.strict() ==> (match r {
                UdpPoll::Ready(count) => count >= 1,
                _ => true,
            }),
    {
        let total: usize = packets.len();
        let mut bufs: Vec<RecvBuf> = Vec::new();
        let mut meta: Vec<RecvHdr> = Vec::new();
        let mut offs: Vec<usize> = Vec::new();
        let mut lngs: Vec<usize> = Vec::new();
        while packets.len() > 0
            invariant
                bufs@.len() + packets@.len() == total as int,
                total == old(packets)@.len(),
                meta@.len() == bufs@.len(),
                offs@.len() == bufs@.len(),
                lngs@.len() == bufs@.len(),
                forall|j: int|
                    0 <= j < bufs@.len() ==> #[trigger] bufs@[j].buf@ == old(packets)@[j].buf@,
                forall|j: int| 0 <= j < meta@.len() ==> #[trigger] meta@[j].len == 0,
                forall|j: int|
                    0 <= j < offs@.len() ==> #[trigger] offs@[j] == old(packets)@[j].offset,
                forall|j: int|
                    0 <= j < lngs@.len() ==> #[trigger] lngs@[j] == old(packets)@[j].length,
                forall|j: int|
                    0 <= j < packets@.len() ==> #[trigger] packets@[j] == old(packets)@[j
                        + bufs@.len()],
            decreases packets@.len(),
        {
            let p: UdpCopyPacket = packets.remove(0);
            offs.push(p.offset);
            lngs.push(p.length);
            bufs.push(RecvBuf { buf: p.buf });
            meta.push(RecvHdr { len: 0 });
        }
        proof {
            assert(buf_lens(bufs@) =~= packet_lens(old(packets)@));
        }
        let ghost bufs_pre = bufs@;
        let ghost meta_pre = meta@;
        match self.inner.poll_batch_recvmsg(now_millis, &mut bufs, &mut meta, total) {
            UdpPoll::Ready(c) => {
                reattach(packets, bufs, &meta, &offs, &lngs, c);
                proof {
                    if batch_consumed(
                        old(self).inner.dgrams(),
                        self.inner.dgrams(),
                        bufs_pre,
                        bufs@,
                        meta_pre,
                        meta@,
                        c,
                    ) {
                        assert forall|i: int| 0 <= i < c as int implies #[trigger]
                            packet_slot_filled(
                            old(self).inner.dgrams()[i],
                            old(packets)@[i],
                            packets@[i],
                        ) by {
                            assert(slot_filled(
                                old(self).inner.dgrams()[i],
                                bufs_pre[i].buf@,
                                bufs@[i].buf@,
                                meta@[i],
                            ));
                            assert(old(packets)@[i].buf@ == bufs_pre[i].buf@);
                            assert(packets@[i].buf@ == bufs@[i].buf@ && packets@[i].offset == 0
                                && packets@[i].length == meta@[i].len);
                        }
                        assert forall|i: int|
                            c as int <= i < old(packets)@.len() implies #[trigger]
                            packet_slot_kept(old(packets)@[i], packets@[i]) by {
                            assert(bufs@[i].buf@ == bufs_pre[i].buf@);
                            assert(old(packets)@[i].buf@ == bufs_pre[i].buf@);
                            assert(packets@[i].buf@ == bufs@[i].buf@ && packets@[i].offset
                                == offs@[i] && packets@[i].length == lngs@[i]);
                            assert(offs@[i] == old(packets)@[i].offset);
                            assert(lngs@[i] == old(packets)@[i].length);
                        }
                    } else {
                        assert(old(self).inner.dgrams().skip(0) =~= old(self).inner.dgrams());
                        assert forall|i: int|
                            0 <= i < old(packets)@.len() implies #[trigger] packet_slot_kept(
                            old(packets)@[i],
                            packets@[i],
                        ) by {
                            assert(bufs@[i].buf@ == bufs_pre[i].buf@);
                        }
                    }
                }
                UdpPoll::Ready(c)
            },
            UdpPoll::Pending => {
                reattach(packets, bufs, &meta, &offs, &lngs, 0);
                proof {
                    assert forall|i: int|
                        0 <= i < old(packets)@.len() implies #[trigger] packet_slot_kept(
                        old(packets)@[i],
                        packets@[i],
                    ) by {
                        assert(bufs@[i].buf@ == bufs_pre[i].buf@);
                    }
                }
                UdpPoll::Pending
            },
            UdpPoll::Failed(e) => {
                reattach(packets, bufs, &meta, &offs, &lngs, 0);
                proof {
                    assert forall|i: int|
                        0 <= i < old(packets)@.len() implies #[trigger] packet_slot_kept(
                        old(packets)@[i],
                        packets@[i],
                    ) by {
                        assert(bufs@[i].buf@ == bufs_pre[i].buf@);
                    }
                }
                UdpPoll::Failed(UdpCopyRemoteError::RecvFailed(e))
            },
        }
    }
}

/// Rebuild the packet slots after a batched receive: the first `count`
/// slots take offset zero and their recorded length, the rest get their
/// saved offset and length back; every slot takes its buffer back.
fn reattach(
    packets: &mut Vec<UdpCopyPacket>,
    bufs: Vec<RecvBuf>,
    meta: &Vec<RecvHdr>,
    offs: &Vec<usize>,
    lngs: &Vec<usize>,
    count: usize,
)
    requires
        old(packets)@.len() == 0,
        meta@.len() == bufs@.len(),
        offs@.len() == bufs@.len(),
        lngs@.len() == bufs@.len(),
        count <= bufs@.len(),
    ensures
        final(packets)@.len() == bufs@.len(),
        forall|i: int|
            #![trigger final(packets)@[i]]
            0 <= i < count as int ==> final(packets)@[i].buf@ == bufs@[i].buf@ && final(packets)@[i].offset == 0 && final(packets)@[i].length == meta@[i].len,
        forall|i: int|
            #![trigger final(packets)@[i]]
            count as int <= i < bufs@.len() ==> final(packets)@[i].buf@ == bufs@[i].buf@ && final(packets)@[i].offset == offs@[i] && final(packets)@[i].length == lngs@[i],
{
    let mut rest: Vec<RecvBuf> = bufs;
    let n_slots: usize = rest.len();
    let mut i: usize = 0;
    let ghost bufs0 = rest@;
    while rest.len() > 0
        invariant
            bufs0.len() == n_slots as int,
            i as int + rest@.len() == bufs0.len(),
            packets@.len() == i as int,
            meta@.len() == bufs0.len(),
            offs@.len() == bufs0.len(),
            lngs@.len() == bufs0.len(),
            count <= bufs0.len(),
            forall|j: int| 0 <= j < rest@.len() ==> #[trigger] rest@[j] == bufs0[j + i as int],
            forall|j: int|
                #![trigger packets@[j]]
                0 <= j < i as int && j < count as int ==> packets@[j].buf@ == bufs0[j].buf@
                    && packets@[j].offset == 0 && packets@[j].length == meta@[j].len,
            forall|j: int|
                #![trigger packets@[j]]
                count as int <= j < i as int ==> packets@[j].buf@ == bufs0[j].buf@
                    && packets@[j].offset == offs@[j] && packets@[j].length == lngs@[j],
        decreases rest@.len(),
    {
        let rb: RecvBuf = rest.remove(0);
        if i < count {
            let ln: usize = meta[i].len;
            packets.push(UdpCopyPacket { buf: rb.buf, offset: 0, length: ln });
        } else {
            let off: usize = offs[i];
            let ln: usize = lngs[i];
            packets.push(UdpCopyPacket { buf: rb.buf, offset: off, length: ln });
        }
        i = i + 1;
    }
}

} // verus!
