//! The batched receive path and the connected-endpoint adapter.

use udp_limit::connect::DirectUdpConnectRemoteRecv;
use udp_limit::recv::{FailingUdpRecv, LimitedUdpRecv, QueuedUdpRecv};
use udp_limit::stats::CounterRecvStats;
use udp_limit::types::{RecvBuf, RecvHdr, SockAddr, UdpCopyPacket, UdpCopyRemoteError, UdpPoll};

fn endpoint_with(payloads: &[&[u8]]) -> QueuedUdpRecv {
    let mut ep = QueuedUdpRecv::new();
    for p in payloads {
        ep.push_dgram(p.to_vec(), SockAddr { ip: 1, port: 1 });
    }
    ep
}

fn slots(count: usize, size: usize) -> (Vec<RecvBuf>, Vec<RecvHdr>) {
    let mut bufs = Vec::new();
    let mut meta = Vec::new();
    for _ in 0..count {
        bufs.push(RecvBuf { buf: vec![0u8; size] });
        meta.push(RecvHdr { len: 0 });
    }
    (bufs, meta)
}

#[test]
fn batch_reconciliation() {
    // 16 ms window, 8 packets per window; ten slots offered, five datagrams
    // queued: the call returns 5, the window counter reads 5, and a second
    // call in the same window admits at most 3 more.
    let payload = [1u8; 50];
    let ps: [&[u8]; 5] = [&payload, &payload, &payload, &payload, &payload];
    let ep = endpoint_with(&ps);
    let mut lim = LimitedUdpRecv::new(ep, 4, 8, 0, CounterRecvStats::new());
    let (mut bufs, mut meta) = slots(10, 1500);
    match lim.limited_batch_recvmsg(0, &mut bufs, &mut meta, 10) {
        UdpPoll::Ready(count) => assert_eq!(count, 5),
        _ => panic!("expected a filled batch"),
    }
    for h in meta.iter().take(5) {
        assert_eq!(h.len, 50);
    }
    assert_eq!(lim.limit.cur_packets, 5);
    assert_eq!(lim.limit.cur_bytes, 250);
    assert_eq!(lim.stats.packets, 5);
    assert_eq!(lim.stats.bytes, 250);
    // Same window: only 3 more fit under the packet cap.
    for _ in 0..4 {
        lim.inner.push_dgram(payload.to_vec(), SockAddr { ip: 1, port: 1 });
    }
    let (mut bufs2, mut meta2) = slots(10, 1500);
    match lim.limited_batch_recvmsg(1, &mut bufs2, &mut meta2, 10) {
        UdpPoll::Ready(count) => assert_eq!(count, 3),
        _ => panic!("expected a filled batch"),
    }
    assert_eq!(lim.limit.cur_packets, 8);
    assert_eq!(lim.stats.packets, 8);
}

#[test]
fn batch_first_over_byte_cap_is_delayed() {
    // The first offered buffer alone exceeds the byte budget: the batch is
    // delayed, never admitted with zero slots.
    let payload = [2u8; 300];
    let ps: [&[u8]; 1] = [&payload];
    let ep = endpoint_with(&ps);
    let mut lim = LimitedUdpRecv::new(ep, 4, 0, 100, CounterRecvStats::new());
    let (mut bufs, mut meta) = slots(2, 300);
    assert!(matches!(
        lim.limited_batch_recvmsg(0, &mut bufs, &mut meta, 2),
        UdpPoll::Pending
    ));
    assert_eq!(lim.delay_until, 16);
    assert_eq!(lim.stats.packets, 0);
}

#[test]
fn batch_disabled_takes_everything() {
    let ps: [&[u8]; 3] = [b"aa", b"bbbb", b"c"];
    let ep = endpoint_with(&ps);
    let mut lim = LimitedUdpRecv::new(ep, 0, 1, 1, CounterRecvStats::new());
    let (mut bufs, mut meta) = slots(3, 16);
    match lim.limited_batch_recvmsg(0, &mut bufs, &mut meta, 3) {
        UdpPoll::Ready(count) => assert_eq!(count, 3),
        _ => panic!("expected a filled batch"),
    }
    assert_eq!(meta[0].len, 2);
    assert_eq!(meta[1].len, 4);
    assert_eq!(meta[2].len, 1);
    assert_eq!(&bufs[1].buf[..4], b"bbbb");
    assert_eq!(lim.stats.packets, 3);
    assert_eq!(lim.stats.bytes, 7);
}

#[test]
fn batch_error_changes_nothing() {
    let ep = FailingUdpRecv { kind: 7 };
    let mut lim = LimitedUdpRecv::new(ep, 4, 8, 0, CounterRecvStats::new());
    let (mut bufs, mut meta) = slots(2, 64);
    match lim.limited_batch_recvmsg(0, &mut bufs, &mut meta, 2) {
        UdpPoll::Failed(e) => assert_eq!(e.kind, 7),
        _ => panic!("expected the endpoint error"),
    }
    assert_eq!(lim.limit.cur_packets, 0);
    assert_eq!(lim.stats.packets, 0);
}

#[test]
fn adapter_reports_zero_header_length() {
    let ps: [&[u8]; 0] = [];
    let adapter = DirectUdpConnectRemoteRecv::new(endpoint_with(&ps));
    assert_eq!(adapter.max_hdr_len(), 0);
}

#[test]
fn adapter_single_packet_has_zero_offset() {
    let ps: [&[u8]; 1] = [b"hello"];
    let mut adapter = DirectUdpConnectRemoteRecv::new(endpoint_with(&ps));
    let mut buf = vec![0u8; 32];
    match adapter.poll_recv_packet(0, &mut buf) {
        UdpPoll::Ready((off, n)) => {
            assert_eq!(off, 0);
            assert_eq!(n, 5);
            assert_eq!(&buf[..5], b"hello");
        }
        _ => panic!("expected the datagram"),
    }
    assert!(matches!(adapter.poll_recv_packet(0, &mut buf), UdpPoll::Pending));
}

#[test]
fn adapter_single_packet_error_is_wrapped() {
    let mut adapter = DirectUdpConnectRemoteRecv::new(FailingUdpRecv { kind: 13 });
    let mut buf = vec![0u8; 8];
    match adapter.poll_recv_packet(0, &mut buf) {
        UdpPoll::Failed(UdpCopyRemoteError::RecvFailed(e)) => assert_eq!(e.kind, 13),
        _ => panic!("expected the wrapped error"),
    }
}

#[test]
fn adapter_batch_fills_slots_and_keeps_the_rest() {
    let ps: [&[u8]; 2] = [b"one", b"second"];
    let mut adapter = DirectUdpConnectRemoteRecv::new(endpoint_with(&ps));
    let mut packets = Vec::new();
    for _ in 0..4 {
        packets.push(UdpCopyPacket { buf: vec![0u8; 16], offset: 77, length: 88 });
    }
    match adapter.poll_recv_packets(0, &mut packets) {
        UdpPoll::Ready(count) => assert_eq!(count, 2),
        _ => panic!("expected a filled batch"),
    }
    assert_eq!(packets.len(), 4);
    assert_eq!(packets[0].offset, 0);
    assert_eq!(packets[0].length, 3);
    assert_eq!(&packets[0].buf[..3], b"one");
    assert_eq!(packets[1].offset, 0);
    assert_eq!(packets[1].length, 6);
    assert_eq!(&packets[1].buf[..6], b"second");
    // Unfilled slots keep their old offset and length.
    assert_eq!(packets[2].offset, 77);
    assert_eq!(packets[2].length, 88);
    assert_eq!(packets[3].offset, 77);
    assert_eq!(packets[3].length, 88);
}

#[test]
fn adapter_batch_error_restores_slots() {
    let mut adapter = DirectUdpConnectRemoteRecv::new(FailingUdpRecv { kind: 99 });
    let mut packets = vec![UdpCopyPacket { buf: vec![0u8; 8], offset: 5, length: 6 }];
    match adapter.poll_recv_packets(0, &mut packets) {
        UdpPoll::Failed(UdpCopyRemoteError::RecvFailed(e)) => assert_eq!(e.kind, 99),
        _ => panic!("expected the wrapped error"),
    }
    assert_eq!(packets.len(), 1);
    assert_eq!(packets[0].offset, 5);
    assert_eq!(packets[0].length, 6);
}

#[test]
fn limited_adapter_composes() {
    // The adapter over a rate-limited endpoint: the capped prefix arrives,
    // the rest waits for the next window.
    let ps: [&[u8]; 3] = [b"aaaa", b"bbbb", b"cccc"];
    let ep = endpoint_with(&ps);
    let lim = LimitedUdpRecv::new(ep, 4, 2, 0, CounterRecvStats::new());
    let mut adapter = DirectUdpConnectRemoteRecv::new(lim);
    let mut packets = Vec::new();
    for _ in 0..3 {
        packets.push(UdpCopyPacket { buf: vec![0u8; 8], offset: 1, length: 1 });
    }
    match adapter.poll_recv_packets(0, &mut packets) {
        UdpPoll::Ready(count) => assert_eq!(count, 2),
        _ => panic!("expected the capped batch"),
    }
    assert_eq!(packets[2].offset, 1);
    match adapter.poll_recv_packets(3, &mut packets) {
        UdpPoll::Pending => {}
        _ => panic!("window is exhausted"),
    }
    match adapter.poll_recv_packets(16, &mut packets) {
        UdpPoll::Ready(count) => assert_eq!(count, 1),
        _ => panic!("next window admits the rest"),
    }
}
