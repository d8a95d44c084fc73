//! The rate-limited single-packet receive path, driven tick by tick.

use udp_limit::recv::{FailingUdpRecv, LimitedUdpRecv, QueuedUdpRecv};
use udp_limit::stats::CounterRecvStats;
use udp_limit::types::{SockAddr, UdpPoll};

fn endpoint_with(payloads: &[&[u8]], addr: SockAddr) -> QueuedUdpRecv {
    let mut ep = QueuedUdpRecv::new();
    for p in payloads {
        ep.push_dgram(p.to_vec(), addr);
    }
    ep
}

#[test]
fn single_packet_pacing() {
    // 8 ms window, two packets per window, five queued 100-byte datagrams,
    // polled at 1 ms ticks: two land in [0,8), two in [8,16), one in
    // [16,24); stats read 5 packets / 500 bytes.
    let addr = SockAddr { ip: 0x0a000001, port: 4000 };
    let payload = [7u8; 100];
    let ps: [&[u8]; 5] = [&payload, &payload, &payload, &payload, &payload];
    let ep = endpoint_with(&ps, addr);
    let mut lim = LimitedUdpRecv::new(ep, 3, 2, 0, CounterRecvStats::new());
    let mut admitted_at = Vec::new();
    for t in 0..24u64 {
        let mut buf = vec![0u8; 1500];
        match lim.limited_recv(t, &mut buf) {
            UdpPoll::Ready(n) => {
                assert_eq!(n, 100);
                assert_eq!(&buf[..100], &payload[..]);
                admitted_at.push(t);
            }
            UdpPoll::Pending => {}
            UdpPoll::Failed(_) => panic!("endpoint cannot fail"),
        }
    }
    assert_eq!(admitted_at, vec![0, 1, 8, 9, 16]);
    assert_eq!(lim.stats.packets, 5);
    assert_eq!(lim.stats.bytes, 500);
}

#[test]
fn byte_cap_delays_second_datagram() {
    // 16 ms window, 1000 bytes per window, two 800-byte datagrams queued at
    // time zero: the first is admitted at once, the second not before 16 ms.
    let addr = SockAddr { ip: 1, port: 1 };
    let payload = [3u8; 800];
    let ps: [&[u8]; 2] = [&payload, &payload];
    let ep = endpoint_with(&ps, addr);
    let mut lim = LimitedUdpRecv::new(ep, 4, 0, 1000, CounterRecvStats::new());
    // Admission charges the offered buffer length against the byte budget,
    // so the buffer must fit under the cap.
    let mut buf = vec![0u8; 800];
    assert!(matches!(lim.limited_recv(0, &mut buf), UdpPoll::Ready(800)));
    for t in 1..16u64 {
        assert!(matches!(lim.limited_recv(t, &mut buf), UdpPoll::Pending));
    }
    assert!(matches!(lim.limited_recv(16, &mut buf), UdpPoll::Ready(800)));
    assert_eq!(lim.stats.packets, 2);
    assert_eq!(lim.stats.bytes, 1600);
}

#[test]
fn disabled_limiter_passes_through() {
    // shift_millis == 0: same datagrams, same order, same source address,
    // matching stats, and no wake-up deadline is ever armed.
    let addr = SockAddr { ip: 0x7f000001, port: 9 };
    let payloads: [&[u8]; 3] = [b"alpha", b"bee", b"colibri"];
    let ep = endpoint_with(&payloads, addr);
    let mut lim = LimitedUdpRecv::new(ep, 0, 1, 1, CounterRecvStats::new());
    for p in payloads {
        let mut buf = vec![0u8; 64];
        match lim.limited_recv_from(1_000_000, &mut buf) {
            UdpPoll::Ready((n, a)) => {
                assert_eq!(n, p.len());
                assert_eq!(&buf[..n], p);
                assert_eq!(a, addr);
            }
            _ => panic!("expected a datagram"),
        }
    }
    let mut buf = vec![0u8; 64];
    assert!(matches!(lim.limited_recv_from(0, &mut buf), UdpPoll::Pending));
    assert_eq!(lim.stats.packets, 3);
    assert_eq!(lim.stats.bytes, 15);
    assert_eq!(lim.delay_until, 0);
}

#[test]
fn recv_from_reports_source_and_placeholder() {
    let addr = SockAddr { ip: 42, port: 4242 };
    let ps: [&[u8]; 1] = [b"x"];
    let ep = endpoint_with(&ps, addr);
    // One packet per 2 ms window.
    let mut lim = LimitedUdpRecv::new(ep, 1, 1, 0, CounterRecvStats::new());
    let mut buf = vec![0u8; 8];
    match lim.limited_recv_from(0, &mut buf) {
        UdpPoll::Ready((n, a)) => {
            assert_eq!(n, 1);
            assert_eq!(a, addr);
        }
        _ => panic!("expected the datagram"),
    }
    // Window exhausted: pending, with the deadline armed at the next window.
    assert!(matches!(lim.limited_recv_from(1, &mut buf), UdpPoll::Pending));
    assert_eq!(lim.delay_until, 2);
}

#[test]
fn truncation_to_buffer_capacity() {
    let addr = SockAddr { ip: 5, port: 5 };
    let ps: [&[u8]; 1] = [b"truncated-tail"];
    let ep = endpoint_with(&ps, addr);
    let mut lim = LimitedUdpRecv::new(ep, 0, 0, 0, CounterRecvStats::new());
    let mut buf = vec![0u8; 4];
    match lim.limited_recv(0, &mut buf) {
        UdpPoll::Ready(n) => {
            assert_eq!(n, 4);
            assert_eq!(&buf[..], b"trun");
        }
        _ => panic!("expected the datagram"),
    }
    assert_eq!(lim.stats.bytes, 4);
}

#[test]
fn empty_datagram_is_a_real_receive() {
    let addr = SockAddr { ip: 6, port: 6 };
    let ps: [&[u8]; 1] = [b""];
    let ep = endpoint_with(&ps, addr);
    let mut lim = LimitedUdpRecv::new(ep, 0, 0, 0, CounterRecvStats::new());
    let mut buf = vec![0u8; 8];
    assert!(matches!(lim.limited_recv(0, &mut buf), UdpPoll::Ready(0)));
    assert_eq!(lim.stats.packets, 1);
    assert_eq!(lim.stats.bytes, 0);
}

#[test]
fn zero_delay_completes_synchronously() {
    // At the saturation point of the elapsed-time counter the computed
    // delay is zero: the delayed path must complete at once with a
    // synthetic zero-byte result, not spin as pending.
    let addr = SockAddr { ip: 9, port: 9 };
    let ps: [&[u8]; 1] = [b"queued"];
    let ep = endpoint_with(&ps, addr);
    let mut lim = LimitedUdpRecv::new(ep, 1, 1, 0, CounterRecvStats::new());
    let mut buf = vec![0u8; 16];
    assert!(matches!(lim.limited_recv(u64::MAX, &mut buf), UdpPoll::Ready(6)));
    // The window at the top of the range is exhausted now: the delay is 0.
    match lim.limited_recv_from(u64::MAX, &mut buf) {
        UdpPoll::Ready((n, a)) => {
            assert_eq!(n, 0);
            assert_eq!(a, SockAddr { ip: 0, port: 0 });
        }
        _ => panic!("zero delay must complete synchronously"),
    }
    // The synthetic result credits nothing.
    assert_eq!(lim.stats.packets, 1);
    assert_eq!(lim.stats.bytes, 6);
}

#[test]
fn stats_rebind_mid_flow() {
    // Three receives into the first sink, two into its replacement; no
    // double crediting.
    let addr = SockAddr { ip: 2, port: 2 };
    let payloads: [&[u8]; 5] = [b"aa", b"bb", b"cc", b"dd", b"ee"];
    let ep = endpoint_with(&payloads, addr);
    let mut lim = LimitedUdpRecv::new(ep, 0, 0, 0, CounterRecvStats::new());
    let mut buf = vec![0u8; 8];
    for _ in 0..3 {
        assert!(matches!(lim.limited_recv(0, &mut buf), UdpPoll::Ready(2)));
    }
    let sink_a = lim.stats;
    lim.reset_stats(CounterRecvStats::new());
    for _ in 0..2 {
        assert!(matches!(lim.limited_recv(0, &mut buf), UdpPoll::Ready(2)));
    }
    assert_eq!(sink_a.packets, 3);
    assert_eq!(sink_a.bytes, 6);
    assert_eq!(lim.stats.packets, 2);
    assert_eq!(lim.stats.bytes, 4);
}

#[test]
fn error_is_surfaced_unchanged() {
    // The endpoint fails: the limiter surfaces the same error, and neither
    // the window counters nor the stats move.
    let ep = FailingUdpRecv { kind: 111 };
    let mut lim = LimitedUdpRecv::new(ep, 3, 2, 100, CounterRecvStats::new());
    let mut buf = vec![0u8; 32];
    match lim.limited_recv(0, &mut buf) {
        UdpPoll::Failed(e) => assert_eq!(e.kind, 111),
        _ => panic!("expected the endpoint error"),
    }
    assert_eq!(lim.limit.cur_packets, 0);
    assert_eq!(lim.limit.cur_bytes, 0);
    assert_eq!(lim.stats.packets, 0);
    assert_eq!(lim.stats.bytes, 0);
    match lim.limited_recv_from(0, &mut buf) {
        UdpPoll::Failed(e) => assert_eq!(e.kind, 111),
        _ => panic!("expected the endpoint error"),
    }
}

#[test]
fn inner_is_reachable() {
    let ps: [&[u8]; 1] = [b"z"];
    let ep = endpoint_with(&ps, SockAddr { ip: 8, port: 8 });
    let lim = LimitedUdpRecv::new(ep, 0, 0, 0, CounterRecvStats::new());
    assert_eq!(lim.inner().queue.len(), 1);
}
