//! Window admission behaviour on concrete values.

use udp_limit::limit::{DatagramLimitInfo, DatagramLimitResult};
use udp_limit::types::RecvBuf;

fn buffers(lens: &[usize]) -> Vec<RecvBuf> {
    let mut v = Vec::new();
    for &l in lens {
        v.push(RecvBuf { buf: vec![0u8; l] });
    }
    v
}

#[test]
fn new_starts_clean() {
    let l = DatagramLimitInfo::new(3, 2, 100);
    assert_eq!(l.shift_millis, 3);
    assert_eq!(l.max_packets, 2);
    assert_eq!(l.max_bytes, 100);
    assert_eq!(l.time_slice_id, 0);
    assert_eq!(l.cur_packets, 0);
    assert_eq!(l.cur_bytes, 0);
    assert!(l.is_set());
    assert!(!DatagramLimitInfo::new(0, 0, 0).is_set());
}

#[test]
fn disabled_always_advances() {
    let mut l = DatagramLimitInfo::new(0, 1, 1);
    for t in 0..50u64 {
        assert_eq!(l.check_packet(t, 10_000), DatagramLimitResult::Advance(1));
    }
    assert_eq!(l.cur_packets, 0);
    assert_eq!(l.cur_bytes, 0);
}

#[test]
fn packet_cap_gates_and_delay_is_exact() {
    // 8 ms window, two packets per window.
    let mut l = DatagramLimitInfo::new(3, 2, 0);
    assert_eq!(l.check_packet(0, 100), DatagramLimitResult::Advance(1));
    l.set_advance(1, 100);
    assert_eq!(l.check_packet(1, 100), DatagramLimitResult::Advance(1));
    l.set_advance(1, 100);
    // Third packet in the same window: wait until the window at 8 ms opens.
    assert_eq!(l.check_packet(2, 100), DatagramLimitResult::DelayFor(6));
    assert_eq!(l.check_packet(7, 100), DatagramLimitResult::DelayFor(1));
}

#[test]
fn byte_cap_gates() {
    // 16 ms window, 1000 bytes per window; two 800-byte receives.
    let mut l = DatagramLimitInfo::new(4, 0, 1000);
    assert_eq!(l.check_packet(0, 800), DatagramLimitResult::Advance(1));
    l.set_advance(1, 800);
    assert_eq!(l.check_packet(0, 800), DatagramLimitResult::DelayFor(16));
    // The next window admits it again.
    assert_eq!(l.check_packet(16, 800), DatagramLimitResult::Advance(1));
}

#[test]
fn window_reset_zeroes_counters() {
    let mut l = DatagramLimitInfo::new(3, 2, 1000);
    assert_eq!(l.check_packet(0, 10), DatagramLimitResult::Advance(1));
    l.set_advance(1, 10);
    assert_eq!(l.cur_packets, 1);
    assert_eq!(l.cur_bytes, 10);
    // Crossing into the window that starts at 8 ms resets both counters.
    assert_eq!(l.check_packet(9, 10), DatagramLimitResult::Advance(1));
    assert_eq!(l.time_slice_id, 1);
    assert_eq!(l.cur_packets, 0);
    assert_eq!(l.cur_bytes, 0);
}

#[test]
fn zero_caps_gate_nothing() {
    // shift_millis > 0 with both caps zero: every check advances.
    let mut l = DatagramLimitInfo::new(5, 0, 0);
    for t in 0..100u64 {
        assert_eq!(l.check_packet(t, usize::MAX), DatagramLimitResult::Advance(1));
        l.set_advance(1, 1_000_000);
    }
}

#[test]
fn unconstrained_counter_saturates() {
    let mut l = DatagramLimitInfo::new(1, 0, 0);
    l.set_advance(usize::MAX, usize::MAX);
    l.set_advance(1, 1);
    assert_eq!(l.cur_packets, usize::MAX);
    assert_eq!(l.cur_bytes, usize::MAX);
}

#[test]
fn batch_admits_longest_fitting_prefix() {
    // 16 ms window, caps: 8 packets, 1000 bytes.
    let mut l = DatagramLimitInfo::new(4, 8, 1000);
    let bufs = buffers(&[400, 400, 400, 400]);
    // Bytes stop the walk after two buffers.
    assert_eq!(l.check_packets(0, &bufs), DatagramLimitResult::Advance(2));
}

#[test]
fn batch_packet_cap_stops_walk() {
    let mut l = DatagramLimitInfo::new(4, 3, 0);
    let bufs = buffers(&[10, 10, 10, 10, 10]);
    assert_eq!(l.check_packets(0, &bufs), DatagramLimitResult::Advance(3));
}

#[test]
fn batch_first_over_byte_cap_delays() {
    // Even the first packet exceeds the byte cap: DelayFor, never Advance(0).
    let mut l = DatagramLimitInfo::new(4, 0, 100);
    let bufs = buffers(&[200, 10]);
    assert_eq!(l.check_packets(0, &bufs), DatagramLimitResult::DelayFor(16));
}

#[test]
fn batch_exhausted_window_delays() {
    let mut l = DatagramLimitInfo::new(4, 2, 0);
    let bufs = buffers(&[10, 10, 10]);
    assert_eq!(l.check_packets(0, &bufs), DatagramLimitResult::Advance(2));
    l.set_advance(2, 20);
    assert_eq!(l.check_packets(1, &bufs), DatagramLimitResult::DelayFor(15));
}

#[test]
fn batch_disabled_admits_all() {
    let mut l = DatagramLimitInfo::new(0, 1, 1);
    let bufs = buffers(&[500, 500, 500]);
    assert_eq!(l.check_packets(3, &bufs), DatagramLimitResult::Advance(3));
}
