use udp_latency::client::{latency_ns, on_reply, ReplyOutcome, SendSchedule};
use udp_latency::codec::encode;

#[test]
fn reply_five_ms_old_gives_five_thousand_micros() {
    let now: u128 = 1_700_000_000_000_000_000;
    let out = on_reply(&encode(now - 5_000_000), now);
    assert_eq!(out, ReplyOutcome::Sample { delay_ns: 5_000_000 });
    let ns = out.sample_ns().unwrap();
    assert_eq!(ns as f64 / 1000.0, 5000.0);
}

#[test]
fn reply_from_the_future_is_not_sampled() {
    let now: u128 = 1_700_000_000_000_000_000;
    let out = on_reply(&encode(now + 1), now);
    assert_eq!(out, ReplyOutcome::ClockAnomaly { send_ns: now + 1, recv_ns: now });
    assert_eq!(out.sample_ns(), None);
}

#[test]
fn reply_of_wrong_length_is_malformed() {
    assert_eq!(on_reply(&[0u8; 8], 5), ReplyOutcome::Malformed { len: 8 });
    assert_eq!(on_reply(&[], 5), ReplyOutcome::Malformed { len: 0 });
    assert_eq!(on_reply(&[0u8; 8], 5).sample_ns(), None);
}

#[test]
fn reply_received_at_its_own_stamp_has_zero_delay() {
    assert_eq!(on_reply(&encode(42), 42), ReplyOutcome::Sample { delay_ns: 0 });
}

#[test]
fn latency_is_the_non_negative_difference() {
    assert_eq!(latency_ns(10, 25), Some(15));
    assert_eq!(latency_ns(25, 25), Some(0));
    assert_eq!(latency_ns(26, 25), None);
    assert_eq!(latency_ns(0, u128::MAX), Some(u128::MAX));
}

#[test]
fn sender_ticks_ten_times_in_1050_ms() {
    let mut s = SendSchedule::new(100);
    assert_eq!(s.next_deadline_ms(), 100);
    let mut sent: u64 = 0;
    while s.next_deadline_ms() <= 1050 {
        let payload = s.on_tick(sent as u128);
        assert_eq!(payload, encode(sent as u128));
        sent += 1;
    }
    assert_eq!(sent, 10);
    assert!(sent <= (1050 + 99) / 100);
    assert_eq!(s.ticks, 10);
    assert_eq!(s.next_deadline_ms(), 1100);
}

#[test]
fn sender_deadline_does_not_overflow() {
    let mut s = SendSchedule::new(u32::MAX);
    s.ticks = u64::MAX;
    assert_eq!(s.next_deadline_ms(), (u64::MAX as u128 + 1) * u32::MAX as u128);
    let _ = s.on_tick(0);
    assert_eq!(s.ticks, u64::MAX);
}
