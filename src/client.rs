//! The two halves of an echo client: the sender, which stamps a datagram on
//! each tick of a fixed interval, and the receiver, which turns each reply
//! into a latency sample.
use crate::codec::{be_value, datagram_of, decode, encode, WireError, TIMESTAMP_LEN};
use vstd::prelude::*;

verus! {

/// What the receiver makes of one reply.
///
/// Every outcome counts as one received reply; only a `Sample` goes into the
/// latency histogram.
#[derive(Clone, Copy, Debug, PartialEq, Eq, Structural)]
pub enum ReplyOutcome {
    /// The reply came back `delay_ns` nanoseconds after it was stamped.
    Sample { delay_ns: u128 },
    /// The reply carries a stamp later than the time it was received at, as
    /// clock skew or reordering can cause; no sample is taken.
    ClockAnomaly { send_ns: u128, recv_ns: u128 },
    /// The reply is not an echo datagram; no sample is taken.
    Malformed { len: usize },
}

impl ReplyOutcome {
    /// The delay to record in the histogram, if any.
    pub fn sample_ns(&self) -> (r: Option<u128>)
        ensures
            r == (match *self {
                ReplyOutcome::Sample { delay_ns } => Some(delay_ns),
                _ => None::<u128>,
            }),
    {
        match *self {
            ReplyOutcome::Sample { delay_ns } => Some(delay_ns),
            _ => None,
        }
    }
}

/// The delay between a stamp taken at `send_ns` and its reply at `recv_ns`,
/// when it is not negative.
pub open spec fn delay_of(send_ns: u128, recv_ns: u128) -> Option<u128> {
    if send_ns <= recv_ns {
        Some((recv_ns - send_ns) as u128)
    } else {
        None
    }
}

/// What a reply with payload `p`, received at `recv_ns`, comes to.
pub open spec fn outcome_of(p: Seq<u8>, recv_ns: u128) -> ReplyOutcome {
    if p.len() != TIMESTAMP_LEN {
        ReplyOutcome::Malformed { len: p.len() as usize }
    } else {
        let send_ns = be_value(p) as u128;
        match delay_of(send_ns, recv_ns) {
            Some(d) => ReplyOutcome::Sample { delay_ns: d },
            None => ReplyOutcome::ClockAnomaly { send_ns, recv_ns },
        }
    }
}

/// The non-negative delay between a stamp and its reply, or `None` when the
/// stamp is later than the reply.
pub fn latency_ns(send_ns: u128, recv_ns: u128) -> (r: Option<u128>)
    ensures
        r == delay_of(send_ns, recv_ns),
{
    if send_ns <= recv_ns {
        Some(recv_ns - send_ns)
    } else {
        None
    }
}

/// Handles one reply with payload `payload`, received at `recv_ns`
/// nanoseconds since the epoch.
pub fn on_reply(payload: &[u8], recv_ns: u128) -> (r: ReplyOutcome)
    ensures
        r == outcome_of(payload@, recv_ns),
{
    match decode(payload) {
        Ok(send_ns) => match latency_ns(send_ns, recv_ns) {
            Some(d) => ReplyOutcome::Sample { delay_ns: d },
            None => ReplyOutcome::ClockAnomaly { send_ns, recv_ns },
        },
        Err(WireError::MalformedDatagram { len }) => ReplyOutcome::Malformed { len },
    }
}

/// A reply that carries the client's own stamp, received no earlier than it
/// was sent, yields a sample equal to the time between the two.
pub proof fn lemma_reply_measures_round_trip(send_ns: u128, recv_ns: u128)
    requires
        send_ns <= recv_ns,
    ensures
        outcome_of(datagram_of(send_ns), recv_ns) == (ReplyOutcome::Sample {
            delay_ns: (recv_ns - send_ns) as u128,
        }),
{
    crate::codec::lemma_decode_encode(send_ns);
}

/// A reply whose stamp is later than the time it came back at comes to a
/// clock anomaly, which carries no sample.
pub proof fn lemma_skewed_reply_not_sampled(send_ns: u128, recv_ns: u128)
    requires
        send_ns > recv_ns,
    ensures
        outcome_of(datagram_of(send_ns), recv_ns) == (ReplyOutcome::ClockAnomaly {
            send_ns,
            recv_ns,
        }),
{
    crate::codec::lemma_decode_encode(send_ns);
}

/// The sender's clock: ticks fall every `interval_ms` milliseconds after the
/// start, the first one a whole interval after it.
#[derive(Clone, Copy, Debug, PartialEq, Eq, Structural)]
pub struct SendSchedule {
    /// Milliseconds between two ticks.
    pub interval_ms: u32,
    /// Ticks taken so far.
    pub ticks: u64,
}

/// The time, in milliseconds after the start, of tick number `k` (from 1).
pub open spec fn deadline_ms(interval_ms: nat, k: nat) -> nat {
    k * interval_ms
}

impl SendSchedule {
    /// A schedule that has not ticked yet.
    pub fn new(interval_ms: u32) -> (r: SendSchedule)
        ensures
            r.interval_ms == interval_ms,
            r.ticks == 0,
    {
        SendSchedule { interval_ms, ticks: 0 }
    }

    /// When the next tick falls, in milliseconds after the start.
    pub fn next_deadline_ms(&self) -> (r: u128)
        ensures
            r == deadline_ms(self.interval_ms as nat, self.ticks as nat + 1),
    {
        let k: u128 = self.ticks as u128 + 1;
        let i: u128 = self.interval_ms as u128;
        assert(k * i <= 0x1_0000_0000_0000_0000u128 * 0xffff_ffffu128) by (nonlinear_arith)
            requires
                k <= 0x1_0000_0000_0000_0000u128,
                i <= 0xffff_ffffu128,
        ;
        k * i
    }

    /// Takes a tick at `now_ns` nanoseconds since the epoch: the datagram to
    /// send, stamped with `now_ns`.
    pub fn on_tick(&mut self, now_ns: u128) -> (r: Vec<u8>)
        ensures
            r@ == datagram_of(now_ns),
            r@.len() == TIMESTAMP_LEN,
            final(self).interval_ms == old(self).interval_ms,
            final(self).ticks == if old(self).ticks < u64::MAX {
                old(self).ticks + 1
            } else {
                old(self).ticks as int
            },
    {
        if self.ticks < u64::MAX {
            self.ticks = self.ticks + 1;
        }
        encode(now_ns)
    }
}

/// Within a window of `window_ms` milliseconds from the start, exactly the
/// ticks numbered 1 to `window_ms / interval_ms` fall, so the sender sends
/// `window_ms / interval_ms` datagrams there, never more than the window
/// divided by the interval rounded up.
pub proof fn lemma_ticks_in_window(interval_ms: nat, window_ms: nat)
    requires
        interval_ms > 0,
    ensures
        forall|k: nat| #[trigger]
            deadline_ms(interval_ms, k) <= window_ms <==> k <= window_ms / interval_ms,
        window_ms / interval_ms <= ((window_ms + interval_ms - 1) as nat) / interval_ms,
{
    let q = window_ms / interval_ms;
    assert forall|k: nat| #[trigger]
        deadline_ms(interval_ms, k) <= window_ms <==> k <= q by {
        assert(q * interval_ms <= window_ms < (q + 1) * interval_ms) by (nonlinear_arith)
            requires
                interval_ms > 0,
                q == window_ms / interval_ms,
        ;
        if k <= q {
            assert(k * interval_ms <= q * interval_ms) by (nonlinear_arith)
                requires
                    k <= q,
            ;
        } else {
            assert(k * interval_ms >= (q + 1) * interval_ms) by (nonlinear_arith)
                requires
                    k >= q + 1,
            ;
        }
    }
    assert(window_ms / interval_ms <= ((window_ms + interval_ms - 1) as nat) / interval_ms) by (nonlinear_arith)
        requires
            interval_ms > 0,
    ;
}

} // verus!
