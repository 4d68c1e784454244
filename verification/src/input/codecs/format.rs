//! Types shared by the container readers: packets, seek requests and their
//! outcomes, and the conversion of a seek time into a timestamp.
use vstd::prelude::*;

verus! {

/// One packet of encoded or raw audio read from a container.
#[derive(Debug, Clone, PartialEq, Eq)]
pub struct Packet {
    /// Track the packet belongs to.
    pub track_id: u32,
    /// Timestamp of the first sample in the packet.
    pub ts: i64,
    /// Number of samples (per channel) in the packet.
    pub dur: u64,
    /// The packet's bytes.
    pub data: Vec<u8>,
}

impl Packet {
    /// Whether `target` lies in the span `[ts, ts + dur)` of this packet.
    pub open spec fn spec_covers(&self, target: int) -> bool {
        self.ts <= target < self.ts + self.dur
    }

    /// Whether the packet holds the sample at timestamp `target`.
    pub fn covers(&self, target: i64) -> (r: bool)
        ensures
            r == self.spec_covers(target as int),
            r == (self.ts <= target && target < self.ts + self.dur),
    {
        let start = self.ts as i128;
        let t = target as i128;
        start <= t && t < start + (self.dur as i128)
    }
}

/// A packet holds exactly the timestamps of its span: its first timestamp (when it
/// holds any sample), every timestamp before its end, and nothing before its start
/// or from its end on.
pub proof fn lemma_packet_holds_its_span(p: Packet, t: int)
    ensures
        p.spec_covers(t) <==> (p.ts <= t && t < p.ts + p.dur),
        p.dur > 0 ==> p.spec_covers(p.ts as int),
        t < p.ts ==> !p.spec_covers(t),
        t >= p.ts + p.dur ==> !p.spec_covers(t),
{
}

/// Where a seek should go.
#[derive(Debug, Clone, Copy, PartialEq, Eq)]
pub enum SeekTarget {
    /// A time since the start of the stream: whole seconds and nanoseconds.
    Time { seconds: i64, nanos: u32 },
    /// A timestamp in the track's time base.
    TimeStamp(i64),
}

/// Why a seek was refused.
#[derive(Debug, Clone, Copy, PartialEq, Eq)]
pub enum SeekError {
    /// The requested position lies after the end of the stream.
    OutOfRange,
    /// The source can only move forwards, and the request lies behind the
    /// current position.
    ForwardOnly,
}

/// The outcome of a successful seek.
#[derive(Debug, Clone, Copy, PartialEq, Eq)]
pub struct SeekedTo {
    /// Track that was sought.
    pub track_id: u32,
    /// The timestamp that was asked for.
    pub required_ts: i64,
    /// The timestamp the reader actually stands on.
    pub actual_ts: i64,
}

/// Timestamp, in units of `1 / rate` seconds, of the instant `seconds + nanos / 10^9`,
/// rounded down to a whole tick.
pub open spec fn spec_time_ticks(rate: u32, seconds: i64, nanos: u32) -> int {
    seconds * rate + (nanos * rate) / 1_000_000_000
}

/// Whether a value fits an `i64`.
pub open spec fn fits_i64(v: int) -> bool {
    i64::MIN <= v <= i64::MAX
}

/// Converts a time into a timestamp of time base `1 / rate` with symphonia's
/// `TimeBase::calc_timestamp`.
///
/// Trusted: the contract states what that function's source computes for a time
/// base with numerator 1: the whole seconds times the rate plus the rounded-down
/// fraction, or `None` where the result does not fit an `i64`.
#[verifier::external_body]
pub(crate) fn calc_timestamp(rate: u32, seconds: i64, nanos: u32) -> (r: Option<i64>)
    requires
        rate > 0,
        nanos < 1_000_000_000,
    ensures
        r == (if fits_i64(spec_time_ticks(rate, seconds, nanos)) {
            Some(spec_time_ticks(rate, seconds, nanos) as i64)
        } else {
            None::<i64>
        }),
{
    let time_base = symphonia_core::units::TimeBase::try_from_recip(rate).unwrap();
    let time = symphonia_core::units::Time::try_new(seconds, nanos).unwrap();
    match time_base.calc_timestamp(time) {
        Some(ts) => Some(ts.get()),
        None => None,
    }
}

/// Whether a seek target can be resolved for a track of the given sample rate without
/// overflowing a timestamp.
pub open spec fn target_resolvable(target: SeekTarget, rate: u32) -> bool {
    match target {
        SeekTarget::Time { seconds, nanos } => nanos < 1_000_000_000 && fits_i64(
            spec_time_ticks(rate, seconds, nanos),
        ),
        SeekTarget::TimeStamp(_) => true,
    }
}

/// The timestamp a seek target stands for in a track of the given sample rate.
pub open spec fn spec_target_ts(target: SeekTarget, rate: u32) -> int {
    match target {
        SeekTarget::Time { seconds, nanos } => spec_time_ticks(rate, seconds, nanos),
        SeekTarget::TimeStamp(ts) => ts as int,
    }
}

/// Resolves a seek target into a timestamp in a track of sample rate `rate`, or
/// `None` where its nanoseconds make a whole second or more, or the timestamp does
/// not fit an `i64`.
pub fn resolve_target(target: SeekTarget, rate: u32) -> (r: Option<i64>)
    requires
        rate > 0,
    ensures
        target_resolvable(target, rate) ==> r == Some(spec_target_ts(target, rate) as i64),
        !target_resolvable(target, rate) ==> r is None,
{
    match target {
        SeekTarget::Time { seconds, nanos } => {
            if nanos >= 1_000_000_000 {
                None
            } else {
                calc_timestamp(rate, seconds, nanos)
            }
        },
        SeekTarget::TimeStamp(ts) => Some(ts),
    }
}

/// A time converts to ticks of `1 / rate` seconds as a clock would: a whole second
/// more is `rate` ticks more, the ticks of the fraction never reach a whole second's
/// worth, and time zero is tick zero.
pub proof fn lemma_time_ticks_count_seconds(rate: u32, seconds: i64, nanos: u32)
    requires
        nanos < 1_000_000_000,
        seconds < i64::MAX,
    ensures
        spec_time_ticks(rate, (seconds + 1) as i64, nanos) == spec_time_ticks(rate, seconds, nanos) + rate,
        seconds * rate <= spec_time_ticks(rate, seconds, nanos) <= seconds * rate + rate,
        rate > 0 ==> spec_time_ticks(rate, seconds, nanos) < seconds * rate + rate,
        spec_time_ticks(rate, 0, 0) == 0,
{
    assert((seconds + 1) * rate == seconds * rate + rate) by (nonlinear_arith);
    assert(0 <= nanos * rate) by (nonlinear_arith);
    assert(nanos * rate <= 1_000_000_000 * rate) by (nonlinear_arith)
        requires
            nanos < 1_000_000_000,
    ;
    assert(rate > 0 ==> nanos * rate < 1_000_000_000 * rate) by (nonlinear_arith)
        requires
            nanos < 1_000_000_000,
    ;
    assert(0 * rate == 0) by (nonlinear_arith);
}

} // verus!
