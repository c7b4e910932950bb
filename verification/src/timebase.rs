//! The timebase of a round: the time between frames and the age of the round, read
//! from the monotonic clock and kept in whole nanoseconds.

use std::time::Instant;
use vstd::prelude::*;

verus! {

/// `std::time::Instant`, a reading of the monotonic clock. Nothing is known of its
/// inside.
#[verifier::external_type_specification]
#[verifier::external_body]
pub struct ExInstant(std::time::Instant);

/// `std::time::Instant::now` reads the clock; nothing is claimed of the reading.
pub assume_specification[ std::time::Instant::now ]() -> (now: std::time::Instant)
;

/// `std::time::Instant::elapsed` gives the time since a reading; nothing is claimed
/// of its length.
pub assume_specification[ std::time::Instant::elapsed ](
    earlier: &std::time::Instant,
) -> (span: core::time::Duration)
;

/// `core::time::Duration::as_nanos` gives a span in whole nanoseconds; nothing is
/// claimed of the number.
pub assume_specification[ core::time::Duration::as_nanos ](
    span: &core::time::Duration,
) -> (nanos: u128)
;

/// The clock of one round. It remembers when the round began and how old the round
/// was at the last sample.
#[derive(Debug)]
pub struct TimeStep {
    start_time: Instant,
    last_ns: u64,
}

impl TimeStep {
    /// The age of the round at the last sample, in nanoseconds.
    pub closed spec fn last_sample(&self) -> nat {
        self.last_ns as nat
    }

    /// Starts the clock of a round.
    pub fn new() -> (t: TimeStep)
        ensures
            t.last_sample() == 0,
    {
        TimeStep { start_time: Instant::now(), last_ns: 0 }
    }

    /// The age of the round at the last sample, in nanoseconds.
    pub fn last(&self) -> (ns: u64)
        ensures
            ns == self.last_sample(),
    {
        self.last_ns
    }

    /// Reads the clock: the age of the round now, as far as 64 bits hold it. Which
    /// age comes is the clock's to say.
    fn read(&self) -> (ns: u64) {
        whole_nanos(self.start_time.elapsed().as_nanos())
    }

    /// Moves the last sample to `now_ns`, the age of the round now, and returns the
    /// time since the sample before. A reading older than the last sample counts as
    /// no time passed.
    pub fn advance_to(&mut self, now_ns: u64) -> (dt: u64)
        ensures
            final(self).last_sample() == if now_ns >= old(self).last_sample() {
                now_ns as nat
            } else {
                old(self).last_sample()
            },
            dt == final(self).last_sample() - old(self).last_sample(),
            final(self).round_start() == old(self).round_start(),
    {
        if now_ns >= self.last_ns {
            let dt: u64 = now_ns - self.last_ns;
            self.last_ns = now_ns;
            dt
        } else {
            0
        }
    }

    /// Samples the clock: returns the nanoseconds since the sample before, never
    /// less than none, and remembers the new sample. The start of the round stays
    /// where it was.
    pub fn delta(&mut self) -> (dt: u64)
        ensures
            final(self).last_sample() == old(self).last_sample() + dt,
            final(self).round_start() == old(self).round_start(),
    {
        let now: u64 = self.read();
        self.advance_to(now)
    }

    /// The age of the round where the clock reads `now_ns`: the reading, or the last
    /// sample where the reading is older than that.
    pub fn age_at(&self, now_ns: u64) -> (ns: u64)
        ensures
            ns == if now_ns >= self.last_sample() {
                now_ns as nat
            } else {
                self.last_sample()
            },
    {
        if now_ns >= self.last_ns {
            now_ns
        } else {
            self.last_ns
        }
    }

    /// The age of the round now, in nanoseconds: what `age_at` gives for the reading
    /// of the clock, so never less than at the last sample.
    pub fn elapsed_total(&self) -> (ns: u64)
        ensures
            ns >= self.last_sample(),
    {
        let now: u64 = self.read();
        self.age_at(now)
    }

    /// The reading of the clock at which the round began.
    pub closed spec fn round_start(&self) -> Instant {
        self.start_time
    }
}

/// A count of nanoseconds brought into 64 bits: counts beyond the range become the
/// largest value.
pub open spec fn nanos_in_range(nanos: u128) -> u64 {
    if nanos > u64::MAX {
        u64::MAX
    } else {
        nanos as u64
    }
}

/// Brings a count of nanoseconds into 64 bits.
pub fn whole_nanos(nanos: u128) -> (ns: u64)
    ensures
        ns == nanos_in_range(nanos),
{
    if nanos > u64::MAX as u128 {
        u64::MAX
    } else {
        nanos as u64
    }
}

impl Default for TimeStep {
    fn default() -> (t: TimeStep)
        ensures
            t.last_sample() == 0,
    {
        TimeStep::new()
    }
}

} // verus!
