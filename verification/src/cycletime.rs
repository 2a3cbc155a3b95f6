//! The cycle times a master can run at.
use core::time::Duration;
use vstd::prelude::*;

verus! {

/// A cycle time; each is twice the one before it.
#[derive(Debug, Clone, Copy, PartialEq, Eq, Structural, PartialOrd, Ord, Hash)]
pub enum CycleTime {
    T500Micros,
    T1Millis,
    T2Millis,
    T4Millis,
    T8Millis,
    T16Millis,
}

/// The duration of `nanos` nanoseconds, as `Duration::from_nanos` makes it.
pub uninterp spec fn duration_of_nanos(nanos: u64) -> Duration;

/// Calls `core::time::Duration::from_nanos`, which makes the duration of
/// `nanos` nanoseconds; the contract names that result and says nothing
/// more of it.
#[verifier::external_body]
fn duration_from_nanos(nanos: u64) -> (d: Duration)
    ensures
        d == duration_of_nanos(nanos),
{
    Duration::from_nanos(nanos)
}

impl CycleTime {
    /// The cycle time in nanoseconds.
    pub open spec fn nanos_spec(self) -> u64 {
        match self {
            CycleTime::T500Micros => 500_000,
            CycleTime::T1Millis => 1_000_000,
            CycleTime::T2Millis => 2_000_000,
            CycleTime::T4Millis => 4_000_000,
            CycleTime::T8Millis => 8_000_000,
            CycleTime::T16Millis => 16_000_000,
        }
    }

    pub fn as_nanos(&self) -> (r: u64)
        ensures
            r == self.nanos_spec(),
    {
        match self {
            CycleTime::T500Micros => 500_000,
            CycleTime::T1Millis => 1_000_000,
            CycleTime::T2Millis => 2_000_000,
            CycleTime::T4Millis => 4_000_000,
            CycleTime::T8Millis => 8_000_000,
            CycleTime::T16Millis => 16_000_000,
        }
    }

    pub fn as_duration(&self) -> (r: Duration)
        ensures
            r == duration_of_nanos(self.nanos_spec()),
    {
        duration_from_nanos(self.as_nanos())
    }
}

/// Each cycle time is a multiple of the shortest one, and every one but
/// the longest has another cycle time twice as long.
pub proof fn lemma_cycle_time_doubling(c: CycleTime)
    ensures
        c.nanos_spec() % 500_000 == 0,
        c != CycleTime::T16Millis ==> exists|d: CycleTime|
            #![trigger d.nanos_spec()]
            d.nanos_spec() == 2 * c.nanos_spec(),
{
    match c {
        CycleTime::T500Micros => {
            assert(CycleTime::T1Millis.nanos_spec() == 2 * c.nanos_spec());
        },
        CycleTime::T1Millis => {
            assert(CycleTime::T2Millis.nanos_spec() == 2 * c.nanos_spec());
        },
        CycleTime::T2Millis => {
            assert(CycleTime::T4Millis.nanos_spec() == 2 * c.nanos_spec());
        },
        CycleTime::T4Millis => {
            assert(CycleTime::T8Millis.nanos_spec() == 2 * c.nanos_spec());
        },
        CycleTime::T8Millis => {
            assert(CycleTime::T16Millis.nanos_spec() == 2 * c.nanos_spec());
        },
        CycleTime::T16Millis => {},
    }
}

} // verus!
