//! Frame durations and their fixed-point foreign representation.

use vstd::prelude::*;

verus! {

/// Number of nanoseconds in one second.
pub const NANOS_PER_SEC: u32 = 1_000_000_000;

/// The elapsed interval between two consecutive compositing timestamps of
/// one process, split into whole seconds and a sub-second remainder so that
/// no precision is lost.
#[derive(Clone, Copy, Debug, PartialEq, Eq, Structural)]
pub struct FrameDuration {
    /// Whole seconds of the interval.
    pub secs: u64,
    /// Sub-second remainder, always below one second.
    pub nanos: u32,
}

impl FrameDuration {
    /// Well-formed: the sub-second part stays below one second.
    pub open spec fn wf(&self) -> bool {
        self.nanos < NANOS_PER_SEC
    }

    /// The whole interval in nanoseconds.
    pub open spec fn as_nanos(&self) -> int {
        self.secs as int * (NANOS_PER_SEC as int) + self.nanos as int
    }

    /// Splits a nanosecond count into seconds and sub-second nanoseconds.
    pub fn from_nanos(total: u64) -> (r: FrameDuration)
        ensures
            r.wf(),
            r.secs == total as int / (NANOS_PER_SEC as int),
            r.nanos == total as int % (NANOS_PER_SEC as int),
            r.as_nanos() == total as int,
    {
        let secs: u64 = total / (NANOS_PER_SEC as u64);
        let nanos: u32 = (total % (NANOS_PER_SEC as u64)) as u32;
        proof {
            vstd::arithmetic::div_mod::lemma_fundamental_div_mod(
                total as int,
                NANOS_PER_SEC as int,
            );
        }
        FrameDuration { secs, nanos }
    }
}

/// A frame duration in the fixed layout the foreign-call surface hands out:
/// two unsigned integers, whole seconds and sub-second nanoseconds.
#[derive(Clone, Copy, Debug, PartialEq, Eq, Structural)]
pub struct FrameTime {
    /// Whole seconds; saturates at `u32::MAX` for intervals too long to
    /// represent.
    pub secs: u32,
    /// Sub-second remainder, always below one second.
    pub nanos: u32,
}

impl FrameTime {
    /// Well-formed: the sub-second part stays below one second.
    pub open spec fn wf(&self) -> bool {
        self.nanos < NANOS_PER_SEC
    }

    /// Narrows a frame duration to the foreign layout.  The seconds field is
    /// exact whenever it fits in 32 bits and saturates otherwise; the
    /// nanosecond field is always exact.
    pub fn from_duration(d: &FrameDuration) -> (r: FrameTime)
        requires
            d.wf(),
        ensures
            r.wf(),
            d.secs <= u32::MAX ==> r.secs == d.secs,
            d.secs > u32::MAX ==> r.secs == u32::MAX,
            r.nanos == d.nanos,
    {
        let secs: u32 = if d.secs > u32::MAX as u64 {
            u32::MAX
        } else {
            d.secs as u32
        };
        FrameTime { secs, nanos: d.nanos }
    }
}

} // verus!
