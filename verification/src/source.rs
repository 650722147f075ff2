//! Per-process conversion of raw timestamps into frame durations.

use vstd::prelude::*;

use crate::frametime::FrameDuration;
use crate::uprobe::ProbeAttachment;

verus! {

/// One attached process's frame-duration stream: the probe that feeds it
/// and the last raw timestamp seen from it.
#[derive(Clone, Copy, Debug)]
pub struct FrameSource {
    /// The kernel probe bound for this process.
    pub probe: ProbeAttachment,
    /// The last raw timestamp taken from the ring buffer; absent until the
    /// first record arrives.
    pub last_ts: Option<u64>,
}

impl FrameSource {
    /// A source fresh from attachment: no timestamp is stored yet, so the
    /// first record can never yield a duration.
    pub fn new(probe: ProbeAttachment) -> (r: FrameSource)
        ensures
            r.probe == probe,
            r.last_ts is None,
    {
        FrameSource { probe, last_ts: None }
    }

    /// The timestamp a source stores after taking `record`: every record
    /// replaces the stored timestamp, and an empty drain changes nothing.
    pub open spec fn next_last(last: Option<u64>, record: Option<u64>) -> Option<u64> {
        match record {
            Some(ts) => Some(ts),
            None => last,
        }
    }

    /// The duration, in nanoseconds, that taking `record` yields: the
    /// difference to the previously stored timestamp.  Nothing is yielded
    /// for an empty drain, for the first record, or for a record whose
    /// timestamp runs backwards (a kernel-clock reset), which is treated
    /// like a first record.
    pub open spec fn yielded(last: Option<u64>, record: Option<u64>) -> Option<int> {
        match record {
            Some(ts) => match last {
                Some(prev) => if prev <= ts {
                    Some(ts - prev)
                } else {
                    None
                },
                None => None,
            },
            None => None,
        }
    }

    /// Law: a source fresh from attachment yields nothing for its first
    /// record — it only stores the timestamp — and for a second record no
    /// earlier than the first it yields exactly the difference of the two
    /// raw timestamps, positive whenever the second is strictly later.
    /// [`FrameSource::update`] realizes `next_last` and `yielded` call by
    /// call, starting from the absent timestamp [`FrameSource::new`]
    /// establishes.
    pub proof fn lemma_first_two_records(t1: u64, t2: u64)
        requires
            t1 <= t2,
        ensures
            Self::yielded(None, Some(t1)) is None,
            Self::next_last(None, Some(t1)) == Some(t1),
            Self::yielded(Some(t1), Some(t2)) == Some((t2 - t1) as int),
            t1 < t2 ==> Self::yielded(Some(t1), Some(t2)) != Some(0int),
    {
    }

    /// Consumes the one record the caller drained from this source's ring
    /// buffer, if any, and converts it into a frame duration.  Never blocks:
    /// it is a pure transform over already-available data.
    pub fn update(&mut self, record: Option<u64>) -> (r: Option<FrameDuration>)
        ensures
            final(self).probe == old(self).probe,
            final(self).last_ts == Self::next_last(old(self).last_ts, record),
            match Self::yielded(old(self).last_ts, record) {
                Some(n) => (r matches Some(d) && d.wf() && d.as_nanos() == n),
                None => r is None,
            },
    {
        match record {
            None => None,
            Some(ts) => {
                let prev = self.last_ts;
                self.last_ts = Some(ts);
                match prev {
                    Some(p) => {
                        if p <= ts {
                            Some(FrameDuration::from_nanos(ts - p))
                        } else {
                            None
                        }
                    },
                    None => None,
                }
            },
        }
    }
}

} // verus!
