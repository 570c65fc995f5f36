//! The segments a replay is built from, as the rolling store lends them out.
use vstd::prelude::*;

verus! {

/// One retained segment file.
#[derive(Debug, Clone, PartialEq, Eq)]
pub struct LeasedSegment {
    /// Path of the segment's MP4 file.
    pub path: String,
    /// Capture source that produced it, when known (segments recovered from
    /// disk after a restart have none).
    pub source_id: Option<String>,
    pub byte_size: u64,
    pub evidence_start_unix_ms: u64,
    pub evidence_end_unix_ms: u64,
}

/// A set of segments the rolling store keeps on disk for as long as the
/// lease is held, ordered by evidence start.
#[derive(Debug, Clone, PartialEq, Eq)]
pub struct SegmentLease {
    pub segments: Vec<LeasedSegment>,
}

impl LeasedSegment {
    /// The same segment, copied.
    pub fn duplicate(&self) -> (r: LeasedSegment)
        ensures
            r == *self,
    {
        LeasedSegment {
            path: self.path.clone(),
            source_id: crate::text::copy_opt_string(&self.source_id),
            byte_size: self.byte_size,
            evidence_start_unix_ms: self.evidence_start_unix_ms,
            evidence_end_unix_ms: self.evidence_end_unix_ms,
        }
    }
}

impl SegmentLease {
    /// A lease on no segment.
    pub fn empty() -> (r: SegmentLease)
        ensures
            r.segments@.len() == 0,
    {
        SegmentLease { segments: Vec::new() }
    }

    /// The same lease, copied.
    pub fn duplicate(&self) -> (r: SegmentLease)
        ensures
            r.segments@ == self.segments@,
    {
        let mut segments: Vec<LeasedSegment> = Vec::new();
        let mut i: usize = 0;
        while i < self.segments.len()
            invariant
                i <= self.segments@.len(),
                segments@ == self.segments@.take(i as int),
            decreases self.segments@.len() - i,
        {
            segments.push(self.segments[i].duplicate());
            proof {
                assert(self.segments@.take(i + 1) =~= self.segments@.take(i as int).push(self.segments@[i as int]));
            }
            i = i + 1;
        }
        proof {
            assert(self.segments@.take(self.segments@.len() as int) =~= self.segments@);
        }
        SegmentLease { segments }
    }
}

} // verus!
