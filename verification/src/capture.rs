//! Facts about the capture pipeline that a saved replay records alongside
//! its evidence.
use vstd::prelude::*;

verus! {

/// Encoded geometry of the capture source.
#[derive(Debug, Clone, Copy, PartialEq, Eq)]
pub struct CaptureGeometry {
    pub width: u32,
    pub height: u32,
}

/// What the capture pipeline reported when a replay was triggered. The
/// states are carried by their stable snake_case names.
#[derive(Debug, Clone, PartialEq, Eq)]
pub struct EvidenceCaptureFacts {
    pub source_kind: Option<String>,
    pub geometry: Option<CaptureGeometry>,
    pub capture_state: String,
    pub encoder_state: String,
    pub retention_minutes: u8,
    pub dropped_frames: u64,
    pub evidence_gap_count: u64,
    pub retry_count: u8,
}

impl EvidenceCaptureFacts {
    /// The same facts, copied.
    pub fn duplicate(&self) -> (r: EvidenceCaptureFacts)
        ensures
            r == *self,
    {
        EvidenceCaptureFacts {
            source_kind: crate::text::copy_opt_string(&self.source_kind),
            geometry: self.geometry,
            capture_state: self.capture_state.clone(),
            encoder_state: self.encoder_state.clone(),
            retention_minutes: self.retention_minutes,
            dropped_frames: self.dropped_frames,
            evidence_gap_count: self.evidence_gap_count,
            retry_count: self.retry_count,
        }
    }
}

} // verus!
