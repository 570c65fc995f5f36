//! Which replay the single, reused preview window is showing.
use vstd::prelude::*;

verus! {

/// Everything the post-save preview shows about one saved replay.
#[derive(Debug, Clone, PartialEq, Eq)]
pub struct PreviewPayload {
    pub id: String,
    /// The same title the editor header shows for this replay.
    pub display_name: String,
    /// Omitted when the bundle never recorded an evidence window.
    pub duration_seconds: Option<u64>,
    pub total_bytes: u64,
    /// Absolute path of the bundle's video.
    pub video_path: String,
}

impl PreviewPayload {
    /// The same payload, copied.
    pub fn duplicate(&self) -> (r: PreviewPayload)
        ensures
            r == *self,
    {
        PreviewPayload {
            id: self.id.clone(),
            display_name: self.display_name.clone(),
            duration_seconds: self.duration_seconds,
            total_bytes: self.total_bytes,
            video_path: self.video_path.clone(),
        }
    }
}

/// The replay the preview window is showing, if any; the window reads it
/// on mount and a later save replaces it.
pub struct PreviewContext {
    pub shown: Option<PreviewPayload>,
}

impl PreviewContext {
    /// A context showing `shown`.
    pub fn new(shown: Option<PreviewPayload>) -> (r: PreviewContext)
        ensures
            r.shown == shown,
    {
        PreviewContext { shown }
    }
}

/// Records `payload` as the preview's current replay, replacing whatever
/// it was showing.
pub fn set(context: &mut PreviewContext, payload: Option<PreviewPayload>)
    ensures
        final(context).shown == payload,
{
    context.shown = payload;
}

/// The replay the preview is currently showing, if any.
pub fn current(context: &PreviewContext) -> (r: Option<PreviewPayload>)
    ensures
        r == context.shown,
{
    match &context.shown {
        Some(p) => Some(p.duplicate()),
        None => None,
    }
}

} // verus!
