//! Building the post-save preview's payload from a saved bundle.
use vstd::prelude::*;
use crate::editor::header::{build as build_header, header_fits, BundleReads, EditorHeader};
use crate::library::guard::is_safe_component;
use crate::library::scan::{duration_from_metadata, evidence_seconds, metadata_view};
use crate::preview::window::PreviewPayload;
use crate::text::err_text;

verus! {

/// The preview payload of a bundle: the editor header's id, title, size
/// and video path, and the duration of the evidence window its metadata
/// records (none when the metadata is missing, unreadable or records no
/// window).
pub open spec fn payload_of(header: EditorHeader, metadata: Option<Seq<u8>>) -> PreviewPayload {
    PreviewPayload {
        id: header.id,
        display_name: header.title,
        duration_seconds: match metadata {
            Some(m) => evidence_seconds(m),
            None => None,
        },
        total_bytes: header.total_bytes,
        video_path: header.video_path,
    }
}

/// The payload for `header` and the bundle's metadata bytes (see
/// [`payload_of`]).
pub fn payload_from(header: EditorHeader, metadata: &Option<Vec<u8>>) -> (r: PreviewPayload)
    ensures
        r == payload_of(header, crate::library::scan::metadata_view(*metadata)),
{
    let duration_seconds = match metadata {
        Some(m) => duration_from_metadata(m),
        None => None,
    };
    PreviewPayload {
        id: header.id,
        display_name: header.title,
        duration_seconds,
        total_bytes: header.total_bytes,
        video_path: header.video_path,
    }
}

/// The preview payload of bundle `id` inside `destination` for what the
/// disk answered (see [`crate::editor::header::read_bundle`]): the editor
/// header of the bundle (see [`header_fits`]) with the duration its
/// metadata records (see [`payload_of`]), or the header's error.
pub fn build(destination: &str, id: &str, reads: &BundleReads) -> (r: Result<PreviewPayload, String>)
    ensures
        !is_safe_component(id@) ==> err_text(r) == Some("library_invalid_id"@),
        is_safe_component(id@) && reads.replay_stamp is None ==> err_text(r) == Some("editor_replay_missing"@),
        r matches Ok(p) ==> exists|h: EditorHeader|
            header_fits(
                destination@,
                id@,
                reads.replay_stamp,
                metadata_view(reads.metadata),
                reads.folder_stamp,
                Ok::<EditorHeader, String>(h),
            )
                && p == #[trigger] payload_of(h, metadata_view(reads.metadata)),
        is_safe_component(id@) && reads.replay_stamp is Some ==> r is Ok,
{
    let header = match build_header(destination, id, reads) {
        Ok(h) => h,
        Err(e) => return Err(e),
    };
    Ok(payload_from(header, &reads.metadata))
}

} // verus!
