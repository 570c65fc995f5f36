//! The shapes a published bundle is described by.
use vstd::prelude::*;

verus! {

/// File name of the video inside every bundle.
pub const REPLAY_FILENAME: &'static str = "replay.mp4";

/// File name of the metadata document inside every bundle.
pub const METADATA_FILENAME: &'static str = "metadata.json";

/// One stream of a probed media file.
#[derive(Debug, Clone, PartialEq, Eq)]
pub struct BundleStreamDescription {
    pub kind: String,
    pub codec: String,
    pub width: Option<u32>,
    pub height: Option<u32>,
    pub pixel_format: Option<String>,
}

/// The streams of a probed media file.
#[derive(Debug, Clone, PartialEq, Eq)]
pub struct BundleMediaDescription {
    pub streams: Vec<BundleStreamDescription>,
}

/// A replay published into the destination.
#[derive(Debug, Clone, PartialEq, Eq)]
pub struct SavedReplay {
    pub id: String,
    pub display_name: String,
    pub bundle_directory: String,
    pub replay_file: String,
    pub metadata_file: String,
}

impl SavedReplay {
    /// The same replay record, copied.
    pub fn duplicate(&self) -> (r: SavedReplay)
        ensures
            r == *self,
    {
        SavedReplay {
            id: self.id.clone(),
            display_name: self.display_name.clone(),
            bundle_directory: self.bundle_directory.clone(),
            replay_file: self.replay_file.clone(),
            metadata_file: self.metadata_file.clone(),
        }
    }
}

/// The video streams among `streams`, in order.
pub open spec fn video_streams(streams: Seq<BundleStreamDescription>) -> Seq<BundleStreamDescription> {
    streams.filter(is_video_stream())
}

/// Whether a stream is a video stream.
pub open spec fn is_video_stream() -> spec_fn(BundleStreamDescription) -> bool {
    |s: BundleStreamDescription| s.kind@ == "video"@
}

/// Whether a video stream is H.264 with a known, non-zero geometry and a
/// named pixel format.
pub open spec fn is_usable_h264(s: BundleStreamDescription) -> bool {
    &&& s.codec@ == "h264"@
    &&& s.width matches Some(w) && w > 0
    &&& s.height matches Some(h) && h > 0
    &&& s.pixel_format matches Some(f) && f@.len() > 0
}

impl BundleMediaDescription {
    /// Whether the file holds exactly one video stream and that stream is
    /// usable H.264 (see [`is_usable_h264`]).
    pub fn is_supported_h264_video(&self) -> (r: bool)
        ensures
            r == (video_streams(self.streams@).len() == 1 && is_usable_h264(
                video_streams(self.streams@)[0],
            )),
    {
        let mut first: Option<usize> = None;
        let mut count: usize = 0;
        let mut i: usize = 0;
        while i < self.streams.len()
            invariant
                i <= self.streams@.len(),
                count == video_streams(self.streams@.take(i as int)).len(),
                count <= i,
                count == 0 <==> first is None,
                first matches Some(f) ==> f < i && self.streams@[f as int] == video_streams(
                    self.streams@.take(i as int),
                )[0],
            decreases self.streams@.len() - i,
        {
            proof {
                let t = self.streams@.take(i as int);
                assert(self.streams@.take(i + 1) =~= t.push(self.streams@[i as int]));
                t.lemma_filter_push(self.streams@[i as int], is_video_stream());
            }
            let is_video = crate::text::same_text(self.streams[i].kind.as_str(), "video");
            proof {
                let t = self.streams@.take(i as int);
                assert(is_video == is_video_stream()(self.streams@[i as int]));
                if is_video {
                    assert(video_streams(self.streams@.take(i + 1)) == video_streams(t).push(self.streams@[i as int]));
                } else {
                    assert(video_streams(self.streams@.take(i + 1)) == video_streams(t));
                }
            }
            if is_video {
                if first.is_none() {
                    first = Some(i);
                }
                count = count + 1;
            }
            i = i + 1;
        }
        proof {
            assert(self.streams@.take(self.streams@.len() as int) =~= self.streams@);
        }
        if count != 1 {
            return false;
        }
        let f = match first {
            Some(f) => f,
            None => return false,
        };
        let s = &self.streams[f];
        if !crate::text::same_text(s.codec.as_str(), "h264") {
            return false;
        }
        let width_ok = match s.width {
            Some(w) => w > 0,
            None => false,
        };
        let height_ok = match s.height {
            Some(h) => h > 0,
            None => false,
        };
        let format_ok = match &s.pixel_format {
            Some(f) => f.unicode_len() > 0,
            None => false,
        };
        width_ok && height_ok && format_ok
    }
}

} // verus!
